//! The HGET, HSET, HGETALL and HMGET commands over the hash namespace.

use vstd::prelude::*;

use super::args_to_texts;
use super::extract_args;
use super::frame_to_text;
use super::name_matches;
use super::text_of;
use super::texts_of;
use super::validate_command;
use super::CommandError;
use crate::backend::hash_at;
use crate::backend::same_store;
use crate::backend::Backend;
use crate::resp::frames_view;
use crate::resp::FrameView;
use crate::resp::RespArray;
use crate::resp::RespFrame;
use crate::text::texts_of_strings;
use vstd::string::StrSliceExecFns;
use vstd::string::StringExecFns;
use vstd::utf8::encode_utf8;

verus! {

/// The typed HGET command: one field of one hash.
#[derive(Debug, PartialEq, Eq)]
pub struct HGet {
    pub key: String,
    pub field: String,
}

/// The typed HSET command: upserts one field of one hash.
#[derive(Debug, PartialEq, Eq)]
pub struct HSet {
    pub key: String,
    pub field: String,
    pub value: RespFrame,
}

/// The typed HGETALL command: a point-in-time copy of one hash.
#[derive(Debug, PartialEq, Eq)]
pub struct HGetAll {
    pub key: String,
}

/// The typed HMGET command: several fields of one hash, in order.
#[derive(Debug, PartialEq, Eq)]
pub struct HMGet {
    pub key: String,
    pub fields: Vec<String>,
}

/// What parsing an HGET request yields: key and field texts, or the exact
/// error.
pub open spec fn hget_parse_spec(v: Seq<FrameView>) -> Result<
    (Seq<char>, Seq<char>),
    CommandError,
> {
    if !(v.len() >= 1 && name_matches(v[0], "hget"@)) {
        Err(CommandError::WrongCommand)
    } else if v.len() != 3 {
        Err(CommandError::WrongArgCount)
    } else {
        match (text_of(v[1]), text_of(v[2])) {
            (Ok(k), Ok(f)) => Ok((k, f)),
            (Err(e), _) => Err(e),
            (_, Err(e)) => Err(e),
        }
    }
}

/// What parsing an HSET request yields: key text, field text and the stored
/// frame, or the exact error; the value may be any frame kind.
pub open spec fn hset_parse_spec(v: Seq<FrameView>) -> Result<
    (Seq<char>, Seq<char>, FrameView),
    CommandError,
> {
    if !(v.len() >= 1 && name_matches(v[0], "hset"@)) {
        Err(CommandError::WrongCommand)
    } else if v.len() != 4 {
        Err(CommandError::WrongArgCount)
    } else {
        match (text_of(v[1]), text_of(v[2])) {
            (Ok(k), Ok(f)) => Ok((k, f, v[3])),
            (Err(e), _) => Err(e),
            (_, Err(e)) => Err(e),
        }
    }
}

/// What parsing an HGETALL request yields: the key text, or the exact error.
pub open spec fn hgetall_parse_spec(v: Seq<FrameView>) -> Result<Seq<char>, CommandError> {
    if !(v.len() >= 1 && name_matches(v[0], "hgetall"@)) {
        Err(CommandError::WrongCommand)
    } else if v.len() != 2 {
        Err(CommandError::WrongArgCount)
    } else {
        text_of(v[1])
    }
}

/// What parsing an HMGET request yields: the key text and one or more field
/// texts, or the exact error.
pub open spec fn hmget_parse_spec(v: Seq<FrameView>) -> Result<
    (Seq<char>, Seq<Seq<char>>),
    CommandError,
> {
    if !(v.len() >= 1 && name_matches(v[0], "hmget"@)) {
        Err(CommandError::WrongCommand)
    } else if v.len() < 3 {
        Err(CommandError::WrongArgCount)
    } else {
        match texts_of(v.subrange(1, v.len() as int)) {
            Ok(ts) => Ok((ts[0], ts.drop_first())),
            Err(e) => Err(e),
        }
    }
}

impl HGet {
    /// Builds the command from a validated request: bulk-string key and
    /// field.
    pub fn parse(req: RespArray) -> (r: Result<HGet, CommandError>)
        ensures
            r matches Ok(c) ==> hget_parse_spec(req@) == Ok::<
                (Seq<char>, Seq<char>),
                CommandError,
            >((c.key@, c.field@)),
            r matches Err(e) ==> hget_parse_spec(req@) == Err::<
                (Seq<char>, Seq<char>),
                CommandError,
            >(e),
    {
        let ghost rv = req@;
        if let Err(e) = validate_command(&req, "hget", 2) {
            return Err(e);
        }
        if req.0.len() != 3 {
            return Err(CommandError::WrongArgCount);
        }
        let mut args = match extract_args(req, 1) {
            Ok(a) => a,
            Err(e) => {
                return Err(e);
            },
        };
        let ghost av = frames_view(args);
        proof {
            assert(av.len() == args@.len());
            assert(av =~= rv.subrange(1, 3));
        }
        let kf = args.remove(0);
        let ff = args.remove(0);
        proof {
            assert(kf@ == av[0] && av[0] == rv[1]);
            assert(ff@ == av[1] && av[1] == rv[2]);
        }
        let key = match frame_to_text(kf) {
            Ok(k) => k,
            Err(e) => {
                return Err(e);
            },
        };
        match frame_to_text(ff) {
            Ok(field) => Ok(HGet { key, field }),
            Err(e) => Err(e),
        }
    }

    /// Replies with the stored value under the field, or a null reply when
    /// the key or the field is absent; the store is untouched.
    pub fn execute(self, backend: &mut Backend) -> (r: RespFrame)
        ensures
            same_store(*old(backend), *final(backend)),
            r@ == if old(backend).hashes().contains_key(self.key@) && old(
                backend,
            ).hashes()[self.key@].contains_key(self.field@) {
                old(backend).hashes()[self.key@][self.field@]
            } else {
                FrameView::Null
            },
    {
        match backend.hget(self.key.as_str(), self.field.as_str()) {
            Some(f) => f,
            None => RespFrame::Null,
        }
    }
}

impl HSet {
    /// Builds the command from a validated request: bulk-string key and
    /// field followed by one value of any frame kind.
    pub fn parse(req: RespArray) -> (r: Result<HSet, CommandError>)
        ensures
            r matches Ok(c) ==> hset_parse_spec(req@) == Ok::<
                (Seq<char>, Seq<char>, FrameView),
                CommandError,
            >((c.key@, c.field@, c.value@)),
            r matches Err(e) ==> hset_parse_spec(req@) == Err::<
                (Seq<char>, Seq<char>, FrameView),
                CommandError,
            >(e),
    {
        let ghost rv = req@;
        if let Err(e) = validate_command(&req, "hset", 3) {
            return Err(e);
        }
        if req.0.len() != 4 {
            return Err(CommandError::WrongArgCount);
        }
        let mut args = match extract_args(req, 1) {
            Ok(a) => a,
            Err(e) => {
                return Err(e);
            },
        };
        let ghost av = frames_view(args);
        proof {
            assert(av.len() == args@.len());
            assert(av =~= rv.subrange(1, 4));
        }
        let kf = args.remove(0);
        let ff = args.remove(0);
        let value = args.remove(0);
        proof {
            assert(kf@ == av[0] && av[0] == rv[1]);
            assert(ff@ == av[1] && av[1] == rv[2]);
            assert(value@ == av[2] && av[2] == rv[3]);
        }
        let key = match frame_to_text(kf) {
            Ok(k) => k,
            Err(e) => {
                return Err(e);
            },
        };
        match frame_to_text(ff) {
            Ok(field) => Ok(HSet { key, field, value }),
            Err(e) => Err(e),
        }
    }

    /// Creates the hash at the key if absent, upserts the field, and
    /// acknowledges.
    pub fn execute(self, backend: &mut Backend) -> (r: RespFrame)
        ensures
            final(backend).hashes() == old(backend).hashes().insert(
                self.key@,
                hash_at(old(backend).hashes(), self.key@).insert(self.field@, self.value@),
            ),
            final(backend).scalars() == old(backend).scalars(),
            final(backend).sets() == old(backend).sets(),
            r@ == FrameView::Simple("OK"@),
    {
        backend.hset(self.key, self.field, self.value);
        RespFrame::SimpleString(String::from_str("OK"))
    }
}

/// The field/value pairs rendered as the alternating reply elements: each
/// pair contributes its field as a bulk string, then its value.
pub open spec fn alternating(ps: Seq<(Seq<char>, FrameView)>) -> Seq<FrameView> {
    Seq::new(
        2 * ps.len(),
        |i: int|
            if i % 2 == 0 {
                FrameView::Bulk(encode_utf8(ps[i / 2].0))
            } else {
                ps[i / 2].1
            },
    )
}

/// Whether the pairs enumerate the hash exactly: every pair is in the hash,
/// every field of the hash appears, and no field appears twice.
pub open spec fn hash_enumeration(h: Map<Seq<char>, FrameView>, ps: Seq<(Seq<char>, FrameView)>) -> bool {
    &&& forall|i: int|
        0 <= i < ps.len() ==> h.contains_key(#[trigger] ps[i].0) && ps[i].1 == h[ps[i].0]
    &&& forall|f: Seq<char>|
        h.contains_key(f) ==> exists|i: int| 0 <= i < ps.len() && (#[trigger] ps[i].0) == f
    &&& forall|i: int, j: int| 0 <= i < j < ps.len() ==> (#[trigger] ps[i].0) != (#[trigger] ps[j].0)
}

/// The HGETALL reply: an array of alternating field/value elements drawn
/// from some exact enumeration of the hash, or an empty array when the key
/// is absent (absent key and empty hash render alike, by design).
pub open spec fn hgetall_post(
    hashes: Map<Seq<char>, Map<Seq<char>, FrameView>>,
    key: Seq<char>,
    r: FrameView,
) -> bool {
    if hashes.contains_key(key) {
        exists|ps: Seq<(Seq<char>, FrameView)>|
            #![all_triggers]
            hash_enumeration(hashes[key], ps) && r == FrameView::Arr(alternating(ps))
    } else {
        r == FrameView::Arr(Seq::<FrameView>::empty())
    }
}

impl HGetAll {
    /// Builds the command from a validated request: exactly one bulk-string
    /// key.
    pub fn parse(req: RespArray) -> (r: Result<HGetAll, CommandError>)
        ensures
            r matches Ok(c) ==> hgetall_parse_spec(req@) == Ok::<Seq<char>, CommandError>(c.key@),
            r matches Err(e) ==> hgetall_parse_spec(req@) == Err::<Seq<char>, CommandError>(e),
    {
        let ghost rv = req@;
        if let Err(e) = validate_command(&req, "hgetall", 1) {
            return Err(e);
        }
        if req.0.len() != 2 {
            return Err(CommandError::WrongArgCount);
        }
        let mut args = match extract_args(req, 1) {
            Ok(a) => a,
            Err(e) => {
                return Err(e);
            },
        };
        let ghost av = frames_view(args);
        proof {
            assert(av.len() == args@.len());
            assert(av =~= rv.subrange(1, 2));
        }
        let f = args.remove(0);
        proof {
            assert(f@ == av[0] && av[0] == rv[1]);
        }
        match frame_to_text(f) {
            Ok(key) => Ok(HGetAll { key }),
            Err(e) => Err(e),
        }
    }

    /// Replies with alternating field/value bulk elements of a point-in-time
    /// copy of the hash, or an empty array when the key is absent; the store
    /// is untouched.
    #[verifier::loop_isolation(false)]
    pub fn execute(self, backend: &mut Backend) -> (r: RespFrame)
        ensures
            same_store(*old(backend), *final(backend)),
            hgetall_post(old(backend).hashes(), self.key@, r@),
    {
        match backend.hgetall(self.key.as_str()) {
            Some(pairs) => {
                let ghost pv = pairs@;
                let ghost ps = pv.map_values(|p: (String, RespFrame)| (p.0@, p.1@));
                let mut rest = pairs;
                let mut elems: Vec<RespFrame> = Vec::new();
                while rest.len() > 0
                    invariant
                        elems@.len() + 2 * rest@.len() == 2 * ps.len(),
                        elems@.len() % 2 == 0,
                        forall|i: int|
                            #![trigger rest@[i]]
                            0 <= i < rest@.len() ==> (rest@[i].0@, rest@[i].1@) == ps[i + elems@.len() / 2],
                        forall|i: int|
                            #![trigger elems@[i]]
                            0 <= i < elems@.len() ==> elems@[i]@ == alternating(ps)[i],
                    decreases rest@.len(),
                {
                    let ghost prev = rest@;
                    let ghost done = elems@.len() as int;
                    let (fld, val) = rest.remove(0);
                    proof {
                        assert(forall|i: int| 0 <= i < rest@.len() ==> rest@[i] == prev[i + 1]);
                        assert((fld@, val@) == ps[done / 2]);
                        assert(alternating(ps)[done] == FrameView::Bulk(encode_utf8(fld@)));
                        assert(alternating(ps)[done + 1] == val@);
                    }
                    elems.push(RespFrame::BulkString(fld.as_str().as_bytes_vec()));
                    elems.push(val);
                }
                proof {
                    assert(frames_view(elems) =~= alternating(ps));
                    let h = old(backend).hashes()[self.key@];
                    assert forall|i: int| 0 <= i < ps.len() implies h.contains_key(
                        #[trigger] ps[i].0,
                    ) && ps[i].1 == h[ps[i].0] by {
                        assert(ps[i] == (pv[i].0@, pv[i].1@));
                        assert(h.contains_key(pv[i].0@) && pv[i].1@ == h[pv[i].0@]);
                    }
                    assert forall|f: Seq<char>| h.contains_key(f) implies exists|i: int|
                        0 <= i < ps.len() && (#[trigger] ps[i].0) == f by {
                        let i = choose|i: int| 0 <= i < pv.len() && #[trigger] pv[i].0@ == f;
                        assert(ps[i] == (pv[i].0@, pv[i].1@));
                        assert(ps[i].0 == f);
                    }
                    assert forall|i: int, j: int| 0 <= i < j < ps.len() implies (
                    #[trigger] ps[i].0) != (#[trigger] ps[j].0) by {
                        assert(ps[i] == (pv[i].0@, pv[i].1@));
                        assert(ps[j] == (pv[j].0@, pv[j].1@));
                        assert(pv[i].0@ != pv[j].0@);
                    }
                    assert(hash_enumeration(h, ps));
                }
                RespFrame::Array(elems)
            },
            None => {
                let empty: Vec<RespFrame> = Vec::new();
                proof {
                    assert(frames_view(empty) =~= Seq::<FrameView>::empty());
                }
                RespFrame::Array(empty)
            },
        }
    }
}

impl HMGet {
    /// Builds the command from a validated request: a bulk-string key and
    /// one or more bulk-string fields.
    pub fn parse(req: RespArray) -> (r: Result<HMGet, CommandError>)
        ensures
            r matches Ok(c) ==> hmget_parse_spec(req@) == Ok::<
                (Seq<char>, Seq<Seq<char>>),
                CommandError,
            >((c.key@, texts_of_strings(c.fields@))),
            r matches Err(e) ==> hmget_parse_spec(req@) == Err::<
                (Seq<char>, Seq<Seq<char>>),
                CommandError,
            >(e),
    {
        let ghost rv = req@;
        if let Err(e) = validate_command(&req, "hmget", 2) {
            return Err(e);
        }
        let args = match extract_args(req, 1) {
            Ok(a) => a,
            Err(e) => {
                return Err(e);
            },
        };
        proof {
            assert(frames_view(args) == rv.subrange(1, rv.len() as int));
        }
        let mut ts = match args_to_texts(args) {
            Ok(ts) => ts,
            Err(e) => {
                return Err(e);
            },
        };
        let ghost tv = texts_of_strings(ts@);
        proof {
            super::lemma_texts_of_len(rv.subrange(1, rv.len() as int));
            assert(tv.len() == rv.len() - 1);
        }
        let key = ts.remove(0);
        proof {
            assert(key@ == tv[0]);
            assert(texts_of_strings(ts@) =~= tv.drop_first());
        }
        Ok(HMGet { key, fields: ts })
    }

    /// Replies with one element per requested field, in order: the stored
    /// value, or null for an absent key or field; the store is untouched.
    #[verifier::loop_isolation(false)]
    pub fn execute(self, backend: &mut Backend) -> (r: RespFrame)
        ensures
            same_store(*old(backend), *final(backend)),
            r@ == FrameView::Arr(
                hmget_replies(
                    old(backend).hashes(),
                    self.key@,
                    texts_of_strings(self.fields@),
                ),
            ),
    {
        let vals = backend.hmget(self.key.as_str(), &self.fields);
        let ghost fs = texts_of_strings(self.fields@);
        let mut rest = vals;
        let mut elems: Vec<RespFrame> = Vec::new();
        while rest.len() > 0
            invariant
                elems@.len() + rest@.len() == fs.len(),
                forall|i: int|
                    #![trigger rest@[i]]
                    0 <= i < rest@.len() ==> {
                        let j = i + elems@.len();
                        &&& rest@[i] is Some <==> (old(backend).hashes().contains_key(self.key@)
                            && old(backend).hashes()[self.key@].contains_key(fs[j]))
                        &&& rest@[i] matches Some(f) ==> f@ == old(
                            backend,
                        ).hashes()[self.key@][fs[j]]
                    },
                forall|i: int|
                    #![trigger elems@[i]]
                    0 <= i < elems@.len() ==> elems@[i]@ == hmget_replies(
                        old(backend).hashes(),
                        self.key@,
                        fs,
                    )[i],
            decreases rest@.len(),
        {
            let ghost prev = rest@;
            let v = rest.remove(0);
            proof {
                assert(forall|i: int| 0 <= i < rest@.len() ==> rest@[i] == prev[i + 1]);
            }
            match v {
                Some(f) => elems.push(f),
                None => elems.push(RespFrame::Null),
            }
        }
        proof {
            assert(frames_view(elems) =~= hmget_replies(old(backend).hashes(), self.key@, fs));
        }
        RespFrame::Array(elems)
    }
}

/// The HMGET reply elements: the stored value for each field, in the order
/// requested, with null standing for an absent key or field.
pub open spec fn hmget_replies(
    hashes: Map<Seq<char>, Map<Seq<char>, FrameView>>,
    key: Seq<char>,
    fields: Seq<Seq<char>>,
) -> Seq<FrameView> {
    Seq::new(
        fields.len(),
        |i: int|
            if hashes.contains_key(key) && hashes[key].contains_key(fields[i]) {
                hashes[key][fields[i]]
            } else {
                FrameView::Null
            },
    )
}

} // verus!
