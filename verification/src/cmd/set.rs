//! The SADD, SMEMBERS and SISMEMBER commands over the set namespace.

use vstd::prelude::*;

use super::args_to_texts;
use super::extract_args;
use super::frame_to_text;
use super::name_matches;
use super::text_of;
use super::texts_of;
use super::validate_command;
use super::CommandError;
use crate::backend::newly_added;
use crate::backend::same_store;
use crate::backend::set_at;
use crate::backend::with_members;
use crate::backend::Backend;
use crate::resp::frames_view;
use crate::resp::FrameView;
use crate::resp::RespArray;
use crate::resp::RespFrame;
use crate::text::integer_reply;
use crate::text::make_integer_reply;
use crate::text::sort_strings;
use crate::text::sorted_lex;
use crate::text::texts_of_strings;
use vstd::string::StrSliceExecFns;
use vstd::utf8::encode_utf8;

verus! {

/// The typed SADD command: adds members to one set.
#[derive(Debug, PartialEq, Eq)]
pub struct SAdd {
    pub key: String,
    pub values: Vec<String>,
}

/// The typed SMEMBERS command: a point-in-time copy of one set, sorted when
/// the flag asks for it.
#[derive(Debug, PartialEq, Eq)]
pub struct SMembers {
    pub key: String,
    pub sort: bool,
}

/// The typed SISMEMBER command: one membership test.
#[derive(Debug, PartialEq, Eq)]
pub struct SIsMember {
    pub key: String,
    pub value: String,
}

/// What parsing an SADD request yields: the key text and one or more member
/// texts, or the exact error.
pub open spec fn sadd_parse_spec(v: Seq<FrameView>) -> Result<
    (Seq<char>, Seq<Seq<char>>),
    CommandError,
> {
    if !(v.len() >= 1 && name_matches(v[0], "sadd"@)) {
        Err(CommandError::WrongCommand)
    } else if v.len() < 3 {
        Err(CommandError::WrongArgCount)
    } else {
        match texts_of(v.subrange(1, v.len() as int)) {
            Ok(ts) => Ok((ts[0], ts.drop_first())),
            Err(e) => Err(e),
        }
    }
}

/// What parsing an SMEMBERS request yields: the key text (the sort flag is
/// never set by parsing), or the exact error.
pub open spec fn smembers_parse_spec(v: Seq<FrameView>) -> Result<Seq<char>, CommandError> {
    if !(v.len() >= 1 && name_matches(v[0], "smembers"@)) {
        Err(CommandError::WrongCommand)
    } else if v.len() != 2 {
        Err(CommandError::WrongArgCount)
    } else {
        text_of(v[1])
    }
}

/// What parsing an SISMEMBER request yields: key and member texts, or the
/// exact error.
pub open spec fn sismember_parse_spec(v: Seq<FrameView>) -> Result<
    (Seq<char>, Seq<char>),
    CommandError,
> {
    if !(v.len() >= 1 && name_matches(v[0], "sismember"@)) {
        Err(CommandError::WrongCommand)
    } else if v.len() != 3 {
        Err(CommandError::WrongArgCount)
    } else {
        match (text_of(v[1]), text_of(v[2])) {
            (Ok(k), Ok(m)) => Ok((k, m)),
            (Err(e), _) => Err(e),
            (_, Err(e)) => Err(e),
        }
    }
}

impl SAdd {
    /// Builds the command from a validated request: a bulk-string key and
    /// one or more bulk-string members.
    pub fn parse(req: RespArray) -> (r: Result<SAdd, CommandError>)
        ensures
            r matches Ok(c) ==> sadd_parse_spec(req@) == Ok::<
                (Seq<char>, Seq<Seq<char>>),
                CommandError,
            >((c.key@, texts_of_strings(c.values@))),
            r matches Err(e) ==> sadd_parse_spec(req@) == Err::<
                (Seq<char>, Seq<Seq<char>>),
                CommandError,
            >(e),
    {
        let ghost rv = req@;
        if let Err(e) = validate_command(&req, "sadd", 2) {
            return Err(e);
        }
        let args = match extract_args(req, 1) {
            Ok(a) => a,
            Err(e) => {
                return Err(e);
            },
        };
        proof {
            assert(frames_view(args) == rv.subrange(1, rv.len() as int));
        }
        let mut ts = match args_to_texts(args) {
            Ok(ts) => ts,
            Err(e) => {
                return Err(e);
            },
        };
        let ghost tv = texts_of_strings(ts@);
        proof {
            super::lemma_texts_of_len(rv.subrange(1, rv.len() as int));
            assert(tv.len() == rv.len() - 1);
        }
        let key = ts.remove(0);
        proof {
            assert(key@ == tv[0]);
            assert(texts_of_strings(ts@) =~= tv.drop_first());
        }
        Ok(SAdd { key, values: ts })
    }

    /// Adds the members and replies with an integer-style count of those not
    /// already present.
    pub fn execute(self, backend: &mut Backend) -> (r: RespFrame)
        requires
            self.values@.len() <= i64::MAX,
        ensures
            final(backend).sets() == old(backend).sets().insert(
                self.key@,
                with_members(
                    set_at(old(backend).sets(), self.key@),
                    texts_of_strings(self.values@),
                ),
            ),
            final(backend).scalars() == old(backend).scalars(),
            final(backend).hashes() == old(backend).hashes(),
            r@ == FrameView::Bulk(
                integer_reply(
                    newly_added(
                        set_at(old(backend).sets(), self.key@),
                        texts_of_strings(self.values@),
                    ),
                ),
            ),
    {
        let ret = backend.sadd(self.key.as_str(), &self.values);
        RespFrame::BulkString(make_integer_reply(ret))
    }
}

/// Whether the texts enumerate the set exactly: every text is a member,
/// every member appears, and none appears twice.
pub open spec fn members_enumeration(s: Set<Seq<char>>, ms: Seq<Seq<char>>) -> bool {
    &&& forall|i: int| 0 <= i < ms.len() ==> s.contains(#[trigger] ms[i])
    &&& forall|m: Seq<char>| s.contains(m) ==> ms.contains(m)
    &&& forall|i: int, j: int| 0 <= i < j < ms.len() ==> (#[trigger] ms[i]) != (#[trigger] ms[j])
}

/// The member texts rendered as bulk-string reply elements.
pub open spec fn bulk_frames(ms: Seq<Seq<char>>) -> Seq<FrameView> {
    Seq::new(
        ms.len(),
        |i: int| if 0 <= i < ms.len() {
            FrameView::Bulk(encode_utf8(ms[i]))
        } else {
            FrameView::Null
        },
    )
}

/// The SMEMBERS reply: every member exactly once as a bulk string, in
/// ascending lexicographic order when the sort flag is set, or an empty
/// array when the key is absent (absent key and empty set render alike, by
/// design).
pub open spec fn smembers_post(
    sets: Map<Seq<char>, Set<Seq<char>>>,
    key: Seq<char>,
    sort: bool,
    r: FrameView,
) -> bool {
    if sets.contains_key(key) {
        exists|ms: Seq<Seq<char>>|
            #![all_triggers]
            members_enumeration(sets[key], ms) && (sort ==> sorted_lex(ms)) && r
                == FrameView::Arr(bulk_frames(ms))
    } else {
        r == FrameView::Arr(Seq::<FrameView>::empty())
    }
}

impl SMembers {
    /// Builds the command from a validated request: exactly one bulk-string
    /// key; the sort flag is never set by parsing.
    pub fn parse(req: RespArray) -> (r: Result<SMembers, CommandError>)
        ensures
            r matches Ok(c) ==> smembers_parse_spec(req@) == Ok::<Seq<char>, CommandError>(c.key@)
                && c.sort == false,
            r matches Err(e) ==> smembers_parse_spec(req@) == Err::<Seq<char>, CommandError>(e),
    {
        let ghost rv = req@;
        if let Err(e) = validate_command(&req, "smembers", 1) {
            return Err(e);
        }
        if req.0.len() != 2 {
            return Err(CommandError::WrongArgCount);
        }
        let mut args = match extract_args(req, 1) {
            Ok(a) => a,
            Err(e) => {
                return Err(e);
            },
        };
        let ghost av = frames_view(args);
        proof {
            assert(av.len() == args@.len());
            assert(av =~= rv.subrange(1, 2));
        }
        let f = args.remove(0);
        proof {
            assert(f@ == av[0] && av[0] == rv[1]);
        }
        match frame_to_text(f) {
            Ok(key) => Ok(SMembers { key, sort: false }),
            Err(e) => Err(e),
        }
    }

    /// Replies with every member of a point-in-time copy of the set, each
    /// exactly once, sorted when the flag is set; an absent key yields an
    /// empty array.  The store is untouched.
    #[verifier::loop_isolation(false)]
    pub fn execute(self, backend: &mut Backend) -> (r: RespFrame)
        ensures
            same_store(*old(backend), *final(backend)),
            smembers_post(old(backend).sets(), self.key@, self.sort, r@),
    {
        match backend.smembers(self.key.as_str()) {
            Some(members) => {
                let ghost mv = members@;
                let ghost s = old(backend).sets()[self.key@];
                proof {
                    let bt = texts_of_strings(mv);
                    assert forall|i: int| 0 <= i < bt.len() implies s.contains(
                        #[trigger] bt[i],
                    ) by {
                        assert(mv[i]@ == bt[i]);
                        assert(s.contains(mv[i]@));
                    }
                    assert forall|m: Seq<char>| s.contains(m) implies bt.contains(m) by {
                        let i = choose|i: int| 0 <= i < mv.len() && #[trigger] mv[i]@ == m;
                        assert(bt[i] == m);
                    }
                    assert forall|i: int, j: int| 0 <= i < j < bt.len() implies (
                    #[trigger] bt[i]) != (#[trigger] bt[j]) by {
                        assert(mv[i]@ != mv[j]@);
                    }
                    assert(members_enumeration(s, bt));
                }
                let data = if self.sort {
                    let sorted = sort_strings(members);
                    proof {
                        lemma_permutation_keeps_enumeration(s, mv, sorted@);
                    }
                    sorted
                } else {
                    members
                };
                let ghost ms = texts_of_strings(data@);
                let mut rest = data;
                let mut elems: Vec<RespFrame> = Vec::new();
                while rest.len() > 0
                    invariant
                        elems@.len() + rest@.len() == ms.len(),
                        forall|i: int|
                            #![trigger rest@[i]]
                            0 <= i < rest@.len() ==> rest@[i]@ == ms[i + elems@.len()],
                        forall|i: int|
                            #![trigger elems@[i]]
                            0 <= i < elems@.len() ==> elems@[i]@ == bulk_frames(ms)[i],
                    decreases rest@.len(),
                {
                    let ghost prev = rest@;
                    let m = rest.remove(0);
                    proof {
                        assert(forall|i: int| 0 <= i < rest@.len() ==> rest@[i] == prev[i + 1]);
                    }
                    elems.push(RespFrame::BulkString(m.as_str().as_bytes_vec()));
                }
                proof {
                    assert(frames_view(elems) =~= bulk_frames(ms));
                }
                RespFrame::Array(elems)
            },
            None => {
                let empty: Vec<RespFrame> = Vec::new();
                proof {
                    assert(frames_view(empty) =~= Seq::<FrameView>::empty());
                }
                RespFrame::Array(empty)
            },
        }
    }
}

/// Reordering the member strings without changing their collection keeps an
/// exact enumeration of the set exact.
proof fn lemma_permutation_keeps_enumeration(
    s: Set<Seq<char>>,
    before: Seq<String>,
    after: Seq<String>,
)
    requires
        after.to_multiset() == before.to_multiset(),
        members_enumeration(s, texts_of_strings(before)),
    ensures
        members_enumeration(s, texts_of_strings(after)),
{
    broadcast use vstd::seq_lib::group_to_multiset_ensures;

    let bt = texts_of_strings(before);
    let at = texts_of_strings(after);
    vstd::seq_lib::to_multiset_len(before);
    vstd::seq_lib::to_multiset_len(after);
    assert(after.len() == before.len());
    assert(before.no_duplicates()) by {
        assert forall|i: int, j: int|
            0 <= i < before.len() && 0 <= j < before.len() && i != j implies before[i]
            != before[j] by {
            if i < j {
                assert(bt[i] != bt[j]);
            } else {
                assert(bt[j] != bt[i]);
            }
        }
    }
    before.lemma_multiset_has_no_duplicates();
    after.lemma_multiset_has_no_duplicates_conv();
    assert forall|x: String| #[trigger] after.contains(x) implies before.contains(x) by {
        vstd::seq_lib::to_multiset_contains(after, x);
        vstd::seq_lib::to_multiset_contains(before, x);
    }
    assert forall|x: String| #[trigger] before.contains(x) implies after.contains(x) by {
        vstd::seq_lib::to_multiset_contains(after, x);
        vstd::seq_lib::to_multiset_contains(before, x);
    }
    assert forall|i: int| 0 <= i < at.len() implies s.contains(#[trigger] at[i]) by {
        assert(after.contains(after[i]));
        assert(before.contains(after[i]));
        let j = choose|j: int| 0 <= j < before.len() && before[j] == after[i];
        assert(bt[j] == at[i]);
        assert(s.contains(bt[j]));
    }
    assert forall|m: Seq<char>| s.contains(m) implies at.contains(m) by {
        assert(bt.contains(m));
        let j = choose|j: int| 0 <= j < bt.len() && bt[j] == m;
        assert(before.contains(before[j]));
        assert(after.contains(before[j]));
        let k = choose|k: int| 0 <= k < after.len() && after[k] == before[j];
        assert(at[k] == m);
    }
    assert forall|i: int, j: int| 0 <= i < j < at.len() implies (#[trigger] at[i]) != (
    #[trigger] at[j]) by {
        if at[i] == at[j] {
            assert(after[i] != after[j]);
            assert(after.contains(after[i]) && after.contains(after[j]));
            assert(before.contains(after[i]) && before.contains(after[j]));
            let p = choose|p: int| 0 <= p < before.len() && before[p] == after[i];
            let q = choose|q: int| 0 <= q < before.len() && before[q] == after[j];
            assert(p != q);
            assert(bt[p] == at[i] && bt[q] == at[j]);
            if p < q {
                assert(bt[p] != bt[q]);
            } else {
                assert(bt[q] != bt[p]);
            }
            assert(false);
        }
    }
    assert(members_enumeration(s, at));
}

impl SIsMember {
    /// Builds the command from a validated request: bulk-string key and
    /// member.
    pub fn parse(req: RespArray) -> (r: Result<SIsMember, CommandError>)
        ensures
            r matches Ok(c) ==> sismember_parse_spec(req@) == Ok::<
                (Seq<char>, Seq<char>),
                CommandError,
            >((c.key@, c.value@)),
            r matches Err(e) ==> sismember_parse_spec(req@) == Err::<
                (Seq<char>, Seq<char>),
                CommandError,
            >(e),
    {
        let ghost rv = req@;
        if let Err(e) = validate_command(&req, "sismember", 2) {
            return Err(e);
        }
        if req.0.len() != 3 {
            return Err(CommandError::WrongArgCount);
        }
        let mut args = match extract_args(req, 1) {
            Ok(a) => a,
            Err(e) => {
                return Err(e);
            },
        };
        let ghost av = frames_view(args);
        proof {
            assert(av.len() == args@.len());
            assert(av =~= rv.subrange(1, 3));
        }
        let kf = args.remove(0);
        let mf = args.remove(0);
        proof {
            assert(kf@ == av[0] && av[0] == rv[1]);
            assert(mf@ == av[1] && av[1] == rv[2]);
        }
        let key = match frame_to_text(kf) {
            Ok(k) => k,
            Err(e) => {
                return Err(e);
            },
        };
        match frame_to_text(mf) {
            Ok(value) => Ok(SIsMember { key, value }),
            Err(e) => Err(e),
        }
    }

    /// Replies with an integer-style `1` when the member is in the set at
    /// the key, `0` otherwise (absent key included); the store is untouched.
    pub fn execute(self, backend: &mut Backend) -> (r: RespFrame)
        ensures
            same_store(*old(backend), *final(backend)),
            r@ == FrameView::Bulk(
                integer_reply(
                    if old(backend).sets().contains_key(self.key@) && old(
                        backend,
                    ).sets()[self.key@].contains(self.value@) {
                        1int
                    } else {
                        0int
                    },
                ),
            ),
    {
        let ret = backend.sismember(self.key.as_str(), self.value);
        RespFrame::BulkString(make_integer_reply(ret))
    }
}

} // verus!
