//! The typed command layer.
//!
//! A request is an ordered array of frames whose first element names the
//! command.  The shared validation and extraction helpers here enforce the
//! command-name match and the minimum trailing-argument count, slice off the
//! argument tail, and decode bulk-string arguments into owned text; each
//! command module then builds its typed command from the tail.  Every parse
//! failure is a typed [`CommandError`], never a fault, and a failed parse
//! leaves the store untouched.

use vstd::prelude::*;

use crate::backend::hash_at;
use crate::backend::newly_added;
use crate::backend::same_store;
use crate::backend::set_at;
use crate::backend::with_members;
use crate::backend::Backend;
use crate::cmd::echo::echo_parse_spec;
use crate::cmd::echo::Echo;
use crate::cmd::hmap::hget_parse_spec;
use crate::cmd::hmap::hgetall_parse_spec;
use crate::cmd::hmap::hgetall_post;
use crate::cmd::hmap::hmget_parse_spec;
use crate::cmd::hmap::hmget_replies;
use crate::cmd::hmap::hset_parse_spec;
use crate::cmd::hmap::HGet;
use crate::cmd::hmap::HGetAll;
use crate::cmd::hmap::HMGet;
use crate::cmd::hmap::HSet;
use crate::cmd::map::get_parse_spec;
use crate::cmd::map::set_parse_spec;
use crate::cmd::map::Get;
use crate::cmd::map::SetCmd;
use crate::cmd::set::sadd_parse_spec;
use crate::cmd::set::sismember_parse_spec;
use crate::cmd::set::smembers_parse_spec;
use crate::cmd::set::smembers_post;
use crate::cmd::set::SAdd;
use crate::cmd::set::SIsMember;
use crate::cmd::set::SMembers;
use crate::resp::frames_view;
use crate::text::integer_reply;
use crate::resp::FrameView;
use crate::resp::RespArray;
use crate::resp::RespFrame;
use crate::text::bytes_name_eq;
use crate::text::bytes_to_string;
use crate::text::lower_bytes;
use crate::text::texts_of_strings;
use vstd::utf8::decode_utf8;
use vstd::utf8::encode_utf8;
use vstd::utf8::valid_utf8;

pub mod echo;
pub mod hmap;
pub mod map;
pub mod set;

verus! {

/// Why a request failed to become a typed command.
#[derive(Debug, Clone, Copy, PartialEq, Eq, Structural)]
pub enum CommandError {
    /// The leading argument does not spell the expected command name.
    WrongCommand,
    /// Fewer (or, for exact-count commands, other than) the required
    /// trailing arguments.
    WrongArgCount,
    /// An argument that must be a bulk string is a different frame kind.
    WrongArgumentType,
    /// A bulk-string argument whose bytes are not valid text.
    InvalidText,
}

/// Whether the frame is a bulk string whose ASCII-lower-cased payload spells
/// the expected (already lower-case) name.
pub open spec fn name_matches(f: FrameView, name: Seq<char>) -> bool {
    match f {
        FrameView::Bulk(b) => lower_bytes(b) == encode_utf8(name),
        _ => false,
    }
}

/// What [`validate_command`] returns: the name check fails closed before the
/// count check.
pub open spec fn spec_validate(v: Seq<FrameView>, name: Seq<char>, min_args: int) -> Result<
    (),
    CommandError,
> {
    if !(v.len() >= 1 && name_matches(v[0], name)) {
        Err(CommandError::WrongCommand)
    } else if v.len() - 1 < min_args {
        Err(CommandError::WrongArgCount)
    } else {
        Ok(())
    }
}

/// Shared validation: the first argument, lower-cased, must spell the
/// expected name, and at least `min_args` trailing arguments must follow.
pub fn validate_command(req: &RespArray, name: &str, min_args: usize) -> (r: Result<
    (),
    CommandError,
>)
    ensures
        r == spec_validate(req@, name@, min_args as int),
{
    if req.0.len() == 0 {
        return Err(CommandError::WrongCommand);
    }
    let named = match &req.0[0] {
        RespFrame::BulkString(b) => bytes_name_eq(b, name),
        _ => false,
    };
    if !named {
        return Err(CommandError::WrongCommand);
    }
    if req.0.len() - 1 < min_args {
        return Err(CommandError::WrongArgCount);
    }
    Ok(())
}

/// Returns the trailing arguments as an owned sequence, dropping the leading
/// `skip` elements (normally the command name).
pub fn extract_args(req: RespArray, skip: usize) -> (r: Result<Vec<RespFrame>, CommandError>)
    ensures
        r is Ok <==> skip <= req@.len(),
        r matches Ok(args) ==> frames_view(args) == req@.subrange(skip as int, req@.len() as int),
        r matches Err(e) ==> e == CommandError::WrongArgCount,
{
    let ghost reqv = req@;
    if req.0.len() < skip {
        return Err(CommandError::WrongArgCount);
    }
    let mut v = req.0;
    let mut j: usize = 0;
    while j < skip
        invariant
            j <= skip,
            skip <= reqv.len(),
            v@.len() == reqv.len() - j,
            forall|i: int| #![trigger v@[i]] 0 <= i < v@.len() ==> v@[i]@ == reqv[i + j],
        decreases skip - j,
    {
        let ghost prev = v@;
        v.remove(0);
        proof {
            assert(forall|i: int| 0 <= i < v@.len() ==> v@[i] == prev[i + 1]);
        }
        j = j + 1;
    }
    proof {
        assert(frames_view(v) =~= reqv.subrange(skip as int, reqv.len() as int));
    }
    Ok(v)
}

/// The text a frame decodes to: failing closed on a non-bulk frame and on
/// bytes that are not valid text.
pub open spec fn text_of(f: FrameView) -> Result<Seq<char>, CommandError> {
    match f {
        FrameView::Bulk(b) => if valid_utf8(b) {
            Ok(decode_utf8(b))
        } else {
            Err(CommandError::InvalidText)
        },
        _ => Err(CommandError::WrongArgumentType),
    }
}

/// Decodes one bulk-string argument into owned text.
pub fn frame_to_text(f: RespFrame) -> (r: Result<String, CommandError>)
    ensures
        r matches Ok(s) ==> text_of(f@) == Ok::<Seq<char>, CommandError>(s@),
        r matches Err(e) ==> text_of(f@) == Err::<Seq<char>, CommandError>(e),
{
    match f {
        RespFrame::BulkString(b) => match bytes_to_string(b) {
            Some(s) => Ok(s),
            None => Err(CommandError::InvalidText),
        },
        _ => Err(CommandError::WrongArgumentType),
    }
}

/// The texts of the frames from position `i` on, or the leftmost decode
/// failure.
pub open spec fn texts_from(v: Seq<FrameView>, i: int) -> Result<Seq<Seq<char>>, CommandError>
    decreases v.len() - i,
{
    if i < 0 || i >= v.len() {
        Ok(Seq::empty())
    } else {
        match text_of(v[i]) {
            Ok(t) => match texts_from(v, i + 1) {
                Ok(rest) => Ok(seq![t] + rest),
                Err(e) => Err(e),
            },
            Err(e) => Err(e),
        }
    }
}

/// The texts of all the frames, or the leftmost decode failure.
pub open spec fn texts_of(v: Seq<FrameView>) -> Result<Seq<Seq<char>>, CommandError> {
    texts_from(v, 0)
}

/// When every frame from `i` on decodes, `texts_from` collects exactly those
/// texts.
proof fn lemma_texts_from_all_ok(v: Seq<FrameView>, ts: Seq<Seq<char>>, i: int)
    requires
        0 <= i <= v.len(),
        ts.len() == v.len(),
        forall|j: int| 0 <= j < v.len() ==> text_of(v[j]) == Ok::<Seq<char>, CommandError>(ts[j]),
    ensures
        texts_from(v, i) == Ok::<Seq<Seq<char>>, CommandError>(ts.subrange(i, v.len() as int)),
    decreases v.len() - i,
{
    if i == v.len() {
        assert(ts.subrange(i, v.len() as int) =~= Seq::empty());
    } else {
        lemma_texts_from_all_ok(v, ts, i + 1);
        assert(seq![ts[i]] + ts.subrange(i + 1, v.len() as int) =~= ts.subrange(
            i,
            v.len() as int,
        ));
    }
}

/// A successful decode yields exactly one text per frame.
proof fn lemma_texts_from_len(v: Seq<FrameView>, i: int)
    requires
        0 <= i <= v.len(),
        texts_from(v, i) is Ok,
    ensures
        texts_from(v, i)->Ok_0.len() == v.len() - i,
    decreases v.len() - i,
{
    if i < v.len() {
        lemma_texts_from_len(v, i + 1);
    }
}

/// A successful decode of a whole tail yields one text per frame.
pub proof fn lemma_texts_of_len(v: Seq<FrameView>)
    requires
        texts_of(v) is Ok,
    ensures
        texts_of(v)->Ok_0.len() == v.len(),
{
    lemma_texts_from_len(v, 0);
}

/// The leftmost decode failure is what `texts_from` reports.
proof fn lemma_texts_from_first_err(v: Seq<FrameView>, i: int, k: int, e: CommandError)
    requires
        0 <= i <= k < v.len(),
        text_of(v[k]) == Err::<Seq<char>, CommandError>(e),
        forall|j: int| 0 <= j < k ==> (#[trigger] text_of(v[j])) is Ok,
    ensures
        texts_from(v, i) == Err::<Seq<Seq<char>>, CommandError>(e),
    decreases v.len() - i,
{
    if i < k {
        lemma_texts_from_first_err(v, i + 1, k, e);
    }
}

/// Decodes every argument into owned text, or reports the leftmost failure.
#[verifier::loop_isolation(false)]
pub fn args_to_texts(args: Vec<RespFrame>) -> (r: Result<Vec<String>, CommandError>)
    ensures
        r matches Ok(ts) ==> texts_of(frames_view(args)) == Ok::<
            Seq<Seq<char>>,
            CommandError,
        >(texts_of_strings(ts@)),
        r matches Err(e) ==> texts_of(frames_view(args)) == Err::<Seq<Seq<char>>, CommandError>(e),
{
    let ghost orig = frames_view(args);
    let mut rest = args;
    let mut out: Vec<String> = Vec::new();
    while rest.len() > 0
        invariant
            out@.len() + rest@.len() == orig.len(),
            forall|i: int|
                #![trigger rest@[i]]
                0 <= i < rest@.len() ==> rest@[i]@ == orig[i + out@.len()],
            forall|j: int|
                #![trigger out@[j]]
                0 <= j < out@.len() ==> text_of(orig[j]) == Ok::<Seq<char>, CommandError>(
                    out@[j]@,
                ),
        decreases rest@.len(),
    {
        let ghost prev = rest@;
        let ghost done = out@.len() as int;
        let f = rest.remove(0);
        proof {
            assert(forall|i: int| 0 <= i < rest@.len() ==> rest@[i] == prev[i + 1]);
            assert(f@ == orig[done]);
        }
        match frame_to_text(f) {
            Ok(s) => {
                out.push(s);
            },
            Err(e) => {
                proof {
                    assert forall|j: int| 0 <= j < done implies (#[trigger] text_of(
                        orig[j],
                    )) is Ok by {
                        assert(text_of(orig[j]) == Ok::<Seq<char>, CommandError>(out@[j]@));
                    }
                    lemma_texts_from_first_err(orig, 0, done, e);
                }
                return Err(e);
            },
        }
    }
    proof {
        let ts = texts_of_strings(out@);
        assert(ts.len() == orig.len());
        assert(forall|j: int|
            0 <= j < orig.len() ==> text_of(orig[j]) == Ok::<Seq<char>, CommandError>(
                #[trigger] ts[j],
            ));
        lemma_texts_from_all_ok(orig, ts, 0);
        assert(ts.subrange(0, orig.len() as int) =~= ts);
    }
    Ok(out)
}


/// One typed, validated command: the closed set of supported operations.
#[derive(Debug, PartialEq, Eq)]
pub enum Command {
    Echo(Echo),
    Get(Get),
    SetCmd(SetCmd),
    HGet(HGet),
    HSet(HSet),
    HGetAll(HGetAll),
    HMGet(HMGet),
    SAdd(SAdd),
    SMembers(SMembers),
    SIsMember(SIsMember),
}

/// The model of a typed command: its defining fields as texts and frame
/// models.
pub enum CommandView {
    Echo(Seq<char>),
    Get(Seq<char>),
    SetCmd(Seq<char>, FrameView),
    HGet(Seq<char>, Seq<char>),
    HSet(Seq<char>, Seq<char>, FrameView),
    HGetAll(Seq<char>),
    HMGet(Seq<char>, Seq<Seq<char>>),
    SAdd(Seq<char>, Seq<Seq<char>>),
    SMembers(Seq<char>, bool),
    SIsMember(Seq<char>, Seq<char>),
}

impl View for Command {
    type V = CommandView;

    open spec fn view(&self) -> CommandView {
        match self {
            Command::Echo(c) => CommandView::Echo(c.value@),
            Command::Get(c) => CommandView::Get(c.key@),
            Command::SetCmd(c) => CommandView::SetCmd(c.key@, c.value@),
            Command::HGet(c) => CommandView::HGet(c.key@, c.field@),
            Command::HSet(c) => CommandView::HSet(c.key@, c.field@, c.value@),
            Command::HGetAll(c) => CommandView::HGetAll(c.key@),
            Command::HMGet(c) => CommandView::HMGet(c.key@, texts_of_strings(c.fields@)),
            Command::SAdd(c) => CommandView::SAdd(c.key@, texts_of_strings(c.values@)),
            Command::SMembers(c) => CommandView::SMembers(c.key@, c.sort),
            Command::SIsMember(c) => CommandView::SIsMember(c.key@, c.value@),
        }
    }
}

/// What parsing a whole request yields: the typed command named by its first
/// argument, or the exact error; a name that no command claims fails closed.
pub open spec fn command_parse_spec(v: Seq<FrameView>) -> Result<CommandView, CommandError> {
    if v.len() >= 1 && name_matches(v[0], "echo"@) {
        match echo_parse_spec(v) {
            Ok(t) => Ok(CommandView::Echo(t)),
            Err(e) => Err(e),
        }
    } else if v.len() >= 1 && name_matches(v[0], "get"@) {
        match get_parse_spec(v) {
            Ok(k) => Ok(CommandView::Get(k)),
            Err(e) => Err(e),
        }
    } else if v.len() >= 1 && name_matches(v[0], "set"@) {
        match set_parse_spec(v) {
            Ok(kv) => Ok(CommandView::SetCmd(kv.0, kv.1)),
            Err(e) => Err(e),
        }
    } else if v.len() >= 1 && name_matches(v[0], "hget"@) {
        match hget_parse_spec(v) {
            Ok(kf) => Ok(CommandView::HGet(kf.0, kf.1)),
            Err(e) => Err(e),
        }
    } else if v.len() >= 1 && name_matches(v[0], "hset"@) {
        match hset_parse_spec(v) {
            Ok(kfv) => Ok(CommandView::HSet(kfv.0, kfv.1, kfv.2)),
            Err(e) => Err(e),
        }
    } else if v.len() >= 1 && name_matches(v[0], "hgetall"@) {
        match hgetall_parse_spec(v) {
            Ok(k) => Ok(CommandView::HGetAll(k)),
            Err(e) => Err(e),
        }
    } else if v.len() >= 1 && name_matches(v[0], "hmget"@) {
        match hmget_parse_spec(v) {
            Ok(kfs) => Ok(CommandView::HMGet(kfs.0, kfs.1)),
            Err(e) => Err(e),
        }
    } else if v.len() >= 1 && name_matches(v[0], "sadd"@) {
        match sadd_parse_spec(v) {
            Ok(kms) => Ok(CommandView::SAdd(kms.0, kms.1)),
            Err(e) => Err(e),
        }
    } else if v.len() >= 1 && name_matches(v[0], "smembers"@) {
        match smembers_parse_spec(v) {
            Ok(k) => Ok(CommandView::SMembers(k, false)),
            Err(e) => Err(e),
        }
    } else if v.len() >= 1 && name_matches(v[0], "sismember"@) {
        match sismember_parse_spec(v) {
            Ok(km) => Ok(CommandView::SIsMember(km.0, km.1)),
            Err(e) => Err(e),
        }
    } else {
        Err(CommandError::WrongCommand)
    }
}

/// Whether the first frame of the request spells the given command name.
fn first_named(req: &RespArray, name: &str) -> (r: bool)
    ensures
        r == (req@.len() >= 1 && name_matches(req@[0], name@)),
{
    if req.0.len() == 0 {
        return false;
    }
    match &req.0[0] {
        RespFrame::BulkString(b) => bytes_name_eq(b, name),
        _ => false,
    }
}

/// What executing one command does: how the namespaces change and what the
/// reply is, for every command kind.
pub open spec fn command_post(cv: CommandView, pre: Backend, post: Backend, r: FrameView) -> bool {
    match cv {
        CommandView::Echo(t) => same_store(pre, post) && r == FrameView::Bulk(encode_utf8(t)),
        CommandView::Get(k) => same_store(pre, post) && r == if pre.scalars().contains_key(k) {
            pre.scalars()[k]
        } else {
            FrameView::Null
        },
        CommandView::SetCmd(k, v) => {
            &&& post.scalars() == pre.scalars().insert(k, v)
            &&& post.hashes() == pre.hashes()
            &&& post.sets() == pre.sets()
            &&& r == FrameView::Simple("OK"@)
        },
        CommandView::HGet(k, f) => same_store(pre, post) && r == if pre.hashes().contains_key(k)
            && pre.hashes()[k].contains_key(f) {
            pre.hashes()[k][f]
        } else {
            FrameView::Null
        },
        CommandView::HSet(k, f, v) => {
            &&& post.hashes() == pre.hashes().insert(k, hash_at(pre.hashes(), k).insert(f, v))
            &&& post.scalars() == pre.scalars()
            &&& post.sets() == pre.sets()
            &&& r == FrameView::Simple("OK"@)
        },
        CommandView::HGetAll(k) => same_store(pre, post) && hgetall_post(pre.hashes(), k, r),
        CommandView::HMGet(k, fs) => same_store(pre, post) && r == FrameView::Arr(
            hmget_replies(pre.hashes(), k, fs),
        ),
        CommandView::SAdd(k, ms) => {
            &&& post.sets() == pre.sets().insert(k, with_members(set_at(pre.sets(), k), ms))
            &&& post.scalars() == pre.scalars()
            &&& post.hashes() == pre.hashes()
            &&& r == FrameView::Bulk(integer_reply(newly_added(set_at(pre.sets(), k), ms)))
        },
        CommandView::SMembers(k, sort) => same_store(pre, post) && smembers_post(
            pre.sets(),
            k,
            sort,
            r,
        ),
        CommandView::SIsMember(k, m) => same_store(pre, post) && r == FrameView::Bulk(
            integer_reply(
                if pre.sets().contains_key(k) && pre.sets()[k].contains(m) {
                    1int
                } else {
                    0int
                },
            ),
        ),
    }
}

impl Command {
    /// Converts a whole request into exactly one typed command, failing
    /// closed with a typed error on any mismatch.
    pub fn parse(req: RespArray) -> (r: Result<Command, CommandError>)
        ensures
            r matches Ok(c) ==> command_parse_spec(req@) == Ok::<CommandView, CommandError>(c@),
            r matches Err(e) ==> command_parse_spec(req@) == Err::<CommandView, CommandError>(e),
    {
        if first_named(&req, "echo") {
            match Echo::parse(req) {
                Ok(c) => Ok(Command::Echo(c)),
                Err(e) => Err(e),
            }
        } else if first_named(&req, "get") {
            match Get::parse(req) {
                Ok(c) => Ok(Command::Get(c)),
                Err(e) => Err(e),
            }
        } else if first_named(&req, "set") {
            match SetCmd::parse(req) {
                Ok(c) => Ok(Command::SetCmd(c)),
                Err(e) => Err(e),
            }
        } else if first_named(&req, "hget") {
            match HGet::parse(req) {
                Ok(c) => Ok(Command::HGet(c)),
                Err(e) => Err(e),
            }
        } else if first_named(&req, "hset") {
            match HSet::parse(req) {
                Ok(c) => Ok(Command::HSet(c)),
                Err(e) => Err(e),
            }
        } else if first_named(&req, "hgetall") {
            match HGetAll::parse(req) {
                Ok(c) => Ok(Command::HGetAll(c)),
                Err(e) => Err(e),
            }
        } else if first_named(&req, "hmget") {
            match HMGet::parse(req) {
                Ok(c) => Ok(Command::HMGet(c)),
                Err(e) => Err(e),
            }
        } else if first_named(&req, "sadd") {
            match SAdd::parse(req) {
                Ok(c) => Ok(Command::SAdd(c)),
                Err(e) => Err(e),
            }
        } else if first_named(&req, "smembers") {
            match SMembers::parse(req) {
                Ok(c) => Ok(Command::SMembers(c)),
                Err(e) => Err(e),
            }
        } else if first_named(&req, "sismember") {
            match SIsMember::parse(req) {
                Ok(c) => Ok(Command::SIsMember(c)),
                Err(e) => Err(e),
            }
        } else {
            Err(CommandError::WrongCommand)
        }
    }

    /// The single dispatch point: runs the command against the store and
    /// shapes the reply, with no failure path of its own.
    pub fn execute(self, backend: &mut Backend) -> (r: RespFrame)
        requires
            self matches Command::SAdd(c) ==> c.values@.len() <= i64::MAX,
        ensures
            command_post(self@, *old(backend), *final(backend), r@),
    {
        match self {
            Command::Echo(c) => c.execute(backend),
            Command::Get(c) => c.execute(backend),
            Command::SetCmd(c) => c.execute(backend),
            Command::HGet(c) => c.execute(backend),
            Command::HSet(c) => c.execute(backend),
            Command::HGetAll(c) => c.execute(backend),
            Command::HMGet(c) => c.execute(backend),
            Command::SAdd(c) => c.execute(backend),
            Command::SMembers(c) => c.execute(backend),
            Command::SIsMember(c) => c.execute(backend),
        }
    }
}

} // verus!
