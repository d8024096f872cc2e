//! The GET and SET commands over the scalar namespace.

use vstd::prelude::*;

use super::extract_args;
use super::frame_to_text;
use super::name_matches;
use super::text_of;
use super::validate_command;
use super::CommandError;
use crate::backend::same_store;
use crate::backend::Backend;
use crate::resp::frames_view;
use crate::resp::FrameView;
use crate::resp::RespArray;
use crate::resp::RespFrame;
use vstd::string::StringExecFns;

verus! {

/// The typed GET command: a scalar read.
#[derive(Debug, PartialEq, Eq)]
pub struct Get {
    pub key: String,
}

/// The typed SET command: an unconditional scalar upsert.
#[derive(Debug, PartialEq, Eq)]
pub struct SetCmd {
    pub key: String,
    pub value: RespFrame,
}

/// What parsing a GET request yields: the key text, or the exact error.
pub open spec fn get_parse_spec(v: Seq<FrameView>) -> Result<Seq<char>, CommandError> {
    if !(v.len() >= 1 && name_matches(v[0], "get"@)) {
        Err(CommandError::WrongCommand)
    } else if v.len() != 2 {
        Err(CommandError::WrongArgCount)
    } else {
        text_of(v[1])
    }
}

/// What parsing a SET request yields: the key text and the stored frame, or
/// the exact error; the value may be any frame kind.
pub open spec fn set_parse_spec(v: Seq<FrameView>) -> Result<
    (Seq<char>, FrameView),
    CommandError,
> {
    if !(v.len() >= 1 && name_matches(v[0], "set"@)) {
        Err(CommandError::WrongCommand)
    } else if v.len() != 3 {
        Err(CommandError::WrongArgCount)
    } else {
        match text_of(v[1]) {
            Ok(k) => Ok((k, v[2])),
            Err(e) => Err(e),
        }
    }
}

impl Get {
    /// Builds the command from a validated request: exactly one trailing
    /// bulk-string key.
    pub fn parse(req: RespArray) -> (r: Result<Get, CommandError>)
        ensures
            r matches Ok(c) ==> get_parse_spec(req@) == Ok::<Seq<char>, CommandError>(c.key@),
            r matches Err(e) ==> get_parse_spec(req@) == Err::<Seq<char>, CommandError>(e),
    {
        let ghost rv = req@;
        if let Err(e) = validate_command(&req, "get", 1) {
            return Err(e);
        }
        if req.0.len() != 2 {
            return Err(CommandError::WrongArgCount);
        }
        let mut args = match extract_args(req, 1) {
            Ok(a) => a,
            Err(e) => {
                return Err(e);
            },
        };
        let ghost av = frames_view(args);
        proof {
            assert(av.len() == args@.len());
            assert(av =~= rv.subrange(1, 2));
        }
        let f = args.remove(0);
        proof {
            assert(f@ == av[0] && av[0] == rv[1]);
        }
        match frame_to_text(f) {
            Ok(key) => Ok(Get { key }),
            Err(e) => Err(e),
        }
    }

    /// Replies with the stored value as it stands, or a null reply when the
    /// key is absent; the store is untouched.
    pub fn execute(self, backend: &mut Backend) -> (r: RespFrame)
        ensures
            same_store(*old(backend), *final(backend)),
            r@ == if old(backend).scalars().contains_key(self.key@) {
                old(backend).scalars()[self.key@]
            } else {
                FrameView::Null
            },
    {
        match backend.get(self.key.as_str()) {
            Some(f) => f,
            None => RespFrame::Null,
        }
    }
}

impl SetCmd {
    /// Builds the command from a validated request: a bulk-string key
    /// followed by one value of any frame kind.
    pub fn parse(req: RespArray) -> (r: Result<SetCmd, CommandError>)
        ensures
            r matches Ok(c) ==> set_parse_spec(req@) == Ok::<
                (Seq<char>, FrameView),
                CommandError,
            >((c.key@, c.value@)),
            r matches Err(e) ==> set_parse_spec(req@) == Err::<
                (Seq<char>, FrameView),
                CommandError,
            >(e),
    {
        let ghost rv = req@;
        if let Err(e) = validate_command(&req, "set", 2) {
            return Err(e);
        }
        if req.0.len() != 3 {
            return Err(CommandError::WrongArgCount);
        }
        let mut args = match extract_args(req, 1) {
            Ok(a) => a,
            Err(e) => {
                return Err(e);
            },
        };
        let ghost av = frames_view(args);
        proof {
            assert(av.len() == args@.len());
            assert(av =~= rv.subrange(1, 3));
        }
        let kf = args.remove(0);
        let value = args.remove(0);
        proof {
            assert(kf@ == av[0] && av[0] == rv[1]);
            assert(value@ == av[1] && av[1] == rv[2]);
        }
        match frame_to_text(kf) {
            Ok(key) => Ok(SetCmd { key, value }),
            Err(e) => Err(e),
        }
    }

    /// Upserts the value and acknowledges.
    pub fn execute(self, backend: &mut Backend) -> (r: RespFrame)
        ensures
            final(backend).scalars() == old(backend).scalars().insert(self.key@, self.value@),
            final(backend).hashes() == old(backend).hashes(),
            final(backend).sets() == old(backend).sets(),
            r@ == FrameView::Simple("OK"@),
    {
        backend.set(self.key, self.value);
        RespFrame::SimpleString(String::from_str("OK"))
    }
}

} // verus!
