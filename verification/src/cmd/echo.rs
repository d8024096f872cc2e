//! The ECHO command: replies with its own argument.

use vstd::prelude::*;

use super::name_matches;
use super::text_of;
use super::extract_args;
use super::frame_to_text;
use super::validate_command;
use super::CommandError;
use crate::backend::same_store;
use crate::backend::Backend;
use crate::resp::frames_view;
use crate::resp::FrameView;
use crate::resp::RespArray;
use crate::resp::RespFrame;
use vstd::string::StrSliceExecFns;
use vstd::utf8::encode_utf8;

verus! {

/// The typed ECHO command.
#[derive(Debug, PartialEq, Eq)]
pub struct Echo {
    pub value: String,
}

/// What parsing an ECHO request yields: the echoed text, or the exact error.
pub open spec fn echo_parse_spec(v: Seq<FrameView>) -> Result<Seq<char>, CommandError> {
    if !(v.len() >= 1 && name_matches(v[0], "echo"@)) {
        Err(CommandError::WrongCommand)
    } else if v.len() != 2 {
        Err(CommandError::WrongArgCount)
    } else {
        text_of(v[1])
    }
}

impl Echo {
    /// Builds the command from a validated request: exactly one trailing
    /// bulk-string argument holding valid text.
    pub fn parse(req: RespArray) -> (r: Result<Echo, CommandError>)
        ensures
            r matches Ok(c) ==> echo_parse_spec(req@) == Ok::<Seq<char>, CommandError>(c.value@),
            r matches Err(e) ==> echo_parse_spec(req@) == Err::<Seq<char>, CommandError>(e),
    {
        let ghost rv = req@;
        if let Err(e) = validate_command(&req, "echo", 1) {
            return Err(e);
        }
        if req.0.len() != 2 {
            return Err(CommandError::WrongArgCount);
        }
        let mut args = match extract_args(req, 1) {
            Ok(a) => a,
            Err(e) => {
                return Err(e);
            },
        };
        let ghost av = frames_view(args);
        proof {
            assert(av.len() == args@.len());
            assert(av =~= rv.subrange(1, 2));
        }
        let f = args.remove(0);
        proof {
            assert(f@ == av[0] && av[0] == rv[1]);
        }
        match frame_to_text(f) {
            Ok(value) => Ok(Echo { value }),
            Err(e) => Err(e),
        }
    }

    /// Replies with a bulk string carrying the echoed value; the store is
    /// untouched.
    pub fn execute(self, backend: &mut Backend) -> (r: RespFrame)
        ensures
            same_store(*old(backend), *final(backend)),
            r@ == FrameView::Bulk(encode_utf8(self.value@)),
    {
        RespFrame::BulkString(self.value.as_str().as_bytes_vec())
    }
}

} // verus!
