//! Protocol value types exchanged at the wire boundary.
//!
//! A [`RespFrame`] is a discriminated protocol value: a simple string, a bulk
//! string carrying a byte payload, an ordered array of frames, or the null
//! absence marker.  The storage core treats every frame as opaque except bulk
//! strings, whose payload it reads as text.  [`FrameView`] is the mathematical
//! model of a frame, used by every contract in the crate.

use vstd::prelude::*;

verus! {

broadcast use vstd::std_specs::vec::axiom_vec_index_decreases;

/// The mathematical model of a protocol frame: byte payloads become
/// `Seq<u8>`, text becomes `Seq<char>`, arrays become sequences of models.
pub enum FrameView {
    Simple(Seq<char>),
    Bulk(Seq<u8>),
    Arr(Seq<FrameView>),
    Null,
}

/// A protocol value: one simple string, bulk string (raw bytes), array of
/// frames, or the null marker.
#[derive(Debug, PartialEq, Eq)]
pub enum RespFrame {
    SimpleString(String),
    BulkString(Vec<u8>),
    Array(Vec<RespFrame>),
    Null,
}

/// The models of a sequence of frames, in order.
pub open spec fn frames_view(items: Vec<RespFrame>) -> Seq<FrameView>
    decreases items,
{
    Seq::new(
        items@.len(),
        |i: int| if 0 <= i < items@.len() { items[i]@ } else { FrameView::Null },
    )
}

impl View for RespFrame {
    type V = FrameView;

    open spec fn view(&self) -> FrameView
        decreases self,
    {
        match self {
            RespFrame::SimpleString(s) => FrameView::Simple(s@),
            RespFrame::BulkString(b) => FrameView::Bulk(b@),
            RespFrame::Array(items) => FrameView::Arr(frames_view(*items)),
            RespFrame::Null => FrameView::Null,
        }
    }
}

/// Copies a byte payload.
fn clone_bytes(b: &Vec<u8>) -> (r: Vec<u8>)
    ensures
        r@ == b@,
{
    let mut out: Vec<u8> = Vec::new();
    let mut i: usize = 0;
    while i < b.len()
        invariant
            i <= b.len(),
            out@ == b@.subrange(0, i as int),
        decreases b.len() - i,
    {
        out.push(b[i]);
        i = i + 1;
    }
    assert(out@ =~= b@);
    out
}

/// Copies a sequence of frames, model for model.
fn clone_frames(items: &Vec<RespFrame>) -> (r: Vec<RespFrame>)
    ensures
        frames_view(r) == frames_view(*items),
    decreases *items,
{
    let mut out: Vec<RespFrame> = Vec::new();
    let mut i: usize = 0;
    while i < items.len()
        invariant
            i <= items.len(),
            out@.len() == i,
            forall|j: int| 0 <= j < i ==> out@[j]@ == items@[j]@,
        decreases items.len() - i,
    {
        out.push(clone_frame(&items[i]));
        i = i + 1;
    }
    assert(frames_view(out) =~= frames_view(*items));
    out
}

/// Produces a frame with the same model as the given one; the store hands
/// out such copies so a returned value is decoupled from the live container.
pub fn clone_frame(f: &RespFrame) -> (r: RespFrame)
    ensures
        r@ == f@,
    decreases f,
{
    match f {
        RespFrame::SimpleString(s) => RespFrame::SimpleString(s.clone()),
        RespFrame::BulkString(b) => RespFrame::BulkString(clone_bytes(b)),
        RespFrame::Array(items) => RespFrame::Array(clone_frames(items)),
        RespFrame::Null => RespFrame::Null,
    }
}

/// An ordered sequence of frames; a request is one of these, the first
/// element naming the command and the rest carrying its arguments.
#[derive(Debug, PartialEq, Eq)]
pub struct RespArray(pub Vec<RespFrame>);

impl View for RespArray {
    type V = Seq<FrameView>;

    open spec fn view(&self) -> Seq<FrameView> {
        frames_view(self.0)
    }
}

impl RespArray {
    pub fn new(frames: Vec<RespFrame>) -> (r: RespArray)
        ensures
            r.0 == frames,
    {
        RespArray(frames)
    }

    /// Wraps the array back up as a single frame, as multi-value replies are.
    pub fn into_frame(self) -> (r: RespFrame)
        ensures
            r@ == FrameView::Arr(self@),
    {
        RespFrame::Array(self.0)
    }
}

} // verus!
