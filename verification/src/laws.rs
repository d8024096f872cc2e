//! Laws of the store and of parsing, stated once over the models the
//! contracts use and proved for all inputs.

use vstd::prelude::*;

use crate::backend::newly_added;
use crate::backend::set_at;
use crate::backend::with_members;
use crate::cmd::text_of;
use crate::cmd::CommandError;
use crate::resp::FrameView;
use vstd::utf8::encode_utf8;

verus! {

/// A key never written reads as absent; after a write the key reads back
/// exactly the written value; a second write overwrites, it does not merge.
pub proof fn lemma_scalar_write_read(
    m: Map<Seq<char>, FrameView>,
    k: Seq<char>,
    v: FrameView,
    v2: FrameView,
)
    ensures
        !Map::<Seq<char>, FrameView>::empty().contains_key(k),
        m.insert(k, v).contains_key(k) && m.insert(k, v)[k] == v,
        m.insert(k, v).insert(k, v2).contains_key(k) && m.insert(k, v).insert(k, v2)[k] == v2,
{
}

/// Adding members puts exactly the old members and the added ones in the
/// set, and nothing else.
pub proof fn lemma_with_members_contains(s: Set<Seq<char>>, ms: Seq<Seq<char>>, x: Seq<char>)
    ensures
        with_members(s, ms).contains(x) <==> (s.contains(x) || ms.contains(x)),
    decreases ms.len(),
{
    if ms.len() > 0 {
        lemma_with_members_contains(s, ms.drop_last(), x);
        if ms.contains(x) {
            let i = choose|i: int| 0 <= i < ms.len() && ms[i] == x;
            if i < ms.len() - 1 {
                assert(ms.drop_last()[i] == x);
                assert(ms.drop_last().contains(x));
            }
        }
        if ms.drop_last().contains(x) {
            let i = choose|i: int| 0 <= i < ms.len() - 1 && ms.drop_last()[i] == x;
            assert(ms[i] == x);
        }
    }
}

/// Members already present are never counted as newly added.
proof fn lemma_newly_added_none_new(base: Set<Seq<char>>, ms: Seq<Seq<char>>)
    requires
        forall|i: int| 0 <= i < ms.len() ==> base.contains(#[trigger] ms[i]),
    ensures
        newly_added(base, ms) == 0,
    decreases ms.len(),
{
    if ms.len() > 0 {
        lemma_newly_added_none_new(base, ms.drop_last());
        lemma_with_members_contains(base, ms.drop_last(), ms.last());
    }
}

/// Adding the same member list twice is idempotent: the second call adds
/// nothing, counts zero, and leaves the set exactly as the first call left
/// it.
pub proof fn lemma_sadd_idempotent(s: Set<Seq<char>>, ms: Seq<Seq<char>>)
    ensures
        newly_added(with_members(s, ms), ms) == 0,
        with_members(with_members(s, ms), ms) == with_members(s, ms),
{
    let once = with_members(s, ms);
    assert forall|i: int| 0 <= i < ms.len() implies once.contains(#[trigger] ms[i]) by {
        lemma_with_members_contains(s, ms, ms[i]);
        assert(ms.contains(ms[i]));
    }
    lemma_newly_added_none_new(once, ms);
    assert(with_members(once, ms) =~= once) by {
        assert forall|x: Seq<char>| #![all_triggers] true implies (with_members(
            once,
            ms,
        ).contains(x) <==> once.contains(x)) by {
            lemma_with_members_contains(once, ms, x);
            lemma_with_members_contains(s, ms, x);
        }
    }
}

/// Membership holds only for what was added: it is false for every member
/// under a key that was never created, and false for a member never added to
/// an existing key.
pub proof fn lemma_membership_only_added(
    s: Set<Seq<char>>,
    ms: Seq<Seq<char>>,
    k: Seq<char>,
    m: Seq<char>,
)
    requires
        !s.contains(m),
        !ms.contains(m),
    ensures
        !with_members(s, ms).contains(m),
        !set_at(Map::<Seq<char>, Set<Seq<char>>>::empty(), k).contains(m),
{
    lemma_with_members_contains(s, ms, m);
}

/// Round trip: a text recovered from a bulk-string argument re-encodes to
/// the very frame the request carried, so parsing loses nothing.
pub proof fn lemma_text_round_trip(f: FrameView, t: Seq<char>)
    requires
        text_of(f) == Ok::<Seq<char>, CommandError>(t),
    ensures
        f == FrameView::Bulk(encode_utf8(t)),
{
    let b = f->Bulk_0;
    vstd::utf8::decode_utf8_encode_utf8(b);
}

/// Round trip at the command level: the value a well-formed ECHO request
/// parses to, re-encoded, is exactly the argument frame the request carried.
pub proof fn lemma_echo_round_trip(v: Seq<FrameView>, t: Seq<char>)
    requires
        crate::cmd::echo::echo_parse_spec(v) == Ok::<Seq<char>, CommandError>(t),
    ensures
        v[1] == FrameView::Bulk(encode_utf8(t)),
{
    lemma_text_round_trip(v[1], t);
}

} // verus!
