//! Text utilities: byte-to-text decoding, case-insensitive name comparison,
//! decimal rendering of counters, and lexicographic ordering of members.

use vstd::prelude::*;

use vstd::multiset::Multiset;
use vstd::string::StrSliceExecFns;
use vstd::string::StringSliceAdditionalSpecFns;
use vstd::utf8::decode_utf8;
use vstd::utf8::valid_utf8;

verus! {

/// Relies on `String::from_utf8`: succeeds exactly on valid UTF-8 input and
/// decodes the bytes to the text they encode.
#[verifier::external_body]
pub(crate) fn bytes_to_string(b: Vec<u8>) -> (r: Option<String>)
    ensures
        r is Some <==> valid_utf8(b@),
        r matches Some(s) ==> s@ == decode_utf8(b@),
{
    String::from_utf8(b).ok()
}

/// The byte with an ASCII upper-case letter folded to its lower-case form;
/// any other byte is kept as it is.
pub open spec fn lower_byte(b: u8) -> u8 {
    if 65 <= b <= 90 {
        (b + 32) as u8
    } else {
        b
    }
}

/// A byte sequence folded byte by byte with [`lower_byte`].
pub open spec fn lower_bytes(s: Seq<u8>) -> Seq<u8> {
    s.map_values(|b: u8| lower_byte(b))
}

/// Whether the payload, ASCII-lower-cased, spells the expected name.
pub fn bytes_name_eq(b: &Vec<u8>, name: &str) -> (r: bool)
    ensures
        r == (lower_bytes(b@) == name.spec_bytes()),
{
    let nb: Vec<u8> = name.as_bytes_vec();
    if b.len() != nb.len() {
        proof {
            assert(lower_bytes(b@).len() == b@.len());
        }
        return false;
    }
    let mut i: usize = 0;
    while i < b.len()
        invariant
            i <= b.len(),
            b@.len() == nb@.len(),
            nb@ == name.spec_bytes(),
            forall|j: int| 0 <= j < i ==> lower_byte(b@[j]) == nb@[j],
        decreases b.len() - i,
    {
        let c = b[i];
        let folded = if c >= 65 && c <= 90 {
            c + 32
        } else {
            c
        };
        if folded != nb[i] {
            proof {
                assert(lower_bytes(b@)[i as int] != name.spec_bytes()[i as int]);
            }
            return false;
        }
        i = i + 1;
    }
    proof {
        assert(lower_bytes(b@) =~= name.spec_bytes());
    }
    true
}

/// The decimal digits of a non-negative number, most significant first.
pub open spec fn dec_rep(n: int) -> Seq<u8>
    decreases n,
{
    if n < 10 {
        seq![(48 + n) as u8]
    } else {
        dec_rep(n / 10).push((48 + n % 10) as u8)
    }
}

/// Appends the decimal digits of `n` to the buffer.
fn push_decimal(out: &mut Vec<u8>, n: u64)
    ensures
        final(out)@ == old(out)@ + dec_rep(n as int),
    decreases n,
{
    if n >= 10 {
        push_decimal(out, n / 10);
    }
    let d: u8 = (n % 10) as u8 + 48;
    out.push(d);
    proof {
        if n < 10 {
            assert(old(out)@ + dec_rep(n as int) =~= old(out)@.push(d));
        } else {
            assert(old(out)@ + dec_rep(n as int) =~= (old(out)@ + dec_rep(n as int / 10)).push(
                d,
            ));
        }
    }
}

/// The bytes of an integer-style reply: the text `(integer) ` followed by the
/// decimal digits of the count.
pub open spec fn integer_reply(n: int) -> Seq<u8> {
    seq![40u8, 105u8, 110u8, 116u8, 101u8, 103u8, 101u8, 114u8, 41u8, 32u8] + dec_rep(n)
}

/// Renders an integer-style reply payload.
pub fn make_integer_reply(n: i64) -> (r: Vec<u8>)
    requires
        n >= 0,
    ensures
        r@ == integer_reply(n as int),
{
    let mut out: Vec<u8> = Vec::new();
    out.push(40);
    out.push(105);
    out.push(110);
    out.push(116);
    out.push(101);
    out.push(103);
    out.push(101);
    out.push(114);
    out.push(41);
    out.push(32);
    proof {
        assert(out@ =~= seq![40u8, 105u8, 110u8, 116u8, 101u8, 103u8, 101u8, 114u8, 41u8, 32u8]);
    }
    push_decimal(&mut out, n as u64);
    out
}

/// Lexicographic order on text by code point: the empty text comes first, and
/// otherwise the first differing position decides.
pub open spec fn lex_le(a: Seq<char>, b: Seq<char>) -> bool
    decreases a.len(),
{
    if a.len() == 0 {
        true
    } else if b.len() == 0 {
        false
    } else if (a[0] as u32) < (b[0] as u32) {
        true
    } else if (a[0] as u32) == (b[0] as u32) {
        lex_le(a.drop_first(), b.drop_first())
    } else {
        false
    }
}

/// Any two texts compare one way or the other.
pub proof fn lemma_lex_le_total(a: Seq<char>, b: Seq<char>)
    ensures
        lex_le(a, b) || lex_le(b, a),
    decreases a.len(),
{
    if a.len() == 0 || b.len() == 0 {
    } else if (a[0] as u32) == (b[0] as u32) {
        lemma_lex_le_total(a.drop_first(), b.drop_first());
    }
}

/// The order is transitive.
pub proof fn lemma_lex_le_trans(a: Seq<char>, b: Seq<char>, c: Seq<char>)
    requires
        lex_le(a, b),
        lex_le(b, c),
    ensures
        lex_le(a, c),
    decreases a.len(),
{
    if a.len() == 0 || b.len() == 0 || c.len() == 0 {
    } else if (a[0] as u32) == (b[0] as u32) && (b[0] as u32) == (c[0] as u32) {
        lemma_lex_le_trans(a.drop_first(), b.drop_first(), c.drop_first());
    }
}

/// Whether consecutive texts are in ascending lexicographic order.
pub open spec fn sorted_lex(s: Seq<Seq<char>>) -> bool {
    forall|i: int, j: int| 0 <= i < j < s.len() ==> lex_le(s[i], s[j])
}

/// Compares two strings in the lexicographic order of their texts.
fn str_lex_le(a: &str, b: &str) -> (r: bool)
    ensures
        r == lex_le(a@, b@),
{
    let la = a.unicode_len();
    let lb = b.unicode_len();
    let mut i: usize = 0;
    proof {
        assert(a@.skip(0) =~= a@);
        assert(b@.skip(0) =~= b@);
    }
    loop
        invariant
            la == a@.len(),
            lb == b@.len(),
            i <= la,
            i <= lb,
            lex_le(a@, b@) == lex_le(a@.skip(i as int), b@.skip(i as int)),
        decreases la - i,
    {
        if i == la {
            assert(a@.skip(i as int).len() == 0);
            return true;
        }
        if i == lb {
            assert(b@.skip(i as int).len() == 0 && a@.skip(i as int).len() > 0);
            return false;
        }
        let ca = a.get_char(i);
        let cb = b.get_char(i);
        let ghost sa = a@.skip(i as int);
        let ghost sb = b@.skip(i as int);
        proof {
            assert(sa[0] == a@[i as int] && sb[0] == b@[i as int]);
            assert(sa.drop_first() =~= a@.skip(i as int + 1));
            assert(sb.drop_first() =~= b@.skip(i as int + 1));
        }
        if (ca as u32) < (cb as u32) {
            return true;
        }
        if (ca as u32) != (cb as u32) {
            proof {
                assert(!lex_le(sa, sb));
            }
            return false;
        }
        i = i + 1;
    }
}

/// The texts of the strings, in order.
pub open spec fn texts_of_strings(vs: Seq<String>) -> Seq<Seq<char>> {
    vs.map_values(|s: String| s@)
}

/// Sorts the strings into ascending lexicographic order of their texts,
/// keeping exactly the same collection of strings.
pub fn sort_strings(input: Vec<String>) -> (r: Vec<String>)
    ensures
        r@.to_multiset() == input@.to_multiset(),
        sorted_lex(texts_of_strings(r@)),
{
    broadcast use vstd::seq_lib::group_to_multiset_ensures;

    let mut rest = input;
    let mut out: Vec<String> = Vec::new();
    while rest.len() > 0
        invariant
            out@.to_multiset().add(rest@.to_multiset()) == input@.to_multiset(),
            sorted_lex(texts_of_strings(out@)),
            forall|i: int, j: int|
                0 <= i < out@.len() && 0 <= j < rest@.len() ==> lex_le(
                    #[trigger] out@[i]@,
                    #[trigger] rest@[j]@,
                ),
        decreases rest@.len(),
    {
        let mut min: usize = 0;
        let mut k: usize = 1;
        proof {
            lemma_lex_le_total(rest@[0]@, rest@[0]@);
        }
        while k < rest.len()
            invariant
                min < rest@.len(),
                k <= rest@.len(),
                rest@.len() > 0,
                forall|j: int| 0 <= j < k ==> lex_le(rest@[min as int]@, #[trigger] rest@[j]@),
            decreases rest@.len() - k,
        {
            if str_lex_le(rest[k].as_str(), rest[min].as_str()) {
                proof {
                    assert forall|j: int| 0 <= j < k + 1 implies lex_le(
                        rest@[k as int]@,
                        #[trigger] rest@[j]@,
                    ) by {
                        if j < k {
                            lemma_lex_le_trans(rest@[k as int]@, rest@[min as int]@, rest@[j]@);
                        } else {
                            lemma_lex_le_total(rest@[k as int]@, rest@[k as int]@);
                        }
                    }
                }
                min = k;
            } else {
                proof {
                    lemma_lex_le_total(rest@[k as int]@, rest@[min as int]@);
                }
            }
            k = k + 1;
        }
        let ghost old_rest = rest@;
        let ghost prev_out = out@;
        let picked = rest.remove(min);
        out.push(picked);
        proof {
            assert(out@ == prev_out.push(picked));
            assert(rest@ == old_rest.remove(min as int));
            assert(old_rest[min as int] == picked);
            assert forall|j: int| 0 <= j < rest@.len() implies lex_le(
                picked@,
                #[trigger] rest@[j]@,
            ) by {
                if j < min {
                    assert(rest@[j] == old_rest[j]);
                } else {
                    assert(rest@[j] == old_rest[j + 1]);
                }
            }
            vstd::seq_lib::to_multiset_build(prev_out, picked);
            vstd::seq_lib::to_multiset_remove(old_rest, min as int);
            assert(old_rest.contains(picked));
            vstd::seq_lib::to_multiset_contains(old_rest, picked);
            assert(old_rest.to_multiset().count(picked) > 0);
            assert(out@.to_multiset().add(rest@.to_multiset()) =~= prev_out.to_multiset().add(
                old_rest.to_multiset(),
            ));
            assert forall|i: int, j: int| 0 <= i < j < out@.len() implies lex_le(
                texts_of_strings(out@)[i],
                texts_of_strings(out@)[j],
            ) by {
                assert(texts_of_strings(out@)[i] == out@[i]@);
                assert(texts_of_strings(out@)[j] == out@[j]@);
                if j < out@.len() - 1 {
                    assert(texts_of_strings(prev_out)[i] == prev_out[i]@);
                    assert(texts_of_strings(prev_out)[j] == prev_out[j]@);
                    assert(lex_le(texts_of_strings(prev_out)[i], texts_of_strings(prev_out)[j]));
                } else {
                    assert(out@[j] == picked);
                    assert(lex_le(prev_out[i]@, old_rest[min as int]@));
                }
            }
        }
    }
    proof {
        assert(out@.to_multiset().add(rest@.to_multiset()) == input@.to_multiset());
        assert(rest@.to_multiset().len() == 0);
        assert(rest@.to_multiset() =~= Multiset::<String>::empty());
        assert(out@.to_multiset().add(Multiset::<String>::empty()) =~= out@.to_multiset());
    }
    out
}

} // verus!
