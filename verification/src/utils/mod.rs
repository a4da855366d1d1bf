//! Helpers for showing projects: the colours of a tag.

use vstd::prelude::*;

verus! {

/// The colours a tag is drawn in.
#[derive(Clone, Copy, Debug, PartialEq, Eq, Structural)]
pub enum TagColor {
    Magenta,
    Green,
    Yellow,
    Blue,
    White,
    Black,
}

/// The sum of the bytes.
pub open spec fn byte_sum(bytes: Seq<u8>) -> int
    decreases bytes.len(),
{
    if bytes.len() == 0 {
        0
    } else {
        byte_sum(bytes.drop_last()) + bytes.last()
    }
}

/// Taking one byte out of a sequence takes its value off the sum.
proof fn lemma_byte_sum_remove(s: Seq<u8>, i: int)
    requires
        0 <= i < s.len(),
    ensures
        byte_sum(s) == byte_sum(s.remove(i)) + s[i],
    decreases s.len(),
{
    if i == s.len() - 1 {
        assert(s.remove(i) =~= s.drop_last());
    } else {
        lemma_byte_sum_remove(s.drop_last(), i);
        assert(s.remove(i).drop_last() =~= s.drop_last().remove(i));
    }
}

/// The sum of the bytes depends only on which bytes occur how often, not on
/// their order.
pub proof fn lemma_byte_sum_multiset(a: Seq<u8>, b: Seq<u8>)
    requires
        a.to_multiset() == b.to_multiset(),
    ensures
        byte_sum(a) == byte_sum(b),
    decreases a.len(),
{
    vstd::seq_lib::to_multiset_len(a);
    vstd::seq_lib::to_multiset_len(b);
    if a.len() > 0 {
        let x = a.last();
        assert(a.contains(x)) by {
            assert(a[a.len() - 1] == x);
        }
        vstd::seq_lib::to_multiset_contains(a, x);
        vstd::seq_lib::to_multiset_contains(b, x);
        let j = choose|j: int| 0 <= j < b.len() && b[j] == x;
        vstd::seq_lib::to_multiset_remove(a, a.len() - 1);
        vstd::seq_lib::to_multiset_remove(b, j);
        assert(a.remove(a.len() - 1) =~= a.drop_last());
        lemma_byte_sum_multiset(a.drop_last(), b.remove(j));
        lemma_byte_sum_remove(b, j);
    }
}

/// Which of the five colour pairs a tag gets: the sum of its UTF-8 bytes,
/// taken modulo 2^16, modulo 5.
pub open spec fn tag_hash(tag: Seq<char>) -> int {
    (byte_sum(vstd::utf8::encode_utf8(tag)) % 65536) % 5
}

/// The background and foreground colours of a tag.
pub open spec fn tag_colors_spec(tag: Seq<char>) -> (TagColor, TagColor) {
    let h = tag_hash(tag);
    if h == 0 {
        (TagColor::Magenta, TagColor::White)
    } else if h == 1 {
        (TagColor::Green, TagColor::Black)
    } else if h == 2 {
        (TagColor::Yellow, TagColor::White)
    } else if h == 3 {
        (TagColor::Blue, TagColor::Black)
    } else {
        (TagColor::White, TagColor::Black)
    }
}

/// A tag's colours depend only on the bytes of its UTF-8 encoding and how
/// often each occurs, not on their order: two tags whose bytes are
/// rearrangements of each other get the same colours.
pub proof fn lemma_tag_colors_byte_order(a: Seq<char>, b: Seq<char>)
    requires
        vstd::utf8::encode_utf8(a).to_multiset() == vstd::utf8::encode_utf8(b).to_multiset(),
    ensures
        tag_colors_spec(a) == tag_colors_spec(b),
{
    lemma_byte_sum_multiset(vstd::utf8::encode_utf8(a), vstd::utf8::encode_utf8(b));
}

/// The background and foreground colours a tag is drawn in, picked by the sum
/// of its bytes.
pub fn tag_colors(tag: &str) -> (r: (TagColor, TagColor))
    ensures
        r == tag_colors_spec(tag@),
{
    let bytes = tag.as_bytes();
    let mut acc: u16 = 0;
    let mut i: usize = 0;
    assert(bytes@.take(0) =~= Seq::<u8>::empty());
    while i < bytes.len()
        invariant
            bytes@ == vstd::utf8::encode_utf8(tag@),
            i <= bytes@.len(),
            acc as int == byte_sum(bytes@.take(i as int)) % 65536,
        decreases bytes@.len() - i,
    {
        let b = bytes[i];
        assert(bytes@.take(i + 1).drop_last() =~= bytes@.take(i as int));
        let ghost s = byte_sum(bytes@.take(i as int));
        assert(byte_sum(bytes@.take(i + 1)) == s + b);
        acc = acc.wrapping_add(b as u16);
        assert(acc as int == (s + b) % 65536) by {
            vstd::arithmetic::div_mod::lemma_add_mod_noop(s, b as int, 65536);
            vstd::arithmetic::div_mod::lemma_small_mod(b as nat, 65536);
        }
        i += 1;
    }
    assert(bytes@.take(bytes@.len() as int) =~= bytes@);
    match acc % 5 {
        0 => (TagColor::Magenta, TagColor::White),
        1 => (TagColor::Green, TagColor::Black),
        2 => (TagColor::Yellow, TagColor::White),
        3 => (TagColor::Blue, TagColor::Black),
        _ => (TagColor::White, TagColor::Black),
    }
}

} // verus!
