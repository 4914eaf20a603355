//! Little-endian encoding of the integers that the records are made of.

use vstd::prelude::*;

verus! {

/// The eight bytes of a word, least significant first.
pub open spec fn word_bytes(x: u64) -> Seq<u8> {
    seq![
        (x & 0xff) as u8,
        ((x >> 8) & 0xff) as u8,
        ((x >> 16) & 0xff) as u8,
        ((x >> 24) & 0xff) as u8,
        ((x >> 32) & 0xff) as u8,
        ((x >> 40) & 0xff) as u8,
        ((x >> 48) & 0xff) as u8,
        ((x >> 56) & 0xff) as u8,
    ]
}

/// The word whose eight bytes, least significant first, start at `at` in `s`.
pub open spec fn word_at(s: Seq<u8>, at: int) -> u64 {
    (s[at] as u64) | (s[at + 1] as u64) << 8 | (s[at + 2] as u64) << 16 | (s[at + 3] as u64) << 24
        | (s[at + 4] as u64) << 32 | (s[at + 5] as u64) << 40 | (s[at + 6] as u64) << 48 | (s[at + 7] as u64) << 56
}

/// The four bytes of a counter, least significant first.
pub open spec fn counter_bytes(x: u32) -> Seq<u8> {
    seq![
        (x & 0xff) as u8,
        ((x >> 8) & 0xff) as u8,
        ((x >> 16) & 0xff) as u8,
        ((x >> 24) & 0xff) as u8,
    ]
}

/// The counter whose four bytes, least significant first, start at `at` in `s`.
pub open spec fn counter_at(s: Seq<u8>, at: int) -> u32 {
    (s[at] as u32) | (s[at + 1] as u32) << 8 | (s[at + 2] as u32) << 16 | (s[at + 3] as u32) << 24
}

/// Appends the eight bytes of `x` to `out`.
pub fn push_word(out: &mut Vec<u8>, x: u64)
    ensures
        final(out)@ == old(out)@ + word_bytes(x),
{
    out.push((x & 0xff) as u8);
    out.push(((x >> 8) & 0xff) as u8);
    out.push(((x >> 16) & 0xff) as u8);
    out.push(((x >> 24) & 0xff) as u8);
    out.push(((x >> 32) & 0xff) as u8);
    out.push(((x >> 40) & 0xff) as u8);
    out.push(((x >> 48) & 0xff) as u8);
    out.push(((x >> 56) & 0xff) as u8);
    assert(out@ =~= old(out)@ + word_bytes(x));
}

/// Appends the four bytes of `x` to `out`.
pub fn push_counter(out: &mut Vec<u8>, x: u32)
    ensures
        final(out)@ == old(out)@ + counter_bytes(x),
{
    out.push((x & 0xff) as u8);
    out.push(((x >> 8) & 0xff) as u8);
    out.push(((x >> 16) & 0xff) as u8);
    out.push(((x >> 24) & 0xff) as u8);
    assert(out@ =~= old(out)@ + counter_bytes(x));
}

/// Reads the word that starts at `at`.
pub fn read_word(s: &[u8], at: usize) -> (x: u64)
    requires
        at + 8 <= s@.len(),
    ensures
        x == word_at(s@, at as int),
{
    (s[at] as u64) | (s[at + 1] as u64) << 8 | (s[at + 2] as u64) << 16 | (s[at + 3] as u64) << 24
        | (s[at + 4] as u64) << 32 | (s[at + 5] as u64) << 40 | (s[at + 6] as u64) << 48 | (s[at + 7] as u64) << 56
}

/// Reads the counter that starts at `at`.
pub fn read_counter(s: &[u8], at: usize) -> (x: u32)
    requires
        at + 4 <= s@.len(),
    ensures
        x == counter_at(s@, at as int),
{
    (s[at] as u32) | (s[at + 1] as u32) << 8 | (s[at + 2] as u32) << 16 | (s[at + 3] as u32) << 24
}

/// A word is read back from its own bytes, wherever they stand.
pub proof fn lemma_word_round_trip(s: Seq<u8>, at: int, x: u64)
    requires
        0 <= at,
        at + 8 <= s.len(),
        s.subrange(at, at + 8) == word_bytes(x),
    ensures
        word_at(s, at) == x,
{
    let w = word_bytes(x);
    assert forall|k: int| 0 <= k < 8 implies s[at + k] == w[k] by {
        assert(s.subrange(at, at + 8)[k] == s[at + k]);
    }
    assert(s[at] == w[0]);
    assert(s[at + 1] == w[1]);
    assert(s[at + 2] == w[2]);
    assert(s[at + 3] == w[3]);
    assert(s[at + 4] == w[4]);
    assert(s[at + 5] == w[5]);
    assert(s[at + 6] == w[6]);
    assert(s[at + 7] == w[7]);
    assert(((x & 0xff) as u8 as u64) | (((x >> 8) & 0xff) as u8 as u64) << 8 | (((x >> 16) & 0xff) as u8 as u64) << 16
        | (((x >> 24) & 0xff) as u8 as u64) << 24 | (((x >> 32) & 0xff) as u8 as u64) << 32 | (((x >> 40)
        & 0xff) as u8 as u64) << 40 | (((x >> 48) & 0xff) as u8 as u64) << 48 | (((x >> 56) & 0xff) as u8 as u64)
        << 56 == x) by (bit_vector);
}

/// A counter is read back from its own bytes, wherever they stand.
pub proof fn lemma_counter_round_trip(s: Seq<u8>, at: int, x: u32)
    requires
        0 <= at,
        at + 4 <= s.len(),
        s.subrange(at, at + 4) == counter_bytes(x),
    ensures
        counter_at(s, at) == x,
{
    let w = counter_bytes(x);
    assert forall|k: int| 0 <= k < 4 implies s[at + k] == w[k] by {
        assert(s.subrange(at, at + 4)[k] == s[at + k]);
    }
    assert(s[at] == w[0]);
    assert(s[at + 1] == w[1]);
    assert(s[at + 2] == w[2]);
    assert(s[at + 3] == w[3]);
    assert(((x & 0xff) as u8 as u32) | (((x >> 8) & 0xff) as u8 as u32) << 8 | (((x >> 16) & 0xff) as u8 as u32) << 16
        | (((x >> 24) & 0xff) as u8 as u32) << 24 == x) by (bit_vector);
}

} // verus!
