//! Word values and the decomposition arithmetic: splitting a word's bits
//! into its even- and odd-position components and reassembling them.

use vstd::prelude::*;

use crate::spread::in_table;
use crate::spread::lemma_table_membership;

verus! {

/// Mask keeping the bits at even positions.
pub const EVEN_MASK: u64 = 0x5555_5555_5555_5555;

/// Mask keeping the bits at odd positions.
pub const ODD_MASK: u64 = 0xAAAA_AAAA_AAAA_AAAA;

/// The even component of a word: the bits at even positions, kept in place.
pub open spec fn even_part(w: u64) -> u64 {
    w & EVEN_MASK
}

/// The odd component of a word: the bits at odd positions, shifted down by
/// one position.
pub open spec fn odd_part(w: u64) -> u64 {
    (w >> 1) & EVEN_MASK
}

/// A variable representing a number: a handle to one constrained cell. The
/// semantic value is present only while witnesses are supplied; during a
/// purely structural pass it is absent.
#[derive(Clone, Debug)]
pub struct Word {
    pub value: Option<u64>,
}

/// Round trip: every word equals its even component plus twice its odd
/// component, so composing a decomposition gives the word back.
pub proof fn lemma_compose_decompose_roundtrip(w: u64)
    ensures
        even_part(w) + 2 * odd_part(w) == w,
{
    assert((w & 0x5555_5555_5555_5555) + 2 * ((w >> 1) & 0x5555_5555_5555_5555) == w)
        by (bit_vector);
}

/// Both components of a decomposition keep every odd bit position zero.
pub proof fn lemma_decompose_components_spread(w: u64)
    ensures
        even_part(w) & ODD_MASK == 0,
        odd_part(w) & ODD_MASK == 0,
        even_part(w) <= w,
        2 * odd_part(w) <= w,
{
    assert((w & 0x5555_5555_5555_5555) & 0xAAAA_AAAA_AAAA_AAAA == 0
        && ((w >> 1) & 0x5555_5555_5555_5555) & 0xAAAA_AAAA_AAAA_AAAA == 0
        && (w & 0x5555_5555_5555_5555) <= w
        && 2 * ((w >> 1) & 0x5555_5555_5555_5555) <= w) by (bit_vector);
}

/// Lookup soundness: the linear relation `c == e + 2·o` alone has many
/// solutions, but among spread-table members the decomposition of `c` is
/// unique — table membership of both components forces them to be exactly
/// the even and odd components of `c`.
pub proof fn lemma_decomposition_unique(c: u64, e: u64, o: u64)
    requires
        c == e + 2 * o,
        in_table(e),
        in_table(o),
    ensures
        c < 0x100,
        e == even_part(c),
        o == odd_part(c),
{
    lemma_table_membership(e);
    lemma_table_membership(o);
    assert(c < 0x100 && e == (c & 0x5555_5555_5555_5555) && o == ((c >> 1)
        & 0x5555_5555_5555_5555)) by (bit_vector)
        requires
            c == e + 2 * o,
            e < 0x100,
            e & 0xAA == 0,
            o < 0x100,
            o & 0xAA == 0,
    ;
}

/// Splits a word's canonical bit representation: the even-position bits are
/// kept in place, the odd-position bits are shifted down by one.
pub fn decompose(word: u64) -> (r: (u64, u64))
    ensures
        r.0 == even_part(word),
        r.1 == odd_part(word),
        word == r.0 + 2 * r.1,
        r.0 & ODD_MASK == 0,
        r.1 & ODD_MASK == 0,
        r.0 <= word,
        2 * r.1 <= word,
{
    let even_only: u64 = word & EVEN_MASK;
    let odd_only: u64 = word & ODD_MASK;
    let odd: u64 = odd_only >> 1;
    proof {
        assert((word & 0xAAAA_AAAA_AAAA_AAAA) >> 1 == (word >> 1) & 0x5555_5555_5555_5555)
            by (bit_vector);
        lemma_compose_decompose_roundtrip(word);
        lemma_decompose_components_spread(word);
    }
    (even_only, odd)
}

} // verus!
