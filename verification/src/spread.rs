//! The spread table: `2^(WORD_BITS/2)` precomputed values, entry `i` holding
//! the bits of `i` spaced out to even bit positions. A lookup against this
//! table is the circuit's only way to certify that a value keeps every odd
//! bit position zero.

use vstd::prelude::*;

verus! {

/// Bit width of the words the circuit operates on. Must be even.
pub const WORD_BITS: u32 = 8;

/// Number of rows in the spread table: `2^(WORD_BITS / 2)`.
pub const TABLE_SIZE: usize = 16;

/// The value obtained by taking the binary digits of `i` and placing digit
/// `k` at bit position `2 * k`, so that every odd bit position is zero.
pub open spec fn spread(i: nat) -> nat
    decreases i,
{
    if i == 0 {
        0
    } else {
        i % 2 + 4 * spread(i / 2)
    }
}

/// `spread` is strictly increasing, hence injective.
pub proof fn lemma_spread_strictly_increasing(i: nat, j: nat)
    requires
        i < j,
    ensures
        spread(i) < spread(j),
    decreases j,
{
    if i / 2 == j / 2 {
        assert(i % 2 == 0 && j % 2 == 1);
    } else {
        lemma_spread_strictly_increasing(i / 2, j / 2);
    }
}

/// Injectivity: no two indices share a table entry, so one lookup pins the
/// index a spread value came from.
pub proof fn lemma_spread_injective(i: nat, j: nat)
    requires
        spread(i) == spread(j),
    ensures
        i == j,
{
    if i < j {
        lemma_spread_strictly_increasing(i, j);
    }
    if j < i {
        lemma_spread_strictly_increasing(j, i);
    }
}

/// `spread` of a 16-bit index fits in 32 bits.
pub proof fn lemma_spread_bound(i: nat)
    requires
        i < 0x10000,
    ensures
        spread(i) < 0x1_0000_0000,
{
    lemma_spread_strictly_increasing(i, 0x10000);
    assert(spread(0x10000) == 0x1_0000_0000) by {
        reveal_with_fuel(spread, 18);
    };
}

/// Placement: a spread value has a zero bit at every odd position.
pub proof fn lemma_spread_placement(i: nat)
    requires
        i < 0x10000,
    ensures
        (spread(i) as u64) & 0xAAAA_AAAA_AAAA_AAAA == 0,
    decreases i,
{
    lemma_spread_bound(i);
    if i == 0 {
        assert(0u64 & 0xAAAA_AAAA_AAAA_AAAA == 0) by (bit_vector);
    } else {
        lemma_spread_placement(i / 2);
        lemma_spread_bound(i / 2);
        let s: u64 = spread(i / 2) as u64;
        let b: u64 = (i % 2) as u64;
        let v: u64 = (b + 4 * s) as u64;
        assert(v & 0xAAAA_AAAA_AAAA_AAAA == 0) by (bit_vector)
            requires
                b <= 1,
                s < 0x1_0000_0000,
                s & 0xAAAA_AAAA_AAAA_AAAA == 0,
                v == b + 4 * s,
        ;
        assert(spread(i) as u64 == v);
    }
}

/// Base-4 digit form of a table entry: for a table index (under
/// `2^(WORD_BITS/2)`), `spread` is the sum of the index's four bits placed
/// at bit positions 0, 2, 4 and 6.
pub proof fn lemma_spread_digits(i: nat)
    requires
        i < 16,
    ensures
        spread(i) == i % 2 + 4 * ((i / 2) % 2) + 16 * ((i / 4) % 2) + 64 * ((i / 8) % 2),
{
    reveal_with_fuel(spread, 6);
    assert(i / 2 / 2 == i / 4);
    assert(i / 4 / 2 == i / 8);
    assert(i / 8 / 2 == 0);
}

/// Membership in the spread table, stated over the table's defining
/// enumeration.
pub open spec fn in_table(v: u64) -> bool {
    exists|i: nat| i < 16 && spread(i) == v as nat
}

/// A value is a table member exactly when it fits in `WORD_BITS` bits and
/// every odd bit position is zero.
pub proof fn lemma_table_membership(v: u64)
    ensures
        in_table(v) <==> (v < 0x100 && v & 0xAA == 0),
{
    if in_table(v) {
        let i = choose|i: nat| i < 16 && spread(i) == v as nat;
        lemma_spread_digits(i);
        let b0: u64 = (i % 2) as u64;
        let b1: u64 = ((i / 2) % 2) as u64;
        let b2: u64 = ((i / 4) % 2) as u64;
        let b3: u64 = ((i / 8) % 2) as u64;
        assert(v < 0x100 && v & 0xAA == 0) by (bit_vector)
            requires
                b0 <= 1,
                b1 <= 1,
                b2 <= 1,
                b3 <= 1,
                v == b0 + 4 * b1 + 16 * b2 + 64 * b3,
        ;
    }
    if v < 0x100 && v & 0xAA == 0 {
        let iw: u64 = (v & 1) | ((v >> 1) & 2) | ((v >> 2) & 4) | ((v >> 3) & 8);
        assert(iw < 16 && (iw % 2) + 4 * ((iw / 2) % 2) + 16 * ((iw / 4) % 2) + 64 * ((iw / 8) % 2)
            == v) by (bit_vector)
            requires
                v < 0x100,
                v & 0xAA == 0,
                iw == (v & 1) | ((v >> 1) & 2) | ((v >> 2) & 4) | ((v >> 3) & 8),
        ;
        lemma_spread_digits(iw as nat);
        assert((iw as nat) < 16 && spread(iw as nat) == v as nat);
    }
}

/// Well-formed spread table: row `i` holds `spread(i)`, for every index the
/// table covers.
pub open spec fn table_wf(t: Seq<u64>) -> bool {
    &&& t.len() == TABLE_SIZE
    &&& forall|i: int| 0 <= i < t.len() ==> #[trigger] t[i] as nat == spread(i as nat)
}

/// Builds the spread table: `2^(WORD_BITS/2)` rows, row `i` holding
/// `spread(i)`.
pub fn alloc_table() -> (t: Vec<u64>)
    ensures
        table_wf(t@),
{
    let mut t: Vec<u64> = Vec::new();
    let mut i: usize = 0;
    while i < TABLE_SIZE
        invariant
            i <= TABLE_SIZE,
            t@.len() == i,
            forall|k: int| 0 <= k < i ==> #[trigger] t@[k] as nat == spread(k as nat),
        decreases TABLE_SIZE - i,
    {
        let entry: usize = even_bits_at(i);
        proof {
            lemma_spread_bound(i as nat);
        }
        t.push(entry as u64);
        i = i + 1;
    }
    t
}

/// Computes `spread(i)`: the table entry for row `i`.
pub fn even_bits_at(i: usize) -> (r: usize)
    requires
        i < 0x10000,
    ensures
        r == spread(i as nat),
{
    proof {
        lemma_spread_bound(i as nat);
    }
    let ghost i0: nat = i as nat;
    let mut i: usize = i;
    let mut r: usize = 0;
    let mut p: usize = 1;
    while i != 0
        invariant
            r + p * spread(i as nat) == spread(i0),
            spread(i0) < 0x1_0000_0000,
            p >= 1,
        decreases i,
    {
        let ghost iv: nat = i as nat;
        let ghost s_full: nat = spread(iv);
        let ghost s_half: nat = spread(iv / 2);
        let ghost bit: nat = iv % 2;
        proof {
            assert(s_full == bit + 4 * s_half);
            assert(p * s_full == p * bit + 4 * (p * s_half)) by (nonlinear_arith)
                requires
                    s_full == bit + 4 * s_half,
            ;
            assert((iv % 2) * p == p * bit) by (nonlinear_arith)
                requires
                    bit == iv % 2,
            ;
        }
        let b: usize = i % 2;
        r = r + b * p;
        i = i / 2;
        proof {
            assert(i as nat == iv / 2);
        }
        if i != 0 {
            proof {
                lemma_spread_strictly_increasing(0, iv / 2);
                assert(4 * p <= p * s_full) by (nonlinear_arith)
                    requires
                        p >= 1,
                        s_full >= 4,
                ;
                assert((p * 4) * s_half == 4 * (p * s_half)) by (nonlinear_arith);
            }
            p = p * 4;
        } else {
            proof {
                assert(p * s_half == 0) by (nonlinear_arith)
                    requires
                        s_half == 0,
                ;
            }
        }
    }
    proof {
        assert(spread(i as nat) == 0);
        assert(p * spread(i as nat) == 0) by (nonlinear_arith)
            requires
                spread(i as nat) == 0,
        ;
    }
    r
}

} // verus!
