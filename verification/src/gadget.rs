//! The reusable gate set operating on `Word` handles: loading a private
//! value, slot-wise addition, decomposition with its table lookups, and
//! recomposition. Each operation computes the witness values it assigns,
//! and its contract ties those values to its gate's relation.

use vstd::prelude::*;

use crate::spread::alloc_table;
use crate::spread::table_wf;
use crate::word::Word;
use crate::word::decompose;
use crate::word::even_part;
use crate::word::odd_part;

verus! {

/// A gadget operation needed a concrete witness value during a pass that
/// requires one, and the input handle carried none. Raised synchronously by
/// the operation itself, unlike a constraint violation, which only the
/// backend's global satisfiability check can detect.
#[derive(Clone, Copy, Debug, PartialEq, Eq, Structural)]
pub enum SynthesisError {
    MissingWitness,
}

/// The add gate's polynomial relation, `selector · (lhs + rhs − out) = 0`:
/// on rows where the selector is on, the output cell holds the sum.
pub open spec fn add_gate_holds(lhs: u64, rhs: u64, out: u64) -> bool {
    out == lhs + rhs
}

/// The decompose gate's polynomial relation,
/// `selector · (even + 2·odd − out) = 0`. The decompose selector also
/// enables the two lookups of `even` and `odd` in the spread table; those
/// are stated separately, where a whole assignment is judged.
pub open spec fn decompose_gate_holds(even: u64, odd: u64, out: u64) -> bool {
    out == even + 2 * odd
}

/// The compose gate's polynomial relation,
/// `selector · (lhs + 2·rhs − out) = 0`: the same linear form as the
/// decompose gate, but with no lookup attached.
pub open spec fn compose_gate_holds(lhs: u64, rhs: u64, out: u64) -> bool {
    out == lhs + 2 * rhs
}

/// Chip state produced at configuration time: the spread table the lookups
/// run against. Column and selector bookkeeping stays with the backend.
#[derive(Clone, Debug)]
pub struct AndConfig {
    pub even_bits: Vec<u64>,
}

impl AndConfig {
    /// A usable configuration: the spread table is fully built.
    pub open spec fn wf(self) -> bool {
        table_wf(self.even_bits@)
    }
}

/// The chip implementing the word operations; it stores its configuration.
pub struct AndChip {
    pub config: AndConfig,
}

impl AndChip {
    /// Wraps an existing configuration.
    pub fn construct(config: AndConfig) -> (chip: AndChip)
        ensures
            chip.config == config,
    {
        AndChip { config }
    }

    /// Declares the chip's gates — `add_gate_holds`,
    /// `decompose_gate_holds` with its two table lookups, and
    /// `compose_gate_holds` — and builds the spread table.
    pub fn configure() -> (config: AndConfig)
        ensures
            config.wf(),
    {
        AndConfig { even_bits: alloc_table() }
    }

    /// The chip's configuration.
    pub fn config(&self) -> (config: &AndConfig)
        ensures
            config == self.config,
    {
        &self.config
    }

    /// Loads a number into the circuit as a private input: assigns the
    /// value into a fresh cell, with no algebraic constraint beyond cell
    /// existence. Fails with the witness-absence signal if the value is
    /// missing.
    pub fn load_private(&self, value: Option<u64>) -> (r: Result<Word, SynthesisError>)
        ensures
            match r {
                Ok(w) => value.is_some() && w.value == value,
                Err(e) => value.is_none() && e == SynthesisError::MissingWitness,
            },
    {
        match value {
            Some(v) => Ok(Word { value: Some(v) }),
            None => Err(SynthesisError::MissingWitness),
        }
    }

    /// Allocates an output cell holding `a + b` and enforces the add gate
    /// relation on the three cells.
    pub fn add(&self, a: &Word, b: &Word) -> (r: Result<Word, SynthesisError>)
        requires
            a.value.is_some() && b.value.is_some() ==> a.value.unwrap() + b.value.unwrap()
                <= u64::MAX,
        ensures
            match r {
                Ok(out) => {
                    &&& a.value.is_some()
                    &&& b.value.is_some()
                    &&& out.value == Some((a.value.unwrap() + b.value.unwrap()) as u64)
                    &&& add_gate_holds(a.value.unwrap(), b.value.unwrap(), out.value.unwrap())
                },
                Err(e) => {
                    &&& a.value.is_none() || b.value.is_none()
                    &&& e == SynthesisError::MissingWitness
                },
            },
    {
        match (a.value, b.value) {
            (Some(x), Some(y)) => Ok(Word { value: Some(x + y) }),
            _ => Err(SynthesisError::MissingWitness),
        }
    }

    /// Splits `c` into its even and odd components, enforcing the
    /// decompose gate relation `c == even + 2·odd` together with a spread
    /// table lookup of each component — the lookups are what make the
    /// split sound, since the linear relation alone has many solutions.
    pub fn verify_decompose(&self, c: &Word) -> (r: Result<(Word, Word), SynthesisError>)
        ensures
            match r {
                Ok(out) => {
                    &&& c.value.is_some()
                    &&& out.0.value == Some(even_part(c.value.unwrap()))
                    &&& out.1.value == Some(odd_part(c.value.unwrap()))
                    &&& decompose_gate_holds(
                        out.0.value.unwrap(),
                        out.1.value.unwrap(),
                        c.value.unwrap(),
                    )
                },
                Err(e) => c.value.is_none() && e == SynthesisError::MissingWitness,
            },
    {
        match c.value {
            Some(v) => {
                let eo = decompose(v);
                Ok((Word { value: Some(eo.0) }, Word { value: Some(eo.1) }))
            },
            None => Err(SynthesisError::MissingWitness),
        }
    }

    /// Allocates an output cell holding `a + 2·b` and enforces the compose
    /// gate relation: the inverse arithmetic of decompose, with no lookup.
    pub fn compose(&self, a: &Word, b: &Word) -> (r: Result<Word, SynthesisError>)
        requires
            a.value.is_some() && b.value.is_some() ==> a.value.unwrap() + 2 * b.value.unwrap()
                <= u64::MAX,
        ensures
            match r {
                Ok(out) => {
                    &&& a.value.is_some()
                    &&& b.value.is_some()
                    &&& out.value == Some((a.value.unwrap() + 2 * b.value.unwrap()) as u64)
                    &&& compose_gate_holds(a.value.unwrap(), b.value.unwrap(), out.value.unwrap())
                },
                Err(e) => {
                    &&& a.value.is_none() || b.value.is_none()
                    &&& e == SynthesisError::MissingWitness
                },
            },
    {
        match (a.value, b.value) {
            (Some(x), Some(y)) => Ok(Word { value: Some(x + 2 * y) }),
            _ => Err(SynthesisError::MissingWitness),
        }
    }

    /// Binds a word's cell to the public-input slot at index `row`: the
    /// returned value is what the prover must claim there for the proof to
    /// be accepted. The circuit has exactly one public slot, at row 0.
    pub fn expose_public(&self, num: &Word, row: usize) -> (r: Result<u64, SynthesisError>)
        requires
            row == 0,
        ensures
            match r {
                Ok(v) => num.value == Some(v),
                Err(e) => num.value.is_none() && e == SynthesisError::MissingWitness,
            },
    {
        match num.value {
            Some(v) => Ok(v),
            None => Err(SynthesisError::MissingWitness),
        }
    }
}

} // verus!
