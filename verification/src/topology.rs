//! The fixed pipeline wiring the gadget operations into the AND proof, and
//! the model of the backend's global satisfiability check: which whole
//! assignments the declared gates and lookups accept, with proofs that the
//! encoding is sound and complete.

use vstd::prelude::*;

use crate::gadget::AndChip;
use crate::gadget::AndConfig;
use crate::gadget::SynthesisError;
use crate::gadget::add_gate_holds;
use crate::gadget::compose_gate_holds;
use crate::gadget::decompose_gate_holds;
use crate::spread::in_table;
use crate::spread::lemma_table_membership;
use crate::spread::spread;
use crate::word::even_part;
use crate::word::lemma_decompose_components_spread;
use crate::word::odd_part;

verus! {

/// One value per logical cell assigned over a run of the pipeline. The
/// backend's equality constraints force every copy of a handle's cell to
/// hold the same value, which the model reflects by giving each logical
/// value a single field.
#[derive(Clone, Copy, Debug, PartialEq, Eq, Structural)]
pub struct Trace {
    /// The two loaded private inputs.
    pub a: u64,
    pub b: u64,
    /// Even and odd components claimed for `a`.
    pub ae: u64,
    pub ao: u64,
    /// Even and odd components claimed for `b`.
    pub be: u64,
    pub bo: u64,
    /// Slot-wise sums of the even-position and odd-position components.
    pub e: u64,
    pub o: u64,
    /// Components claimed for `e`: the odd one holds the AND of the
    /// even-position input bits.
    pub ee: u64,
    pub eo: u64,
    /// Components claimed for `o`, likewise.
    pub oe: u64,
    pub oo: u64,
    /// The reassembled output, bound to the public-input slot.
    pub result: u64,
}

/// The whole constraint system over one assignment: the four decompose
/// regions (each with the linear gate and the two table lookups), the two
/// add regions, the compose region, and the binding of the output cell to
/// the public input. A proof is accepted exactly when this holds.
pub open spec fn trace_satisfies(t: Trace, public_input: u64) -> bool {
    &&& decompose_gate_holds(t.ae, t.ao, t.a)
    &&& in_table(t.ae)
    &&& in_table(t.ao)
    &&& decompose_gate_holds(t.be, t.bo, t.b)
    &&& in_table(t.be)
    &&& in_table(t.bo)
    &&& add_gate_holds(t.ae, t.be, t.e)
    &&& add_gate_holds(t.ao, t.bo, t.o)
    &&& decompose_gate_holds(t.ee, t.eo, t.e)
    &&& in_table(t.ee)
    &&& in_table(t.eo)
    &&& decompose_gate_holds(t.oe, t.oo, t.o)
    &&& in_table(t.oe)
    &&& in_table(t.oo)
    &&& compose_gate_holds(t.eo, t.oo, t.result)
    &&& public_input == t.result
}

/// The lookup argument's check: scans the spread table for `v`.
pub fn lookup_even_bits(config: &AndConfig, v: u64) -> (r: bool)
    requires
        config.wf(),
    ensures
        r == in_table(v),
{
    let n: usize = config.even_bits.len();
    let mut j: usize = 0;
    while j < n
        invariant
            config.wf(),
            j <= n,
            n == config.even_bits@.len(),
            forall|k: int| 0 <= k < j ==> config.even_bits@[k] != v,
        decreases n - j,
    {
        if config.even_bits[j] == v {
            proof {
                assert(config.even_bits@[j as int] as nat == spread(j as nat));
                assert((j as nat) < 16 && spread(j as nat) == v as nat);
            }
            return true;
        }
        j = j + 1;
    }
    proof {
        if in_table(v) {
            let i = choose|i: nat| i < 16 && spread(i) == v as nat;
            assert(config.even_bits@[i as int] as nat == spread(i));
        }
    }
    false
}

/// Evaluates every gate and lookup of the circuit on one assignment, as the
/// backend's satisfiability check does: true exactly when a proof built
/// from this assignment would be accepted.
pub fn check_trace(config: &AndConfig, t: &Trace, public_input: u64) -> (r: bool)
    requires
        config.wf(),
    ensures
        r == trace_satisfies(*t, public_input),
{
    let r: bool = linear_gate(t.ae, t.ao, t.a) && lookup_even_bits(config, t.ae)
        && lookup_even_bits(config, t.ao) && linear_gate(t.be, t.bo, t.b)
        && lookup_even_bits(config, t.be) && lookup_even_bits(config, t.bo)
        && sum_gate(t.ae, t.be, t.e) && sum_gate(t.ao, t.bo, t.o)
        && linear_gate(t.ee, t.eo, t.e) && lookup_even_bits(config, t.ee)
        && lookup_even_bits(config, t.eo) && linear_gate(t.oe, t.oo, t.o)
        && lookup_even_bits(config, t.oe) && lookup_even_bits(config, t.oo)
        && linear_gate(t.eo, t.oo, t.result) && public_input == t.result;
    r
}

/// Evaluates the shared linear form `out == lhs + 2·rhs` of the decompose
/// and compose gates, in arithmetic wide enough never to wrap.
fn linear_gate(lhs: u64, rhs: u64, out: u64) -> (r: bool)
    ensures
        r == decompose_gate_holds(lhs, rhs, out),
        r == compose_gate_holds(lhs, rhs, out),
{
    (out as u128) == (lhs as u128) + 2 * (rhs as u128)
}

/// Evaluates the add gate's relation `out == lhs + rhs`, in arithmetic wide
/// enough never to wrap.
fn sum_gate(lhs: u64, rhs: u64, out: u64) -> (r: bool)
    ensures
        r == add_gate_holds(lhs, rhs, out),
{
    (out as u128) == (lhs as u128) + (rhs as u128)
}

/// Soundness of the encoding: any assignment the constraint system accepts
/// has private inputs that fit in `WORD_BITS` bits and a public input equal
/// to their bitwise AND — whatever values the prover chose to supply.
pub proof fn lemma_pipeline_sound(t: Trace, public_input: u64)
    requires
        trace_satisfies(t, public_input),
    ensures
        t.a < 0x100,
        t.b < 0x100,
        public_input == t.a & t.b,
{
    lemma_table_membership(t.ae);
    lemma_table_membership(t.ao);
    lemma_table_membership(t.be);
    lemma_table_membership(t.bo);
    lemma_table_membership(t.ee);
    lemma_table_membership(t.eo);
    lemma_table_membership(t.oe);
    lemma_table_membership(t.oo);
    let a = t.a;
    let b = t.b;
    let ae = t.ae;
    let ao = t.ao;
    let be = t.be;
    let bo = t.bo;
    let e = t.e;
    let o = t.o;
    let ee = t.ee;
    let eo = t.eo;
    let oe = t.oe;
    let oo = t.oo;
    let res = t.result;
    assert(a < 0x100 && b < 0x100 && res == (a & b)) by (bit_vector)
        requires
            a == ae + 2 * ao,
            b == be + 2 * bo,
            e == ae + be,
            o == ao + bo,
            e == ee + 2 * eo,
            o == oe + 2 * oo,
            res == eo + 2 * oo,
            ae < 0x100 && ae & 0xAA == 0,
            ao < 0x100 && ao & 0xAA == 0,
            be < 0x100 && be & 0xAA == 0,
            bo < 0x100 && bo & 0xAA == 0,
            ee < 0x100 && ee & 0xAA == 0,
            eo < 0x100 && eo & 0xAA == 0,
            oe < 0x100 && oe & 0xAA == 0,
            oo < 0x100 && oo & 0xAA == 0,
    ;
}

/// Rejection: the constraint system accepts no assignment whose public
/// input differs from the AND of the private inputs it loads.
pub proof fn lemma_wrong_public_rejected(t: Trace, public_input: u64)
    requires
        public_input != t.a & t.b,
    ensures
        !trace_satisfies(t, public_input),
{
    if trace_satisfies(t, public_input) {
        lemma_pipeline_sound(t, public_input);
    }
}

/// The full circuit: the two private inputs, each absent during the
/// structural pass and present during proving.
pub struct MyCircuit {
    pub a: Option<u64>,
    pub b: Option<u64>,
}

impl MyCircuit {
    /// The instance handed to the structural pass: both witnesses absent.
    pub fn without_witnesses(&self) -> (c: MyCircuit)
        ensures
            c.a.is_none(),
            c.b.is_none(),
    {
        MyCircuit { a: None, b: None }
    }

    /// Declares the circuit's gates and builds the spread table; the
    /// single chip's configuration is reused for the whole circuit.
    pub fn configure() -> (config: AndConfig)
        ensures
            config.wf(),
    {
        AndChip::configure()
    }

    /// The witness-bearing synthesis pass: runs the fixed pipeline — load
    /// the two inputs, decompose each, add the components slot-wise,
    /// decompose the two sums, compose the carries, expose the output —
    /// and returns every value assigned. Completeness: the returned
    /// assignment satisfies the whole constraint system with the bitwise
    /// AND of the inputs as the public input. A missing private input
    /// aborts the pass with the witness-absence error before any
    /// constraint is checked.
    pub fn synthesize(&self, config: AndConfig) -> (r: Result<Trace, SynthesisError>)
        requires
            config.wf(),
            self.a.is_some() ==> self.a.unwrap() < 0x100,
            self.b.is_some() ==> self.b.unwrap() < 0x100,
        ensures
            match r {
                Ok(t) => {
                    &&& self.a.is_some() && self.b.is_some()
                    &&& t.a == self.a.unwrap()
                    &&& t.b == self.b.unwrap()
                    &&& t.result == t.a & t.b
                    &&& trace_satisfies(t, t.a & t.b)
                },
                Err(e) => {
                    &&& self.a.is_none() || self.b.is_none()
                    &&& e == SynthesisError::MissingWitness
                },
            },
    {
        let chip = AndChip::construct(config);
        let a = match chip.load_private(self.a) {
            Ok(w) => w,
            Err(e) => {
                return Err(e);
            },
        };
        let b = match chip.load_private(self.b) {
            Ok(w) => w,
            Err(e) => {
                return Err(e);
            },
        };
        let (ae, ao) = match chip.verify_decompose(&a) {
            Ok(p) => p,
            Err(e) => {
                return Err(e);
            },
        };
        let (be, bo) = match chip.verify_decompose(&b) {
            Ok(p) => p,
            Err(e) => {
                return Err(e);
            },
        };
        proof {
            lemma_decompose_components_spread(a.value.unwrap());
            lemma_decompose_components_spread(b.value.unwrap());
        }
        let e = match chip.add(&ae, &be) {
            Ok(w) => w,
            Err(e) => {
                return Err(e);
            },
        };
        let o = match chip.add(&ao, &bo) {
            Ok(w) => w,
            Err(e) => {
                return Err(e);
            },
        };
        let (ee, eo) = match chip.verify_decompose(&e) {
            Ok(p) => p,
            Err(e) => {
                return Err(e);
            },
        };
        let (oe, oo) = match chip.verify_decompose(&o) {
            Ok(p) => p,
            Err(e) => {
                return Err(e);
            },
        };
        proof {
            lemma_decompose_components_spread(e.value.unwrap());
            lemma_decompose_components_spread(o.value.unwrap());
        }
        let a_and_b = match chip.compose(&eo, &oo) {
            Ok(w) => w,
            Err(e) => {
                return Err(e);
            },
        };
        let public_value: u64 = match chip.expose_public(&a_and_b, 0) {
            Ok(v) => v,
            Err(e) => {
                return Err(e);
            },
        };
        let t = Trace {
            a: a.value.unwrap(),
            b: b.value.unwrap(),
            ae: ae.value.unwrap(),
            ao: ao.value.unwrap(),
            be: be.value.unwrap(),
            bo: bo.value.unwrap(),
            e: e.value.unwrap(),
            o: o.value.unwrap(),
            ee: ee.value.unwrap(),
            eo: eo.value.unwrap(),
            oe: oe.value.unwrap(),
            oo: oo.value.unwrap(),
            result: public_value,
        };
        proof {
            lemma_pipeline_complete_trace(t);
        }
        Ok(t)
    }
}

/// Completeness of the honest witness computation: an assignment whose
/// cells were filled exactly as the pipeline fills them satisfies every
/// gate and lookup, and its output is the bitwise AND of the inputs.
pub proof fn lemma_pipeline_complete_trace(t: Trace)
    requires
        t.a < 0x100,
        t.b < 0x100,
        t.ae == even_part(t.a),
        t.ao == odd_part(t.a),
        t.be == even_part(t.b),
        t.bo == odd_part(t.b),
        t.e == t.ae + t.be,
        t.o == t.ao + t.bo,
        t.ee == even_part(t.e),
        t.eo == odd_part(t.e),
        t.oe == even_part(t.o),
        t.oo == odd_part(t.o),
        t.result == t.eo + 2 * t.oo,
    ensures
        t.result == t.a & t.b,
        trace_satisfies(t, t.a & t.b),
{
    let a = t.a;
    let b = t.b;
    let ae = t.ae;
    let ao = t.ao;
    let be = t.be;
    let bo = t.bo;
    let e = t.e;
    let o = t.o;
    let ee = t.ee;
    let eo = t.eo;
    let oe = t.oe;
    let oo = t.oo;
    let res = t.result;
    assert(ae < 0x100 && ae & 0xAA == 0 && ao < 0x100 && ao & 0xAA == 0 && be < 0x100 && be & 0xAA
        == 0 && bo < 0x100 && bo & 0xAA == 0 && ee < 0x100 && ee & 0xAA == 0 && eo < 0x100 && eo
        & 0xAA == 0 && oe < 0x100 && oe & 0xAA == 0 && oo < 0x100 && oo & 0xAA == 0 && res == (a
        & b) && a == ae + 2 * ao && b == be + 2 * bo && e == ee + 2 * eo && o == oe + 2 * oo)
        by (bit_vector)
        requires
            a < 0x100,
            b < 0x100,
            ae == even_part(a),
            ao == odd_part(a),
            be == even_part(b),
            bo == odd_part(b),
            e == ae + be,
            o == ao + bo,
            ee == even_part(e),
            eo == odd_part(e),
            oe == even_part(o),
            oo == odd_part(o),
            res == eo + 2 * oo,
    ;
    lemma_table_membership(ae);
    lemma_table_membership(ao);
    lemma_table_membership(be);
    lemma_table_membership(bo);
    lemma_table_membership(ee);
    lemma_table_membership(eo);
    lemma_table_membership(oe);
    lemma_table_membership(oo);
}

} // verus!
