//! The low-pass stage: a second-order filter section that is run over a row
//! of samples from the first to the last and then, without a fresh start,
//! from the last to the first, so that the delay of the first pass is undone
//! by the second. Samples that the filter takes below zero become zero.
//!
//! The samples are in millionths. The coefficients, and what the section
//! remembers between two samples, are in millionths of a millionth.

use crate::config::FilterCoefficients;
use crate::fixed::{
    div_toward_zero, lemma_trunc_div_bounds, saturate, saturate_i128, trunc_div,
};
use vstd::prelude::*;

verus! {

/// What the section remembers between two samples, in millionths of a
/// millionth.
#[derive(Debug, PartialEq, Eq, Structural, Clone, Copy)]
pub struct FilterState {
    pub s1: i64,
    pub s2: i64,
}

/// A coefficient times a sample, in millionths of a millionth.
pub open spec fn weighted(coefficient: i64, sample: i64) -> int {
    trunc_div(coefficient * sample, 1_000_000)
}

/// A coefficient times an output of the section, in millionths of a
/// millionth.
pub open spec fn fed_back(coefficient: i64, output: i64) -> int {
    trunc_div(coefficient * output, 1_000_000_000_000)
}

/// What the section puts out for the sample `x`, in millionths of a
/// millionth.
pub open spec fn step_fine(c: FilterCoefficients, state: FilterState, x: i64) -> i64 {
    saturate(state.s1 + weighted(c.b0, x)) as i64
}

/// What the section hands out for the sample `x`, in millionths.
pub open spec fn step_output(c: FilterCoefficients, state: FilterState, x: i64) -> i64 {
    trunc_div(step_fine(c, state, x) as int, 1_000_000) as i64
}

/// What the section remembers after the sample `x`.
pub open spec fn step_state(c: FilterCoefficients, state: FilterState, x: i64) -> FilterState {
    let out = step_fine(c, state, x);
    FilterState {
        s1: saturate(state.s2 + weighted(c.b1, x) - fed_back(c.a1, out)) as i64,
        s2: saturate(weighted(c.b2, x) - fed_back(c.a2, out)) as i64,
    }
}

/// What the section remembers after all of `inputs`, having started from
/// `state`.
pub open spec fn state_after(c: FilterCoefficients, state: FilterState, inputs: Seq<i64>)
    -> FilterState
    decreases inputs.len(),
{
    if inputs.len() == 0 {
        state
    } else {
        step_state(c, state_after(c, state, inputs.drop_last()), inputs.last())
    }
}

/// The filtered sample at position `k` of one pass, never below zero.
pub open spec fn pass_output(c: FilterCoefficients, state: FilterState, inputs: Seq<i64>, k: int)
    -> i64 {
    let out = step_output(c, state_after(c, state, inputs.take(k)), inputs[k]);
    if out < 0 {
        0
    } else {
        out
    }
}

/// One pass over `inputs` from the first sample to the last.
pub open spec fn pass(c: FilterCoefficients, state: FilterState, inputs: Seq<i64>) -> Seq<i64> {
    Seq::new(inputs.len(), |k: int| pass_output(c, state, inputs, k))
}

/// A row after both passes: forward from rest, then backward from what the
/// forward pass left in the section.
pub open spec fn zero_phase(c: FilterCoefficients, row: Seq<i64>) -> Seq<i64> {
    let rest = FilterState { s1: 0, s2: 0 };
    let forward = pass(c, rest, row);
    pass(c, state_after(c, rest, row), forward.reverse()).reverse()
}

/// Both passes keep the number of samples and leave none below zero.
pub proof fn lemma_zero_phase_shape(c: FilterCoefficients, row: Seq<i64>)
    ensures
        zero_phase(c, row).len() == row.len(),
        forall|j: int| 0 <= j < row.len() ==> #[trigger] zero_phase(c, row)[j] >= 0,
{
}

/// The product of two stored numbers over a unit of a million or of a
/// million millions, rounded toward zero.
fn scaled(a: i64, b: i64, fine: bool) -> (q: i128)
    ensures
        q == trunc_div(a * b, if fine { 1_000_000_000_000int } else { 1_000_000int }),
        -0x800_0000_0000_0000_0000_0000_0000 <= q <= 0x800_0000_0000_0000_0000_0000_0000,
{
    let unit: i128 = if fine {
        1_000_000_000_000
    } else {
        1_000_000
    };
    assert(-0x4000_0000_0000_0000_0000_0000_0000_0000 <= (a as int) * (b as int)
        <= 0x4000_0000_0000_0000_0000_0000_0000_0000) by (nonlinear_arith)
        requires
            -0x8000_0000_0000_0000 <= a as int <= 0x7fff_ffff_ffff_ffff,
            -0x8000_0000_0000_0000 <= b as int <= 0x7fff_ffff_ffff_ffff,
    ;
    proof {
        lemma_trunc_div_bounds((a as int) * (b as int), unit as int);
    }
    div_toward_zero((a as i128) * (b as i128), unit)
}

/// Feeds one sample to the section: what it hands out, in millionths, and
/// what it remembers.
pub fn step(c: &FilterCoefficients, state: FilterState, x: i64) -> (r: (i64, FilterState))
    ensures
        r.0 == step_output(*c, state, x),
        r.1 == step_state(*c, state, x),
{
    let out = saturate_i128(state.s1 as i128 + scaled(c.b0, x, false));
    let s1 = saturate_i128(
        state.s2 as i128 + scaled(c.b1, x, false) - scaled(c.a1, out, true),
    );
    let s2 = saturate_i128(scaled(c.b2, x, false) - scaled(c.a2, out, true));
    let sample = div_toward_zero(out as i128, 1_000_000);
    (sample as i64, FilterState { s1, s2 })
}

/// Runs one pass over `inputs`, starting from `state`.
pub fn run_pass(c: &FilterCoefficients, state: FilterState, inputs: &Vec<i64>) -> (r: (
    Vec<i64>,
    FilterState,
))
    ensures
        r.0@ == pass(*c, state, inputs@),
        r.1 == state_after(*c, state, inputs@),
{
    let mut out: Vec<i64> = Vec::new();
    let mut current = state;
    let mut k: usize = 0;
    while k < inputs.len()
        invariant
            k <= inputs.len(),
            out@.len() == k,
            current == state_after(*c, state, inputs@.take(k as int)),
            forall|j: int| 0 <= j < k ==> #[trigger] out@[j] == pass_output(*c, state, inputs@, j),
        decreases inputs.len() - k,
    {
        let (y, next) = step(c, current, inputs[k]);
        proof {
            assert(inputs@.take(k as int + 1).drop_last() =~= inputs@.take(k as int));
        }
        out.push(if y < 0 {
            0
        } else {
            y
        });
        current = next;
        k += 1;
    }
    proof {
        assert(inputs@.take(k as int) =~= inputs@);
        assert(out@ =~= pass(*c, state, inputs@));
    }
    (out, current)
}

/// The samples in the opposite order.
pub fn reversed(row: &Vec<i64>) -> (out: Vec<i64>)
    ensures
        out@ == row@.reverse(),
{
    let mut out: Vec<i64> = Vec::new();
    let n = row.len();
    let mut k: usize = 0;
    while k < n
        invariant
            k <= n,
            n == row@.len(),
            out@.len() == k,
            forall|j: int| 0 <= j < k ==> #[trigger] out@[j] == row@[n - 1 - j],
        decreases n - k,
    {
        out.push(row[n - 1 - k]);
        k += 1;
    }
    proof {
        assert(out@ =~= row@.reverse());
    }
    out
}

/// Smooths a row: one pass forward from rest, then one pass backward that
/// starts from what the forward pass left in the section. No sample of the
/// result is below zero.
pub fn filter_zero_phase(c: &FilterCoefficients, row: &Vec<i64>) -> (out: Vec<i64>)
    ensures
        out@ == zero_phase(*c, row@),
        out@.len() == row@.len(),
{
    let rest = FilterState { s1: 0, s2: 0 };
    let (forward, end) = run_pass(c, rest, row);
    let backward_in = reversed(&forward);
    let (backward, _) = run_pass(c, end, &backward_in);
    reversed(&backward)
}

} // verus!
