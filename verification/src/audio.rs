//! Index arithmetic of the linear-interpolation resampler.
//!
//! The capture pipeline converts device audio at `in_rate` Hz to the
//! recognizer's rate of `out_rate` Hz by linear interpolation: output
//! sample `i` is read at source position `i * in_rate / out_rate`,
//! blending the samples on either side of it. The blending itself is
//! floating-point and lives with the capture code; the part that
//! decides *which* samples to blend, *with which weight*, and *how
//! many* outputs there are, is exact rational arithmetic and is proved
//! here. The interpolation weight is the fraction
//! `frac_num / frac_den`.

use vstd::arithmetic::div_mod::{lemma_fundamental_div_mod, lemma_fundamental_div_mod_converse};
use vstd::prelude::*;

verus! {

/// Number of output samples: `ceil(n * out_rate / in_rate)`, the
/// output length of resampling `n` input samples by the ratio
/// `out_rate / in_rate`.
pub open spec fn out_len_spec(n: int, out_rate: int, in_rate: int) -> int {
    (n * out_rate + in_rate - 1) / in_rate
}

/// One output sample of the resampler: blend input sample `lo` with
/// weight `1 - frac` and input sample `hi` with weight
/// `frac = frac_num / frac_den`.
pub struct ResampleStep {
    /// Index of the source sample at or before the read position.
    pub lo: usize,
    /// Index of the following source sample, clamped to the last one.
    pub hi: usize,
    /// Numerator of the interpolation weight.
    pub frac_num: u32,
    /// Denominator of the interpolation weight; always `out_rate`.
    pub frac_den: u32,
}

/// The step for output index `i` reads source position
/// `i * in_rate / out_rate`: integer part `lo`, fractional part
/// `frac_num / out_rate`, and `hi` the next sample clamped to the end.
pub open spec fn step_ok(s: ResampleStep, i: int, n: int, out_rate: int, in_rate: int) -> bool {
    &&& s.lo == (i * in_rate) / out_rate
    &&& s.frac_num == (i * in_rate) % out_rate
    &&& s.frac_den == out_rate
    &&& 0 <= s.lo < n
    &&& s.hi == if s.lo + 1 < n {
        s.lo + 1
    } else {
        n - 1
    }
}

/// The resampler's near-unity rule: the ratio `out_rate / in_rate`
/// is within 0.001 of 1, written in exact integers as
/// `1000 * |out_rate - in_rate| < in_rate`. At such a ratio no
/// interpolation is performed: the output is an exact copy.
pub open spec fn near_unity(out_rate: int, in_rate: int) -> bool {
    1000 * (if out_rate >= in_rate {
        out_rate - in_rate
    } else {
        in_rate - out_rate
    }) < in_rate
}

/// The step for output index `i` under the near-unity rule: read
/// sample `i` itself, with interpolation weight zero, so that the
/// output copies the input exactly.
pub open spec fn step_identity(s: ResampleStep, i: int, n: int) -> bool {
    &&& s.lo == i
    &&& s.frac_num == 0
    &&& 0 <= i < n
    &&& s.hi == if i + 1 < n {
        i + 1
    } else {
        n - 1
    }
}

/// Every read position of the plan lies inside the input: for output
/// index `i < ceil(n * out / in)` the integer source index is below `n`.
proof fn lemma_src_index_in_range(n: int, out_rate: int, in_rate: int, i: int)
    requires
        n >= 0,
        out_rate >= 1,
        in_rate >= 1,
        0 <= i < out_len_spec(n, out_rate, in_rate),
    ensures
        i * in_rate < n * out_rate,
        0 <= (i * in_rate) / out_rate < n,
{
    let q = out_len_spec(n, out_rate, in_rate);
    lemma_fundamental_div_mod(n * out_rate + in_rate - 1, in_rate);
    // q * in_rate <= n * out_rate + in_rate - 1
    assert(i * in_rate <= (q - 1) * in_rate) by (nonlinear_arith)
        requires
            i <= q - 1,
            in_rate >= 1,
    ;
    assert((q - 1) * in_rate == q * in_rate - in_rate) by (nonlinear_arith);
    assert(q * in_rate <= n * out_rate + in_rate - 1) by (nonlinear_arith)
        requires
            n * out_rate + in_rate - 1 == in_rate * q + (n * out_rate + in_rate - 1) % in_rate,
            (n * out_rate + in_rate - 1) % in_rate >= 0,
    ;
    assert(i * in_rate < n * out_rate);
    // hence the integer source index is at most n - 1
    assert(n * out_rate - 1 == (n - 1) * out_rate + (out_rate - 1)) by (nonlinear_arith);
    lemma_fundamental_div_mod_converse(n * out_rate - 1, out_rate, n - 1, out_rate - 1);
    assert((i * in_rate) / out_rate <= (n * out_rate - 1) / out_rate) by {
        vstd::arithmetic::div_mod::lemma_div_is_ordered(i * in_rate, n * out_rate - 1, out_rate);
    }
    assert(0 <= (i * in_rate) / out_rate) by {
        vstd::arithmetic::div_mod::lemma_div_pos_is_pos(i * in_rate, out_rate);
        assert(i * in_rate >= 0) by (nonlinear_arith)
            requires
                i >= 0,
                in_rate >= 1,
        ;
    }
}

/// A plan with a positive number of outputs has input to read.
proof fn lemma_out_len_pos(n: int, out_rate: int, in_rate: int)
    requires
        n >= 0,
        out_rate >= 1,
        in_rate >= 1,
        out_len_spec(n, out_rate, in_rate) > 0,
    ensures
        n >= 1,
{
    if n == 0 {
        assert(n * out_rate == 0) by (nonlinear_arith)
            requires
                n == 0,
        ;
        assert(in_rate - 1 == 0 * in_rate + (in_rate - 1)) by (nonlinear_arith);
        lemma_fundamental_div_mod_converse(in_rate - 1, in_rate, 0, in_rate - 1);
    }
}

/// With equal rates the plan is the identity: one output per input,
/// read exactly at it, with interpolation weight zero.
pub proof fn lemma_equal_rates_identity(n: int, rate: int, i: int)
    requires
        n >= 0,
        rate >= 1,
        0 <= i < n,
    ensures
        out_len_spec(n, rate, rate) == n,
        (i * rate) / rate == i,
        (i * rate) % rate == 0,
{
    assert(n * rate + rate - 1 == n * rate + (rate - 1)) by (nonlinear_arith);
    lemma_fundamental_div_mod_converse(n * rate + rate - 1, rate, n, rate - 1);
    assert(i * rate == i * rate + 0) by (nonlinear_arith);
    lemma_fundamental_div_mod_converse(i * rate, rate, i, 0);
}

/// The interpolation plan for resampling `n` input samples from
/// `in_rate` Hz to `out_rate` Hz: one step per output sample, which
/// the capture code evaluates on the float samples. A ratio within
/// 0.001 of 1 yields the identity plan - an exact copy of the input -
/// and any other ratio yields the interpolation plan of length
/// `ceil(n * out_rate / in_rate)`.
pub fn resample_plan(n: usize, out_rate: u32, in_rate: u32) -> (r: Vec<ResampleStep>)
    requires
        in_rate >= 1,
        out_rate >= 1,
        n * out_rate + in_rate <= u64::MAX,
        out_len_spec(n as int, out_rate as int, in_rate as int) <= usize::MAX,
    ensures
        near_unity(out_rate as int, in_rate as int) ==> r@.len() == n && forall|i: int|
            0 <= i < r@.len() ==> step_identity(r@[i], i, n as int),
        !near_unity(out_rate as int, in_rate as int) ==> r@.len() == out_len_spec(
            n as int,
            out_rate as int,
            in_rate as int,
        ) && forall|i: int|
            0 <= i < r@.len() ==> step_ok(r@[i], i, n as int, out_rate as int, in_rate as int),
{
    let rate_gap = if out_rate >= in_rate {
        out_rate - in_rate
    } else {
        in_rate - out_rate
    };
    if 1000u64 * (rate_gap as u64) < in_rate as u64 {
        let mut r: Vec<ResampleStep> = Vec::new();
        let mut i: usize = 0;
        while i < n
            invariant
                0 <= i <= n,
                r@.len() == i,
                forall|j: int| 0 <= j < i ==> step_identity(r@[j], j, n as int),
            decreases n - i,
        {
            let hi = if i + 1 < n {
                i + 1
            } else {
                n - 1
            };
            r.push(ResampleStep { lo: i, hi, frac_num: 0, frac_den: out_rate });
            i = i + 1;
        }
        return r;
    }
    let n_u64 = n as u64;
    let out_u64 = out_rate as u64;
    let in_u64 = in_rate as u64;
    proof {
        assert(n_u64 * out_u64 == n * out_rate) by (nonlinear_arith)
            requires
                n_u64 == n,
                out_u64 == out_rate,
        ;
    }
    let out_total = (n_u64 * out_u64 + in_u64 - 1) / in_u64;
    let out_n = out_total as usize;
    let mut r: Vec<ResampleStep> = Vec::new();
    let mut i: usize = 0;
    while i < out_n
        invariant
            0 <= i <= out_n,
            in_rate >= 1,
            out_rate >= 1,
            n_u64 == n,
            out_u64 == out_rate,
            in_u64 == in_rate,
            n * out_rate + in_rate <= u64::MAX,
            out_n == out_len_spec(n as int, out_rate as int, in_rate as int),
            r@.len() == i,
            forall|j: int|
                0 <= j < i ==> step_ok(r@[j], j, n as int, out_rate as int, in_rate as int),
        decreases out_n - i,
    {
        proof {
            lemma_src_index_in_range(n as int, out_rate as int, in_rate as int, i as int);
            lemma_out_len_pos(n as int, out_rate as int, in_rate as int);
            assert((i as u64) * in_u64 == (i as int) * (in_rate as int)) by (nonlinear_arith)
                requires
                    in_u64 == in_rate,
            ;
            assert(i * in_rate < n * out_rate);
        }
        let t = (i as u64) * in_u64;
        let lo_u64 = t / out_u64;
        let frac_num = (t % out_u64) as u32;
        let lo = lo_u64 as usize;
        let hi = if lo + 1 < n {
            lo + 1
        } else {
            n - 1
        };
        r.push(ResampleStep { lo, hi, frac_num, frac_den: out_rate });
        i = i + 1;
    }
    r
}

} // verus!
