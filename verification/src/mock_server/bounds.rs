//! The bucket bounds of the histograms that the mock server serves, in
//! thousandths.

use vstd::prelude::*;

use crate::mock_server::state::{SglBounds, VllmBounds};
use crate::state;
use crate::state::{fraction, Arithmetic};

verus! {

/// The bounds for the time to the first token of a mock vLLM server.
pub open spec fn ttft_buckets() -> Seq<i64> {
    seq![
        1i64, 5i64, 10i64, 20i64, 40i64, 60i64, 80i64, 100i64, 250i64, 500i64, 750i64,
        1_000i64, 2_500i64, 5_000i64, 7_500i64, 10_000i64, 20_000i64, 40_000i64, 80_000i64,
        160_000i64, 640_000i64, 2_560_000i64,
    ]
}

fn ttft_table() -> (r: Vec<i64>)
    ensures
        r@ == ttft_buckets(),
{
    let r: Vec<i64> = vec![
        1, 5, 10, 20, 40, 60, 80, 100, 250, 500, 750, 1_000, 2_500, 5_000, 7_500, 10_000,
        20_000, 40_000, 80_000, 160_000, 640_000, 2_560_000,
    ];
    assert(r@ =~= ttft_buckets());
    r
}

/// The bounds for the end-to-end latency, and the phases, of a mock vLLM server.
pub open spec fn e2e_buckets() -> Seq<i64> {
    seq![
        300i64, 500i64, 800i64, 1_000i64, 1_500i64, 2_000i64, 2_500i64, 5_000i64, 10_000i64,
        15_000i64, 20_000i64, 30_000i64, 40_000i64, 50_000i64, 60_000i64, 120_000i64,
        240_000i64, 480_000i64, 960_000i64, 1_920_000i64, 7_680_000i64,
    ]
}

fn e2e_table() -> (r: Vec<i64>)
    ensures
        r@ == e2e_buckets(),
{
    let r: Vec<i64> = vec![
        300, 500, 800, 1_000, 1_500, 2_000, 2_500, 5_000, 10_000, 15_000, 20_000, 30_000,
        40_000, 50_000, 60_000, 120_000, 240_000, 480_000, 960_000, 1_920_000, 7_680_000,
    ];
    assert(r@ =~= e2e_buckets());
    r
}

/// The bounds for the time between tokens of a mock vLLM server.
pub open spec fn inter_token_buckets() -> Seq<i64> {
    seq![
        10i64, 25i64, 50i64, 75i64, 100i64, 150i64, 200i64, 300i64, 400i64, 500i64, 750i64,
        1_000i64, 2_500i64, 5_000i64, 7_500i64, 10_000i64, 20_000i64, 40_000i64, 80_000i64,
    ]
}

fn inter_token_table() -> (r: Vec<i64>)
    ensures
        r@ == inter_token_buckets(),
{
    let r: Vec<i64> = vec![
        10, 25, 50, 75, 100, 150, 200, 300, 400, 500, 750, 1_000, 2_500, 5_000, 7_500, 10_000,
        20_000, 40_000, 80_000,
    ];
    assert(r@ =~= inter_token_buckets());
    r
}

/// The bounds for the tokens per request of a mock vLLM server.
pub open spec fn token_buckets() -> Seq<i64> {
    seq![
        1_000i64, 2_000i64, 5_000i64, 10_000i64, 20_000i64, 50_000i64, 100_000i64, 200_000i64,
        500_000i64, 1_000_000i64, 2_000_000i64, 5_000_000i64, 10_000_000i64, 20_000_000i64,
        50_000_000i64,
    ]
}

fn token_table() -> (r: Vec<i64>)
    ensures
        r@ == token_buckets(),
{
    let r: Vec<i64> = vec![
        1_000, 2_000, 5_000, 10_000, 20_000, 50_000, 100_000, 200_000, 500_000, 1_000_000,
        2_000_000, 5_000_000, 10_000_000, 20_000_000, 50_000_000,
    ];
    assert(r@ =~= token_buckets());
    r
}

/// The bounds for the time to the first token of a mock SGLang server.
pub open spec fn sgl_ttft_buckets() -> Seq<i64> {
    seq![
        1i64, 5i64, 10i64, 20i64, 40i64, 60i64, 80i64, 100i64, 250i64, 500i64, 750i64,
        1_000i64, 2_500i64, 5_000i64, 7_500i64, 10_000i64, 15_000i64, 20_000i64, 25_000i64,
        30_000i64,
    ]
}

fn sgl_ttft_table() -> (r: Vec<i64>)
    ensures
        r@ == sgl_ttft_buckets(),
{
    let r: Vec<i64> = vec![
        1, 5, 10, 20, 40, 60, 80, 100, 250, 500, 750, 1_000, 2_500, 5_000, 7_500, 10_000,
        15_000, 20_000, 25_000, 30_000,
    ];
    assert(r@ =~= sgl_ttft_buckets());
    r
}

/// The bounds for the end-to-end latency of a mock SGLang server.
pub open spec fn sgl_e2e_buckets() -> Seq<i64> {
    seq![
        300i64, 500i64, 800i64, 1_000i64, 1_500i64, 2_000i64, 2_500i64, 5_000i64, 10_000i64,
        15_000i64, 20_000i64, 30_000i64, 40_000i64, 50_000i64, 60_000i64,
    ]
}

fn sgl_e2e_table() -> (r: Vec<i64>)
    ensures
        r@ == sgl_e2e_buckets(),
{
    let r: Vec<i64> = vec![
        300, 500, 800, 1_000, 1_500, 2_000, 2_500, 5_000, 10_000, 15_000, 20_000, 30_000,
        40_000, 50_000, 60_000,
    ];
    assert(r@ =~= sgl_e2e_buckets());
    r
}

/// The bounds for the time per output token of a mock SGLang server.
pub open spec fn sgl_tpot_buckets() -> Seq<i64> {
    seq![
        5i64, 10i64, 15i64, 20i64, 25i64, 30i64, 40i64, 50i64, 75i64, 100i64, 150i64, 200i64,
        300i64, 400i64, 500i64, 750i64, 1_000i64, 2_500i64,
    ]
}

fn sgl_tpot_table() -> (r: Vec<i64>)
    ensures
        r@ == sgl_tpot_buckets(),
{
    let r: Vec<i64> = vec![
        5, 10, 15, 20, 25, 30, 40, 50, 75, 100, 150, 200, 300, 400, 500, 750, 1_000, 2_500,
    ];
    assert(r@ =~= sgl_tpot_buckets());
    r
}

/// The values are the given thousandths.
pub open spec fn are_thousandths<T: Arithmetic>(t: T, n: Seq<i64>, v: Seq<T::F>) -> bool {
    v.len() == n.len() && forall|i: int|
        0 <= i < v.len() ==> state::is_fraction(t, n[i], 1_000, #[trigger] v[i])
}

fn thousandths<T: Arithmetic>(t: &T, n: &Vec<i64>) -> (r: Vec<T::F>)
    ensures
        are_thousandths(*t, n@, r@),
{
    let mut r: Vec<T::F> = Vec::new();
    for i in 0..n.len()
        invariant
            r@.len() == i,
            forall|j: int|
                0 <= j < i ==> state::is_fraction(*t, n@[j], 1_000, #[trigger] r@[j]),
    {
        r.push(fraction(t, n[i], 1_000));
    }
    r
}

/// The bounds are those of the vLLM histograms.
pub open spec fn are_vllm<T: Arithmetic>(t: T, b: VllmBounds<T::F>) -> bool {
    &&& are_thousandths(t, ttft_buckets(), b.ttft@)
    &&& are_thousandths(t, inter_token_buckets(), b.inter_token@)
    &&& are_thousandths(t, e2e_buckets(), b.e2e@)
    &&& are_thousandths(t, token_buckets(), b.tokens@)
}

/// The bounds of the vLLM histograms.
pub fn vllm_bounds<T: Arithmetic>(t: &T) -> (r: VllmBounds<T::F>)
    ensures
        are_vllm(*t, r),
        r.ttft@.len() < usize::MAX && r.inter_token@.len() < usize::MAX,
        r.e2e@.len() < usize::MAX && r.tokens@.len() < usize::MAX,
{
    VllmBounds {
        ttft: thousandths(t, &ttft_table()),
        inter_token: thousandths(t, &inter_token_table()),
        e2e: thousandths(t, &e2e_table()),
        tokens: thousandths(t, &token_table()),
    }
}

/// The bounds are those of the SGLang histograms.
pub open spec fn are_sgl<T: Arithmetic>(t: T, b: SglBounds<T::F>) -> bool {
    &&& are_thousandths(t, sgl_ttft_buckets(), b.ttft@)
    &&& are_thousandths(t, sgl_e2e_buckets(), b.e2e@)
    &&& are_thousandths(t, sgl_tpot_buckets(), b.tpot@)
}

/// The bounds of the SGLang histograms.
pub fn sgl_bounds<T: Arithmetic>(t: &T) -> (r: SglBounds<T::F>)
    ensures
        are_sgl(*t, r),
        r.ttft@.len() < usize::MAX && r.e2e@.len() < usize::MAX && r.tpot@.len() < usize::MAX,
{
    SglBounds {
        ttft: thousandths(t, &sgl_ttft_table()),
        e2e: thousandths(t, &sgl_e2e_table()),
        tpot: thousandths(t, &sgl_tpot_table()),
    }
}

/// Each bound is over the one before it.
pub open spec fn ascending(n: Seq<i64>) -> bool {
    forall|i: int, j: int| 0 <= i < j < n.len() ==> #[trigger] n[i] < #[trigger] n[j]
}

/// The bounds of every histogram are positive and ascend.
pub proof fn law_bounds_ascend()
    ensures
        ascending(ttft_buckets()),
        ascending(inter_token_buckets()),
        ascending(e2e_buckets()),
        ascending(token_buckets()),
        ascending(sgl_ttft_buckets()),
        ascending(sgl_e2e_buckets()),
        ascending(sgl_tpot_buckets()),
        ttft_buckets()[0] > 0 && inter_token_buckets()[0] > 0 && e2e_buckets()[0] > 0,
        token_buckets()[0] > 0 && sgl_ttft_buckets()[0] > 0,
        sgl_e2e_buckets()[0] > 0 && sgl_tpot_buckets()[0] > 0,
{
}

} // verus!
