//! What a draw of chance is, in numbers.

use vstd::prelude::*;

use crate::mock_server::rng;
use crate::mock_server::served;
use crate::mock_server::simulate;
use crate::mock_server::simulate::Chance;
use crate::state;
use crate::state::Arithmetic;
use crate::timing;

verus! {

/// The functions that draws are made of, on numbers.
pub struct Curves {
    pub ln: spec_fn(real) -> real,
    pub root: spec_fn(real) -> real,
    pub cos: spec_fn(real) -> real,
    pub pi: real,
}

/// The arithmetic of chance computes these functions.
pub open spec fn follows<T: Chance>(t: T, v: spec_fn(T::F) -> real, c: Curves) -> bool {
    &&& forall|a: T::F, r: T::F| #[trigger]
        call_ensures(T::ln, (&t, a), r) ==> v(r) == (c.ln)(v(a))
    &&& forall|a: T::F, r: T::F| #[trigger]
        call_ensures(T::square_root, (&t, a), r) ==> v(r) == (c.root)(v(a))
    &&& forall|a: T::F, r: T::F| #[trigger]
        call_ensures(T::cosine, (&t, a), r) ==> v(r) == (c.cos)(v(a))
    &&& forall|r: T::F| #[trigger] call_ensures(T::pi, (&t,), r) ==> v(r) == c.pi
}

/// The number from zero to one that 53 random bits stand for.
pub open spec fn unit_of(bits: u64) -> real {
    (bits as int as real) / (0x20_0000_0000_0000int as real)
}

/// The deviate that two numbers from zero to one give: the first, which is
/// taken as no less than a trillionth, says how far out it lies, the second in
/// which direction.
pub open spec fn deviate(c: Curves, u1: real, u2: real) -> real {
    let u = served::max(u1, 1real / 1_000_000_000_000real);
    (c.root)(-2real * (c.ln)(u)) * (c.cos)(2real * c.pi * u2)
}

proof fn lemma_unit<T: Arithmetic>(
    t: T,
    v: spec_fn(T::F) -> real,
    zero: T::F,
    bits: u64,
    u: T::F,
)
    requires
        served::computes(t, v, zero),
        bits < 0x20_0000_0000_0000,
        simulate::is_unit(t, bits, u),
    ensures
        v(u) == unit_of(bits),
{
    let n = bits as i64;
    let (a, b) = choose|a: T::F, b: T::F| #[trigger]
        call_ensures(T::whole, (&t, n), a) && #[trigger] call_ensures(
            T::whole,
            (&t, 0x20_0000_0000_0000i64),
            b,
        ) && call_ensures(T::ratio, (&t, a, b), u);
    assert(n == bits);
    assert(v(b) == 0x20_0000_0000_0000int as real);
    assert(v(a) == bits as int as real);
}

/// A sample with a deviation lies as many deviations off the mean as the two
/// draws say, and not below zero. It leaves the generator two draws further; one
/// without deviation draws nothing.
pub proof fn law_samples_deviate_from_the_mean<T: Chance>(
    t: T,
    v: spec_fn(T::F) -> real,
    c: Curves,
    zero: T::F,
    g: u64,
    mean: T::F,
    std: T::F,
    h: u64,
    r: T::F,
)
    requires
        served::computes(t, v, zero),
        follows(t, v, c),
        simulate::is_normal(t, zero, g, mean, std, h, r),
    ensures
        v(std) <= 0real ==> h == g && v(r) == served::max(v(mean), 0real),
        v(std) > 0real ==> {
            let first = rng::stirred(g);
            let z = deviate(c, unit_of(rng::drawn(first)), unit_of(rng::drawn(h)));
            &&& h == rng::stirred(first)
            &&& v(r) == served::max(v(mean) + z * v(std), 0real)
        },
{
    let sharp = choose|sharp: bool| #[trigger]
        call_ensures(T::at_most, (&t, std, zero), sharp) && if sharp {
            h == g && call_ensures(T::larger, (&t, mean, zero), r)
        } else {
            &&& h == rng::stirred(rng::stirred(g))
            &&& simulate::is_deviated(
                t,
                zero,
                rng::drawn(rng::stirred(g)),
                rng::drawn(h),
                mean,
                std,
                r,
            )
        };
    if !sharp {
        let (b1, b2) = (rng::drawn(rng::stirred(g)), rng::drawn(h));
        let (u, least, u1, u2, z, off, sum) = choose|
            u: T::F,
            least: T::F,
            u1: T::F,
            u2: T::F,
            z: T::F,
            off: T::F,
            sum: T::F,
        | #[trigger]
            simulate::is_unit(t, b1, u) && #[trigger] state::is_fraction(
                t,
                1,
                1_000_000_000_000,
                least,
            ) && #[trigger] call_ensures(
                T::larger,
                (&t, u, least),
                u1,
            ) && #[trigger] simulate::is_unit(t, b2, u2) && #[trigger] simulate::is_standard(
                t,
                u1,
                u2,
                z,
            ) && #[trigger] call_ensures(T::times, (&t, z, std), off) && #[trigger] call_ensures(
                T::plus,
                (&t, mean, off),
                sum,
            ) && call_ensures(T::larger, (&t, sum, zero), r);
        lemma_drawn_bits(rng::stirred(g));
        lemma_drawn_bits(h);
        lemma_unit(t, v, zero, b1, u);
        lemma_unit(t, v, zero, b2, u2);
        timing::lemma_fraction(t, v, 1, 1_000_000_000_000, least);
        assert(v(least) * 1_000_000_000_000real == 1real);
        assert(v(least) == 1real / 1_000_000_000_000real);
        lemma_standard(t, v, c, zero, u1, u2, z);
        assert(v(u1) == served::max(v(u), 1real / 1_000_000_000_000real));
    }
}

proof fn lemma_drawn_bits(s: u64)
    ensures
        rng::drawn(s) < 0x20_0000_0000_0000,
{
    let x = vstd::wrapping::u64_specs::wrapping_mul(s, 0x2545_f491_4f6c_dd1d);
    assert(x >> 11 < 0x20_0000_0000_0000) by (bit_vector);
}

proof fn lemma_standard<T: Chance>(
    t: T,
    v: spec_fn(T::F) -> real,
    c: Curves,
    zero: T::F,
    u1: T::F,
    u2: T::F,
    z: T::F,
)
    requires
        served::computes(t, v, zero),
        follows(t, v, c),
        simulate::is_standard(t, u1, u2, z),
    ensures
        v(z) == (c.root)(-2real * (c.ln)(v(u1))) * (c.cos)(2real * c.pi * v(u2)),
{
    let (r, d) = choose|r: T::F, d: T::F| #[trigger]
        simulate::is_radius(t, u1, r) && #[trigger] simulate::is_direction(t, u2, d)
            && call_ensures(T::times, (&t, r, d), z);
    let (l, a) = choose|l: T::F, a: T::F| #[trigger]
        call_ensures(T::ln, (&t, u1), l) && #[trigger] state::is_product(t, l, (-2) as i64, a)
            && call_ensures(T::square_root, (&t, a), r);
    let k = choose|k: T::F| #[trigger]
        call_ensures(T::whole, (&t, (-2) as i64), k) && call_ensures(T::times, (&t, l, k), a);
    assert(v(k) == -2real);
    let x = v(l);
    assert(x * -2real == -2real * x) by (nonlinear_arith);
    let (half, turn, b) = choose|half: T::F, turn: T::F, b: T::F| #[trigger]
        call_ensures(T::pi, (&t,), half) && #[trigger] state::is_product(t, half, 2, turn)
            && #[trigger] call_ensures(T::times, (&t, turn, u2), b) && call_ensures(
            T::cosine,
            (&t, b),
            d,
        );
    let k2 = choose|k: T::F| #[trigger]
        call_ensures(T::whole, (&t, 2i64), k) && call_ensures(T::times, (&t, half, k), turn);
    assert(v(k2) == 2real);
    let p = c.pi;
    assert(p * 2real == 2real * p) by (nonlinear_arith);
}

} // verus!
