//! How large the elementary functions of the fixed-point numbers can get.
use crate::fixed;
use crate::fixed::Fixed;
use crate::scalar::Scalar;
use vstd::arithmetic::div_mod::*;
use vstd::prelude::*;

verus! {

/// The size of a number, in units.
pub open spec fn size(x: Fixed) -> int {
    if x.units < 0 {
        -x.units
    } else {
        x.units as int
    }
}

/// By how much a term of a series can at most be larger than the one before it: the argument is
/// at most 8, and its square at most 64.
spec fn ratio(stride: int, index: int) -> int {
    if stride == 1 {
        if index < 4 {
            8
        } else if index < 8 {
            2
        } else {
            1
        }
    } else {
        if index == 1 {
            32
        } else if index < 4 {
            6
        } else if index < 6 {
            3
        } else if index < 8 {
            2
        } else {
            1
        }
    }
}

/// From here on each term is at most half of the one before it.
spec fn settles_at(stride: int) -> int {
    if stride == 1 {
        16
    } else {
        11
    }
}

/// By how much a whole series can at most be larger than its first term.
spec fn gain(stride: int, index: int) -> int
    decreases 20 - index,
{
    if index >= settles_at(stride) || (stride != 1 && stride != 2) {
        2
    } else {
        1 + ratio(stride, index) * gain(stride, index + stride)
    }
}

proof fn gain_is_positive(stride: int, index: int)
    requires
        stride == 1 || stride == 2,
    ensures
        gain(stride, index) >= 2,
        8 <= index ==> gain(stride, index) <= 10,
    decreases 20 - index,
{
    if index < settles_at(stride) {
        gain_is_positive(stride, index + stride);
        let (r, g) = (ratio(stride, index), gain(stride, index + stride));
        assert(r * g >= 2) by (nonlinear_arith)
            requires
                r >= 1,
                g >= 2,
        ;
        if 8 <= index {
            assert(r == 1);
            reveal_with_fuel(gain, 10);
        }
    }
}

/// The divisor of a term.
spec fn divisor(stride: int, index: int) -> int {
    if stride == 1 {
        index
    } else {
        index * (index + 1)
    }
}

proof fn next_term_is_bounded(term: Fixed, step: Fixed, stride: int, index: int, limit: int)
    requires
        (stride == 1 && limit == 8) || (stride == 2 && limit == 64 && index % 2 == 1),
        1 <= index <= 60,
        -limit * fixed::SCALE <= step.units <= limit * fixed::SCALE,
    ensures
        ({
            let next = term.product(step).quotient(Fixed::fraction(divisor(stride, index), 1));
            &&& index < settles_at(stride) ==> size(next) <= ratio(stride, index) * size(term) + 1
            &&& index >= settles_at(stride) ==> 2 * size(next) <= size(term) + 2
        }),
{
    let d = divisor(stride, index);
    let s = size(term);
    let scale = fixed::SCALE as int;
    assert(1 <= d <= 3660) by (nonlinear_arith)
        requires
            d == index || d == index * (index + 1),
            1 <= index <= 60,
    ;
    let p = term.units * step.units;
    assert(-(limit * s * scale) <= p <= limit * s * scale) by (nonlinear_arith)
        requires
            p == term.units * step.units,
            -s <= term.units <= s,
            -limit * scale <= step.units <= limit * scale,
            0 <= limit,
            0 <= s,
            0 <= scale,
    ;
    let q = p / scale;
    lemma_fundamental_div_mod(p, scale);
    lemma_mod_bound(p, scale);
    assert(-(limit * s) <= q <= limit * s) by (nonlinear_arith)
        requires
            p == scale * q + p % scale,
            0 <= p % scale < scale,
            -(limit * s * scale) <= p <= limit * s * scale,
            0 < scale,
    ;
    let product = term.product(step);
    assert(size(product) <= limit * s) by {
        assert(limit * s >= 0) by (nonlinear_arith)
            requires
                limit >= 0,
                s >= 0,
        ;
    }
    let whole = Fixed::fraction(d, 1);
    assert(whole.units == d * scale);
    let exact = (product.units * scale) / (d * scale);
    lemma_fundamental_div_mod(product.units as int, d);
    lemma_mod_bound(product.units as int, d);
    let n = product.units as int / d;
    let r = product.units as int % d;
    assert(product.units * scale == n * (d * scale) + scale * r) by (nonlinear_arith)
        requires
            product.units == d * n + r,
    ;
    assert(0 <= scale * r < d * scale) by (nonlinear_arith)
        requires
            0 <= r < d,
            0 < scale,
    ;
    lemma_fundamental_div_mod_converse(
        product.units * scale,
        d * scale,
        n,
        scale * r,
    );
    let next = product.quotient(whole);
    assert(size(next) <= if n < 0 {
        -n
    } else {
        n
    });
    let m = size(product);
    let k = size(next);
    assert(k * d <= m + d) by (nonlinear_arith)
        requires
            product.units == d * n + r,
            0 <= r < d,
            -m <= product.units <= m,
            k <= n || k <= -n,
            0 <= k,
            0 < d,
    ;
    if index >= settles_at(stride) {
        assert(2 * limit <= d) by (nonlinear_arith)
            requires
                (stride == 1 && limit == 8 && index >= 16 && d == index) || (stride == 2 && limit
                    == 64 && index >= 11 && d == index * (index + 1)),
        ;
        assert(2 * k <= s + 2) by (nonlinear_arith)
            requires
                k * d <= m + d,
                m <= limit * s,
                2 * limit <= d,
                0 <= s,
                0 <= k,
                0 < d,
        {
            assert(2 * m <= d * s) by (nonlinear_arith)
                requires
                    m <= limit * s,
                    2 * limit <= d,
                    0 <= s,
            ;
            assert(d * (2 * k) <= d * (s + 2));
        }
    } else {
        let g = ratio(stride, index);
        assert(limit <= g * d) by (nonlinear_arith)
            requires
                (stride == 1 && limit == 8 && d == index && 1 <= index && ((index < 4 && g == 8) || (
                4 <= index < 8 && g == 2) || (8 <= index && g == 1))) || (stride == 2 && limit == 64
                    && d == index * (index + 1) && ((index == 1 && g == 32) || (index == 3 && g == 6)
                    || (index == 5 && g == 3) || (index == 7 && g == 2) || (index == 9 && g == 1))),
        ;
        assert(k <= g * s + 1) by (nonlinear_arith)
            requires
                k * d <= m + d,
                m <= limit * s,
                limit <= g * d,
                0 <= s,
                0 <= k,
                0 < d,
        {
            assert(m <= (g * d) * s) by (nonlinear_arith)
                requires
                    m <= limit * s,
                    limit <= g * d,
                    0 <= s,
            ;
            assert(d * k <= d * (g * s + 1)) by (nonlinear_arith)
                requires
                    k * d <= m + d,
                    m <= (g * d) * s,
            ;
        }
    }
}

proof fn series_is_bounded(
    term: Fixed,
    step: Fixed,
    stride: int,
    index: int,
    terms: nat,
    limit: int,
)
    requires
        (stride == 1 && limit == 8) || (stride == 2 && limit == 64 && index % 2 == 1),
        1 <= index,
        index + stride * terms <= 60,
        -limit * fixed::SCALE <= step.units <= limit * fixed::SCALE,
    ensures
        size(fixed::series(term, step, stride, index, terms)) <= gain(stride, index) * (size(term)
            + 32) + 4 * terms,
        index >= settles_at(stride) ==> size(fixed::series(term, step, stride, index, terms)) <= 2
            * size(term) + 4 * terms,
    decreases terms,
{
    gain_is_positive(stride, index);
    let g = gain(stride, index);
    let s = size(term);
    assert(g * (s + 32) >= 2 * s + 64) by (nonlinear_arith)
        requires
            g >= 2,
            s >= 0,
    ;
    if terms > 0 {
        let m = (terms - 1) as nat;
        assert(index + stride + stride * m == index + stride * terms) by (nonlinear_arith)
            requires
                m == terms - 1,
        ;
        assert(stride * terms >= 1) by (nonlinear_arith)
            requires
                stride >= 1,
                terms >= 1,
        ;
        next_term_is_bounded(term, step, stride, index, limit);
        let next = term.product(step).quotient(Fixed::fraction(divisor(stride, index), 1));
        let rest = fixed::series(next, step, stride, index + stride, m);
        series_is_bounded(next, step, stride, index + stride, m, limit);
        let k = size(next);
        assert(fixed::series(term, step, stride, index, terms) == term.sum(rest));
        assert(size(term.sum(rest)) <= s + size(rest));
        if index < settles_at(stride) {
            gain_is_positive(stride, index + stride);
            let (r, h) = (ratio(stride, index), gain(stride, index + stride));
            assert(g == 1 + r * h);
            if 8 <= index {
                assert(h <= 10);
            }
            assert(s + h * (k + 32) <= g * (s + 32)) by (nonlinear_arith)
                requires
                    g == 1 + r * h,
                    k <= r * s + 1,
                    h >= 2,
                    r >= 2 || (r == 1 && h <= 10),
                    s >= 0,
            {
                assert(h * (k + 32) <= h * (r * s + 33)) by (nonlinear_arith)
                    requires
                        k <= r * s + 1,
                        h >= 2,
                ;
                assert(h * (r * s + 33) == (r * h) * s + 33 * h) by (nonlinear_arith);
                assert(g * (s + 32) == s + 32 + (r * h) * s + 32 * (r * h)) by (nonlinear_arith)
                    requires
                        g == 1 + r * h,
                ;
                assert(33 * h <= 32 + 32 * (r * h)) by (nonlinear_arith)
                    requires
                        h >= 2,
                        r >= 2 || (r == 1 && h <= 10),
                ;
            }
        }
    }
}

/// The cosine of an angle of no more than eight is no larger than 4300 either way, as it is
/// computed.
pub proof fn cosine_is_bounded(angle: Fixed)
    requires
        size(angle) <= 8 * fixed::SCALE,
    ensures
        size(angle.cosine()) <= 4300 * fixed::SCALE,
{
    let step = angle.product(angle).opposite();
    let square = angle.units * angle.units;
    assert(0 <= square <= 64_000_000_000_000_000_000) by (nonlinear_arith)
        requires
            square == angle.units * angle.units,
            -8_000_000_000 <= angle.units <= 8_000_000_000,
    ;
    lemma_div_pos_is_pos(square, fixed::SCALE as int);
    lemma_div_is_ordered(square, 64_000_000_000_000_000_000, fixed::SCALE as int);
    assert(-64 * fixed::SCALE <= step.units <= 0);
    let one = Fixed::fraction(1, 1);
    assert(one.units == 1_000_000_000);
    series_is_bounded(one, step, 2, 1, 20, 64);
    assert(gain(2, 1) == 4257) by {
        reveal_with_fuel(gain, 7);
    }
}

/// The exponential of a number of no more than eight either way is no larger than 90000, as it is
/// computed.
pub proof fn exponential_is_bounded(x: Fixed)
    requires
        size(x) <= 8 * fixed::SCALE,
    ensures
        size(x.exponential()) <= 90_000 * fixed::SCALE,
{
    let one = Fixed::fraction(1, 1);
    assert(one.units == 1_000_000_000);
    series_is_bounded(one, x, 1, 1, 40, 8);
    assert(gain(1, 1) == 89673) by {
        reveal_with_fuel(gain, 17);
    }
}

} // verus!
