//! Exact optimality of constant-product sizing, before any decimal rounding.
//!
//! Amounts are whole numbers of one common unit: decimals all share one
//! (`10^-28` at the finest), and scaling every amount by the same factor
//! scales the gross profit by that factor, so this loses no generality. The
//! fee retention `f = a / b` and the reference price `P = c / e` are exact
//! fractions.
//!
//! A constant-product pool `(x, y)` pays `y·f·d / (x + f·d)` for `d` in, so
//! the gross profit is `g(d) = y·f·d / (x + f·d) − P·d`. It rises while
//! `P·(x + f·d)² <= x·y·f` and falls once `P·(x + f·d)² >= x·y·f`: its
//! maximum on `[0, cap]` is at the peak `d* = (√(x·y·f/P) − x) / f`, clipped to
//! `[0, cap]`, the closed form that `Cpmm::optimal_size` evaluates. A
//! concentrated-liquidity range with liquidity `L` at sqrt price `σ` is the
//! constant-product pool on its virtual reserves `(L/σ, L·σ)`, and its peak
//! condition is `f·σ'² >= P` at the sqrt price `σ'` after the trade; that
//! condition carries over unchanged from the end of one range to the start
//! of the next, so the profit across ranges rises until the first range in
//! which it turns and falls from there on.
use vstd::prelude::*;

verus! {

/// `p <= q`, for fractions `(numerator, denominator)` with positive
/// denominators.
pub open spec fn frac_le(p: (int, int), q: (int, int)) -> bool {
    p.0 * q.1 <= q.0 * p.1
}

/// `b·x + a·d`: `b` times the input-side reserve after `d` goes in with fee
/// retention `a / b`.
pub open spec fn pushed(x: int, a: int, b: int, d: int) -> int {
    b * x + a * d
}

/// The exact gross profit `y·f·d / (x + f·d) − P·d` of swapping `d` into the
/// constant-product pool `(x, y)`, with `f = a / b` and `P = c / e`, as a
/// fraction.
pub open spec fn cpmm_gross_profit(x: int, y: int, a: int, b: int, c: int, e: int, d: int) -> (
    int,
    int,
) {
    (e * y * a * d - c * d * pushed(x, a, b, d), e * pushed(x, a, b, d))
}

/// `P·(x + f·d)² <= x·y·f`: the marginal output at `d` is still at least
/// the price, so `d` lies at or before the peak.
pub open spec fn at_or_before_peak(x: int, y: int, a: int, b: int, c: int, e: int, d: int) -> bool {
    c * (pushed(x, a, b, d) * pushed(x, a, b, d)) <= e * a * b * x * y
}

/// `P·(x + f·d)² >= x·y·f`: the marginal output at `d` is at most the
/// price, so `d` lies at or after the peak.
pub open spec fn at_or_after_peak(x: int, y: int, a: int, b: int, c: int, e: int, d: int) -> bool {
    c * (pushed(x, a, b, d) * pushed(x, a, b, d)) >= e * a * b * x * y
}

/// `(m·d2 − c·d2·u2)·(e·u1) − (m·d1 − c·d1·u1)·(e·u2)`, regrouped.
proof fn lemma_cross_terms(m: int, c: int, e: int, u1: int, u2: int, d1: int, d2: int)
    ensures
        (m * d2 - c * d2 * u2) * (e * u1) - (m * d1 - c * d1 * u1) * (e * u2) == e * (m * (d2 * u1
            - d1 * u2) - c * (u1 * u2) * (d2 - d1)),
{
    assert((m * d2 - c * d2 * u2) * (e * u1) == e * (m * d2 * u1) - e * (c * d2 * u2 * u1))
        by (nonlinear_arith);
    assert((m * d1 - c * d1 * u1) * (e * u2) == e * (m * d1 * u2) - e * (c * d1 * u1 * u2))
        by (nonlinear_arith);
    assert(m * (d2 * u1 - d1 * u2) == m * d2 * u1 - m * d1 * u2) by (nonlinear_arith);
    let w = c * (u1 * u2);
    assert(w * (d2 - d1) == w * d2 - w * d1) by (nonlinear_arith);
    assert(w * d2 == c * d2 * u2 * u1) by (nonlinear_arith)
        requires
            w == c * (u1 * u2),
    ;
    assert(w * d1 == c * d1 * u1 * u2) by (nonlinear_arith)
        requires
            w == c * (u1 * u2),
    ;
    assert(e * (m * d2 * u1) - e * (c * d2 * u2 * u1) - (e * (m * d1 * u2) - e * (c * d1 * u1
        * u2)) == e * ((m * d2 * u1 - m * d1 * u2) - (c * d2 * u2 * u1 - c * d1 * u1 * u2)))
        by (nonlinear_arith);
}

/// The difference of two gross profits, cross-multiplied.
proof fn lemma_gross_difference(x: int, y: int, a: int, b: int, c: int, e: int, d1: int, d2: int)
    ensures
        ({
            let g1 = cpmm_gross_profit(x, y, a, b, c, e, d1);
            let g2 = cpmm_gross_profit(x, y, a, b, c, e, d2);
            let u1 = pushed(x, a, b, d1);
            let u2 = pushed(x, a, b, d2);
            g2.0 * g1.1 - g1.0 * g2.1 == e * ((d2 - d1) * (e * a * b * x * y - c * (u1 * u2)))
        }),
{
    let u1 = pushed(x, a, b, d1);
    let u2 = pushed(x, a, b, d2);
    let m = e * y * a;
    assert(e * y * a * d2 == m * d2 && e * y * a * d1 == m * d1) by (nonlinear_arith)
        requires
            m == e * y * a,
    ;
    lemma_cross_terms(m, c, e, u1, u2, d1, d2);
    assert(d2 * u1 - d1 * u2 == b * x * (d2 - d1)) by (nonlinear_arith)
        requires
            u1 == b * x + a * d1,
            u2 == b * x + a * d2,
    ;
    let t = d2 - d1;
    let k = e * a * b * x * y;
    let w = c * (u1 * u2);
    assert(m * (b * x * t) == t * k) by (nonlinear_arith)
        requires
            m == e * y * a,
            k == e * a * b * x * y,
    ;
    assert(w * t == t * w) by (nonlinear_arith);
    assert(t * k - t * w == t * (k - w)) by (nonlinear_arith);
}

/// The gross profit of a constant-product trade rises up to the peak and
/// falls after it: for `0 <= d1 <= d2`, `g(d1) <= g(d2)` when `d2` is at or
/// before the peak, and `g(d2) <= g(d1)` when `d1` is at or after it.
pub proof fn lemma_cpmm_gross_profit_peak(
    x: int,
    y: int,
    a: int,
    b: int,
    c: int,
    e: int,
    d1: int,
    d2: int,
)
    requires
        x > 0,
        y > 0,
        a > 0,
        b > 0,
        c > 0,
        e > 0,
        0 <= d1 <= d2,
    ensures
        at_or_before_peak(x, y, a, b, c, e, d2) ==> frac_le(
            cpmm_gross_profit(x, y, a, b, c, e, d1),
            cpmm_gross_profit(x, y, a, b, c, e, d2),
        ),
        at_or_after_peak(x, y, a, b, c, e, d1) ==> frac_le(
            cpmm_gross_profit(x, y, a, b, c, e, d2),
            cpmm_gross_profit(x, y, a, b, c, e, d1),
        ),
{
    lemma_gross_difference(x, y, a, b, c, e, d1, d2);
    let u1 = pushed(x, a, b, d1);
    let u2 = pushed(x, a, b, d2);
    let k = e * a * b * x * y;
    assert(0 < u1 <= u2) by (nonlinear_arith)
        requires
            u1 == b * x + a * d1,
            u2 == b * x + a * d2,
            b > 0,
            x > 0,
            a > 0,
            0 <= d1 <= d2,
    ;
    assert(c * (u1 * u1) <= c * (u1 * u2) <= c * (u2 * u2)) by (nonlinear_arith)
        requires
            0 < u1 <= u2,
            c > 0,
    ;
    let g1 = cpmm_gross_profit(x, y, a, b, c, e, d1);
    let g2 = cpmm_gross_profit(x, y, a, b, c, e, d2);
    if at_or_before_peak(x, y, a, b, c, e, d2) {
        assert(e * ((d2 - d1) * (k - c * (u1 * u2))) >= 0) by (nonlinear_arith)
            requires
                e > 0,
                d2 - d1 >= 0,
                k - c * (u1 * u2) >= 0,
        ;
    }
    if at_or_after_peak(x, y, a, b, c, e, d1) {
        assert(e * ((d2 - d1) * (k - c * (u1 * u2))) <= 0) by (nonlinear_arith)
            requires
                e > 0,
                d2 - d1 >= 0,
                k - c * (u1 * u2) <= 0,
        ;
    }
}

/// The maximum on `[0, cap]`: a size `d_max` in `[0, cap]` that is at or
/// after the peak unless it is `cap`, and at or before it unless it is `0`,
/// earns at least the gross profit of every size in `[0, cap]`.
pub proof fn lemma_cpmm_clipped_peak_is_maximum(
    x: int,
    y: int,
    a: int,
    b: int,
    c: int,
    e: int,
    cap: int,
    d_max: int,
    d: int,
)
    requires
        x > 0,
        y > 0,
        a > 0,
        b > 0,
        c > 0,
        e > 0,
        0 <= d_max <= cap,
        0 <= d <= cap,
        d_max == cap || at_or_after_peak(x, y, a, b, c, e, d_max),
        d_max == 0 || at_or_before_peak(x, y, a, b, c, e, d_max),
    ensures
        frac_le(cpmm_gross_profit(x, y, a, b, c, e, d), cpmm_gross_profit(x, y, a, b, c, e, d_max)),
{
    if d <= d_max {
        if d_max == 0 {
            let g = cpmm_gross_profit(x, y, a, b, c, e, d);
            assert(g.0 * g.1 <= g.0 * g.1);
        } else {
            lemma_cpmm_gross_profit_peak(x, y, a, b, c, e, d, d_max);
        }
    } else {
        lemma_cpmm_gross_profit_peak(x, y, a, b, c, e, d_max, d);
    }
}

/// `p + q`, for fractions.
pub open spec fn frac_add(p: (int, int), q: (int, int)) -> (int, int) {
    (p.0 * q.1 + q.0 * p.1, p.1 * q.1)
}

/// `frac_le` chains.
proof fn lemma_frac_le_trans(p: (int, int), q: (int, int), r: (int, int))
    requires
        p.1 > 0,
        q.1 > 0,
        r.1 > 0,
        frac_le(p, q),
        frac_le(q, r),
    ensures
        frac_le(p, r),
{
    assert(p.0 * q.1 * r.1 <= q.0 * p.1 * r.1) by (nonlinear_arith)
        requires
            p.0 * q.1 <= q.0 * p.1,
            r.1 > 0,
    ;
    assert(q.0 * r.1 * p.1 <= r.0 * q.1 * p.1) by (nonlinear_arith)
        requires
            q.0 * r.1 <= r.0 * q.1,
            p.1 > 0,
    ;
    assert(p.0 * r.1 * q.1 <= r.0 * p.1 * q.1) by (nonlinear_arith)
        requires
            p.0 * q.1 * r.1 <= q.0 * p.1 * r.1,
            q.0 * r.1 * p.1 <= r.0 * q.1 * p.1,
    ;
    assert(p.0 * r.1 <= r.0 * p.1) by (nonlinear_arith)
        requires
            p.0 * r.1 * q.1 <= r.0 * p.1 * q.1,
            q.1 > 0,
    ;
}

/// Adding the same fraction keeps the order.
proof fn lemma_frac_add_mono(r: (int, int), q1: (int, int), q2: (int, int))
    requires
        r.1 > 0,
        q1.1 > 0,
        q2.1 > 0,
        frac_le(q1, q2),
    ensures
        frac_le(frac_add(r, q1), frac_add(r, q2)),
{
    let (rn, rd) = r;
    let (an, ad) = q1;
    let (bn, bd) = q2;
    let z = rn * ad * bd;
    vstd::arithmetic::mul::lemma_mul_is_distributive_add_other_way(rd * bd, rn * ad, an * rd);
    assert((rn * ad) * (rd * bd) == z * rd) by (nonlinear_arith)
        requires
            z == rn * ad * bd,
    ;
    assert((an * rd) * (rd * bd) == (an * bd) * (rd * rd)) by (nonlinear_arith);
    vstd::arithmetic::mul::lemma_mul_is_distributive_add_other_way(rd * ad, rn * bd, bn * rd);
    assert((rn * bd) * (rd * ad) == z * rd) by (nonlinear_arith)
        requires
            z == rn * ad * bd,
    ;
    assert((bn * rd) * (rd * ad) == (bn * ad) * (rd * rd)) by (nonlinear_arith);
    assert((an * bd) * (rd * rd) <= (bn * ad) * (rd * rd)) by (nonlinear_arith)
        requires
            an * bd <= bn * ad,
    ;
}

/// Adding a non-negative fraction does not lower a fraction; adding a
/// non-positive one does not raise it.
proof fn lemma_frac_add_signed(p: (int, int), w: (int, int))
    requires
        p.1 > 0,
        w.1 > 0,
    ensures
        w.0 >= 0 ==> frac_le(p, frac_add(p, w)),
        w.0 <= 0 ==> frac_le(frac_add(p, w), p),
{
    assert((p.0 * w.1 + w.0 * p.1) * p.1 - p.0 * (p.1 * w.1) == w.0 * (p.1 * p.1))
        by (nonlinear_arith);
    assert(p.1 * p.1 > 0) by (nonlinear_arith)
        requires
            p.1 > 0,
    ;
    if w.0 >= 0 {
        assert(w.0 * (p.1 * p.1) >= 0) by (nonlinear_arith)
            requires
                w.0 >= 0,
                p.1 * p.1 > 0,
        ;
    }
    if w.0 <= 0 {
        assert(w.0 * (p.1 * p.1) <= 0) by (nonlinear_arith)
            requires
                w.0 <= 0,
                p.1 * p.1 > 0,
        ;
    }
}

/// A range of a concentrated-liquidity pool as a constant-product segment:
/// its virtual reserves `(x, y) = (L/σ, L·σ)` at the sqrt price `σ` where
/// the trade enters it, and the input `m` that takes the price down to the
/// range's lower bound.
pub open spec fn seg_x(s: (int, int, int)) -> int {
    s.0
}

/// The segment's virtual output-side reserve.
pub open spec fn seg_y(s: (int, int, int)) -> int {
    s.1
}

/// The input that exhausts the segment.
pub open spec fn seg_cap(s: (int, int, int)) -> int {
    s.2
}

/// The price a segment ends at is the price the next one starts at:
/// `y1/x1 = x0·y0/(x0 + f·m0)²`, written without division.
pub open spec fn continues(s0: (int, int, int), s1: (int, int, int), a: int, b: int) -> bool {
    let u = pushed(seg_x(s0), a, b, seg_cap(s0));
    seg_y(s1) * (u * u) == seg_x(s1) * (seg_x(s0) * seg_y(s0) * (b * b))
}

/// A chain of segments: positive virtual reserves, non-negative capacities,
/// each segment starting at the price the one before ends at.
pub open spec fn chain_ok(segs: Seq<(int, int, int)>, a: int, b: int) -> bool
    decreases segs.len(),
{
    segs.len() >= 1 && seg_x(segs[0]) > 0 && seg_y(segs[0]) > 0 && seg_cap(segs[0]) >= 0 && (
    segs.len() == 1 || (continues(segs[0], segs[1], a, b) && chain_ok(segs.drop_first(), a, b)))
}

/// The exact gross profit of putting `d` through the chain: each segment
/// is filled in turn, the last one taking whatever remains.
pub open spec fn chain_gross_profit(
    segs: Seq<(int, int, int)>,
    a: int,
    b: int,
    c: int,
    e: int,
    d: int,
) -> (int, int)
    decreases segs.len(),
{
    if segs.len() <= 1 || d <= seg_cap(segs[0]) {
        cpmm_gross_profit(seg_x(segs[0]), seg_y(segs[0]), a, b, c, e, d)
    } else {
        frac_add(
            cpmm_gross_profit(seg_x(segs[0]), seg_y(segs[0]), a, b, c, e, seg_cap(segs[0])),
            chain_gross_profit(segs.drop_first(), a, b, c, e, d - seg_cap(segs[0])),
        )
    }
}

/// After putting `d` through the chain, the price is still at or above the
/// peak condition `f·σ'² >= P` of the segment the trade ends in.
pub open spec fn chain_before_peak(segs: Seq<(int, int, int)>, a: int, b: int, c: int, e: int, d: int) -> bool
    decreases segs.len(),
{
    if segs.len() <= 1 || d <= seg_cap(segs[0]) {
        at_or_before_peak(seg_x(segs[0]), seg_y(segs[0]), a, b, c, e, d)
    } else {
        chain_before_peak(segs.drop_first(), a, b, c, e, d - seg_cap(segs[0]))
    }
}

/// After putting `d` through the chain, the price is at or below the peak
/// condition of the segment the trade ends in.
pub open spec fn chain_after_peak(segs: Seq<(int, int, int)>, a: int, b: int, c: int, e: int, d: int) -> bool
    decreases segs.len(),
{
    if segs.len() <= 1 || d <= seg_cap(segs[0]) {
        at_or_after_peak(seg_x(segs[0]), seg_y(segs[0]), a, b, c, e, d)
    } else {
        chain_after_peak(segs.drop_first(), a, b, c, e, d - seg_cap(segs[0]))
    }
}

/// Within a segment, being before the peak holds for every smaller size,
/// and being after it for every larger one.
proof fn lemma_peak_closed(x: int, y: int, a: int, b: int, c: int, e: int, d1: int, d2: int)
    requires
        x > 0,
        a > 0,
        b > 0,
        c > 0,
        0 <= d1 <= d2,
    ensures
        at_or_before_peak(x, y, a, b, c, e, d2) ==> at_or_before_peak(x, y, a, b, c, e, d1),
        at_or_after_peak(x, y, a, b, c, e, d1) ==> at_or_after_peak(x, y, a, b, c, e, d2),
{
    let u1 = pushed(x, a, b, d1);
    let u2 = pushed(x, a, b, d2);
    assert(0 < u1 <= u2) by (nonlinear_arith)
        requires
            u1 == b * x + a * d1,
            u2 == b * x + a * d2,
            b > 0,
            x > 0,
            a > 0,
            0 <= d1 <= d2,
    ;
    assert(c * (u1 * u1) <= c * (u2 * u2)) by (nonlinear_arith)
        requires
            0 < u1 <= u2,
            c > 0,
    ;
}

/// Across a junction the peak condition carries over: the end of one
/// segment is before (after) the peak exactly when the start of the next is.
proof fn lemma_junction(s0: (int, int, int), s1: (int, int, int), a: int, b: int, c: int, e: int)
    requires
        seg_x(s0) > 0,
        seg_y(s0) > 0,
        seg_cap(s0) >= 0,
        seg_x(s1) > 0,
        seg_y(s1) > 0,
        a > 0,
        b > 0,
        c > 0,
        e > 0,
        continues(s0, s1, a, b),
    ensures
        at_or_before_peak(seg_x(s0), seg_y(s0), a, b, c, e, seg_cap(s0)) == at_or_before_peak(
            seg_x(s1),
            seg_y(s1),
            a,
            b,
            c,
            e,
            0,
        ),
        at_or_after_peak(seg_x(s0), seg_y(s0), a, b, c, e, seg_cap(s0)) == at_or_after_peak(
            seg_x(s1),
            seg_y(s1),
            a,
            b,
            c,
            e,
            0,
        ),
{
    let x0 = seg_x(s0);
    let y0 = seg_y(s0);
    let x1 = seg_x(s1);
    let y1 = seg_y(s1);
    let u = pushed(x0, a, b, seg_cap(s0));
    let v = pushed(x1, a, b, 0);
    assert(v == b * x1);
    assert(u > 0) by (nonlinear_arith)
        requires
            u == b * x0 + a * seg_cap(s0),
            b > 0,
            x0 > 0,
            a > 0,
            seg_cap(s0) >= 0,
    ;
    let uu = u * u;
    assert(uu > 0) by (nonlinear_arith)
        requires
            uu == u * u,
            u > 0,
    ;
    let k0 = e * a * b * x0 * y0;
    let k1 = e * a * b * x1 * y1;
    let z = c * b * x1 - e * a * y1;
    let bx = b * x1;
    assert(bx > 0) by (nonlinear_arith)
        requires
            bx == b * x1,
            b > 0,
            x1 > 0,
    ;
    let ea = e * a;
    let xy = x0 * y0;
    assert(k0 == ea * (b * xy)) by {
        vstd::arithmetic::mul::lemma_mul_is_associative(ea, b, x0);
        vstd::arithmetic::mul::lemma_mul_is_associative(ea, b * x0, y0);
        vstd::arithmetic::mul::lemma_mul_is_associative(b, x0, y0);
    }
    assert((b * xy) * bx == x1 * (xy * (b * b))) by (nonlinear_arith)
        requires
            bx == b * x1,
    ;
    vstd::arithmetic::mul::lemma_mul_is_associative(ea, b * xy, bx);
    assert(k0 * bx == ea * (x1 * (xy * (b * b))));
    assert(y1 * uu == x1 * (x0 * y0 * (b * b)));
    assert(k0 * bx == e * a * (y1 * uu));
    assert((c * uu - k0) * bx == c * uu * bx - k0 * bx) by (nonlinear_arith);
    let zc = c * b * x1;
    let ze = e * a * y1;
    assert(c * uu * bx == uu * zc) by (nonlinear_arith)
        requires
            zc == c * b * x1,
            bx == b * x1,
    ;
    assert(e * a * (y1 * uu) == uu * ze) by (nonlinear_arith)
        requires
            ze == e * a * y1,
    ;
    vstd::arithmetic::mul::lemma_mul_is_distributive_sub(uu, zc, ze);
    assert(c * (v * v) == bx * zc) by (nonlinear_arith)
        requires
            v == b * x1,
            bx == b * x1,
            zc == c * b * x1,
    ;
    assert(k1 == bx * ze) by (nonlinear_arith)
        requires
            k1 == e * a * b * x1 * y1,
            bx == b * x1,
            ze == e * a * y1,
    ;
    vstd::arithmetic::mul::lemma_mul_is_distributive_sub(bx, zc, ze);
    lemma_same_sign(c * uu - k0, bx, z, uu);
    lemma_same_sign(c * (v * v) - k1, 1, z, bx);
}

/// `p·q == r·s` with `q, s > 0`: `p` and `r` have the same sign.
proof fn lemma_same_sign(p: int, q: int, r: int, s: int)
    requires
        q > 0,
        s > 0,
        p * q == r * s,
    ensures
        (p <= 0) == (r <= 0),
        (p >= 0) == (r >= 0),
{
    if p > 0 {
        assert(p * q > 0) by (nonlinear_arith)
            requires
                p > 0,
                q > 0,
        ;
        assert(r > 0) by (nonlinear_arith)
            requires
                r * s > 0,
                s > 0,
        ;
    }
    if p < 0 {
        assert(p * q < 0) by (nonlinear_arith)
            requires
                p < 0,
                q > 0,
        ;
        assert(r < 0) by (nonlinear_arith)
            requires
                r * s < 0,
                s > 0,
        ;
    }
    if p == 0 {
        assert(r * s == 0);
        assert(r == 0) by (nonlinear_arith)
            requires
                r * s == 0,
                s > 0,
        ;
    }
}

/// The chain's profit has a positive denominator, and a zero numerator at
/// size zero.
proof fn lemma_chain_profit_den(segs: Seq<(int, int, int)>, a: int, b: int, c: int, e: int, d: int)
    requires
        chain_ok(segs, a, b),
        a > 0,
        b > 0,
        e > 0,
        d >= 0,
    ensures
        chain_gross_profit(segs, a, b, c, e, d).1 > 0,
        d == 0 ==> chain_gross_profit(segs, a, b, c, e, d).0 == 0,
    decreases segs.len(),
{
    let x = seg_x(segs[0]);
    let m = seg_cap(segs[0]);
    assert(e * pushed(x, a, b, d) > 0 && e * pushed(x, a, b, m) > 0) by (nonlinear_arith)
        requires
            e > 0,
            b > 0,
            x > 0,
            a > 0,
            d >= 0,
            m >= 0,
    ;
    if !(segs.len() <= 1 || d <= m) {
        lemma_chain_profit_den(segs.drop_first(), a, b, c, e, d - m);
        let g0 = cpmm_gross_profit(x, seg_y(segs[0]), a, b, c, e, m);
        let w = chain_gross_profit(segs.drop_first(), a, b, c, e, d - m);
        assert(g0.1 * w.1 > 0) by (nonlinear_arith)
            requires
                g0.1 > 0,
                w.1 > 0,
        ;
    } else if d == 0 {
        let y = seg_y(segs[0]);
        assert(e * y * a * 0 - c * 0 * pushed(x, a, b, 0) == 0) by (nonlinear_arith);
    }
}

/// Before the peak at `d` means before the peak at the chain's start.
proof fn lemma_chain_before_at_start(segs: Seq<(int, int, int)>, a: int, b: int, c: int, e: int, d: int)
    requires
        chain_ok(segs, a, b),
        a > 0,
        b > 0,
        c > 0,
        e > 0,
        d >= 0,
        chain_before_peak(segs, a, b, c, e, d),
    ensures
        at_or_before_peak(seg_x(segs[0]), seg_y(segs[0]), a, b, c, e, 0),
    decreases segs.len(),
{
    let x = seg_x(segs[0]);
    let y = seg_y(segs[0]);
    let m = seg_cap(segs[0]);
    if segs.len() <= 1 || d <= m {
        lemma_peak_closed(x, y, a, b, c, e, 0, d);
    } else {
        let rest = segs.drop_first();
        lemma_chain_before_at_start(rest, a, b, c, e, d - m);
        assert(rest[0] == segs[1]);
        lemma_junction(segs[0], segs[1], a, b, c, e);
        lemma_peak_closed(x, y, a, b, c, e, 0, m);
    }
}

/// The gross profit across the ranges of a concentrated-liquidity pool
/// rises up to the peak and falls after it: for `0 <= d1 <= d2`,
/// `g(d1) <= g(d2)` when the price after `d2` is still at or before the
/// peak condition `f·σ'² >= P`, and `g(d2) <= g(d1)` when the price after
/// `d1` is already at or past it. So the maximum is where `f·σ'² = P`,
/// found in the first range whose end price falls below it.
pub proof fn lemma_chain_gross_profit_peak(
    segs: Seq<(int, int, int)>,
    a: int,
    b: int,
    c: int,
    e: int,
    d1: int,
    d2: int,
)
    requires
        chain_ok(segs, a, b),
        a > 0,
        b > 0,
        c > 0,
        e > 0,
        0 <= d1 <= d2,
    ensures
        chain_before_peak(segs, a, b, c, e, d2) ==> frac_le(
            chain_gross_profit(segs, a, b, c, e, d1),
            chain_gross_profit(segs, a, b, c, e, d2),
        ),
        chain_after_peak(segs, a, b, c, e, d1) ==> frac_le(
            chain_gross_profit(segs, a, b, c, e, d2),
            chain_gross_profit(segs, a, b, c, e, d1),
        ),
    decreases segs.len(),
{
    let x = seg_x(segs[0]);
    let y = seg_y(segs[0]);
    let m = seg_cap(segs[0]);
    lemma_chain_profit_den(segs, a, b, c, e, d1);
    lemma_chain_profit_den(segs, a, b, c, e, d2);
    if segs.len() <= 1 || d2 <= m {
        lemma_cpmm_gross_profit_peak(x, y, a, b, c, e, d1, d2);
    } else {
        let rest = segs.drop_first();
        assert(rest[0] == segs[1]);
        assert(chain_ok(rest, a, b));
        assert(seg_x(rest[0]) > 0 && seg_y(rest[0]) > 0);
        let g0m = cpmm_gross_profit(x, y, a, b, c, e, m);
        assert(g0m.1 > 0) by (nonlinear_arith)
            requires
                g0m.1 == e * pushed(x, a, b, m),
                e > 0,
                b > 0,
                x > 0,
                a > 0,
                m >= 0,
        ;
        let w2 = chain_gross_profit(rest, a, b, c, e, d2 - m);
        lemma_chain_profit_den(rest, a, b, c, e, d2 - m);
        lemma_chain_profit_den(rest, a, b, c, e, 0);
        if d1 > m {
            lemma_chain_gross_profit_peak(rest, a, b, c, e, d1 - m, d2 - m);
            let w1 = chain_gross_profit(rest, a, b, c, e, d1 - m);
            lemma_chain_profit_den(rest, a, b, c, e, d1 - m);
            if chain_before_peak(segs, a, b, c, e, d2) {
                lemma_frac_add_mono(g0m, w1, w2);
            }
            if chain_after_peak(segs, a, b, c, e, d1) {
                lemma_frac_add_mono(g0m, w2, w1);
            }
        } else {
            let g1 = cpmm_gross_profit(x, y, a, b, c, e, d1);
            lemma_chain_profit_den(segs, a, b, c, e, d1);
            lemma_junction(segs[0], segs[1], a, b, c, e);
            lemma_chain_gross_profit_peak(rest, a, b, c, e, 0, d2 - m);
            lemma_frac_add_signed(g0m, w2);
            let z0 = chain_gross_profit(rest, a, b, c, e, 0);
            assert(z0.0 == 0 && z0.1 > 0);
            if chain_before_peak(segs, a, b, c, e, d2) {
                lemma_chain_before_at_start(rest, a, b, c, e, d2 - m);
                lemma_cpmm_gross_profit_peak(x, y, a, b, c, e, d1, m);
                assert(w2.0 >= 0) by (nonlinear_arith)
                    requires
                        z0.0 * w2.1 <= w2.0 * z0.1,
                        z0.0 == 0,
                        z0.1 > 0,
                ;
                lemma_frac_le_trans(g1, g0m, frac_add(g0m, w2));
            }
            if chain_after_peak(segs, a, b, c, e, d1) {
                lemma_peak_closed(x, y, a, b, c, e, d1, m);
                lemma_cpmm_gross_profit_peak(x, y, a, b, c, e, d1, m);
                assert(w2.0 <= 0) by (nonlinear_arith)
                    requires
                        w2.0 * z0.1 <= z0.0 * w2.1,
                        z0.0 == 0,
                        z0.1 > 0,
                ;
                lemma_frac_le_trans(frac_add(g0m, w2), g0m, g1);
            }
        }
    }
}


// ---------------------------------------------------------------------------
// Exact decimal steps
// ---------------------------------------------------------------------------
/// `10^28`: every decimal is a whole multiple of `10^-28`.
pub open spec fn ten28() -> int {
    crate::decimal::pow10(28)
}

/// A decimal's value in units of `10^-28`.
pub open spec fn units(v: (int, int)) -> int {
    v.0 * crate::decimal::pow10(28 - v.1)
}

/// A decimal's scale lies in `[0, 28]`.
pub open spec fn scaled(v: (int, int)) -> bool {
    0 <= v.1 <= 28
}

/// The step gave exactly `a + b`.
pub open spec fn exact_sum(o: Option<(int, int)>, a: (int, int), b: (int, int)) -> bool {
    o matches Some(r) && scaled(r) && units(r) == units(a) + units(b)
}

/// The step gave exactly `a - b`.
pub open spec fn exact_difference(o: Option<(int, int)>, a: (int, int), b: (int, int)) -> bool {
    o matches Some(r) && scaled(r) && units(r) == units(a) - units(b)
}

/// The step gave exactly `a · b`.
pub open spec fn exact_product(o: Option<(int, int)>, a: (int, int), b: (int, int)) -> bool {
    o matches Some(r) && scaled(r) && units(r) * ten28() == units(a) * units(b)
}

/// The step gave exactly `a / b`.
pub open spec fn exact_quotient(o: Option<(int, int)>, a: (int, int), b: (int, int)) -> bool {
    o matches Some(r) && scaled(r) && units(r) * units(b) == units(a) * ten28()
}

/// `10^28` is positive, and `10^(28 - s) · 10^s == 10^28` for a scale in
/// range.
pub proof fn lemma_units_scale(s: int)
    requires
        0 <= s <= 28,
    ensures
        ten28() > 0,
        crate::decimal::pow10(28 - s) > 0,
        crate::decimal::pow10(28 - s) * crate::decimal::pow10(s) == ten28(),
{
    crate::decimal::lemma_pow10_pos(28);
    crate::decimal::lemma_pow10_pos(28 - s);
    vstd::arithmetic::power::lemma_pow_adds(10, (28 - s) as nat, s as nat);
}

/// Comparing decimals is comparing their units.
pub proof fn lemma_units_order(a: (int, int), b: (int, int))
    requires
        scaled(a),
        scaled(b),
    ensures
        crate::decimal::value_lt(a, b) == (units(a) < units(b)),
        (a.0 > 0) == (units(a) > 0),
        (a.0 < 0) == (units(a) < 0),
{
    lemma_units_scale(a.1);
    lemma_units_scale(b.1);
    crate::decimal::lemma_pow10_pos(a.1);
    crate::decimal::lemma_pow10_pos(b.1);
    let pa = crate::decimal::pow10(a.1);
    let pb = crate::decimal::pow10(b.1);
    let qa = crate::decimal::pow10(28 - a.1);
    let qb = crate::decimal::pow10(28 - b.1);
    let t = ten28();
    // units(a) · pa · pb == a.0 · t · pb, and likewise for b.
    assert(units(a) * pa == a.0 * t) by (nonlinear_arith)
        requires
            units(a) == a.0 * qa,
            qa * pa == t,
    ;
    assert(units(b) * pb == b.0 * t) by (nonlinear_arith)
        requires
            units(b) == b.0 * qb,
            qb * pb == t,
    ;
    assert((units(a) < units(b)) == (units(a) * pa * pb < units(b) * pb * pa)) by (nonlinear_arith)
        requires
            pa > 0,
            pb > 0,
    ;
    assert(units(a) * pa * pb == a.0 * pb * t) by (nonlinear_arith)
        requires
            units(a) * pa == a.0 * t,
    ;
    assert(units(b) * pb * pa == b.0 * pa * t) by (nonlinear_arith)
        requires
            units(b) * pb == b.0 * t,
    ;
    assert((a.0 * pb * t < b.0 * pa * t) == (a.0 * pb < b.0 * pa)) by (nonlinear_arith)
        requires
            t > 0,
    ;
    assert((a.0 > 0) == (units(a) > 0) && (a.0 < 0) == (units(a) < 0)) by (nonlinear_arith)
        requires
            units(a) == a.0 * qa,
            qa > 0,
    ;
}

} // verus!
