//! What holds of the fan control whatever the curves and the temperatures are.

use crate::fan_curve::{
    fan_poll_task, fan_speed, law_speed_between, rising, round_task, sorted_curves, sorted_points,
    speed_between, speed_change, speed_reached, way_gone, Curve, FanEvent, FanPlan, FanTask,
};
use crate::single::{lemma_rounded_bounds, lemma_rounded_close, missing, rounded};
use vstd::arithmetic::power2::{
    lemma2_to64, lemma_pow2_adds, lemma_pow2_pos, lemma_pow2_strictly_increases, lemma_pow2_unfold,
    pow2,
};
use vstd::prelude::*;

verus! {

/// How far a speed is from the straight line between two points at a temperature,
/// in parts of the way between their temperatures.
pub open spec fn off_the_line(speed: u8, temperature: u32, from: (u8, u8), to: (u8, u8)) -> int {
    let way = to.0 - from.0;
    speed * way - (from.1 * way + (temperature - from.0) * (to.1 - from.1))
}

proof fn lemma_change_close(temperature: u32, from: (u8, u8), to: (u8, u8), whole: nat)
    requires
        from.0 <= temperature <= to.0,
        from.0 < to.0,
        whole == (if to.1 >= from.1 {
            to.1 - from.1
        } else {
            from.1 - to.1
        }),
    ensures
        ({
            let c = speed_change(temperature, from, to);
            let n = (temperature - from.0) as int;
            let d = (to.0 - from.0) as int;
            let off = c.0 * d - n * whole * c.1;
            &&& c.1 > 0
            &&& c.0 <= whole * c.1
            &&& -(2 * whole * d * c.1) <= 0x100_0000 * off <= 2 * whole * d * c.1
        }),
{
    let n = (temperature - from.0) as nat;
    let d = (to.0 - from.0) as nat;
    let w = way_gone(temperature, from, to);
    lemma_rounded_bounds(n, d, 1);
    lemma_rounded_close(n, d);
    let a = w.0 * whole;
    assert(a <= whole * w.1) by (nonlinear_arith)
        requires
            w.0 <= w.1,
            a == w.0 * whole,
    ;
    let c = speed_change(temperature, from, to);
    lemma_rounded_bounds(a, w.1, whole);
    lemma_rounded_close(a, w.1);
    let w0 = w.0 as int;
    let w1 = w.1 as int;
    let c0 = c.0 as int;
    let c1 = c.1 as int;
    let e1 = n * w1 - w0 * d;
    let e2 = a * c1 - c0 * w1;
    let big = 0x100_0000int;
    let off = c0 * d - n * whole * c1;
    // The two roundings, with a common denominator.
    assert(off * w1 == -(e2 * d) - e1 * (whole * c1)) by {
        assert(off * w1 == c0 * d * w1 - n * whole * c1 * w1) by (nonlinear_arith)
            requires
                off == c0 * d - n * whole * c1,
        ;
        assert(e2 * d == a * c1 * d - c0 * w1 * d) by (nonlinear_arith)
            requires
                e2 == a * c1 - c0 * w1,
        ;
        assert(e1 * (whole * c1) == n * w1 * (whole * c1) - w0 * d * (whole * c1))
            by (nonlinear_arith)
            requires
                e1 == n * w1 - w0 * d,
        ;
        assert(c0 * d * w1 == c0 * w1 * d) by (nonlinear_arith);
        assert(n * whole * c1 * w1 == n * w1 * (whole * c1)) by (nonlinear_arith);
        assert(a * c1 * d == w0 * d * (whole * c1)) by (nonlinear_arith)
            requires
                a == w0 * whole,
        ;
    }
    let cap = whole * d * c1;
    assert(-(cap * w1) <= big * (e2 * d) <= cap * w1) by (nonlinear_arith)
        requires
            -(a * c1) <= big * e2 <= a * c1,
            0 <= a <= whole * w1,
            d > 0,
            c1 > 0,
            cap == whole * d * c1,
    ;
    assert(-(cap * w1) <= big * (e1 * (whole * c1)) <= cap * w1) by (nonlinear_arith)
        requires
            -(n * w1) <= big * e1 <= n * w1,
            0 <= n <= d,
            w1 > 0,
            c1 > 0,
            whole >= 0,
            cap == whole * d * c1,
    ;
    assert(-(2 * cap) <= big * off <= 2 * cap) by (nonlinear_arith)
        requires
            off * w1 == -(e2 * d) - e1 * (whole * c1),
            -(cap * w1) <= big * (e2 * d) <= cap * w1,
            -(cap * w1) <= big * (e1 * (whole * c1)) <= cap * w1,
            w1 > 0,
    ;
    assert(2 * whole * d * c.1 == 2 * cap) by (nonlinear_arith)
        requires
            cap == whole * d * c1,
            c1 == c.1,
    ;
}

/// Between two points the speed is the whole percentage that is nearest to the
/// straight line from the one to the other.
pub proof fn law_speed_is_nearest_to_the_line(temperature: u32, from: (u8, u8), to: (u8, u8))
    requires
        from.0 <= temperature <= to.0,
        from.0 < to.0,
    ensures
        ({
            let off = off_the_line(speed_between(temperature, from, to), temperature, from, to);
            -(to.0 - from.0) <= 2 * off <= to.0 - from.0
        }),
{
    let whole: nat = if to.1 >= from.1 {
        (to.1 - from.1) as nat
    } else {
        (from.1 - to.1) as nat
    };
    lemma_change_close(temperature, from, to, whole);
    law_speed_between(temperature, from, to);
    let n = (temperature - from.0) as int;
    let d = (to.0 - from.0) as int;
    let f = from.1 as int;
    let c = speed_change(temperature, from, to);
    let c0 = c.0 as int;
    let c1 = c.1 as int;
    let v = speed_reached(temperature, from, to);
    let up = to.1 >= from.1;
    let x = f * d + n * (to.1 - from.1);
    assert(c0 <= f * c1 || up) by (nonlinear_arith)
        requires
            c0 <= whole * c1,
            up || whole <= f,
            c1 > 0,
    ;
    let s0: nat = if up {
        (f * c1 + c0) as nat
    } else {
        (f * c1 - c0) as nat
    };
    assert(f * c1 >= 0) by (nonlinear_arith)
        requires
            f >= 0,
            c1 > 0,
    ;
    assert(s0 <= 255 * c1) by (nonlinear_arith)
        requires
            up ==> s0 == f * c1 + c0 && whole + f <= 255,
            !up ==> s0 == f * c1 - c0 && f <= 255,
            0 <= c0 <= whole * c1,
            c1 > 0,
    ;
    lemma_rounded_bounds(s0, c.1, 0);
    lemma_rounded_close(s0, c.1);
    let v0 = v.0 as int;
    let v1 = v.1 as int;
    let big = 0x100_0000int;
    let e = c0 * d - n * whole * c1;
    assert(s0 * d - x * c1 == (if up {
        e
    } else {
        -e
    })) by (nonlinear_arith)
        requires
            x == f * d + n * (to.1 - from.1),
            e == c0 * d - n * whole * c1,
            up ==> s0 == f * c1 + c0 && whole == to.1 - from.1,
            !up ==> s0 == f * c1 - c0 && whole == from.1 - to.1,
    ;
    let g = s0 * d - x * c1;
    let cap = d * c1;
    assert(-(510 * cap) <= big * g <= 510 * cap) by (nonlinear_arith)
        requires
            g == e || g == -e,
            -(2 * whole * d * c1) <= big * e <= 2 * whole * d * c1,
            whole <= 255,
            d > 0,
            c1 > 0,
            cap == d * c1,
    ;
    let h = s0 * v1 - v0 * c1;
    let off = v0 * d - x * v1;
    assert(off * c1 == g * v1 - h * d) by (nonlinear_arith)
        requires
            off == v0 * d - x * v1,
            g == s0 * d - x * c1,
            h == s0 * v1 - v0 * c1,
    ;
    assert(-(255 * cap * v1) <= big * (h * d) <= 255 * cap * v1) by (nonlinear_arith)
        requires
            -(s0 * v1) <= big * h <= s0 * v1,
            0 <= s0 <= 255 * c1,
            v1 > 0,
            d > 0,
            cap == d * c1,
    ;
    assert(-(510 * cap * v1) <= big * (g * v1) <= 510 * cap * v1) by (nonlinear_arith)
        requires
            -(510 * cap) <= big * g <= 510 * cap,
            v1 > 0,
    ;
    let dv = d * v1;
    let all = big * off;
    assert(all * c1 == big * (g * v1) - big * (h * d)) by (nonlinear_arith)
        requires
            all == big * off,
            off * c1 == g * v1 - h * d,
    ;
    assert(255 * cap * v1 == 255 * (dv * c1) && 510 * cap * v1 == 510 * (dv * c1))
        by (nonlinear_arith)
        requires
            cap == d * c1,
            dv == d * v1,
    ;
    assert(-(765 * dv) <= all <= 765 * dv) by (nonlinear_arith)
        requires
            -(765 * (dv * c1)) <= all * c1 <= 765 * (dv * c1),
            c1 > 0,
    ;
    // The rounding to a percentage.
    let whole_speed = (2 * v0 + v1) / (2 * v1);
    vstd::arithmetic::div_mod::lemma_fundamental_div_mod(2 * v0 + v1, 2 * v1);
    let rest = (2 * v0 + v1) % (2 * v1);
    assert(0 <= rest < 2 * v1);
    let s = whole_speed;
    crate::fan_curve::lemma_speed_fits(temperature, from, to);
    assert(speed_between(temperature, from, to) == s);
    let line = s * d - x;
    assert(2 * line * v1 == 2 * off + (v1 - rest) * d) by (nonlinear_arith)
        requires
            line == s * d - x,
            off == v0 * d - x * v1,
            2 * v0 + v1 == (2 * v1) * s + rest,
    ;
    assert(-dv <= (v1 - rest) * d <= dv) by (nonlinear_arith)
        requires
            0 <= rest < 2 * v1,
            d > 0,
            dv == d * v1,
    ;
    assert(-(big * dv + 1530 * dv) <= big * (2 * line * v1) <= big * dv + 1530 * dv);
    assert(-(big * d + 1530 * d) <= big * (2 * line) <= big * d + 1530 * d) by (nonlinear_arith)
        requires
            -(big * dv + 1530 * dv) <= big * (2 * line * v1) <= big * dv + 1530 * dv,
            dv == d * v1,
            v1 > 0,
    ;
    assert(-d <= 2 * line <= d);
    assert(off_the_line(s as u8, temperature, from, to) == line);
}

/// Rounding leaves a fraction alone whose numerator has 24 bits and whose denominator
/// is a power of two. The power of two of its denominator is given back.
proof fn lemma_rounded_exact(m: nat, j: nat, k: nat) -> (e: nat)
    requires
        0 < m < 0x100_0000,
    ensures
        k <= j + e,
        rounded(m * pow2(j), pow2(k)).1 == pow2(e),
        rounded(m * pow2(j), pow2(k)).0 == m * pow2((j + e - k) as nat),
    decreases missing(m * pow2(j), pow2(k)),
{
    let num = m * pow2(j);
    let den = pow2(k);
    lemma_pow2_pos(j);
    lemma_pow2_pos(k);
    assert(num > 0) by (nonlinear_arith)
        requires
            num == m * pow2(j),
            m > 0,
            pow2(j) > 0,
    ;
    if num < 0x80_0000 * den {
        lemma_pow2_unfold(j + 1);
        assert(2 * num == m * pow2(j + 1)) by (nonlinear_arith)
            requires
                num == m * pow2(j),
                pow2(j + 1) == 2 * pow2(j),
        ;
        let e = lemma_rounded_exact(m, j + 1, k);
        lemma_pow2_unfold(e + 1);
        e + 1
    } else {
        if j < k {
            if j + 1 < k {
                lemma_pow2_strictly_increases(j + 1, k);
            }
            lemma_pow2_unfold(j + 1);
            assert(m * pow2(j) < 0x100_0000 * pow2(j)) by (nonlinear_arith)
                requires
                    m < 0x100_0000,
                    pow2(j) > 0,
            ;
            assert(false);
        }
        let q = m * pow2((j - k) as nat);
        lemma_pow2_adds((j - k) as nat, k);
        assert((j - k) as nat + k == j);
        assert(num == q * den) by (nonlinear_arith)
            requires
                num == m * pow2(j),
                q == m * pow2((j - k) as nat),
                pow2(j) == pow2((j - k) as nat) * den,
        ;
        vstd::arithmetic::div_mod::lemma_div_multiples_vanish(q as int, den as int);
        vstd::arithmetic::div_mod::lemma_mod_multiples_basic(q as int, den as int);
        assert(den * q == q * den) by (nonlinear_arith);
        lemma2_to64();
        0
    }
}

/// Where the temperatures of two points lie a power of two apart, a speed in the middle
/// between two percentages is rounded up.
pub proof fn law_halves_are_rounded_up(temperature: u32, from: (u8, u8), to: (u8, u8), k: nat)
    requires
        from.0 <= temperature <= to.0,
        from.0 < to.0,
        to.0 - from.0 == pow2(k),
    ensures
        ({
            let off = off_the_line(speed_between(temperature, from, to), temperature, from, to);
            -(to.0 - from.0) < 2 * off <= to.0 - from.0
        }),
{
    law_speed_is_nearest_to_the_line(temperature, from, to);
    law_speed_between(temperature, from, to);
    let n = (temperature - from.0) as nat;
    let d = (to.0 - from.0) as nat;
    let up = to.1 >= from.1;
    let whole: nat = if up {
        (to.1 - from.1) as nat
    } else {
        (from.1 - to.1) as nat
    };
    let s = speed_between(temperature, from, to) as int;
    let x = from.1 * d + n * (to.1 - from.1);
    let v = speed_reached(temperature, from, to);
    crate::fan_curve::lemma_speed_fits(temperature, from, to);
    lemma2_to64();
    if n == 0 {
        assert(s * d - x == 0) by (nonlinear_arith)
            requires
                s == from.1,
                x == from.1 * d + n * (to.1 - from.1),
                n == 0,
        ;
    } else if whole == 0 {
        assert(s * d - x == 0) by (nonlinear_arith)
            requires
                s == from.1,
                x == from.1 * d + n * (to.1 - from.1),
                to.1 == from.1,
        ;
    } else {
        // The part of the way, exactly.
        assert(n * pow2(0) == n);
        let e = lemma_rounded_exact(n, 0, k);
        let w = way_gone(temperature, from, to);
        assert(w == (n * pow2((e - k) as nat), pow2(e)));
        // The change of speed, exactly.
        let m = n * whole;
        assert(0 < m <= 255 * 255) by (nonlinear_arith)
            requires
                m == n * whole,
                0 < n <= 255,
                0 < whole <= 255,
        ;
        assert(w.0 * whole == m * pow2((e - k) as nat)) by (nonlinear_arith)
            requires
                w.0 == n * pow2((e - k) as nat),
                m == n * whole,
        ;
        let f = lemma_rounded_exact(m, (e - k) as nat, e);
        let c = speed_change(temperature, from, to);
        let g = (f - k) as nat;
        assert(c == (m * pow2(g), pow2(f)));
        // The speed, exactly.
        lemma_pow2_adds(g, k);
        assert(pow2(f) == pow2(g) * d);
        lemma_pow2_pos(g);
        lemma_pow2_pos(f);
        assert(x >= 0 && x <= 255 * 255) by (nonlinear_arith)
            requires
                x == from.1 * d + n * (to.1 - from.1),
                0 <= n <= d <= 255,
                0 <= from.1 <= 255,
                0 <= to.1 <= 255,
        ;
        let sum: int = if up {
            from.1 * c.1 + c.0
        } else {
            from.1 * c.1 - c.0
        };
        assert(sum == x * pow2(g)) by (nonlinear_arith)
            requires
                up ==> sum == from.1 * c.1 + c.0 && whole == to.1 - from.1,
                !up ==> sum == from.1 * c.1 - c.0 && whole == from.1 - to.1,
                c.1 == pow2(g) * d,
                c.0 == m * pow2(g),
                m == n * whole,
                x == from.1 * d + n * (to.1 - from.1),
        ;
        assert(sum >= 0) by (nonlinear_arith)
            requires
                sum == x * pow2(g),
                x >= 0,
        ;
        assert(v == rounded(sum as nat, c.1));
        assert(v.0 * d == x * v.1) by {
            if x == 0 {
                assert(sum == 0) by (nonlinear_arith)
                    requires
                        sum == x * pow2(g),
                        x == 0,
                ;
                assert(v == (0nat, 1nat));
                assert(v.0 * d == 0 && x * v.1 == 0) by (nonlinear_arith)
                    requires
                        v.0 == 0,
                        x == 0,
                ;
            } else {
                let h = lemma_rounded_exact(x as nat, g, f);
                let i = (h - k) as nat;
                assert(v == (x as nat * pow2(i), pow2(h)));
                lemma_pow2_adds(i, k);
                assert(i + k == h);
                assert(v.1 == pow2(i) * d);
                assert(v.0 * d == x * v.1) by (nonlinear_arith)
                    requires
                        v.0 == x * pow2(i),
                        v.1 == pow2(i) * d,
                ;
            }
        }
        let v0 = v.0 as int;
        let v1 = v.1 as int;
        vstd::arithmetic::div_mod::lemma_fundamental_div_mod(2 * v0 + v1, 2 * v1);
        let rest = (2 * v0 + v1) % (2 * v1);
        assert(0 <= rest < 2 * v1);
        assert(s == (2 * v0 + v1) / (2 * v1));
        let line = s * d - x;
        assert(2 * line * v1 == (v1 - rest) * d) by (nonlinear_arith)
            requires
                line == s * d - x,
                v0 * d == x * v1,
                2 * v0 + v1 == (2 * v1) * s + rest,
        ;
        assert(2 * line > -d) by (nonlinear_arith)
            requires
                2 * line * v1 == (v1 - rest) * d,
                rest < 2 * v1,
                v1 > 0,
                d > 0,
        ;
        assert(off_the_line(s as u8, temperature, from, to) == line);
    }
    assert(off_the_line(s as u8, temperature, from, to) == s * d - x);
}

/// On a curve in the order of its temperatures, the speed at a temperature between
/// its ends is the whole percentage that is nearest to the straight line between
/// the two points next to it. Outside it is the speed of that end, and without a
/// point half speed.
pub proof fn law_curve_is_followed(points: Seq<(u8, u8)>, temperature: u32)
    requires
        rising(points),
    ensures
        points.len() == 0 ==> fan_speed(points, temperature) == 50,
        points.len() > 0 && temperature <= points[0].0 ==> fan_speed(points, temperature)
            == points[0].1,
        points.len() > 0 && points[0].0 < temperature && points.last().0 <= temperature
            ==> fan_speed(points, temperature) == points.last().1,
        forall|k: int|
            0 <= k < points.len() - 1 && (#[trigger] points[k]).0 < temperature <= points[k + 1].0
                && temperature < points.last().0 ==> {
                let off = off_the_line(
                    fan_speed(points, temperature),
                    temperature,
                    points[k],
                    points[k + 1],
                );
                -(points[k + 1].0 - points[k].0) <= 2 * off <= points[k + 1].0 - points[k].0
            },
{
    assert forall|k: int|
        0 <= k < points.len() - 1 && (#[trigger] points[k]).0 < temperature <= points[k + 1].0
            && temperature < points.last().0 implies {
        let off = off_the_line(
            fan_speed(points, temperature),
            temperature,
            points[k],
            points[k + 1],
        );
        -(points[k + 1].0 - points[k].0) <= 2 * off <= points[k + 1].0 - points[k].0
    } by {
        if k > 0 {
            assert(points[0].0 <= points[k].0);
        }
        let m = crate::fan_curve::lemma_stretch(points, 0, temperature);
        if m < k {
            if m + 1 < k {
                assert(points[m + 1].0 <= points[k].0);
            }
        } else if k < m {
            if k + 1 < m {
                assert(points[k + 1].0 <= points[m].0);
            }
        }
        law_speed_is_nearest_to_the_line(temperature, points[k], points[k + 1]);
    }
}

/// How many events belong to the fans of the first `k` curves: two for each fan
/// whose temperature could be read, one for each other fan that there is.
pub open spec fn events_of(
    curves: Seq<Curve>,
    fan_count: u32,
    events: Seq<FanEvent>,
    k: int,
) -> int
    decreases k,
{
    if k <= 0 {
        0
    } else {
        let before = events_of(curves, fan_count, events, k - 1);
        if curves[k - 1].fan_id >= fan_count {
            before
        } else if 0 <= before < events.len() && events[before] is Temperature {
            before + 2
        } else {
            before + 1
        }
    }
}

proof fn lemma_events_grow(
    curves: Seq<Curve>,
    fan_count: u32,
    events: Seq<FanEvent>,
    j: int,
    k: int,
)
    requires
        0 <= j <= k,
    ensures
        0 <= events_of(curves, fan_count, events, j) <= events_of(curves, fan_count, events, k),
    decreases k,
{
    if j < k {
        lemma_events_grow(curves, fan_count, events, j, k - 1);
    } else if k > 0 {
        lemma_events_grow(curves, fan_count, events, k - 1, k - 1);
    }
}

proof fn lemma_past_curves(
    curves: Seq<Curve>,
    sorted: Seq<Seq<(u8, u8)>>,
    fan_count: u32,
    events: Seq<FanEvent>,
    k: int,
)
    requires
        0 <= k <= curves.len() <= sorted.len(),
        events_of(curves, fan_count, events, k) <= events.len(),
    ensures
        0 <= events_of(curves, fan_count, events, k),
        round_task(curves, sorted, fan_count, events) == round_task(
            curves.skip(k),
            sorted.skip(k),
            fan_count,
            events.skip(events_of(curves, fan_count, events, k)),
        ),
    decreases k,
{
    lemma_events_grow(curves, fan_count, events, 0, k);
    if k == 0 {
        assert(curves.skip(0) =~= curves);
        assert(sorted.skip(0) =~= sorted);
        assert(events.skip(0) =~= events);
    } else {
        let before = events_of(curves, fan_count, events, k - 1);
        lemma_events_grow(curves, fan_count, events, k - 1, k);
        lemma_past_curves(curves, sorted, fan_count, events, k - 1);
        let rest = events.skip(before);
        assert(curves.skip(k - 1)[0] == curves[k - 1]);
        assert(curves.skip(k - 1).drop_first() =~= curves.skip(k));
        assert(sorted.skip(k - 1).drop_first() =~= sorted.skip(k));
        if curves[k - 1].fan_id < fan_count {
            assert(rest[0] == events[before]);
            assert(rest.skip(1) =~= events.skip(before + 1));
            if events[before] is Temperature {
                assert(rest.skip(2) =~= events.skip(before + 2));
            }
        }
    }
}

/// When it is the turn of a curve whose fan is there, the temperature at that fan
/// is read; once it is known, that fan gets the speed that the points of this very
/// curve give at this temperature. After the last curve there is nothing to do.
pub proof fn law_each_fan_has_its_turn(
    curves: Seq<Curve>,
    sorted: Seq<Seq<(u8, u8)>>,
    fan_count: u32,
    events: Seq<FanEvent>,
    k: int,
)
    requires
        0 <= k <= curves.len() <= sorted.len(),
    ensures
        ({
            let before = events_of(curves, fan_count, events, k);
            let task = round_task(curves, sorted, fan_count, events);
            &&& k < curves.len() && curves[k].fan_id < fan_count && events.len() == before ==> task
                == Some(FanTask::ReadTemperature(curves[k].fan_id))
            &&& k < curves.len() && curves[k].fan_id < fan_count && events.len() == before + 1
                && events.last() is Temperature ==> task == Some(
                FanTask::SetSpeed(
                    curves[k].fan_id,
                    fan_speed(sorted[k], events.last()->Temperature_0) as u32,
                ),
            )
            &&& k == curves.len() && events.len() >= before ==> task is None
        }),
{
    let before = events_of(curves, fan_count, events, k);
    if events.len() >= before {
        lemma_past_curves(curves, sorted, fan_count, events, k);
        let rest = events.skip(before);
        if k < curves.len() {
            assert(curves.skip(k)[0] == curves[k]);
            assert(sorted.skip(k)[0] == sorted[k]);
            if events.len() == before + 1 {
                assert(rest[0] == events.last());
            }
        }
    }
}

proof fn lemma_whose_turn(
    curves: Seq<Curve>,
    fan_count: u32,
    events: Seq<FanEvent>,
    n: int,
) -> (k: int)
    requires
        0 <= n <= curves.len(),
        events_of(curves, fan_count, events, n) > events.len(),
    ensures
        0 <= k < n,
        curves[k].fan_id < fan_count,
        events_of(curves, fan_count, events, k) == events.len() || (events_of(
            curves,
            fan_count,
            events,
            k,
        ) + 1 == events.len() && events.last() is Temperature),
    decreases n,
{
    let before = events_of(curves, fan_count, events, n - 1);
    lemma_events_grow(curves, fan_count, events, 0, n - 1);
    if before > events.len() {
        lemma_whose_turn(curves, fan_count, events, n - 1)
    } else {
        n - 1
    }
}

/// Whatever a round asks for belongs to a curve whose turn it is and whose fan is
/// there: the temperature at its fan, or for its fan the speed that its own points
/// give at the temperature that was read last.
pub proof fn law_tasks_belong_to_a_curve(
    curves: Seq<Curve>,
    sorted: Seq<Seq<(u8, u8)>>,
    fan_count: u32,
    events: Seq<FanEvent>,
)
    requires
        curves.len() <= sorted.len(),
    ensures
        match round_task(curves, sorted, fan_count, events) {
            Some(FanTask::ReadTemperature(fan)) => exists|k: int|
                0 <= k < curves.len() && (#[trigger] curves[k]).fan_id == fan && fan < fan_count
                    && events_of(curves, fan_count, events, k) == events.len(),
            Some(FanTask::SetSpeed(fan, speed)) => exists|k: int|
                0 <= k < curves.len() && (#[trigger] curves[k]).fan_id == fan && fan < fan_count
                    && events_of(curves, fan_count, events, k) + 1 == events.len()
                    && events.last() is Temperature && speed == fan_speed(
                    sorted[k],
                    events.last()->Temperature_0,
                ),
            None => events_of(curves, fan_count, events, curves.len() as int) <= events.len(),
        },
{
    let n = curves.len() as int;
    if events_of(curves, fan_count, events, n) <= events.len() {
        law_each_fan_has_its_turn(curves, sorted, fan_count, events, n);
    } else {
        let k = lemma_whose_turn(curves, fan_count, events, n);
        law_each_fan_has_its_turn(curves, sorted, fan_count, events, k);
        assert(curves[k].fan_id < fan_count);
    }
}

/// A poll asks for a speed only while the settings control the fans, for a fan that
/// has a curve in them, and by the points of that curve in the order of their
/// temperatures.
pub proof fn law_poll_goes_by_the_settings(
    state: Option<FanPlan>,
    fan_count: u32,
    events: Seq<FanEvent>,
)
    ensures
        state is None || !state->0.control_enabled ==> fan_poll_task(state, fan_count, events)
            is None,
        state is Some && state->0.control_enabled && events.len() == 0 && (exists|k: int|
            0 <= k < state->0.curves.len() && (#[trigger] state->0.curves[k]).fan_id < fan_count)
            ==> fan_poll_task(state, fan_count, events) is Some,
        fan_poll_task(state, fan_count, events) matches Some(FanTask::SetSpeed(fan, speed)) ==> {
            &&& state is Some
            &&& events.len() > 0
            &&& events.last() is Temperature
            &&& exists|k: int|
                0 <= k < state->0.curves.len() && (#[trigger] state->0.curves[k]).fan_id == fan
                    && events_of(state->0.curves, fan_count, events, k) + 1 == events.len()
                    && speed == fan_speed(
                    sorted_points(state->0.curves[k].points),
                    events.last()->Temperature_0,
                )
        },
{
    if state is Some && state->0.control_enabled {
        let curves = state->0.curves;
        let sorted = sorted_curves(curves);
        law_tasks_belong_to_a_curve(curves, sorted, fan_count, events);
        if let Some(FanTask::SetSpeed(fan, speed)) = fan_poll_task(state, fan_count, events) {
            let k = choose|k: int|
                0 <= k < curves.len() && (#[trigger] curves[k]).fan_id == fan && fan < fan_count
                    && events_of(curves, fan_count, events, k) + 1 == events.len()
                    && events.last() is Temperature && speed == fan_speed(
                    sorted[k],
                    events.last()->Temperature_0,
                );
            assert(sorted[k] == sorted_points(curves[k].points));
            assert(state->0.curves[k].fan_id == fan);
            lemma_events_grow(curves, fan_count, events, 0, k);
        }
        if exists|k: int| 0 <= k < curves.len() && (#[trigger] curves[k]).fan_id < fan_count {
            let k = choose|k: int| 0 <= k < curves.len() && (#[trigger] curves[k]).fan_id < fan_count;
            lemma_events_grow(curves, fan_count, events, 0, k);
            lemma_events_grow(curves, fan_count, events, k + 1, curves.len() as int);
            assert(events_of(curves, fan_count, events, k + 1) > 0);
        }
    }
}

} // verus!
