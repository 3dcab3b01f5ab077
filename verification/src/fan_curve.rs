//! Fan curves: from the temperature at a fan to its speed.

use crate::single::{lemma_rounded_bounds, lemma_rounded_monotone, round_fraction, rounded};
use crate::tuxedo_io::TuxedoIo;
use vstd::prelude::*;

verus! {

/// The curve of a fan: points of a temperature and a speed in percent.
#[derive(Debug)]
pub struct FanCurve {
    pub fan_id: u32,
    pub points: Vec<(u8, u8)>,
}

/// The fan settings of a profile.
#[derive(Debug)]
pub struct FanSettings {
    pub control_enabled: bool,
    pub curves: Vec<FanCurve>,
}

/// What a `FanCurve` says.
pub struct Curve {
    pub fan_id: u32,
    pub points: Seq<(u8, u8)>,
}

/// What `FanSettings` say.
pub struct FanPlan {
    pub control_enabled: bool,
    pub curves: Seq<Curve>,
}

impl View for FanCurve {
    type V = Curve;

    open spec fn view(&self) -> Curve {
        Curve { fan_id: self.fan_id, points: self.points@ }
    }
}

/// What the curves of a list say.
pub open spec fn curves(list: Seq<FanCurve>) -> Seq<Curve> {
    list.map_values(|c: FanCurve| c@)
}

impl View for FanSettings {
    type V = FanPlan;

    open spec fn view(&self) -> FanPlan {
        FanPlan { control_enabled: self.control_enabled, curves: curves(self.curves@) }
    }
}

/// Copies the points of a curve.
pub fn copy_points(points: &Vec<(u8, u8)>) -> (r: Vec<(u8, u8)>)
    ensures
        r@ == points@,
{
    let mut out: Vec<(u8, u8)> = Vec::new();
    let mut i: usize = 0;
    while i < points.len()
        invariant
            i <= points@.len(),
            out@ == points@.take(i as int),
        decreases points@.len() - i,
    {
        out.push(points[i]);
        assert(out@ =~= points@.take(i + 1));
        i = i + 1;
    }
    assert(points@.take(points@.len() as int) =~= points@);
    out
}

impl Clone for FanCurve {
    fn clone(&self) -> (r: FanCurve)
        ensures
            r@ == self@,
    {
        FanCurve { fan_id: self.fan_id, points: copy_points(&self.points) }
    }
}

impl Clone for FanSettings {
    fn clone(&self) -> (r: FanSettings)
        ensures
            r@ == self@,
    {
        let mut list: Vec<FanCurve> = Vec::new();
        let mut i: usize = 0;
        while i < self.curves.len()
            invariant
                i <= self.curves@.len(),
                list@.len() == i,
                forall|k: int| 0 <= k < i ==> (#[trigger] list@[k])@ == self.curves@[k]@,
            decreases self.curves@.len() - i,
        {
            list.push(self.curves[i].clone());
            i = i + 1;
        }
        assert(curves(list@) =~= curves(self.curves@));
        FanSettings { control_enabled: self.control_enabled, curves: list }
    }
}

/// `p` inserted into `list` before the first point of a higher temperature.
pub open spec fn point_inserted(list: Seq<(u8, u8)>, p: (u8, u8)) -> Seq<(u8, u8)>
    decreases list.len(),
{
    if list.len() == 0 {
        seq![p]
    } else if p.0 < list[0].0 {
        seq![p] + list
    } else {
        seq![list[0]] + point_inserted(list.drop_first(), p)
    }
}

/// The points in the order of their temperatures; points of one temperature
/// keep their order.
pub open spec fn sorted_points(points: Seq<(u8, u8)>) -> Seq<(u8, u8)>
    decreases points.len(),
{
    if points.len() == 0 {
        Seq::empty()
    } else {
        point_inserted(sorted_points(points.drop_last()), points.last())
    }
}

/// Sorts the points of a curve by their temperatures.
pub fn sort_points(points: &Vec<(u8, u8)>) -> (r: Vec<(u8, u8)>)
    ensures
        r@ == sorted_points(points@),
{
    let mut out: Vec<(u8, u8)> = Vec::new();
    let mut i: usize = 0;
    assert(out@ =~= sorted_points(points@.take(0)));
    while i < points.len()
        invariant
            i <= points@.len(),
            out@ == sorted_points(points@.take(i as int)),
        decreases points@.len() - i,
    {
        let p = points[i];
        let ghost before = out@;
        let mut at: usize = 0;
        assert(before.skip(0) =~= before);
        assert(before.take(0) + point_inserted(before.skip(0), p) =~= point_inserted(before, p));
        while at < out.len() && p.0 >= out[at].0
            invariant
                at <= out@.len(),
                before == out@,
                point_inserted(before, p) == before.take(at as int) + point_inserted(
                    before.skip(at as int),
                    p,
                ),
            decreases out@.len() - at,
        {
            let ghost rest = before.skip(at as int);
            assert(rest[0] == before[at as int]);
            assert(rest.drop_first() =~= before.skip(at + 1));
            assert(before.take(at as int) + (seq![rest[0]] + point_inserted(rest.drop_first(), p))
                =~= before.take(at + 1) + point_inserted(before.skip(at + 1), p));
            at = at + 1;
        }
        proof {
            let rest = before.skip(at as int);
            if at < out@.len() {
                assert(rest[0] == before[at as int]);
            } else {
                assert(rest =~= Seq::<(u8, u8)>::empty());
            }
            assert(point_inserted(rest, p) =~= seq![p] + rest);
            assert(points@.take(i + 1).drop_last() =~= points@.take(i as int));
            assert(points@.take(i + 1).last() == p);
        }
        out.insert(at, p);
        assert(out@ =~= before.take(at as int) + (seq![p] + before.skip(at as int)));
        i = i + 1;
    }
    assert(points@.take(points@.len() as int) =~= points@);
    out
}

/// The temperatures never fall along the curve.
pub open spec fn rising(points: Seq<(u8, u8)>) -> bool {
    forall|i: int, j: int|
        0 <= i < j < points.len() ==> (#[trigger] points[i]).0 <= (#[trigger] points[j]).0
}

/// The speeds at one temperature, in order.
pub open spec fn speeds_at(points: Seq<(u8, u8)>, temperature: u8) -> Seq<u8>
    decreases points.len(),
{
    if points.len() == 0 {
        Seq::empty()
    } else if points[0].0 == temperature {
        seq![points[0].1] + speeds_at(points.drop_first(), temperature)
    } else {
        speeds_at(points.drop_first(), temperature)
    }
}

proof fn lemma_speeds_of_push(points: Seq<(u8, u8)>, p: (u8, u8), temperature: u8)
    ensures
        speeds_at(points.push(p), temperature) == (if p.0 == temperature {
            speeds_at(points, temperature).push(p.1)
        } else {
            speeds_at(points, temperature)
        }),
    decreases points.len(),
{
    let all = points.push(p);
    if points.len() == 0 {
        assert(all.drop_first() =~= Seq::<(u8, u8)>::empty());
        assert(speeds_at(all.drop_first(), temperature) =~= Seq::<u8>::empty());
        if p.0 == temperature {
            assert(speeds_at(all, temperature) =~= speeds_at(points, temperature).push(p.1));
        }
    } else {
        lemma_speeds_of_push(points.drop_first(), p, temperature);
        assert(all.drop_first() =~= points.drop_first().push(p));
        if p.0 == temperature {
            assert(speeds_at(all, temperature) =~= speeds_at(points, temperature).push(p.1));
        }
    }
}

proof fn lemma_no_speed_below(points: Seq<(u8, u8)>, temperature: u8)
    requires
        forall|i: int| 0 <= i < points.len() ==> temperature < (#[trigger] points[i]).0,
    ensures
        speeds_at(points, temperature) == Seq::<u8>::empty(),
    decreases points.len(),
{
    if points.len() > 0 {
        let rest = points.drop_first();
        assert forall|i: int| 0 <= i < rest.len() implies temperature < (#[trigger] rest[i]).0 by {
            assert(rest[i] == points[i + 1]);
        }
        lemma_no_speed_below(rest, temperature);
    }
}

proof fn lemma_point_inserted(list: Seq<(u8, u8)>, p: (u8, u8), temperature: u8)
    requires
        rising(list),
    ensures
        rising(point_inserted(list, p)),
        point_inserted(list, p).len() == list.len() + 1,
        forall|i: int|
            0 <= i <= list.len() ==> (#[trigger] point_inserted(list, p)[i] == p
                || list.contains(point_inserted(list, p)[i])),
        speeds_at(point_inserted(list, p), temperature) == (if p.0 == temperature {
            speeds_at(list, temperature).push(p.1)
        } else {
            speeds_at(list, temperature)
        }),
    decreases list.len(),
{
    let out = point_inserted(list, p);
    if list.len() == 0 {
        assert(out.drop_first() =~= list);
        assert(speeds_at(list, temperature) =~= Seq::<u8>::empty());
        assert(seq![p.1] + speeds_at(list, temperature) =~= speeds_at(list, temperature).push(p.1));
    } else if p.0 < list[0].0 {
        assert(out.drop_first() =~= list);
        assert forall|i: int| 0 <= i < list.len() implies p.0 < (#[trigger] list[i]).0 by {
            assert(list[0].0 <= list[i].0);
        }
        if p.0 == temperature {
            lemma_no_speed_below(list, temperature);
            assert(seq![p.1] + speeds_at(list, temperature) =~= speeds_at(list, temperature).push(
                p.1,
            ));
        }
        assert forall|i: int| 0 <= i <= list.len() implies (#[trigger] out[i] == p || list.contains(
            out[i],
        )) by {
            if i > 0 {
                assert(out[i] == list[i - 1]);
            }
        }
        assert forall|i: int, j: int| 0 <= i < j < out.len() implies (#[trigger] out[i]).0 <= (
        #[trigger] out[j]).0 by {
            assert(out[j] == list[j - 1]);
            if i > 0 {
                assert(out[i] == list[i - 1]);
            }
        }
    } else {
        let rest = list.drop_first();
        assert forall|i: int, j: int| 0 <= i < j < rest.len() implies (#[trigger] rest[i]).0 <= (
        #[trigger] rest[j]).0 by {
            assert(rest[i] == list[i + 1] && rest[j] == list[j + 1]);
        }
        lemma_point_inserted(rest, p, temperature);
        let tail = point_inserted(rest, p);
        assert(out.drop_first() =~= tail);
        if p.0 == temperature && list[0].0 == temperature {
            assert(seq![list[0].1] + speeds_at(rest, temperature).push(p.1) =~= (seq![list[0].1]
                + speeds_at(rest, temperature)).push(p.1));
        }
        assert forall|i: int| 0 <= i <= list.len() implies (#[trigger] out[i] == p || list.contains(
            out[i],
        )) by {
            if i == 0 {
                assert(out[0] == list[0]);
            } else if tail[i - 1] != p {
                let k = choose|k: int| 0 <= k < rest.len() && rest[k] == tail[i - 1];
                assert(list[k + 1] == out[i]);
            }
        }
        assert forall|i: int, j: int| 0 <= i < j < out.len() implies (#[trigger] out[i]).0 <= (
        #[trigger] out[j]).0 by {
            assert(out[j] == tail[j - 1]);
            if i > 0 {
                assert(out[i] == tail[i - 1]);
            } else if tail[j - 1] != p {
                let k = choose|k: int| 0 <= k < rest.len() && rest[k] == tail[j - 1];
                assert(list[0].0 <= list[k + 1].0);
            }
        }
    }
}

/// Sorting a curve puts its points in the order of their temperatures. Every
/// temperature keeps its speeds, and their order.
pub proof fn law_sorted_curve(points: Seq<(u8, u8)>, temperature: u8)
    ensures
        rising(sorted_points(points)),
        sorted_points(points).len() == points.len(),
        speeds_at(sorted_points(points), temperature) == speeds_at(points, temperature),
    decreases points.len(),
{
    if points.len() > 0 {
        let init = points.drop_last();
        law_sorted_curve(init, temperature);
        lemma_point_inserted(sorted_points(init), points.last(), temperature);
        lemma_speeds_of_push(init, points.last(), temperature);
        assert(init.push(points.last()) =~= points);
    }
}

/// The part of the way from one point to the next that a temperature has gone.
pub open spec fn way_gone(temperature: u32, from: (u8, u8), to: (u8, u8)) -> (nat, nat) {
    rounded((temperature - from.0) as nat, (to.0 - from.0) as nat)
}

/// The change of speed on that way.
pub open spec fn speed_change(temperature: u32, from: (u8, u8), to: (u8, u8)) -> (nat, nat) {
    let way = way_gone(temperature, from, to);
    let whole = if to.1 >= from.1 {
        (to.1 - from.1) as nat
    } else {
        (from.1 - to.1) as nat
    };
    rounded(way.0 * whole, way.1)
}

/// The speed between two points, before it is rounded to a percentage.
pub open spec fn speed_reached(temperature: u32, from: (u8, u8), to: (u8, u8)) -> (nat, nat) {
    let change = speed_change(temperature, from, to);
    if to.1 >= from.1 {
        rounded((from.1 * change.1 + change.0) as nat, change.1)
    } else {
        rounded((from.1 * change.1 - change.0) as nat, change.1)
    }
}

/// The speed at a temperature between those of two points: as far from the one
/// speed to the other as the temperature is from the one to the other, in single
/// precision and rounded to the nearest percentage, halves upwards. Where both
/// points have one temperature there is no such part, and the speed is zero.
pub open spec fn speed_between(temperature: u32, from: (u8, u8), to: (u8, u8)) -> u8 {
    if from.0 == to.0 {
        0
    } else {
        let speed = speed_reached(temperature, from, to);
        ((2 * speed.0 + speed.1) / (2 * speed.1)) as u8
    }
}

/// The speed on the first stretch from the `i`-th point on that the temperature
/// lies on.
pub open spec fn stretch_speed(points: Seq<(u8, u8)>, i: int, temperature: u32) -> u8
    decreases points.len() - i,
{
    if i + 1 >= points.len() {
        50
    } else if points[i].0 <= temperature <= points[i + 1].0 {
        speed_between(temperature, points[i], points[i + 1])
    } else {
        stretch_speed(points, i + 1, temperature)
    }
}

/// The speed that a curve gives at a temperature: half speed without a point,
/// the speed of the first point up to its temperature and that of the last from
/// its temperature on, and between them that of the stretch.
pub open spec fn fan_speed(points: Seq<(u8, u8)>, temperature: u32) -> u8 {
    if points.len() == 0 {
        50
    } else if points.len() == 1 || temperature <= points[0].0 {
        points[0].1
    } else if temperature >= points.last().0 {
        points.last().1
    } else {
        stretch_speed(points, 0, temperature)
    }
}

proof fn lemma_speed_parts(temperature: u32, from: (u8, u8), to: (u8, u8))
    requires
        from.0 <= temperature <= to.0,
        from.0 < to.0,
    ensures
        way_gone(temperature, from, to).1 > 0,
        way_gone(temperature, from, to).0 <= way_gone(temperature, from, to).1,
        speed_change(temperature, from, to).1 > 0,
        to.1 >= from.1 ==> speed_change(temperature, from, to).0 <= (to.1 - from.1) * speed_change(
            temperature,
            from,
            to,
        ).1,
        to.1 < from.1 ==> speed_change(temperature, from, to).0 <= (from.1 - to.1) * speed_change(
            temperature,
            from,
            to,
        ).1,
        to.1 < from.1 ==> speed_change(temperature, from, to).0 <= from.1 * speed_change(
            temperature,
            from,
            to,
        ).1,
{
    let n = (temperature - from.0) as nat;
    let d = (to.0 - from.0) as nat;
    let way = way_gone(temperature, from, to);
    lemma_rounded_bounds(n, d, 1);
    let whole = if to.1 >= from.1 {
        (to.1 - from.1) as nat
    } else {
        (from.1 - to.1) as nat
    };
    assert(way.0 * whole <= whole * way.1) by (nonlinear_arith)
        requires
            way.0 <= way.1,
    ;
    lemma_rounded_bounds(way.0 * whole, way.1, whole);
    let change = speed_change(temperature, from, to);
    if to.1 < from.1 {
        assert(change.0 <= from.1 * change.1) by (nonlinear_arith)
            requires
                change.0 <= (from.1 - to.1) * change.1,
                change.1 > 0,
        ;
    }
}

proof fn lemma_reached_bounds(temperature: u32, from: (u8, u8), to: (u8, u8))
    requires
        from.0 <= temperature <= to.0,
        from.0 < to.0,
    ensures
        ({
            let speed = speed_reached(temperature, from, to);
            &&& speed.1 > 0
            &&& from.1 <= to.1 ==> from.1 * speed.1 <= speed.0 <= to.1 * speed.1
            &&& to.1 <= from.1 ==> to.1 * speed.1 <= speed.0 <= from.1 * speed.1
        }),
{
    lemma_speed_parts(temperature, from, to);
    let change = speed_change(temperature, from, to);
    let d = change.1;
    if to.1 >= from.1 {
        let sum = (from.1 * d + change.0) as nat;
        assert(from.1 * d <= sum <= to.1 * d) by (nonlinear_arith)
            requires
                sum == from.1 * d + change.0,
                change.0 <= (to.1 - from.1) * d,
        ;
        lemma_rounded_bounds(sum, d, from.1 as nat);
        lemma_rounded_bounds(sum, d, to.1 as nat);
    } else {
        let sum = (from.1 * d - change.0) as nat;
        assert(to.1 * d <= sum <= from.1 * d) by (nonlinear_arith)
            requires
                sum == from.1 * d - change.0,
                change.0 <= (from.1 - to.1) * d,
                change.0 >= 0,
        ;
        lemma_rounded_bounds(sum, d, from.1 as nat);
        lemma_rounded_bounds(sum, d, to.1 as nat);
    }
}

proof fn lemma_round_half_up(num: nat, den: nat, c: nat)
    requires
        den > 0,
    ensures
        num <= c * den ==> (2 * num + den) / (2 * den) <= c,
        num >= c * den ==> (2 * num + den) / (2 * den) >= c,
{
    let q = (2 * num + den) / (2 * den);
    let r = (2 * num + den) % (2 * den);
    vstd::arithmetic::div_mod::lemma_fundamental_div_mod((2 * num + den) as int, (2 * den) as int);
    assert(r < 2 * den);
    if num <= c * den {
        assert(q <= c) by (nonlinear_arith)
            requires
                2 * num + den == (2 * den) * q + r,
                r >= 0,
                num <= c * den,
                den > 0,
        ;
    }
    if num >= c * den {
        assert(q >= c) by (nonlinear_arith)
            requires
                2 * num + den == (2 * den) * q + r,
                r < 2 * den,
                num >= c * den,
                den > 0,
        ;
    }
}

/// Between two points the speed lies between their speeds, and at the
/// temperature of either it is that point's.
pub proof fn law_speed_between(temperature: u32, from: (u8, u8), to: (u8, u8))
    requires
        from.0 <= temperature <= to.0,
        from.0 < to.0,
    ensures
        from.1 <= to.1 ==> from.1 <= speed_between(temperature, from, to) <= to.1,
        to.1 <= from.1 ==> to.1 <= speed_between(temperature, from, to) <= from.1,
        temperature == from.0 ==> speed_between(temperature, from, to) == from.1,
        temperature == to.0 ==> speed_between(temperature, from, to) == to.1,
{
    lemma_reached_bounds(temperature, from, to);
    let speed = speed_reached(temperature, from, to);
    lemma_round_half_up(speed.0, speed.1, from.1 as nat);
    lemma_round_half_up(speed.0, speed.1, to.1 as nat);
    let way = way_gone(temperature, from, to);
    let change = speed_change(temperature, from, to);
    let whole = if to.1 >= from.1 {
        (to.1 - from.1) as nat
    } else {
        (from.1 - to.1) as nat
    };
    lemma_speed_parts(temperature, from, to);
    if temperature == from.0 {
        assert(way.0 == 0);
        assert(way.0 * whole == 0) by (nonlinear_arith)
            requires
                way.0 == 0,
        ;
        assert(change == (0nat, 1nat));
        assert(from.1 * 1 == from.1);
        lemma_rounded_bounds(from.1 as nat, 1, from.1 as nat);
    }
    if temperature == to.0 {
        let d = (to.0 - from.0) as nat;
        assert(1 * d == d);
        lemma_rounded_bounds(d, d, 1);
        assert(way.0 == way.1);
        assert(way.0 * whole == whole * way.1) by (nonlinear_arith)
            requires
                way.0 == way.1,
        ;
        lemma_rounded_bounds(way.0 * whole, way.1, whole);
        assert(change.0 == whole * change.1);
        let sum = if to.1 >= from.1 {
            (from.1 * change.1 + change.0) as nat
        } else {
            (from.1 * change.1 - change.0) as nat
        };
        if to.1 >= from.1 {
            assert(sum == to.1 * change.1) by (nonlinear_arith)
                requires
                    sum == from.1 * change.1 + change.0,
                    change.0 == (to.1 - from.1) * change.1,
            ;
        } else {
            assert(sum == to.1 * change.1) by (nonlinear_arith)
                requires
                    sum == from.1 * change.1 - change.0,
                    change.0 == (from.1 - to.1) * change.1,
            ;
        }
        lemma_rounded_bounds(sum, change.1, to.1 as nat);
    }
}

/// Rounded to a percentage, the speed between two points fits in a byte.
pub proof fn lemma_speed_fits(temperature: u32, from: (u8, u8), to: (u8, u8))
    requires
        from.0 <= temperature <= to.0,
        from.0 < to.0,
    ensures
        ({
            let speed = speed_reached(temperature, from, to);
            &&& speed.1 > 0
            &&& (2 * speed.0 + speed.1) / (2 * speed.1) <= 255
        }),
{
    lemma_reached_bounds(temperature, from, to);
    let speed = speed_reached(temperature, from, to);
    lemma_round_half_up(speed.0, speed.1, from.1 as nat);
    lemma_round_half_up(speed.0, speed.1, to.1 as nat);
}

fn interpolate(temperature: u32, from: (u8, u8), to: (u8, u8)) -> (r: u8)
    requires
        from.0 <= temperature <= to.0,
    ensures
        r == speed_between(temperature, from, to),
{
    if from.0 == to.0 {
        return 0;
    }
    proof {
        lemma_speed_parts(temperature, from, to);
        lemma_reached_bounds(temperature, from, to);
        law_speed_between(temperature, from, to);
    }
    let way = round_fraction((temperature - from.0 as u32) as u128, (to.0 - from.0) as u128);
    let whole: u8 = if to.1 >= from.1 {
        to.1 - from.1
    } else {
        from.1 - to.1
    };
    assert(way.1 < 0x100_0000 * 0xff);
    assert(way.0 * whole <= 0xff * way.1) by (nonlinear_arith)
        requires
            way.0 <= way.1,
            whole <= 0xff,
    ;
    let change = round_fraction(way.0 * whole as u128, way.1);
    assert(change.1 < 0x100_0000 * (0x100_0000 * 0xff));
    let ghost d = change.1 as int;
    assert(0 <= from.1 * d <= 0xff * d) by (nonlinear_arith)
        requires
            0 <= from.1 <= 0xff,
            d > 0,
    ;
    assert(change.0 <= 0xff * d) by (nonlinear_arith)
        requires
            change.0 <= whole * d,
            whole <= 0xff,
            d > 0,
    ;
    let start: u128 = from.1 as u128 * change.1;
    let speed = if to.1 >= from.1 {
        round_fraction(start + change.0, change.1)
    } else {
        round_fraction(start - change.0, change.1)
    };
    assert(speed.1 < 0x100_0000 * (0x100_0000 * (0x100_0000 * 0xff)));
    assert(speed.0 <= 0xff * speed.1) by (nonlinear_arith)
        requires
            speed.0 <= from.1 * speed.1 || speed.0 <= to.1 * speed.1,
            from.1 <= 0xff,
            to.1 <= 0xff,
    ;
    ((2 * speed.0 + speed.1) / (2 * speed.1)) as u8
}

/// The speed that a curve gives at a temperature. The points are meant to stand
/// in the order of their temperatures.
pub fn calculate_fan_speed(sorted_points: &Vec<(u8, u8)>, temperature: u32) -> (r: u8)
    ensures
        r == fan_speed(sorted_points@, temperature),
{
    let n = sorted_points.len();
    if n == 0 {
        return 50;
    }
    if n == 1 || temperature <= sorted_points[0].0 as u32 {
        return sorted_points[0].1;
    }
    if temperature >= sorted_points[n - 1].0 as u32 {
        return sorted_points[n - 1].1;
    }
    let mut i: usize = 0;
    while i < n - 1
        invariant
            n == sorted_points@.len(),
            n >= 2,
            i <= n - 1,
            fan_speed(sorted_points@, temperature) == stretch_speed(
                sorted_points@,
                i as int,
                temperature,
            ),
        decreases n - i,
    {
        let from = sorted_points[i];
        let to = sorted_points[i + 1];
        if temperature >= from.0 as u32 && temperature <= to.0 as u32 {
            return interpolate(temperature, from, to);
        }
        i = i + 1;
    }
    50
}

pub proof fn lemma_stretch(points: Seq<(u8, u8)>, i: int, temperature: u32) -> (k: int)
    requires
        rising(points),
        0 <= i < points.len() - 1,
        points[i].0 < temperature < points.last().0,
    ensures
        i <= k < points.len() - 1,
        points[k].0 < temperature <= points[k + 1].0,
        stretch_speed(points, i, temperature) == speed_between(
            temperature,
            points[k],
            points[k + 1],
        ),
    decreases points.len() - i,
{
    if temperature <= points[i + 1].0 {
        i
    } else {
        assert(i + 1 < points.len() - 1);
        lemma_stretch(points, i + 1, temperature)
    }
}

/// On a curve in the order of its temperatures the speed always lies between
/// the speeds of two neighbouring points whose temperatures lie on either side,
/// or is that of an end of the curve.
pub proof fn law_speed_follows_the_curve(points: Seq<(u8, u8)>, temperature: u32)
    requires
        rising(points),
        points.len() > 0,
    ensures
        temperature <= points[0].0 ==> fan_speed(points, temperature) == points[0].1,
        points[0].0 < temperature && points.last().0 <= temperature ==> fan_speed(
            points,
            temperature,
        ) == points.last().1,
        points[0].0 < temperature < points.last().0 ==> exists|k: int|
            0 <= k < points.len() - 1 && (#[trigger] points[k]).0 < temperature <= points[k + 1].0
                && ((points[k].1 <= fan_speed(points, temperature) <= points[k + 1].1) || (points[k
                + 1].1 <= fan_speed(points, temperature) <= points[k].1)),
{
    if points[0].0 < temperature < points.last().0 {
        let k = lemma_stretch(points, 0, temperature);
        law_speed_between(temperature, points[k], points[k + 1]);
        assert(points[k].0 < temperature);
    }
}

/// The speeds never fall along the curve.
pub open spec fn never_slower(points: Seq<(u8, u8)>) -> bool {
    forall|i: int, j: int|
        0 <= i < j < points.len() ==> (#[trigger] points[i]).1 <= (#[trigger] points[j]).1
}

proof fn lemma_round_half_up_monotone(a: nat, b: nat, c: nat, d: nat)
    requires
        b > 0,
        d > 0,
        a * d <= c * b,
    ensures
        (2 * a + b) / (2 * b) <= (2 * c + d) / (2 * d),
{
    let q1 = (2 * a + b) / (2 * b);
    let r1 = (2 * a + b) % (2 * b);
    let q2 = (2 * c + d) / (2 * d);
    let r2 = (2 * c + d) % (2 * d);
    vstd::arithmetic::div_mod::lemma_fundamental_div_mod((2 * a + b) as int, (2 * b) as int);
    vstd::arithmetic::div_mod::lemma_fundamental_div_mod((2 * c + d) as int, (2 * d) as int);
    assert(q1 <= q2) by (nonlinear_arith)
        requires
            2 * a + b == (2 * b) * q1 + r1,
            2 * c + d == (2 * d) * q2 + r2,
            r1 >= 0,
            r2 < 2 * d,
            a * d <= c * b,
            b > 0,
            d > 0,
    ;
}

proof fn lemma_stretch_monotone(low: u32, high: u32, from: (u8, u8), to: (u8, u8))
    requires
        from.0 <= low <= high <= to.0,
        from.0 < to.0,
        from.1 <= to.1,
    ensures
        speed_between(low, from, to) <= speed_between(high, from, to),
{
    lemma_speed_parts(low, from, to);
    lemma_speed_parts(high, from, to);
    lemma_reached_bounds(low, from, to);
    lemma_reached_bounds(high, from, to);
    law_speed_between(low, from, to);
    law_speed_between(high, from, to);
    let d = (to.0 - from.0) as nat;
    let whole = (to.1 - from.1) as nat;
    let n1 = (low - from.0) as nat;
    let n2 = (high - from.0) as nat;
    assert(n1 * d <= n2 * d) by (nonlinear_arith)
        requires
            n1 <= n2,
    ;
    lemma_rounded_monotone(n1, d, n2, d);
    let w1 = way_gone(low, from, to);
    let w2 = way_gone(high, from, to);
    assert((w1.0 * whole) * w2.1 <= (w2.0 * whole) * w1.1) by (nonlinear_arith)
        requires
            w1.0 * w2.1 <= w2.0 * w1.1,
    ;
    lemma_rounded_monotone(w1.0 * whole, w1.1, w2.0 * whole, w2.1);
    let c1 = speed_change(low, from, to);
    let c2 = speed_change(high, from, to);
    let s1 = (from.1 * c1.1 + c1.0) as nat;
    let s2 = (from.1 * c2.1 + c2.0) as nat;
    assert(s1 * c2.1 <= s2 * c1.1) by (nonlinear_arith)
        requires
            s1 == from.1 * c1.1 + c1.0,
            s2 == from.1 * c2.1 + c2.0,
            c1.0 * c2.1 <= c2.0 * c1.1,
    ;
    lemma_rounded_monotone(s1, c1.1, s2, c2.1);
    let v1 = speed_reached(low, from, to);
    let v2 = speed_reached(high, from, to);
    lemma_round_half_up_monotone(v1.0, v1.1, v2.0, v2.1);
    lemma_round_half_up(v1.0, v1.1, to.1 as nat);
    lemma_round_half_up(v2.0, v2.1, to.1 as nat);
}

/// On a curve in the order of its temperatures whose speeds never fall, a fan
/// never runs slower when it is warmer.
pub proof fn law_warmer_is_never_slower(points: Seq<(u8, u8)>, low: u32, high: u32)
    requires
        rising(points),
        never_slower(points),
        low <= high,
    ensures
        fan_speed(points, low) <= fan_speed(points, high),
{
    if points.len() >= 2 {
        let last = points.len() - 1;
        assert(points[0].1 <= points[last].1);
        if points[0].0 < low && low < points[last].0 {
            let k = lemma_stretch(points, 0, low);
            law_speed_between(low, points[k], points[k + 1]);
            assert(points[k].1 <= points[k + 1].1);
            if k + 1 < last {
                assert(points[k + 1].1 <= points[last].1);
            }
            if high < points[last].0 {
                let m = lemma_stretch(points, 0, high);
                law_speed_between(high, points[m], points[m + 1]);
                assert(points[m].1 <= points[m + 1].1);
                if k < m {
                    if k + 1 < m {
                        assert(points[k + 1].1 <= points[m].1);
                    }
                } else if m < k {
                    if m + 1 < k {
                        assert(points[m + 1].0 <= points[k].0);
                    }
                } else {
                    lemma_stretch_monotone(low, high, points[k], points[k + 1]);
                }
            }
        } else if low <= points[0].0 && points[0].0 < high && high < points[last].0 {
            let m = lemma_stretch(points, 0, high);
            law_speed_between(high, points[m], points[m + 1]);
            assert(points[m].1 <= points[m + 1].1);
            if m > 0 {
                assert(points[0].1 <= points[m].1);
            }
        }
    }
}

/// What the fan control does next.
#[derive(Clone, Copy, PartialEq, Eq, Structural, Debug)]
pub enum FanTask {
    /// Read the temperature at a fan.
    ReadTemperature(u32),
    /// Set the speed of a fan.
    SetSpeed(u32, u32),
}

/// What came of it.
#[derive(Clone, Copy, PartialEq, Eq, Structural, Debug)]
pub enum FanEvent {
    /// The temperature was read.
    Temperature(u32),
    /// The temperature could not be read.
    Unreadable,
    /// The speed was set, or could not be set.
    SpeedSent,
}

/// The next task of a round over the curves: each fan that there is gets the
/// speed that its curve gives at its temperature; one whose temperature cannot
/// be read is passed over.
pub open spec fn round_task(
    curves: Seq<Curve>,
    sorted: Seq<Seq<(u8, u8)>>,
    fan_count: u32,
    events: Seq<FanEvent>,
) -> Option<FanTask>
    decreases curves.len(),
{
    if curves.len() == 0 {
        None
    } else {
        let fan = curves[0].fan_id;
        if fan >= fan_count {
            round_task(curves.drop_first(), sorted.drop_first(), fan_count, events)
        } else if events.len() == 0 {
            Some(FanTask::ReadTemperature(fan))
        } else {
            match events[0] {
                FanEvent::Temperature(t) => if events.len() == 1 {
                    Some(FanTask::SetSpeed(fan, fan_speed(sorted[0], t) as u32))
                } else {
                    round_task(curves.drop_first(), sorted.drop_first(), fan_count, events.skip(2))
                },
                _ => round_task(
                    curves.drop_first(),
                    sorted.drop_first(),
                    fan_count,
                    events.skip(1),
                ),
            }
        }
    }
}

/// The points of several curves.
pub open spec fn point_lists(list: Seq<Vec<(u8, u8)>>) -> Seq<Seq<(u8, u8)>> {
    list.map_values(|points: Vec<(u8, u8)>| points@)
}

/// The sorted points of the curves.
pub open spec fn sorted_curves(curves: Seq<Curve>) -> Seq<Seq<(u8, u8)>> {
    curves.map_values(|c: Curve| sorted_points(c.points))
}

/// Sorts the points of all curves.
pub fn sort_curves(settings: &FanSettings) -> (r: Vec<Vec<(u8, u8)>>)
    ensures
        point_lists(r@) == sorted_curves(settings@.curves),
{
    let mut out: Vec<Vec<(u8, u8)>> = Vec::new();
    let mut i: usize = 0;
    while i < settings.curves.len()
        invariant
            i <= settings.curves@.len(),
            out@.len() == i,
            forall|k: int|
                0 <= k < i ==> (#[trigger] out@[k])@ == sorted_points(settings.curves@[k].points@),
        decreases settings.curves@.len() - i,
    {
        out.push(sort_points(&settings.curves[i].points));
        i = i + 1;
    }
    assert(point_lists(out@) =~= sorted_curves(settings@.curves));
    out
}

/// Takes a round over the curves, whose sorted points are given too.
pub fn apply_fan_curves(
    io: &TuxedoIo,
    settings: &FanSettings,
    sorted_curves: &Vec<Vec<(u8, u8)>>,
    events: &[FanEvent],
) -> (r: Option<FanTask>)
    requires
        sorted_curves@.len() >= settings.curves@.len(),
    ensures
        r == round_task(
            settings@.curves,
            point_lists(sorted_curves@),
            io.fan_count,
            events@,
        ),
{
    let mut i: usize = 0;
    let mut at: usize = 0;
    let ghost all = settings@.curves;
    let ghost lists = point_lists(sorted_curves@);
    assert(all.skip(0) =~= all);
    assert(lists.skip(0) =~= lists);
    assert(events@.skip(0) =~= events@);
    while i < settings.curves.len()
        invariant
            i <= settings.curves@.len(),
            sorted_curves@.len() >= settings.curves@.len(),
            at <= events.len(),
            all == settings@.curves,
            lists == point_lists(sorted_curves@),
            round_task(all, lists, io.fan_count, events@) == round_task(
                all.skip(i as int),
                lists.skip(i as int),
                io.fan_count,
                events@.skip(at as int),
            ),
        decreases settings.curves@.len() - i,
    {
        let ghost rest = events@.skip(at as int);
        assert(all.skip(i as int)[0] == settings.curves@[i as int]@);
        assert(lists.skip(i as int)[0] == sorted_curves@[i as int]@);
        assert(all.skip(i as int).drop_first() =~= all.skip(i + 1));
        assert(lists.skip(i as int).drop_first() =~= lists.skip(i + 1));
        let fan = settings.curves[i].fan_id;
        if fan < io.get_fan_count() {
            if at == events.len() {
                return Some(FanTask::ReadTemperature(fan));
            }
            assert(rest[0] == events@[at as int]);
            match events[at] {
                FanEvent::Temperature(t) => {
                    if at + 1 == events.len() {
                        let speed = calculate_fan_speed(&sorted_curves[i], t);
                        return Some(FanTask::SetSpeed(fan, speed as u32));
                    }
                    assert(rest.skip(2) =~= events@.skip(at + 2));
                    at = at + 2;
                },
                _ => {
                    assert(rest.skip(1) =~= events@.skip(at + 1));
                    at = at + 1;
                },
            }
        }
        i = i + 1;
    }
    None
}

/// The next task of the fan control: nothing while it has no settings or they
/// leave the fans alone, and otherwise a round over the sorted curves.
pub open spec fn fan_poll_task(
    state: Option<FanPlan>,
    fan_count: u32,
    events: Seq<FanEvent>,
) -> Option<FanTask> {
    match state {
        Some(plan) => if plan.control_enabled {
            round_task(plan.curves, sorted_curves(plan.curves), fan_count, events)
        } else {
            None
        },
        None => None,
    }
}

/// Polls the fan control.
pub fn poll_fans(state: &Option<FanSettings>, io: &TuxedoIo, events: &[FanEvent]) -> (r: Option<
    FanTask,
>)
    ensures
        r == fan_poll_task(
            match state {
                Some(settings) => Some(settings@),
                None => None,
            },
            io.fan_count,
            events@,
        ),
{
    match state {
        Some(settings) => {
            if !settings.control_enabled {
                return None;
            }
            let sorted = sort_curves(settings);
            assert(point_lists(sorted@).len() == settings@.curves.len());
            apply_fan_curves(io, settings, &sorted, events)
        },
        None => None,
    }
}

/// A round only touches fans that there are, and ends after two tasks for each
/// curve.
pub proof fn law_round_over_the_fans(
    curves: Seq<Curve>,
    sorted: Seq<Seq<(u8, u8)>>,
    fan_count: u32,
    events: Seq<FanEvent>,
)
    ensures
        match round_task(curves, sorted, fan_count, events) {
            Some(FanTask::ReadTemperature(fan)) => fan < fan_count,
            Some(FanTask::SetSpeed(fan, _)) => fan < fan_count,
            None => true,
        },
        events.len() >= 2 * curves.len() ==> round_task(curves, sorted, fan_count, events) is None,
    decreases curves.len(),
{
    if curves.len() > 0 {
        let rest = curves.drop_first();
        law_round_over_the_fans(rest, sorted.drop_first(), fan_count, events);
        if events.len() > 0 {
            law_round_over_the_fans(rest, sorted.drop_first(), fan_count, events.skip(1));
        }
        if events.len() > 1 {
            law_round_over_the_fans(rest, sorted.drop_first(), fan_count, events.skip(2));
        }
    }
}

} // verus!
