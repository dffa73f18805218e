//! Fan curves: the speed a fan runs at for a temperature.
//!
//! A curve is a list of (temperature °C, speed %) points. It is sorted by
//! temperature (stably: points with equal temperatures keep their order),
//! and the speed at a temperature is read off the curve: the first point's
//! speed below it, the last point's above it, and the linear interpolation
//! between the two neighbouring points in between, rounded to the nearest
//! percent (halves up). Temperatures are whole degrees, as the embedded
//! controller reports them.
use vstd::prelude::*;
use crate::devices::IoCommand;
use crate::types::FanCurve;

verus! {

/// `x` inserted into the sorted `s`: after every point whose temperature is
/// not above its own.
pub open spec fn insert_sorted(s: Seq<(u8, u8)>, x: (u8, u8)) -> Seq<(u8, u8)>
    decreases s.len(),
{
    if s.len() == 0 {
        seq![x]
    } else if s.last().0 <= x.0 {
        s.push(x)
    } else {
        insert_sorted(s.drop_last(), x).push(s.last())
    }
}

/// The points sorted by temperature, stably (`sort_by_key` on the
/// temperature).
pub open spec fn sort_by_temp(s: Seq<(u8, u8)>) -> Seq<(u8, u8)>
    decreases s.len(),
{
    if s.len() == 0 {
        s
    } else {
        insert_sorted(sort_by_temp(s.drop_last()), s.last())
    }
}

pub open spec fn sorted_by_temp(s: Seq<(u8, u8)>) -> bool {
    forall|i: int, j: int| 0 <= i <= j < s.len() ==> s[i].0 <= s[j].0
}

proof fn lemma_insert_at(s: Seq<(u8, u8)>, x: (u8, u8), j: int)
    requires
        0 <= j <= s.len(),
        forall|k: int| j <= k < s.len() ==> s[k].0 > x.0,
        j == 0 || s[j - 1].0 <= x.0,
    ensures
        insert_sorted(s, x) == s.subrange(0, j).push(x) + s.subrange(j, s.len() as int),
    decreases s.len(),
{
    if s.len() == 0 {
        assert(s.subrange(0, j).push(x) + s.subrange(j, s.len() as int) =~= seq![x]);
    } else if s.last().0 <= x.0 {
        assert(j == s.len());
        assert(s.subrange(0, j).push(x) + s.subrange(j, s.len() as int) =~= s.push(x));
    } else {
        let d = s.drop_last();
        lemma_insert_at(d, x, j);
        assert(s.subrange(0, j).push(x) + s.subrange(j, s.len() as int) =~= (d.subrange(0, j).push(
            x,
        ) + d.subrange(j, d.len() as int)).push(s.last()));
    }
}

/// A curve's points sorted by temperature (stably).
pub fn sort_points(points: &[(u8, u8)]) -> (r: Vec<(u8, u8)>)
    ensures
        r@ == sort_by_temp(points@),
{
    let mut out: Vec<(u8, u8)> = Vec::new();
    let mut i: usize = 0;
    while i < points.len()
        invariant
            i <= points@.len(),
            out@ == sort_by_temp(points@.subrange(0, i as int)),
        decreases points@.len() - i,
    {
        let x = points[i];
        let mut j: usize = out.len();
        while j > 0 && out[j - 1].0 > x.0
            invariant
                j <= out@.len(),
                forall|k: int| j <= k < out@.len() ==> out@[k].0 > x.0,
            decreases j,
        {
            j = j - 1;
        }
        proof {
            lemma_insert_at(out@, x, j as int);
            assert(points@.subrange(0, i + 1).drop_last() =~= points@.subrange(0, i as int));
        }
        let ghost before = out@;
        out.insert(j, x);
        proof {
            assert(out@ =~= before.subrange(0, j as int).push(x) + before.subrange(
                j as int,
                before.len() as int,
            ));
        }
        i = i + 1;
    }
    proof {
        assert(points@.subrange(0, points@.len() as int) =~= points@);
    }
    out
}

proof fn lemma_insert_sorted_props(s: Seq<(u8, u8)>, x: (u8, u8))
    requires
        sorted_by_temp(s),
    ensures
        sorted_by_temp(insert_sorted(s, x)),
        insert_sorted(s, x).to_multiset() == s.to_multiset().insert(x),
    decreases s.len(),
{
    broadcast use vstd::seq_lib::group_to_multiset_ensures, vstd::multiset::group_multiset_axioms;

    if s.len() == 0 {
        assert(Seq::<(u8, u8)>::empty().push(x) =~= seq![x]);
        assert(seq![x].to_multiset() =~= s.to_multiset().insert(x));
    } else if s.last().0 <= x.0 {
        let r = s.push(x);
        assert forall|i: int, j: int| 0 <= i <= j < r.len() implies r[i].0 <= r[j].0 by {
            if j == s.len() {
                if i < s.len() {
                    assert(s[i].0 <= s[s.len() - 1].0);
                }
            }
        }
    } else {
        let d = s.drop_last();
        let l = s.last();
        assert(sorted_by_temp(d));
        lemma_insert_sorted_props(d, x);
        let r = insert_sorted(d, x);
        // Every point of `r` is a point of `d` or `x`, all at most `l`.
        assert forall|i: int| 0 <= i < r.len() implies r[i].0 <= l.0 by {
            assert(r.to_multiset().count(r[i]) > 0);
            assert(r.contains(r[i]));
            if r[i] != x {
                assert(d.to_multiset().insert(x).count(r[i]) > 0);
                assert(d.to_multiset().count(r[i]) > 0);
                assert(d.contains(r[i]));
                let k = choose|k: int| 0 <= k < d.len() && d[k] == r[i];
                assert(s[k] == d[k]);
                assert(s[k].0 <= s[s.len() - 1].0);
            }
        }
        let q = r.push(l);
        assert(insert_sorted(s, x) == q);
        assert forall|i: int, j: int| 0 <= i <= j < q.len() implies q[i].0 <= q[j].0 by {
            if j == r.len() {
                if i < r.len() {
                    assert(r[i].0 <= l.0);
                }
            } else {
                assert(q[i] == r[i]);
                assert(q[j] == r[j]);
            }
        }
        assert(s =~= d.push(l));
        assert(q.to_multiset() =~= r.to_multiset().insert(l));
        assert(s.to_multiset() =~= d.to_multiset().insert(l));
        assert(q.to_multiset() =~= s.to_multiset().insert(x));
    }
}

/// Sorting keeps exactly the points of the curve and orders them by
/// temperature.
pub proof fn lemma_sorted_curve_is_an_ordering_of_its_points(s: Seq<(u8, u8)>)
    ensures
        sorted_by_temp(sort_by_temp(s)),
        sort_by_temp(s).to_multiset() == s.to_multiset(),
    decreases s.len(),
{
    if s.len() == 0 {
        broadcast use vstd::seq_lib::group_to_multiset_ensures, vstd::multiset::group_multiset_axioms;
    } else {
        lemma_sorted_curve_is_an_ordering_of_its_points(s.drop_last());
        lemma_insert_sorted_props(sort_by_temp(s.drop_last()), s.last());
        broadcast use vstd::seq_lib::group_to_multiset_ensures, vstd::multiset::group_multiset_axioms;
        assert(s =~= s.drop_last().push(s.last()));
    }
}

/// Nearest whole percent of `s1 + (t - t1) * (s2 - s1) / (t2 - t1)`, halves
/// rounded up.
pub open spec fn interpolate(t1: int, s1: int, t2: int, s2: int, t: int) -> int {
    let d = t2 - t1;
    (2 * s1 * d + 2 * (t - t1) * (s2 - s1) + d) / (2 * d)
}

/// Does segment `[p[k].0, p[k+1].0]` contain `t`?
pub open spec fn in_segment(p: Seq<(u8, u8)>, t: int, k: int) -> bool {
    p[k].0 <= t <= p[k + 1].0
}

/// Index of the first segment that contains `t`.
pub open spec fn is_first_segment(p: Seq<(u8, u8)>, t: int, i: int) -> bool {
    0 <= i < p.len() - 1 && in_segment(p, t, i) && forall|k: int|
        0 <= k < i ==> !#[trigger] in_segment(p, t, k)
}

/// The speed of a sorted curve at temperature `t`.
pub open spec fn fan_speed(p: Seq<(u8, u8)>, t: int) -> int {
    if p.len() == 0 {
        50
    } else if p.len() == 1 {
        p[0].1 as int
    } else if t <= p[0].0 {
        p[0].1 as int
    } else if t >= p.last().0 {
        p.last().1 as int
    } else if exists|i: int| is_first_segment(p, t, i) {
        let i = choose|i: int| is_first_segment(p, t, i);
        interpolate(p[i].0 as int, p[i].1 as int, p[i + 1].0 as int, p[i + 1].1 as int, t)
    } else {
        50
    }
}

proof fn lemma_interpolate_bounds(t1: int, s1: int, t2: int, s2: int, t: int)
    requires
        t1 < t2,
        t1 <= t <= t2,
        0 <= s1 <= 255,
        0 <= s2 <= 255,
    ensures
        0 <= interpolate(t1, s1, t2, s2, t) <= 255,
        s1 <= s2 ==> s1 <= interpolate(t1, s1, t2, s2, t) <= s2,
        s2 <= s1 ==> s2 <= interpolate(t1, s1, t2, s2, t) <= s1,
{
    let d = t2 - t1;
    let a = t - t1;
    let num = 2 * s1 * d + 2 * a * (s2 - s1) + d;
    assert(0 <= a <= d);
    if s1 <= s2 {
        assert(2 * a * (s2 - s1) <= 2 * d * (s2 - s1)) by (nonlinear_arith)
            requires
                0 <= a <= d,
                s1 <= s2,
        ;
        assert(0 <= 2 * a * (s2 - s1)) by (nonlinear_arith)
            requires
                0 <= a,
                s1 <= s2,
        ;
        assert(num >= 2 * s1 * d) by (nonlinear_arith)
            requires
                num == 2 * s1 * d + 2 * a * (s2 - s1) + d,
                0 <= 2 * a * (s2 - s1),
                d > 0,
        ;
        assert(num < 2 * s2 * d + 2 * d) by (nonlinear_arith)
            requires
                num == 2 * s1 * d + 2 * a * (s2 - s1) + d,
                2 * a * (s2 - s1) <= 2 * d * (s2 - s1),
                d > 0,
        ;
        assert(s1 <= num / (2 * d)) by (nonlinear_arith)
            requires
                num >= 2 * s1 * d,
                d > 0,
        ;
        assert(num / (2 * d) <= s2) by (nonlinear_arith)
            requires
                num < 2 * s2 * d + 2 * d,
                d > 0,
        ;
    } else {
        assert(2 * a * (s1 - s2) <= 2 * d * (s1 - s2)) by (nonlinear_arith)
            requires
                0 <= a <= d,
                s2 <= s1,
        ;
        assert(0 <= 2 * a * (s1 - s2)) by (nonlinear_arith)
            requires
                0 <= a,
                s2 <= s1,
        ;
        assert(num >= 2 * s2 * d + d) by (nonlinear_arith)
            requires
                num == 2 * s1 * d + 2 * a * (s2 - s1) + d,
                2 * a * (s1 - s2) <= 2 * d * (s1 - s2),
                d > 0,
        ;
        assert(num <= 2 * s1 * d + d) by (nonlinear_arith)
            requires
                num == 2 * s1 * d + 2 * a * (s2 - s1) + d,
                0 <= 2 * a * (s1 - s2),
                d > 0,
        ;
        assert(s2 <= num / (2 * d)) by (nonlinear_arith)
            requires
                num >= 2 * s2 * d + d,
                d > 0,
        ;
        assert(num / (2 * d) <= s1) by (nonlinear_arith)
            requires
                num <= 2 * s1 * d + d,
                d > 0,
        ;
    }
}

/// The speed (percent) of a sorted curve at temperature `temp_c`; 50 % for
/// an empty curve.
pub fn calculate_fan_speed(sorted_points: &[(u8, u8)], temp_c: i32) -> (r: u8)
    requires
        sorted_by_temp(sorted_points@),
    ensures
        r == fan_speed(sorted_points@, temp_c as int),
{
    let p = sorted_points;
    let n = p.len();
    if n == 0 {
        return 50;
    }
    if n == 1 {
        return p[0].1;
    }
    if temp_c <= p[0].0 as i32 {
        return p[0].1;
    }
    if temp_c >= p[n - 1].0 as i32 {
        return p[n - 1].1;
    }
    let mut i: usize = 0;
    while i < n - 1
        invariant
            p@ == sorted_points@,
            n == p@.len(),
            n >= 2,
            i <= n - 1,
            sorted_by_temp(p@),
            p@[0].0 < temp_c,
            temp_c < p@[n - 1].0,
            forall|k: int| 0 <= k < i ==> !#[trigger] in_segment(p@, temp_c as int, k),
        decreases n - 1 - i,
    {
        let t1 = p[i].0 as i64;
        let s1 = p[i].1 as i64;
        let t2 = p[i + 1].0 as i64;
        let s2 = p[i + 1].1 as i64;
        let t = temp_c as i64;
        if t >= t1 && t <= t2 {
            proof {
                assert(is_first_segment(p@, temp_c as int, i as int));
                let c = choose|c: int| is_first_segment(p@, temp_c as int, c);
                if c < i {
                    assert(!in_segment(p@, temp_c as int, c));
                } else if c > i {
                    assert(!in_segment(p@, temp_c as int, i as int));
                }
                assert(c == i);
                assert(t1 < t2) by {
                    if t1 == t2 {
                        // `t` equals the first point's temperature or lies in an
                        // earlier segment.
                        if i == 0 {
                        } else {
                            assert(p@[i - 1].0 <= p@[i as int].0);
                            assert(in_segment(p@, temp_c as int, (i - 1) as int));
                        }
                    }
                }
                lemma_interpolate_bounds(t1 as int, s1 as int, t2 as int, s2 as int, t as int);
                assert(-65025 <= (t - t1) * (s2 - s1) <= 65025) by (nonlinear_arith)
                    requires
                        0 <= t - t1 <= 255,
                        -255 <= s2 - s1 <= 255,
                ;
                assert(0 <= s1 * (t2 - t1) <= 65025) by (nonlinear_arith)
                    requires
                        0 <= t2 - t1 <= 255,
                        0 <= s1 <= 255,
                ;
            }
            let d = t2 - t1;
            let a = t - t1;
            let ds = s2 - s1;
            let prod = a * ds;
            let base = s1 * d;
            let num = 2 * base + 2 * prod + d;
            proof {
                assert(num == 2 * s1 * d + 2 * (t - t1) * (s2 - s1) + d) by (nonlinear_arith)
                    requires
                        prod == a * ds,
                        base == s1 * d,
                        a == t - t1,
                        ds == s2 - s1,
                        num == 2 * base + 2 * prod + d,
                ;
            }
            proof {
                assert(a * ds >= -(d * s1)) by (nonlinear_arith)
                    requires
                        0 <= a <= d,
                        ds >= -s1,
                        s1 >= 0,
                ;
                assert(num > 0) by (nonlinear_arith)
                    requires
                        num == 2 * base + 2 * prod + d,
                        prod == a * ds,
                        base == s1 * d,
                        a * ds >= -(d * s1),
                        d > 0,
                ;
            }
            let v = (num as u64) / ((2 * d) as u64);
            proof {
                assert(v == interpolate(t1 as int, s1 as int, t2 as int, s2 as int, t as int));
                assert(0 <= v <= 255);
                assert(fan_speed(p@, temp_c as int) == interpolate(
                    p@[i as int].0 as int,
                    p@[i as int].1 as int,
                    p@[i + 1].0 as int,
                    p@[i + 1].1 as int,
                    temp_c as int,
                ));
            }
            return v as u8;
        }
        i = i + 1;
    }
    proof {
        // Between the first and the last point some segment contains `t`.
        lemma_some_segment(p@, temp_c as int, (n - 1) as int);
    }
    assert(false);
    50
}

/// Between the first point and point `m`, some segment contains `t`.
proof fn lemma_some_segment(p: Seq<(u8, u8)>, t: int, m: int)
    requires
        1 <= m < p.len(),
        p[0].0 < t,
        t <= p[m].0,
    ensures
        exists|k: int| 0 <= k < m && #[trigger] in_segment(p, t, k),
    decreases m,
{
    if m == 1 {
        assert(in_segment(p, t, 0));
    } else {
        if p[m - 1].0 < t {
            assert(in_segment(p, t, m - 1));
        } else {
            lemma_some_segment(p, t, m - 1);
        }
    }
}

/// The speed a curve gives never leaves the range of its points' speeds: at
/// least the smallest and at most the largest.
pub proof fn lemma_fan_speed_within_the_curve(p: Seq<(u8, u8)>, t: int)
    requires
        p.len() > 0,
        sorted_by_temp(p),
    ensures
        exists|i: int| 0 <= i < p.len() && fan_speed(p, t) >= p[i].1,
        exists|i: int| 0 <= i < p.len() && fan_speed(p, t) <= p[i].1,
{
    if p.len() == 1 || t <= p[0].0 {
        assert(fan_speed(p, t) == p[0].1);
    } else if t >= p.last().0 {
        assert(fan_speed(p, t) == p[p.len() - 1].1);
    } else if exists|i: int| is_first_segment(p, t, i) {
        let i = choose|i: int| is_first_segment(p, t, i);
        let t1 = p[i].0 as int;
        let t2 = p[i + 1].0 as int;
        if t1 == t2 {
            if i == 0 {
                assert(t <= p[0].0);
            } else {
                assert(in_segment(p, t, i - 1));
            }
        }
        lemma_interpolate_bounds(t1, p[i].1 as int, t2, p[i + 1].1 as int, t);
        if p[i].1 <= p[i + 1].1 {
            assert(fan_speed(p, t) >= p[i].1);
            assert(fan_speed(p, t) <= p[i + 1].1);
        } else {
            assert(fan_speed(p, t) >= p[i + 1].1);
            assert(fan_speed(p, t) <= p[i].1);
        }
    } else {
        // Unreachable: some segment contains `t`, so a first one does.
        lemma_some_segment(p, t, p.len() - 1);
        let k = choose|k: int| 0 <= k < p.len() - 1 && #[trigger] in_segment(p, t, k);
        lemma_first_segment_exists(p, t, k);
    }
}

proof fn lemma_first_segment_exists(p: Seq<(u8, u8)>, t: int, k: int)
    requires
        0 <= k < p.len() - 1,
        in_segment(p, t, k),
    ensures
        exists|i: int| is_first_segment(p, t, i),
    decreases k,
{
    if exists|q: int| 0 <= q < k && #[trigger] in_segment(p, t, q) {
        let q = choose|q: int| 0 <= q < k && #[trigger] in_segment(p, t, q);
        lemma_first_segment_exists(p, t, q);
    } else {
        assert(is_first_segment(p, t, k));
    }
}

/// The fan commands of one fan-control tick: for every curve of a fan the
/// hardware has (`fan_id < fan_count`) whose temperature could be read
/// (`temps[i]`, aligned with the curves), its speed at that temperature on
/// its sorted curve. Curves of other fans, and unread temperatures, are
/// skipped.
pub open spec fn curve_command(c: FanCurve, fan_count: u32, temp: Option<i32>) -> Option<IoCommand> {
    if c.fan_id >= fan_count {
        None
    } else {
        match temp {
            None => None,
            Some(t) => Some(
                IoCommand::SetFanSpeed {
                    fan_id: c.fan_id,
                    percent: fan_speed(sort_by_temp(c.points@), t as int) as u32,
                },
            ),
        }
    }
}

pub open spec fn curve_commands(curves: Seq<FanCurve>, fan_count: u32, temps: Seq<Option<i32>>, n: int) -> Seq<
    IoCommand,
>
    decreases n,
{
    if n <= 0 {
        Seq::empty()
    } else {
        let prev = curve_commands(curves, fan_count, temps, n - 1);
        match curve_command(curves[n - 1], fan_count, temps[n - 1]) {
            Some(c) => prev.push(c),
            None => prev,
        }
    }
}

/// The fan speed commands of one fan-control tick (see `curve_command`).
pub fn apply_fan_curves(curves: &[FanCurve], fan_count: u32, temps: &[Option<i32>]) -> (r: Vec<IoCommand>)
    requires
        temps@.len() == curves@.len(),
    ensures
        r@ == curve_commands(curves@, fan_count, temps@, curves@.len() as int),
{
    let mut out: Vec<IoCommand> = Vec::new();
    let mut i: usize = 0;
    while i < curves.len()
        invariant
            temps@.len() == curves@.len(),
            i <= curves@.len(),
            out@ == curve_commands(curves@, fan_count, temps@, i as int),
        decreases curves@.len() - i,
    {
        let c = &curves[i];
        if c.fan_id < fan_count {
            if let Some(t) = temps[i] {
                let sorted = sort_points(c.points.as_slice());
                proof {
                    lemma_sorted_curve_is_an_ordering_of_its_points(c.points@);
                    lemma_speed_fits(sorted@, t as int);
                }
                let speed = calculate_fan_speed(sorted.as_slice(), t);
                out.push(IoCommand::SetFanSpeed { fan_id: c.fan_id, percent: speed as u32 });
            }
        }
        i = i + 1;
    }
    out
}

proof fn lemma_speed_fits(p: Seq<(u8, u8)>, t: int)
    requires
        sorted_by_temp(p),
    ensures
        0 <= fan_speed(p, t) <= 255,
{
    if p.len() > 0 {
        lemma_fan_speed_within_the_curve(p, t);
        let i = choose|i: int| 0 <= i < p.len() && fan_speed(p, t) <= p[i].1;
        let j = choose|i: int| 0 <= i < p.len() && fan_speed(p, t) >= p[i].1;
    }
}

} // verus!
