//! Temperature (x, °C) to fan speed (y, %) curve.
//!
//! `speed_y` returns `None` below the first point's temperature and the last
//! point's speed at or beyond the last point's temperature. Where two points
//! share a temperature (a cliff) the larger speed is used. `temp_x` inverts
//! the curve and returns `None` both below the first and above the last speed.
use vstd::prelude::*;

verus! {

/// Why a list of points does not make a curve.
#[derive(Debug, Clone, Copy, PartialEq, Eq, Structural)]
pub enum CurveError {
    /// Fewer than two points were given.
    InsufficientPoints,
    /// Some consecutive pair decreases in temperature or in speed.
    NotMonotonic,
}

impl CurveError {
    /// A human-readable description of the error.
    pub fn message(&self) -> (r: &'static str)
        ensures
            *self == CurveError::InsufficientPoints ==> r@ == "not enough data points"@,
            *self == CurveError::NotMonotonic ==> r@ == "not monotonically increasing"@,
    {
        match self {
            CurveError::InsufficientPoints => "not enough data points",
            CurveError::NotMonotonic => "not monotonically increasing",
        }
    }
}

/// Every consecutive pair is non-decreasing in both coordinates.
pub open spec fn monotone(pts: Seq<(u16, u16)>) -> bool {
    forall|i: int, k: int|
        #![trigger pts[i], pts[k]]
        0 <= i < pts.len() - 1 && k == i + 1 ==> pts[i].0 <= pts[k].0 && pts[i].1 <= pts[k].1
}

/// Points that make a curve: at least two, non-decreasing in x and in y.
pub open spec fn valid_curve(pts: Seq<(u16, u16)>) -> bool {
    pts.len() >= 2 && monotone(pts)
}

/// The middle point of the triple ending at `j + 1` shares its x or its y
/// with both neighbours.
pub open spec fn redundant_at(pts: Seq<(u16, u16)>, j: int) -> bool {
    &&& 0 < j < pts.len() - 1
    &&& {
        ||| pts[j - 1].0 == pts[j].0 && pts[j].0 == pts[j + 1].0
        ||| pts[j - 1].1 == pts[j].1 && pts[j].1 == pts[j + 1].1
    }
}

/// The points among the first `k` that are not redundant, in order.
pub open spec fn kept_prefix(pts: Seq<(u16, u16)>, k: int) -> Seq<(u16, u16)>
    decreases k,
{
    if k <= 0 {
        seq![]
    } else if redundant_at(pts, k - 1) {
        kept_prefix(pts, k - 1)
    } else {
        kept_prefix(pts, k - 1).push(pts[k - 1])
    }
}

/// `pts` with the middle point of every redundant triple of the original
/// sequence removed.
pub open spec fn without_redundant(pts: Seq<(u16, u16)>) -> Seq<(u16, u16)> {
    kept_prefix(pts, pts.len() as int)
}

/// Linear interpolation through `(x0, y0)` and `(x1, y1)` at `t`, rounded
/// toward zero (all quantities here are non-negative).
pub open spec fn interp(x0: int, y0: int, x1: int, y1: int, t: int) -> int {
    y0 + (t - x0) * (y1 - y0) / (x1 - x0)
}

/// The segment whose half-open temperature span `[x_i, x_{i+1})` holds `t`.
pub open spec fn x_segment(pts: Seq<(u16, u16)>, t: int) -> int {
    choose|i: int| 0 <= i < pts.len() - 1 && #[trigger] pts[i].0 <= t < pts[i + 1].0
}

/// The segment whose half-open speed span `[y_i, y_{i+1})` holds `s`.
pub open spec fn y_segment(pts: Seq<(u16, u16)>, s: int) -> int {
    choose|i: int| 0 <= i < pts.len() - 1 && #[trigger] pts[i].1 <= s < pts[i + 1].1
}

/// The speed the curve through `pts` gives at temperature `t`.
pub open spec fn speed_at(pts: Seq<(u16, u16)>, t: int) -> Option<int> {
    let last = pts.last();
    if t >= last.0 {
        Some(last.1 as int)
    } else if t < pts[0].0 {
        None
    } else {
        let i = x_segment(pts, t);
        Some(interp(pts[i].0 as int, pts[i].1 as int, pts[i + 1].0 as int, pts[i + 1].1 as int, t))
    }
}

/// The temperature at which the curve through `pts` reaches speed `s`.
pub open spec fn temp_at(pts: Seq<(u16, u16)>, s: int) -> Option<int> {
    let last = pts.last();
    if s == last.1 {
        Some(last.0 as int)
    } else if s < pts[0].1 || s > last.1 {
        None
    } else {
        let i = y_segment(pts, s);
        Some(interp(pts[i].1 as int, pts[i].0 as int, pts[i + 1].1 as int, pts[i + 1].0 as int, s))
    }
}

/// An `Option<i32>` as an `Option<int>`.
pub open spec fn opt_int(r: Option<i32>) -> Option<int> {
    match r {
        Some(v) => Some(v as int),
        None => None,
    }
}

/// In a monotone sequence every earlier point is below every later one.
pub proof fn lemma_ordered(pts: Seq<(u16, u16)>, i: int, k: int)
    requires
        monotone(pts),
        0 <= i <= k < pts.len(),
    ensures
        pts[i].0 <= pts[k].0,
        pts[i].1 <= pts[k].1,
    decreases k - i,
{
    if i < k {
        lemma_ordered(pts, i, k - 1);
        assert(pts[k - 1].0 <= pts[k].0 && pts[k - 1].1 <= pts[k].1);
    }
}

/// Inside the temperature span of the curve exactly one segment holds `t`.
pub proof fn lemma_x_segment(pts: Seq<(u16, u16)>, t: int)
    requires
        valid_curve(pts),
        pts[0].0 <= t < pts.last().0,
    ensures
        0 <= x_segment(pts, t) < pts.len() - 1,
        pts[x_segment(pts, t)].0 <= t < pts[x_segment(pts, t) + 1].0,
        forall|j: int|
            0 <= j < pts.len() - 1 && #[trigger] pts[j].0 <= t < pts[j + 1].0 ==> j == x_segment(
                pts,
                t,
            ),
{
    let w = x_witness(pts, t, pts.len() - 1);
    assert(pts[w].0 <= t < pts[w + 1].0);
    let i = x_segment(pts, t);
    assert forall|j: int|
        0 <= j < pts.len() - 1 && #[trigger] pts[j].0 <= t < pts[j + 1].0 implies j == i by {
        if j < i {
            lemma_ordered(pts, j + 1, i);
        } else if i < j {
            lemma_ordered(pts, i + 1, j);
        }
    }
}

proof fn x_witness(pts: Seq<(u16, u16)>, t: int, k: int) -> (i: int)
    requires
        valid_curve(pts),
        1 <= k < pts.len(),
        pts[0].0 <= t < pts[k].0,
    ensures
        0 <= i < k,
        pts[i].0 <= t < pts[i + 1].0,
    decreases k,
{
    if pts[k - 1].0 <= t {
        k - 1
    } else {
        x_witness(pts, t, k - 1)
    }
}

/// Some segment's closed temperature span holds every temperature of the
/// curve's span.
proof fn lemma_x_covered(pts: Seq<(u16, u16)>, t: int)
    requires
        valid_curve(pts),
        pts[0].0 <= t < pts.last().0,
    ensures
        exists|k: int, m: int|
            #![trigger pts[k], pts[m]]
            0 <= k < pts.len() - 1 && m == k + 1 && pts[k].0 <= t <= pts[m].0,
{
    lemma_x_segment(pts, t);
    let j = x_segment(pts, t);
    assert(pts[j].0 <= t <= pts[j + 1].0);
}

/// The last segment whose closed temperature span holds `t` is the one whose
/// half-open span holds it.
proof fn lemma_x_found(pts: Seq<(u16, u16)>, t: int, i: int)
    requires
        valid_curve(pts),
        0 <= i < pts.len() - 1,
        pts[i].0 <= t <= pts[i + 1].0,
        t < pts.last().0,
        i + 1 < pts.len() - 1 ==> !(pts[i + 1].0 <= t <= pts[i + 2].0),
    ensures
        t < pts[i + 1].0,
        x_segment(pts, t) == i,
{
    lemma_ordered(pts, 0, i);
    if i + 1 < pts.len() - 1 {
        lemma_ordered(pts, i + 1, i + 2);
    }
    lemma_x_segment(pts, t);
}

/// Some segment's closed speed span holds every speed of the curve's span.
proof fn lemma_y_covered(pts: Seq<(u16, u16)>, s: int)
    requires
        valid_curve(pts),
        pts[0].1 <= s < pts.last().1,
    ensures
        exists|k: int, m: int|
            #![trigger pts[k], pts[m]]
            0 <= k < pts.len() - 1 && m == k + 1 && pts[k].1 <= s <= pts[m].1,
{
    lemma_y_segment(pts, s);
    let j = y_segment(pts, s);
    assert(pts[j].1 <= s <= pts[j + 1].1);
}

/// The last segment whose closed speed span holds `s` is the one whose
/// half-open span holds it.
proof fn lemma_y_found(pts: Seq<(u16, u16)>, s: int, i: int)
    requires
        valid_curve(pts),
        0 <= i < pts.len() - 1,
        pts[i].1 <= s <= pts[i + 1].1,
        s != pts.last().1,
        i + 1 < pts.len() - 1 ==> !(pts[i + 1].1 <= s <= pts[i + 2].1),
    ensures
        s < pts[i + 1].1,
        pts[0].1 <= s < pts.last().1,
        y_segment(pts, s) == i,
{
    lemma_ordered(pts, 0, i);
    lemma_ordered(pts, i + 1, pts.len() - 1);
    if i + 1 < pts.len() - 1 {
        lemma_ordered(pts, i + 1, i + 2);
    }
    lemma_y_segment(pts, s);
}

/// Inside the speed span of the curve exactly one segment holds `s`.
pub proof fn lemma_y_segment(pts: Seq<(u16, u16)>, s: int)
    requires
        valid_curve(pts),
        pts[0].1 <= s < pts.last().1,
    ensures
        0 <= y_segment(pts, s) < pts.len() - 1,
        pts[y_segment(pts, s)].1 <= s < pts[y_segment(pts, s) + 1].1,
        forall|j: int|
            0 <= j < pts.len() - 1 && #[trigger] pts[j].1 <= s < pts[j + 1].1 ==> j == y_segment(
                pts,
                s,
            ),
{
    let w = y_witness(pts, s, pts.len() - 1);
    assert(pts[w].1 <= s < pts[w + 1].1);
    let i = y_segment(pts, s);
    assert forall|j: int|
        0 <= j < pts.len() - 1 && #[trigger] pts[j].1 <= s < pts[j + 1].1 implies j == i by {
        if j < i {
            lemma_ordered(pts, j + 1, i);
        } else if i < j {
            lemma_ordered(pts, i + 1, j);
        }
    }
}

proof fn y_witness(pts: Seq<(u16, u16)>, s: int, k: int) -> (i: int)
    requires
        valid_curve(pts),
        1 <= k < pts.len(),
        pts[0].1 <= s < pts[k].1,
    ensures
        0 <= i < k,
        pts[i].1 <= s < pts[i + 1].1,
    decreases k,
{
    if pts[k - 1].1 <= s {
        k - 1
    } else {
        y_witness(pts, s, k - 1)
    }
}

/// Interpolation between two ordered points stays between their y values.
pub proof fn lemma_interp_bounds(x0: int, y0: int, x1: int, y1: int, t: int)
    requires
        x0 <= t <= x1,
        x0 < x1,
        y0 <= y1,
    ensures
        y0 <= interp(x0, y0, x1, y1, t) <= y1,
{
    let a = t - x0;
    let d = y1 - y0;
    let w = x1 - x0;
    assert(0 <= a * d <= w * d) by (nonlinear_arith)
        requires
            0 <= a <= w,
            0 <= d,
    ;
    assert(0 <= (a * d) / w <= d) by (nonlinear_arith)
        requires
            0 <= a * d <= w * d,
            0 < w,
            0 <= d,
    ;
}

/// Interpolation on one segment is non-decreasing in `t`.
pub proof fn lemma_interp_monotone(x0: int, y0: int, x1: int, y1: int, t1: int, t2: int)
    requires
        x0 <= t1 <= t2,
        x0 < x1,
        y0 <= y1,
    ensures
        interp(x0, y0, x1, y1, t1) <= interp(x0, y0, x1, y1, t2),
{
    let d = y1 - y0;
    let w = x1 - x0;
    vstd::arithmetic::mul::lemma_mul_inequality(t1 - x0, t2 - x0, d);
    vstd::arithmetic::div_mod::lemma_div_is_ordered((t1 - x0) * d, (t2 - x0) * d, w);
}

/// Inside the curve's span the speed lies between the speeds of the ends of
/// the segment that holds the temperature.
proof fn lemma_speed_in_segment(pts: Seq<(u16, u16)>, t: int)
    requires
        valid_curve(pts),
        pts[0].0 <= t < pts.last().0,
    ensures
        0 <= x_segment(pts, t) < pts.len() - 1,
        pts[x_segment(pts, t)].0 <= t < pts[x_segment(pts, t) + 1].0,
        speed_at(pts, t) is Some,
        pts[x_segment(pts, t)].1 <= speed_at(pts, t)->0 <= pts[x_segment(pts, t) + 1].1,
{
    lemma_x_segment(pts, t);
    let i = x_segment(pts, t);
    assert(pts[i].1 <= pts[i + 1].1);
    lemma_interp_bounds(pts[i].0 as int, pts[i].1 as int, pts[i + 1].0 as int, pts[i + 1].1 as int, t);
}

/// On a valid curve the speed never falls as the temperature rises: from the
/// first point's temperature on, `speed_y` gives a speed, and a higher
/// temperature gives a speed at least as high.
pub proof fn lemma_speed_monotone(pts: Seq<(u16, u16)>, t1: int, t2: int)
    requires
        valid_curve(pts),
        pts[0].0 <= t1 <= t2,
    ensures
        speed_at(pts, t1) is Some,
        speed_at(pts, t2) is Some,
        speed_at(pts, t1)->0 <= speed_at(pts, t2)->0,
{
    let n = pts.len();
    lemma_ordered(pts, 0, n - 1);
    if t1 < pts.last().0 {
        lemma_speed_in_segment(pts, t1);
        let i1 = x_segment(pts, t1);
        if t2 >= pts.last().0 {
            lemma_ordered(pts, i1 + 1, n - 1);
        } else {
            lemma_speed_in_segment(pts, t2);
            let i2 = x_segment(pts, t2);
            if i1 == i2 {
                lemma_interp_monotone(
                    pts[i1].0 as int,
                    pts[i1].1 as int,
                    pts[i1 + 1].0 as int,
                    pts[i1 + 1].1 as int,
                    t1,
                    t2,
                );
            } else if i2 < i1 {
                lemma_ordered(pts, i2 + 1, i1);
            } else {
                lemma_ordered(pts, i1 + 1, i2);
            }
        }
    }
}

/// At or beyond the last point's temperature `speed_y` gives the last
/// point's speed; below the first point's temperature it gives none.
pub proof fn lemma_speed_outside_domain(pts: Seq<(u16, u16)>, t: int)
    requires
        valid_curve(pts),
    ensures
        t >= pts.last().0 ==> speed_at(pts, t) == Some(pts.last().1 as int),
        t < pts[0].0 ==> speed_at(pts, t) is None,
{
    lemma_ordered(pts, 0, pts.len() - 1);
}

/// `temp_x` gives no temperature for a speed below the first point's or
/// above the last point's speed, and the last point's temperature at the
/// last point's speed.
pub proof fn lemma_temp_outside_range(pts: Seq<(u16, u16)>, s: int)
    requires
        valid_curve(pts),
    ensures
        s == pts.last().1 ==> temp_at(pts, s) == Some(pts.last().0 as int),
        s < pts[0].1 || s > pts.last().1 ==> temp_at(pts, s) is None,
{
    lemma_ordered(pts, 0, pts.len() - 1);
}

/// The positions, among the first `k`, of the points that are not redundant.
pub open spec fn kept_indices(pts: Seq<(u16, u16)>, k: int) -> Seq<int>
    decreases k,
{
    if k <= 0 {
        seq![]
    } else if redundant_at(pts, k - 1) {
        kept_indices(pts, k - 1)
    } else {
        kept_indices(pts, k - 1).push(k - 1)
    }
}

/// The kept points are the points at the kept positions; those positions
/// rise, start at 0, and every position between two consecutive ones (or
/// after the last one) holds a redundant point.
proof fn lemma_kept_indices(pts: Seq<(u16, u16)>, k: int)
    requires
        0 <= k <= pts.len(),
    ensures
        ({
            let q = kept_prefix(pts, k);
            let ix = kept_indices(pts, k);
            &&& q.len() == ix.len()
            &&& forall|j: int|
                0 <= j < ix.len() ==> 0 <= #[trigger] ix[j] < k && q[j] == pts[ix[j]]
                    && !redundant_at(pts, ix[j])
            &&& forall|j: int, l: int|
                #![trigger ix[j], ix[l]]
                0 <= j < l < ix.len() ==> ix[j] < ix[l]
            &&& forall|j: int, m: int|
                #![trigger ix[j], redundant_at(pts, m)]
                0 <= j < ix.len() - 1 && ix[j] < m < ix[j + 1] ==> redundant_at(pts, m)
            &&& k >= 1 ==> ix.len() >= 1 && ix[0] == 0
            &&& ix.len() >= 1 ==> forall|m: int|
                ix.last() < m < k ==> #[trigger] redundant_at(pts, m)
        }),
    decreases k,
{
    if k > 0 {
        lemma_kept_indices(pts, k - 1);
    }
}

/// No point that survives the removal is redundant among the survivors.
proof fn lemma_survivors_not_redundant(pts: Seq<(u16, u16)>, j: int)
    requires
        monotone(pts),
        0 < j < without_redundant(pts).len() - 1,
    ensures
        !redundant_at(without_redundant(pts), j),
{
    let n = pts.len() as int;
    lemma_kept_indices(pts, n);
    let q = without_redundant(pts);
    let ix = kept_indices(pts, n);
    let a = ix[j - 1];
    let m = ix[j];
    let b = ix[j + 1];
    assert(a < m < b);
    assert(q[j - 1] == pts[a] && q[j] == pts[m] && q[j + 1] == pts[b]);
    assert(!redundant_at(pts, m));
    lemma_ordered(pts, a, m - 1);
    lemma_ordered(pts, m - 1, m);
    lemma_ordered(pts, m, m + 1);
    lemma_ordered(pts, m + 1, b);
}

/// Removing the redundant points of monotone points a second time changes
/// nothing.
pub proof fn lemma_removal_idempotent(pts: Seq<(u16, u16)>)
    requires
        monotone(pts),
    ensures
        without_redundant(without_redundant(pts)) == without_redundant(pts),
{
    let q = without_redundant(pts);
    assert forall|j: int| 0 <= j < q.len() implies !redundant_at(q, j) by {
        if 0 < j < q.len() - 1 {
            lemma_survivors_not_redundant(pts, j);
        }
    }
    lemma_kept_prefix_whole(q, q.len() as int);
    assert(q.subrange(0, q.len() as int) =~= q);
}

/// Where no point is redundant, every prefix is kept whole.
proof fn lemma_kept_prefix_whole(q: Seq<(u16, u16)>, k: int)
    requires
        0 <= k <= q.len(),
        forall|j: int| 0 <= j < q.len() ==> !redundant_at(q, j),
    ensures
        kept_prefix(q, k) == q.subrange(0, k),
    decreases k,
{
    if k > 0 {
        lemma_kept_prefix_whole(q, k - 1);
        assert(q.subrange(0, k - 1).push(q[k - 1]) =~= q.subrange(0, k));
    } else {
        assert(q.subrange(0, 0) =~= Seq::<(u16, u16)>::empty());
    }
}

/// No two neighbouring points are equal.
pub open spec fn distinct_neighbours(pts: Seq<(u16, u16)>) -> bool {
    forall|i: int, k: int|
        #![trigger pts[i], pts[k]]
        0 <= i < pts.len() - 1 && k == i + 1 ==> pts[i] != pts[k]
}

/// The points from `a` to `c` share their x coordinate.
pub open spec fn same_x_run(pts: Seq<(u16, u16)>, a: int, c: int) -> bool {
    forall|k: int| a <= k <= c ==> #[trigger] pts[k].0 == pts[a].0
}

/// The points from `a` to `c` share their y coordinate.
pub open spec fn same_y_run(pts: Seq<(u16, u16)>, a: int, c: int) -> bool {
    forall|k: int| a <= k <= c ==> #[trigger] pts[k].1 == pts[a].1
}

/// The points kept by the removal are valid curve points, and the ends stay.
proof fn lemma_survivors_valid(pts: Seq<(u16, u16)>)
    requires
        valid_curve(pts),
    ensures
        valid_curve(without_redundant(pts)),
        without_redundant(pts)[0] == pts[0],
        without_redundant(pts).last() == pts.last(),
        kept_indices(pts, pts.len() as int).last() == pts.len() - 1,
{
    let n = pts.len() as int;
    lemma_kept_indices(pts, n);
    let q = without_redundant(pts);
    let ix = kept_indices(pts, n);
    assert(!redundant_at(pts, n - 1));
    assert(ix.last() == n - 1);
    assert forall|i: int, k: int|
        #![trigger q[i], q[k]]
        0 <= i < q.len() - 1 && k == i + 1 implies q[i].0 <= q[k].0 && q[i].1 <= q[k].1 by {
        assert(ix[i] < ix[k]);
        lemma_ordered(pts, ix[i], ix[k]);
    }
    assert(ix[0] != ix.last());
}

/// Between two kept points every point is redundant, so with distinct
/// neighbours the whole run shares its x or its y coordinate.
proof fn lemma_run(pts: Seq<(u16, u16)>, a: int, c: int)
    requires
        distinct_neighbours(pts),
        0 <= a,
        a + 2 <= c < pts.len(),
        forall|m: int| a < m < c ==> #[trigger] redundant_at(pts, m),
    ensures
        same_x_run(pts, a, c) || same_y_run(pts, a, c),
    decreases c - a,
{
    assert(redundant_at(pts, c - 1));
    let x_triple = pts[c - 2].0 == pts[c - 1].0 && pts[c - 1].0 == pts[c].0;
    if c == a + 2 {
        if x_triple {
            assert forall|k: int| a <= k <= c implies #[trigger] pts[k].0 == pts[a].0 by {
                assert(k == a || k == a + 1 || k == a + 2);
            }
        } else {
            assert forall|k: int| a <= k <= c implies #[trigger] pts[k].1 == pts[a].1 by {
                assert(k == a || k == a + 1 || k == a + 2);
            }
        }
    } else {
        lemma_run(pts, a, c - 1);
        assert(pts[c - 2] != pts[c - 1]);
        assert(pts[c - 2].0 == pts[a].0 || pts[c - 2].1 == pts[a].1);
        if same_x_run(pts, a, c - 1) {
            assert(pts[c - 2].0 == pts[c - 1].0);
            if !x_triple {
                assert(pts[c - 2] == pts[c - 1]);
            }
            assert forall|k: int| a <= k <= c implies #[trigger] pts[k].0 == pts[a].0 by {
                if k < c {
                    assert(pts[k].0 == pts[a].0);
                }
            }
        } else {
            assert(pts[c - 2].1 == pts[c - 1].1);
            if x_triple {
                assert(pts[c - 2] == pts[c - 1]);
            }
            assert forall|k: int| a <= k <= c implies #[trigger] pts[k].1 == pts[a].1 by {
                if k < c {
                    assert(pts[k].1 == pts[a].1);
                }
            }
        }
    }
}

/// Interpolation between two points of equal y gives that y.
proof fn lemma_flat_interp(x0: int, y: int, x1: int, t: int)
    requires
        x0 < x1,
    ensures
        interp(x0, y, x1, y, t) == y,
{
    assert((t - x0) * (y - y) / (x1 - x0) == 0) by (nonlinear_arith)
        requires
            x0 < x1,
    ;
}

/// The segment of the kept points that holds a temperature spans the segment
/// of the original points that holds it.
#[verifier::rlimit(80)]
proof fn lemma_x_segment_survivors(pts: Seq<(u16, u16)>, t: int)
    requires
        valid_curve(pts),
        pts[0].0 <= t < pts.last().0,
    ensures
        ({
            let q = without_redundant(pts);
            let ix = kept_indices(pts, pts.len() as int);
            let jj = x_segment(q, t);
            let i = x_segment(pts, t);
            &&& 0 <= jj < q.len() - 1
            &&& q[jj] == pts[ix[jj]] && q[jj + 1] == pts[ix[jj + 1]]
            &&& 0 <= ix[jj] <= i < ix[jj + 1] < pts.len()
            &&& pts[i].0 <= t < pts[i + 1].0
            &&& pts[ix[jj]].0 <= t < pts[ix[jj + 1]].0
            &&& forall|m: int| ix[jj] < m < ix[jj + 1] ==> #[trigger] redundant_at(pts, m)
        }),
{
    let n = pts.len() as int;
    lemma_survivors_valid(pts);
    lemma_kept_indices(pts, n);
    let q = without_redundant(pts);
    let ix = kept_indices(pts, n);
    lemma_x_segment(q, t);
    lemma_x_segment(pts, t);
    let jj = x_segment(q, t);
    let a = ix[jj];
    let b = ix[jj + 1];
    let i = x_segment(pts, t);
    assert(a < b);
    if i < a {
        lemma_ordered(pts, i + 1, a);
    }
    if i >= b {
        lemma_ordered(pts, b, i);
    }
}

/// The segment of the kept points that holds a speed spans the segment of the
/// original points that holds it.
#[verifier::rlimit(80)]
proof fn lemma_y_segment_survivors(pts: Seq<(u16, u16)>, s: int)
    requires
        valid_curve(pts),
        pts[0].1 <= s < pts.last().1,
    ensures
        ({
            let q = without_redundant(pts);
            let ix = kept_indices(pts, pts.len() as int);
            let jj = y_segment(q, s);
            let i = y_segment(pts, s);
            &&& 0 <= jj < q.len() - 1
            &&& q[jj] == pts[ix[jj]] && q[jj + 1] == pts[ix[jj + 1]]
            &&& 0 <= ix[jj] <= i < ix[jj + 1] < pts.len()
            &&& pts[i].1 <= s < pts[i + 1].1
            &&& pts[ix[jj]].1 <= s < pts[ix[jj + 1]].1
            &&& forall|m: int| ix[jj] < m < ix[jj + 1] ==> #[trigger] redundant_at(pts, m)
        }),
{
    let n = pts.len() as int;
    lemma_survivors_valid(pts);
    lemma_kept_indices(pts, n);
    let q = without_redundant(pts);
    let ix = kept_indices(pts, n);
    lemma_y_segment(q, s);
    lemma_y_segment(pts, s);
    let jj = y_segment(q, s);
    let a = ix[jj];
    let b = ix[jj + 1];
    let i = y_segment(pts, s);
    assert(a < b);
    if i < a {
        lemma_ordered(pts, i + 1, a);
    }
    if i >= b {
        lemma_ordered(pts, b, i);
    }
}

/// For curve points with distinct neighbours, removing the redundant points
/// does not change the speed that the curve gives at any temperature.
pub proof fn lemma_removal_keeps_speed(pts: Seq<(u16, u16)>, t: int)
    requires
        valid_curve(pts),
        distinct_neighbours(pts),
    ensures
        speed_at(without_redundant(pts), t) == speed_at(pts, t),
{
    lemma_survivors_valid(pts);
    if pts[0].0 <= t < pts.last().0 {
        lemma_x_segment_survivors(pts, t);
        let q = without_redundant(pts);
        let ix = kept_indices(pts, pts.len() as int);
        let jj = x_segment(q, t);
        let a = ix[jj];
        let b = ix[jj + 1];
        let i = x_segment(pts, t);
        if b > a + 1 {
            lemma_run(pts, a, b);
            assert(pts[a].1 == pts[i].1 && pts[i + 1].1 == pts[b].1);
            lemma_flat_interp(pts[a].0 as int, pts[a].1 as int, pts[b].0 as int, t);
            lemma_flat_interp(pts[i].0 as int, pts[i].1 as int, pts[i + 1].0 as int, t);
        }
    }
}

/// For curve points with distinct neighbours, removing the redundant points
/// does not change the temperature that the curve gives for any speed.
pub proof fn lemma_removal_keeps_temp(pts: Seq<(u16, u16)>, s: int)
    requires
        valid_curve(pts),
        distinct_neighbours(pts),
    ensures
        temp_at(without_redundant(pts), s) == temp_at(pts, s),
{
    lemma_survivors_valid(pts);
    if pts[0].1 <= s < pts.last().1 {
        lemma_y_segment_survivors(pts, s);
        let q = without_redundant(pts);
        let ix = kept_indices(pts, pts.len() as int);
        let jj = y_segment(q, s);
        let a = ix[jj];
        let b = ix[jj + 1];
        let i = y_segment(pts, s);
        if b > a + 1 {
            lemma_run(pts, a, b);
            assert(pts[a].0 == pts[i].0 && pts[i + 1].0 == pts[b].0);
            lemma_flat_interp(pts[a].1 as int, pts[a].0 as int, pts[b].1 as int, s);
            lemma_flat_interp(pts[i].1 as int, pts[i].0 as int, pts[i + 1].1 as int, s);
        }
    }
}

/// The interpolated value in u64 arithmetic, proved equal to `interp`.
fn interpolate(x0: u16, y0: u16, x1: u16, y1: u16, t: u16) -> (r: i32)
    requires
        x0 <= t <= x1,
        x0 < x1,
        y0 <= y1,
    ensures
        r as int == interp(x0 as int, y0 as int, x1 as int, y1 as int, t as int),
        y0 <= r <= y1,
{
    proof {
        lemma_interp_bounds(x0 as int, y0 as int, x1 as int, y1 as int, t as int);
    }
    let a: u64 = (t - x0) as u64;
    let d: u64 = (y1 - y0) as u64;
    let w: u64 = (x1 - x0) as u64;
    assert(a * d <= 0xffff * 0xffff) by (nonlinear_arith)
        requires
            a <= 0xffff,
            d <= 0xffff,
    ;
    let q: u64 = a * d / w;
    let r: u64 = y0 as u64 + q;
    r as i32
}

/// A validated, immutable temperature-to-speed curve.
#[derive(Debug)]
pub struct FanspeedCurve {
    points: Vec<(u16, u16)>,
}

impl View for FanspeedCurve {
    type V = Seq<(u16, u16)>;

    closed spec fn view(&self) -> Seq<(u16, u16)> {
        self.points@
    }
}

impl FanspeedCurve {
    #[verifier::type_invariant]
    spec fn inv(&self) -> bool {
        valid_curve(self.points@)
    }

    /// Builds a curve from points ordered by temperature, dropping the
    /// redundant points.
    pub fn new(points: Vec<(u16, u16)>) -> (r: Result<FanspeedCurve, CurveError>)
        ensures
            r == Err::<FanspeedCurve, CurveError>(CurveError::InsufficientPoints) <==> points@.len()
                < 2,
            r == Err::<FanspeedCurve, CurveError>(CurveError::NotMonotonic) <==> (points@.len() >= 2
                && !monotone(points@)),
            r is Ok <==> valid_curve(points@),
            r matches Ok(c) ==> c@ == without_redundant(points@) && valid_curve(c@),
    {
        let n = points.len();
        if n <= 1 {
            return Err(CurveError::InsufficientPoints);
        }
        let mut i: usize = 0;
        while i + 1 < n
            invariant
                n == points@.len(),
                n >= 2,
                i + 1 <= n,
                forall|k: int, m: int|
                    #![trigger points@[k], points@[m]]
                    0 <= k < i && m == k + 1 ==> points@[k].0 <= points@[m].0 && points@[k].1
                        <= points@[m].1,
            decreases n - i,
        {
            if !(points[i].0 <= points[i + 1].0 && points[i].1 <= points[i + 1].1) {
                assert(!monotone(points@)) by {
                    assert(!(points@[i as int].0 <= points@[i + 1].0 && points@[i as int].1
                        <= points@[i + 1].1));
                }
                return Err(CurveError::NotMonotonic);
            }
            i = i + 1;
        }
        let reduced = remove_redundant_points(points);
        Ok(FanspeedCurve { points: reduced })
    }

    /// The speed of the first point: the least speed the curve gives.
    pub fn minspeed(&self) -> (r: i32)
        ensures
            r as int == self@[0].1,
            valid_curve(self@),
    {
        proof {
            use_type_invariant(self);
        }
        self.points[0].1 as i32
    }

    /// The speed at temperature `temp_x`: the last point's speed at or beyond
    /// its temperature, `None` below the first point's temperature, and the
    /// interpolation on the segment that holds `temp_x` otherwise.
    pub fn speed_y(&self, temp_x: u16) -> (r: Option<i32>)
        ensures
            opt_int(r) == speed_at(self@, temp_x as int),
            valid_curve(self@),
    {
        proof {
            use_type_invariant(self);
        }
        let pts = &self.points;
        let n = pts.len();
        let last = pts[n - 1];
        if temp_x >= last.0 {
            return Some(last.1 as i32);
        }
        if temp_x < pts[0].0 {
            return None;
        }
        let mut i: usize = n - 1;
        while i > 0
            invariant
                n == pts@.len(),
                pts@ == self@,
                valid_curve(pts@),
                0 <= i <= n - 1,
                pts@[0].0 <= temp_x < pts@[n - 1].0,
                forall|k: int, m: int|
                    #![trigger pts@[k], pts@[m]]
                    i <= k < n - 1 && m == k + 1 ==> !(pts@[k].0 <= temp_x && temp_x <= pts@[m].0),
            decreases i,
        {
            i = i - 1;
            let p0 = pts[i];
            let p1 = pts[i + 1];
            if temp_x >= p0.0 && temp_x <= p1.0 {
                proof {
                    if i + 1 < n - 1 {
                        assert(!(pts@[i + 1].0 <= temp_x && temp_x <= pts@[i + 2].0));
                    }
                    lemma_x_found(pts@, temp_x as int, i as int);
                }
                return Some(interpolate(p0.0, p0.1, p1.0, p1.1, temp_x));
            }
        }
        proof {
            lemma_x_covered(pts@, temp_x as int);
        }
        None
    }

    /// The temperature at which the curve reaches `speed_y`: the last point's
    /// temperature at its speed, `None` outside the curve's speed span, and
    /// the inverse interpolation on the segment that holds `speed_y`
    /// otherwise.
    pub fn temp_x(&self, speed_y: u16) -> (r: Option<i32>)
        ensures
            opt_int(r) == temp_at(self@, speed_y as int),
            valid_curve(self@),
    {
        proof {
            use_type_invariant(self);
        }
        let pts = &self.points;
        let n = pts.len();
        let last = pts[n - 1];
        if speed_y == last.1 {
            return Some(last.0 as i32);
        }
        let mut i: usize = n - 1;
        while i > 0
            invariant
                n == pts@.len(),
                pts@ == self@,
                valid_curve(pts@),
                0 <= i <= n - 1,
                speed_y != pts@[n - 1].1,
                forall|k: int, m: int|
                    #![trigger pts@[k], pts@[m]]
                    i <= k < n - 1 && m == k + 1 ==> !(pts@[k].1 <= speed_y && speed_y <= pts@[m].1),
            decreases i,
        {
            i = i - 1;
            let p0 = pts[i];
            let p1 = pts[i + 1];
            if speed_y >= p0.1 && speed_y <= p1.1 {
                proof {
                    if i + 1 < n - 1 {
                        assert(!(pts@[i + 1].1 <= speed_y && speed_y <= pts@[i + 2].1));
                    }
                    lemma_y_found(pts@, speed_y as int, i as int);
                }
                return Some(interpolate(p0.1, p0.0, p1.1, p1.0, speed_y));
            }
        }
        proof {
            if pts@[0].1 <= speed_y < pts@[n - 1].1 {
                lemma_y_covered(pts@, speed_y as int);
            }
        }
        None
    }
}

/// Drops the middle point of every triple of consecutive points that share
/// their x or their y coordinate. The triples are those of the input; the
/// removal does not cascade.
pub fn remove_redundant_points(points: Vec<(u16, u16)>) -> (r: Vec<(u16, u16)>)
    ensures
        r@ == without_redundant(points@),
        valid_curve(points@) ==> valid_curve(r@),
{
    let n = points.len();
    let mut out: Vec<(u16, u16)> = Vec::new();
    let mut j: usize = 0;
    while j < n
        invariant
            n == points@.len(),
            j <= n,
            out@ == kept_prefix(points@, j as int),
            valid_curve(points@) && j == n ==> out@.len() >= 2,
            valid_curve(points@) ==> {
                &&& monotone(out@)
                &&& j >= 1 ==> out@.len() >= 1 && out@[0] == points@[0]
                &&& forall|k: int|
                    0 <= k < out@.len() ==> #[trigger] out@[k].0 <= points@[j - 1].0 && out@[k].1
                        <= points@[j - 1].1
            },
        decreases n - j,
    {
        let keep = if j == 0 || j + 1 >= n {
            true
        } else {
            let a = points[j - 1];
            let b = points[j];
            let c = points[j + 1];
            !((a.0 == b.0 && b.0 == c.0) || (a.1 == b.1 && b.1 == c.1))
        };
        proof {
            if valid_curve(points@) && j >= 1 {
                lemma_ordered(points@, j - 1, j as int);
            }
        }
        if keep {
            out.push(points[j]);
        }
        j = j + 1;
    }
    out
}

} // verus!
