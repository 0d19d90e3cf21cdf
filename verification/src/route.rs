use vstd::prelude::*;
use vstd::arithmetic::div_mod::{lemma_div_is_ordered, lemma_div_multiples_vanish};
use crate::timefmt::EPOCH_MAX;
use crate::RunError;

verus! {

/// One point of the supplied course: coordinates in micro-degrees and the
/// length of the segment from this point to the next, in milli distance
/// units (the last point carries 0).
pub struct PathPoint {
    pub lat: i64,
    pub lon: i64,
    pub seg: i64,
}

/// One point of a synthesized plan: coordinates, the distance from the
/// previous point (0 for the first), and the point's timestamp.
pub struct PlanPoint {
    pub lat: i64,
    pub lon: i64,
    pub leg: i64,
    pub epoch: i64,
}

/// A geographically plausible course point with a representable segment.
pub open spec fn wf_point(q: PathPoint) -> bool {
    &&& -90_000_000 <= q.lat <= 90_000_000
    &&& -180_000_000 <= q.lon <= 180_000_000
    &&& 0 <= q.seg <= 999_999_999
}

/// A usable course: at least two points, not absurdly many, all plausible.
pub open spec fn valid_path(p: Seq<PathPoint>) -> bool {
    &&& 2 <= p.len() <= 1_000_000
    &&& forall|k: int| 0 <= k < p.len() ==> wf_point(#[trigger] p[k])
}

/// Length of the course's first `k` segments.
pub open spec fn total_len(p: Seq<PathPoint>, k: int) -> int
    decreases k,
{
    if k <= 0 {
        0
    } else {
        total_len(p, k - 1) + p[k - 1].seg
    }
}

/// Sum of the first `k` consecutive point distances of a plan.
pub open spec fn plan_len(r: Seq<PlanPoint>, k: int) -> int
    decreases k,
{
    if k <= 0 {
        0
    } else {
        plan_len(r, k - 1) + r[k - 1].leg
    }
}

proof fn lemma_plan_len_prefix(a: Seq<PlanPoint>, b: Seq<PlanPoint>, m: int)
    requires
        0 <= m <= a.len(),
        m <= b.len(),
        forall|x: int| #![trigger a[x], b[x]] 0 <= x < m ==> a[x].leg == b[x].leg,
    ensures
        plan_len(a, m) == plan_len(b, m),
    decreases m,
{
    if m > 0 {
        lemma_plan_len_prefix(a, b, m - 1);
    }
}

/// Turns the supplied course into a timestamped plan of exactly the target
/// length: the walked prefix of the course, a final point interpolated on
/// the segment where the target is reached, and timestamps spread
/// monotonically from the start to the end of the run.
pub fn synthesize(target: i64, path: &Vec<PathPoint>, start_epoch: i64, end_epoch: i64) -> (r:
    Result<Vec<PlanPoint>, RunError>)
    requires
        1 <= target <= 999_999_999,
        0 <= start_epoch <= end_epoch <= EPOCH_MAX,
    ensures
        match r {
            Ok(plan) => {
                &&& valid_path(path@)
                &&& target <= total_len(path@, path@.len() - 1)
                &&& 2 <= plan@.len() <= path@.len()
                &&& plan_len(plan@, plan@.len() as int) == target
                &&& plan@[0].leg == 0
                &&& plan@[0].epoch == start_epoch
                &&& plan@[plan@.len() - 1].epoch == end_epoch
                &&& forall|k: int|
                    #![trigger plan@[k]]
                    0 <= k < plan@.len() - 1 ==> plan@[k].epoch <= plan@[k + 1].epoch
                &&& forall|k: int|
                    #![trigger plan@[k]]
                    0 <= k < plan@.len() - 1 ==> plan@[k].lat == path@[k].lat && plan@[k].lon
                        == path@[k].lon
                &&& forall|k: int|
                    #![trigger plan@[k]]
                    1 <= k < plan@.len() - 1 ==> plan@[k].leg == path@[k - 1].seg
            },
            Err(e) => {
                ||| (e == RunError::InvalidPathDescription && !valid_path(path@))
                ||| (e == RunError::RouteTooShort && valid_path(path@) && target > total_len(
                    path@,
                    path@.len() - 1,
                ))
            },
        },
{
    let n = path.len();
    if n < 2 || n > 1_000_000 {
        return Err(RunError::InvalidPathDescription);
    }
    let mut v: usize = 0;
    while v < n
        invariant
            n == path@.len(),
            v <= n,
            forall|k: int| 0 <= k < v ==> wf_point(#[trigger] path@[k]),
        decreases n - v,
    {
        let q = &path[v];
        if !(-90_000_000 <= q.lat && q.lat <= 90_000_000 && -180_000_000 <= q.lon && q.lon
            <= 180_000_000 && 0 <= q.seg && q.seg <= 999_999_999) {
            return Err(RunError::InvalidPathDescription);
        }
        v += 1;
    }
    let mut tot: i64 = 0;
    let mut t: usize = 0;
    while t < n - 1
        invariant
            valid_path(path@),
            n == path@.len(),
            2 <= n <= 1_000_000,
            t <= n - 1,
            tot == total_len(path@, t as int),
            0 <= tot <= t * 999_999_999,
        decreases n - t,
    {
        proof {
            assert(wf_point(path@[t as int]));
        }
        tot = tot + path[t].seg;
        t += 1;
    }
    if target > tot {
        return Err(RunError::RouteTooShort);
    }
    // Walk whole segments while they stay strictly inside the target.
    let mut plan: Vec<PlanPoint> = Vec::new();
    plan.push(PlanPoint { lat: path[0].lat, lon: path[0].lon, leg: 0, epoch: 0 });
    proof {
        assert(plan_len(plan@, 0) == 0);
        assert(plan_len(plan@, 1) == plan@[0].leg);
        assert(total_len(path@, 0) == 0);
        assert(wf_point(path@[0]));
    }
    let mut cum: i64 = 0;
    let mut i: usize = 0;
    while i + 1 < n && cum + path[i].seg < target
        invariant
            valid_path(path@),
            n == path@.len(),
            2 <= n <= 1_000_000,
            1 <= target <= 999_999_999,
            i <= n - 2,
            0 <= path@[i as int].seg <= 999_999_999,
            plan@.len() == i + 1,
            cum == total_len(path@, i as int),
            0 <= cum < target,
            target <= tot,
            tot == total_len(path@, n - 1),
            plan@[0].leg == 0,
            forall|x: int|
                #![trigger plan@[x]]
                0 <= x <= i ==> plan@[x].lat == path@[x].lat && plan@[x].lon == path@[x].lon,
            forall|x: int| #![trigger plan@[x]] 1 <= x <= i ==> plan@[x].leg == path@[x - 1].seg,
            plan_len(plan@, plan@.len() as int) == cum,
        decreases n - i,
    {
        proof {
            assert(wf_point(path@[i as int]));
            if i == n - 2 {
                assert(total_len(path@, n - 1) == total_len(path@, n - 2) + path@[n - 2].seg);
                assert(false);
            }
        }
        let ghost before = plan@;
        plan.push(
            PlanPoint { lat: path[i + 1].lat, lon: path[i + 1].lon, leg: path[i].seg, epoch: 0 },
        );
        proof {
            lemma_plan_len_prefix(plan@, before, before.len() as int);
        }
        cum = cum + path[i].seg;
        i += 1;
        proof {
            assert(wf_point(path@[i as int]));
        }
    }
    // The target is reached inside segment i: interpolate the final point.
    proof {
        assert(wf_point(path@[i as int]));
        if i + 1 >= n {
            assert(false);
        }
    }
    let rem = target - cum;
    let seg = path[i].seg;
    let a = &path[i];
    let b = &path[i + 1];
    proof {
        assert(wf_point(path@[i + 1]));
    }
    let flat = interpolate(a.lat, b.lat, rem, seg);
    let flon = interpolate(a.lon, b.lon, rem, seg);
    let ghost before_last = plan@;
    plan.push(PlanPoint { lat: flat, lon: flon, leg: rem, epoch: 0 });
    proof {
        lemma_plan_len_prefix(plan@, before_last, before_last.len() as int);
        assert(plan_len(plan@, plan@.len() as int) == cum + rem);
    }
    // Spread timestamps monotonically from start to end.
    let k = plan.len();
    let dur = end_epoch - start_epoch;
    let mut out: Vec<PlanPoint> = Vec::new();
    let mut j: usize = 0;
    while j < k
        invariant
            2 <= k == plan@.len(),
            k <= 1_000_000,
            0 <= dur <= EPOCH_MAX,
            end_epoch == start_epoch + dur,
            0 <= start_epoch,
            j <= k,
            out@.len() == j,
            forall|x: int|
                #![trigger out@[x]]
                0 <= x < j ==> out@[x].lat == plan@[x].lat && out@[x].lon == plan@[x].lon
                    && out@[x].leg == plan@[x].leg,
            forall|x: int|
                #![trigger out@[x]]
                0 <= x < j ==> out@[x].epoch == if x == k - 1 {
                    end_epoch as int
                } else {
                    start_epoch + (x * dur) / (k - 1)
                },
        decreases k - j,
    {
        let e: i64 = if j == k - 1 {
            end_epoch
        } else {
            proof {
                assert(0 <= j as int * dur <= (k - 1) as int * dur <= 1_000_000
                    * 4_102_444_799) by (nonlinear_arith)
                    requires
                        0 <= j as int <= (k - 1) as int <= 1_000_000,
                        0 <= dur <= 4_102_444_799,
                ;
                lemma_div_is_ordered(j as int * dur, (k - 1) as int * dur, k - 1);
                lemma_div_multiples_vanish(dur as int, k - 1);
            }
            let q = ((j as u64) * (dur as u64)) / ((k - 1) as u64);
            start_epoch + (q as i64)
        };
        let p = &plan[j];
        out.push(PlanPoint { lat: p.lat, lon: p.lon, leg: p.leg, epoch: e });
        j += 1;
    }
    proof {
        lemma_plan_len_prefix(out@, plan@, k as int);
        assert forall|x: int| 0 <= x < out@.len() - 1 implies #[trigger] out@[x].epoch <= out@[x
            + 1].epoch by {
            if x + 1 < k - 1 {
                assert(x * dur <= (x + 1) * dur) by (nonlinear_arith)
                    requires
                        0 <= x,
                        0 <= dur,
                ;
                lemma_div_is_ordered(x * dur, (x + 1) * dur, k - 1);
            } else {
                if x > 0 {
                    assert(x * dur <= (k - 1) as int * dur) by (nonlinear_arith)
                        requires
                            0 <= x <= (k - 1) as int,
                            0 <= dur,
                    ;
                    lemma_div_is_ordered(x * dur, (k - 1) as int * dur, k - 1);
                    lemma_div_multiples_vanish(dur as int, k - 1);
                }
            }
        }
        assert(0 * dur == 0) by (nonlinear_arith);
        assert(out@[0].epoch == start_epoch as int);
    }
    Ok(out)
}

/// The coordinate `rem/seg` of the way from `a` to `b`, truncated toward
/// `a`.
fn interpolate(a: i64, b: i64, rem: i64, seg: i64) -> (r: i64)
    requires
        -180_000_000 <= a <= 180_000_000,
        -180_000_000 <= b <= 180_000_000,
        1 <= rem <= seg,
        seg <= 999_999_999,
{
    if b >= a {
        let d = (b - a) as u64;
        proof {
            assert(0 <= d as int * rem <= d as int * seg <= 360_000_000
                * 999_999_999) by (nonlinear_arith)
                requires
                    0 <= d as int <= 360_000_000,
                    1 <= rem <= seg <= 999_999_999,
            ;
            lemma_div_is_ordered(d as int * rem, d as int * seg, seg as int);
            lemma_div_multiples_vanish(d as int, seg as int);
        }
        let step = (d * (rem as u64)) / (seg as u64);
        a + (step as i64)
    } else {
        let d = (a - b) as u64;
        proof {
            assert(0 <= d as int * rem <= d as int * seg <= 360_000_000
                * 999_999_999) by (nonlinear_arith)
                requires
                    0 <= d as int <= 360_000_000,
                    1 <= rem <= seg <= 999_999_999,
            ;
            lemma_div_is_ordered(d as int * rem, d as int * seg, seg as int);
            lemma_div_multiples_vanish(d as int, seg as int);
        }
        let step = (d * (rem as u64)) / (seg as u64);
        a - (step as i64)
    }
}

} // verus!
