use vstd::prelude::*;
use vstd::arithmetic::div_mod::{lemma_div_is_ordered, lemma_div_nonincreasing};
use rand::Rng;
use crate::auth::{salt, spec_salt};
use crate::constraints::SessionConstraints;
use crate::digest::{digest_str, spec_digest};
use crate::numfmt::{fmt_milli, fmt_u64, max_milli, spec_dec, spec_milli_chars};
use crate::route::{synthesize, total_len, plan_len, valid_path, PathPoint, PlanPoint};
use crate::timefmt::{format_epoch_local, spec_civil_chars, spec_civil_of_utc, EPOCH_MAX};
use crate::RunError;

verus! {

/// Relies on rand::Rng::gen_range on a thread-local generator: it panics
/// only on an empty range and returns a value of the half-open range given.
/// Nothing can be promised about which value comes back.
#[verifier::external_body]
fn rand_in_range(lo: i64, hi: i64) -> (r: i64)
    requires
        lo < hi,
    ensures
        lo <= r < hi,
{
    rand::thread_rng().gen_range(lo..hi)
}

/// The three jitters of one submission, drawn together in a synchronous
/// block so that the generator is never held across a suspension point:
/// the mileage reduction in milli units, the keep-time shift in seconds,
/// and the pace range in milli units around 0.6.
pub fn draw_jitter() -> (r: (i64, i64, i64))
    ensures
        -20 <= r.0 <= -2,
        -15 <= r.1 <= 14,
        550 <= r.2 <= 649,
{
    let j1 = rand_in_range(-20, -1);
    let j2 = rand_in_range(-15, 15);
    let pr = 600 + rand_in_range(-50, 50);
    (j1, j2, pr)
}

/// The caller's nominal distance capped by the remaining daily budget, the
/// remaining weekly budget and the effective range end.
pub open spec fn spec_bounded(requested: int, c: SessionConstraints) -> int {
    let a = if requested <= c.daily_budget - c.day_consumed {
        requested
    } else {
        c.daily_budget - c.day_consumed
    };
    let b = if a <= c.weekly_budget - c.week_consumed {
        a
    } else {
        c.weekly_budget - c.week_consumed
    };
    if b <= c.effective_end {
        b
    } else {
        c.effective_end as int
    }
}

/// The smallest reportable mileage: the effective range start, and in any
/// case at least one milli unit.
pub open spec fn spec_floor(c: SessionConstraints) -> int {
    if c.effective_start >= 1 {
        c.effective_start as int
    } else {
        1
    }
}

/// The mileage that one submission reports: the bounded distance reduced by
/// the drawn jitter.
pub open spec fn spec_mileage(requested: int, c: SessionConstraints, j1: int) -> int {
    spec_bounded(requested, c) + j1
}

/// keepTime: seconds at the fixed pace, truncated, shifted by the jitter.
pub open spec fn spec_keeptime(m: int, j2: int) -> int {
    (m * 360) / 1000 + j2
}

/// avgPace: seconds per distance unit, truncated, in milliseconds.
pub open spec fn spec_avg_pace(kt: int, m: int) -> int {
    ((kt * 1000) / m) * 1000
}

/// calorie: calories at the fixed rate per distance unit, truncated.
pub open spec fn spec_calorie(m: int) -> int {
    (m * 583) / 10000
}

/// paceNumber: half distance strides at the drawn pace range, truncated.
pub open spec fn spec_pace_number(m: int, pr: int) -> int {
    (m * 500) / pr
}

/// Bounds the requested distance by every remaining budget, applies the
/// mileage jitter, and fails exactly when the result lies below the
/// effective floor.
pub fn resolve_mileage(requested: i64, c: &SessionConstraints, j1: i64) -> (r: Result<
    i64,
    RunError,
>)
    requires
        c.wf(),
        -20 <= j1 <= -2,
    ensures
        match r {
            Ok(m) => m == spec_mileage(requested as int, *c, j1 as int) && spec_floor(*c) <= m
                <= max_milli(),
            Err(e) => e == RunError::EffectiveMileageTooLow && spec_mileage(
                requested as int,
                *c,
                j1 as int,
            ) < spec_floor(*c),
        },
{
    let mut bounded = requested;
    let day_left = c.daily_budget - c.day_consumed;
    if day_left < bounded {
        bounded = day_left;
    }
    let week_left = c.weekly_budget - c.week_consumed;
    if week_left < bounded {
        bounded = week_left;
    }
    if c.effective_end < bounded {
        bounded = c.effective_end;
    }
    if bounded <= 0 {
        return Err(RunError::EffectiveMileageTooLow);
    }
    let m = bounded + j1;
    let floor = if c.effective_start >= 1 {
        c.effective_start
    } else {
        1
    };
    if m < floor {
        return Err(RunError::EffectiveMileageTooLow);
    }
    Ok(m)
}

/// Mileage resolution law: when the bounded distance, even reduced by the
/// smallest possible jitter, lies below the effective floor, resolution
/// fails for every admissible jitter.
pub proof fn lemma_no_budget_always_fails(requested: int, c: SessionConstraints, j1: int)
    requires
        -20 <= j1 <= -2,
        spec_bounded(requested, c) - 2 < spec_floor(c),
    ensures
        spec_mileage(requested, c, j1) < spec_floor(c),
{
}

/// Mileage resolution law: the pre-jitter bound is the least of the
/// caller's request, the remaining daily budget, the remaining weekly
/// budget and the effective range end.
pub proof fn lemma_bounded_is_min(requested: int, c: SessionConstraints)
    ensures
        spec_bounded(requested, c) <= requested,
        spec_bounded(requested, c) <= c.daily_budget - c.day_consumed,
        spec_bounded(requested, c) <= c.weekly_budget - c.week_consumed,
        spec_bounded(requested, c) <= c.effective_end,
        spec_bounded(requested, c) == requested || spec_bounded(requested, c) == c.daily_budget
            - c.day_consumed || spec_bounded(requested, c) == c.weekly_budget - c.week_consumed
            || spec_bounded(requested, c) == c.effective_end,
{
}

/// One fully formed, internally consistent, signed submission; built per
/// call, serialized once, never persisted.
pub struct SubmissionPayload {
    pub mileage: i64,
    pub mileage_text: String,
    pub keep_time: i64,
    pub avg_pace: i64,
    pub calorie: i64,
    pub pace_number: i64,
    pub pace_range: i64,
    pub start_epoch: i64,
    pub end_epoch: i64,
    pub start_text: String,
    pub end_text: String,
    pub route: Vec<PlanPoint>,
    pub signature: String,
    pub version: String,
    pub semester: String,
    pub limitation: String,
    pub scoring: i64,
}

/// What the submission signature is computed over: the exact field order
/// and repetition the server's validator checks (the mileage and the
/// literal entrance code each appear twice), with the same truncated
/// renderings of the numeric fields.
pub open spec fn spec_sign_input(p: SubmissionPayload) -> Seq<char> {
    spec_milli_chars(p.mileage as int) + "1"@ + p.start_text@ + spec_dec(p.calorie as int)
        + spec_dec(p.avg_pace as int) + spec_dec(p.keep_time as int) + spec_dec(
        p.pace_number as int,
    ) + spec_milli_chars(p.mileage as int) + "1"@ + spec_salt()
}

/// Internal consistency of a payload: the mileage came from the bounded
/// distance under some admissible jitter, every derived field is the exact
/// truncating formula of the payload's own mileage, timing and pace range,
/// the route's length is exactly the mileage, and the signature signs
/// exactly the payload's own fields.
pub open spec fn payload_consistent(
    p: SubmissionPayload,
    c: SessionConstraints,
    requested: int,
    end_epoch: int,
) -> bool {
    &&& exists|j1: int| -20 <= j1 <= -2 && p.mileage == spec_mileage(requested, c, j1)
    &&& spec_floor(c) <= p.mileage <= max_milli()
    &&& exists|j2: int| -15 <= j2 <= 14 && p.keep_time == spec_keeptime(p.mileage as int, j2)
    &&& 550 <= p.pace_range <= 649
    &&& 0 <= p.keep_time <= end_epoch
    &&& p.end_epoch == end_epoch
    &&& p.start_epoch == end_epoch - p.keep_time
    &&& p.avg_pace == spec_avg_pace(p.keep_time as int, p.mileage as int)
    &&& p.calorie == spec_calorie(p.mileage as int)
    &&& p.pace_number == spec_pace_number(p.mileage as int, p.pace_range as int)
    &&& p.mileage_text@ == spec_milli_chars(p.mileage as int)
    &&& exists|off: int|
        -50400 <= off <= 50400 && p.start_text@ == spec_civil_chars(
            #[trigger] spec_civil_of_utc(p.start_epoch + off),
        )
    &&& exists|off: int|
        -50400 <= off <= 50400 && p.end_text@ == spec_civil_chars(
            #[trigger] spec_civil_of_utc(p.end_epoch + off),
        )
    &&& p.start_text@.len() == 19
    &&& p.end_text@.len() == 19
    &&& 2 <= p.route@.len()
    &&& plan_len(p.route@, p.route@.len() as int) == p.mileage
    &&& p.route@[0].epoch == p.start_epoch
    &&& p.route@[p.route@.len() - 1].epoch == p.end_epoch
    &&& forall|k: int|
        #![trigger p.route@[k]]
        0 <= k < p.route@.len() - 1 ==> p.route@[k].epoch <= p.route@[k + 1].epoch
    &&& p.signature@ == spec_digest(spec_sign_input(p))
    &&& p.signature@.len() == 40
    &&& p.semester@ == c.semester@
    &&& p.limitation@ == c.limitation@
    &&& p.scoring == c.scoring
}

/// Builds one submission from the constraints snapshot, the caller's
/// nominal distance, the end time and already-drawn jitters: bounds the
/// mileage, derives keep time, pace, calorie and stride fields with
/// truncating arithmetic, synthesizes the route, formats the local
/// timestamps and signs the payload.
pub fn build_submission(
    c: &SessionConstraints,
    version: &str,
    requested: i64,
    end_epoch: i64,
    j1: i64,
    j2: i64,
    pace_range: i64,
    path: &Vec<PathPoint>,
) -> (r: Result<SubmissionPayload, RunError>)
    requires
        c.wf(),
        -20 <= j1 <= -2,
        -15 <= j2 <= 14,
        550 <= pace_range <= 649,
        0 <= end_epoch <= EPOCH_MAX,
    ensures
        match r {
            Ok(p) => {
                &&& payload_consistent(p, *c, requested as int, end_epoch as int)
                &&& p.mileage == spec_mileage(requested as int, *c, j1 as int)
                &&& p.keep_time == spec_keeptime(p.mileage as int, j2 as int)
                &&& p.pace_range == pace_range
                &&& p.version@ == version@
                &&& valid_path(path@)
                &&& p.mileage <= total_len(path@, path@.len() - 1)
                &&& forall|k: int|
                    #![trigger p.route@[k]]
                    0 <= k < p.route@.len() - 1 ==> p.route@[k].lat == path@[k].lat
                        && p.route@[k].lon == path@[k].lon
                &&& forall|k: int|
                    #![trigger p.route@[k]]
                    1 <= k < p.route@.len() - 1 ==> p.route@[k].leg == path@[k - 1].seg
            },
            Err(e) => {
                ||| (e == RunError::EffectiveMileageTooLow && spec_mileage(
                    requested as int,
                    *c,
                    j1 as int,
                ) < spec_floor(*c))
                ||| (e == RunError::InvalidDuration && spec_mileage(requested as int, *c, j1 as int)
                    >= spec_floor(*c) && (spec_keeptime(
                    spec_mileage(requested as int, *c, j1 as int),
                    j2 as int,
                ) < 0 || spec_keeptime(spec_mileage(requested as int, *c, j1 as int), j2 as int)
                    > end_epoch))
                ||| (e == RunError::InvalidPathDescription && !valid_path(path@))
                ||| (e == RunError::RouteTooShort && valid_path(path@) && spec_mileage(
                    requested as int,
                    *c,
                    j1 as int,
                ) > total_len(path@, path@.len() - 1))
            },
        },
{
    let m = match resolve_mileage(requested, c, j1) {
        Ok(m) => m,
        Err(e) => {
            return Err(e);
        },
    };
    let kt = (m * 360) / 1000 + j2;
    if kt < 0 || kt > end_epoch {
        return Err(RunError::InvalidDuration);
    }
    let start_epoch = end_epoch - kt;
    proof {
        lemma_div_nonincreasing(kt as int * 1000, m as int);
    }
    let q = (kt * 1000) / m;
    let avg = q * 1000;
    let cal = (m * 583) / 10000;
    let pn = (m * 500) / pace_range;
    let mileage_text = fmt_milli(m);
    let start_text = format_epoch_local(start_epoch);
    let end_text = format_epoch_local(end_epoch);
    let route = match synthesize(m, path, start_epoch, end_epoch) {
        Ok(v) => v,
        Err(e) => {
            return Err(e);
        },
    };
    let cal_text = fmt_u64(cal as u64);
    let avg_text = fmt_u64(avg as u64);
    let kt_text = fmt_u64(kt as u64);
    let pn_text = fmt_u64(pn as u64);
    let mut joined = fmt_milli(m);
    joined.append("1");
    joined.append(start_text.as_str());
    joined.append(cal_text.as_str());
    joined.append(avg_text.as_str());
    joined.append(kt_text.as_str());
    joined.append(pn_text.as_str());
    joined.append(mileage_text.as_str());
    joined.append("1");
    joined.append(salt());
    let signature = digest_str(joined.as_str());
    let p = SubmissionPayload {
        mileage: m,
        mileage_text,
        keep_time: kt,
        avg_pace: avg,
        calorie: cal,
        pace_number: pn,
        pace_range,
        start_epoch,
        end_epoch,
        start_text,
        end_text,
        route,
        signature,
        version: version.to_owned(),
        semester: c.semester.clone(),
        limitation: c.limitation.clone(),
        scoring: c.scoring,
    };
    proof {
        assert(joined@ =~= spec_sign_input(p));
        assert(p.semester@ == c.semester@);
        let off_s = choose|off: int|
            -50400 <= off <= 50400 && p.start_text@ == spec_civil_chars(
                #[trigger] spec_civil_of_utc(start_epoch as int + off),
            );
        assert(-50400 <= off_s <= 50400 && p.start_text@ == spec_civil_chars(
            spec_civil_of_utc(p.start_epoch as int + off_s),
        ));
        let off_e = choose|off: int|
            -50400 <= off <= 50400 && p.end_text@ == spec_civil_chars(
                #[trigger] spec_civil_of_utc(end_epoch as int + off),
            );
        assert(-50400 <= off_e <= 50400 && p.end_text@ == spec_civil_chars(
            spec_civil_of_utc(p.end_epoch as int + off_e),
        ));
        assert(exists|jx: int| -20 <= jx <= -2 && p.mileage == spec_mileage(requested as int, *c, jx)) by {
            assert(-20 <= j1 as int <= -2 && p.mileage == spec_mileage(requested as int, *c, j1 as int));
        }
        assert(exists|jx: int| -15 <= jx <= 14 && p.keep_time == spec_keeptime(p.mileage as int, jx)) by {
            assert(-15 <= j2 as int <= 14 && p.keep_time == spec_keeptime(p.mileage as int, j2 as int));
        }
    }
    Ok(p)
}

/// Draws the jitters and builds one submission. The draws complete inside
/// this call, before the caller can reach any suspension point; whatever
/// was drawn, a returned payload is internally consistent, and on inputs
/// where no draw can tip an outcome — enough budget for the worst jitter,
/// a usable course long enough for the best one, and an end time with room
/// for the longest duration — the submission is owed.
pub fn build_submission_random(
    c: &SessionConstraints,
    version: &str,
    requested: i64,
    end_epoch: i64,
    path: &Vec<PathPoint>,
) -> (r: Result<SubmissionPayload, RunError>)
    requires
        c.wf(),
        0 <= end_epoch <= EPOCH_MAX,
    ensures
        (spec_bounded(requested as int, *c) - 20 >= spec_floor(*c) && valid_path(path@)
            && spec_bounded(requested as int, *c) - 2 <= total_len(path@, path@.len() - 1)
            && (spec_bounded(requested as int, *c) - 20) * 360 / 1000 - 15 >= 0 && (spec_bounded(
            requested as int,
            *c,
        ) - 2) * 360 / 1000 + 14 <= end_epoch) ==> r is Ok,
        match r {
            Ok(p) => {
                &&& payload_consistent(p, *c, requested as int, end_epoch as int)
                &&& p.version@ == version@
                &&& valid_path(path@)
            },
            Err(e) => {
                &&& (e == RunError::EffectiveMileageTooLow || e == RunError::InvalidDuration || e
                    == RunError::InvalidPathDescription || e == RunError::RouteTooShort)
                &&& (e == RunError::EffectiveMileageTooLow ==> spec_bounded(requested as int, *c)
                    < spec_floor(*c) + 20)
                &&& (e == RunError::InvalidDuration ==> exists|jx: int, jy: int|
                    -20 <= jx <= -2 && -15 <= jy <= 14 && !(0 <= #[trigger] spec_keeptime(
                        spec_mileage(requested as int, *c, jx),
                        jy,
                    ) <= end_epoch))
                &&& (e == RunError::InvalidPathDescription ==> !valid_path(path@))
                &&& (e == RunError::RouteTooShort ==> valid_path(path@) && spec_bounded(
                    requested as int,
                    *c,
                ) - 2 > total_len(path@, path@.len() - 1))
            },
        },
{
    let (j1, j2, pr) = draw_jitter();
    let r = build_submission(c, version, requested, end_epoch, j1, j2, pr, path);
    proof {
        let b = spec_bounded(requested as int, *c);
        let m = spec_mileage(requested as int, *c, j1 as int);
        assert(b - 20 <= m <= b - 2);
        assert((b - 20) * 360 <= m * 360 <= (b - 2) * 360);
        lemma_div_is_ordered((b - 20) * 360, m * 360, 1000);
        lemma_div_is_ordered(m * 360, (b - 2) * 360, 1000);
        match &r {
            Ok(_) => {},
            Err(e) => {
                if *e == RunError::InvalidDuration {
                    assert(-20 <= j1 as int <= -2 && -15 <= j2 as int <= 14 && !(0
                        <= spec_keeptime(m, j2 as int) <= end_epoch));
                }
                if b - 20 >= spec_floor(*c) && valid_path(path@) && b - 2 <= total_len(
                    path@,
                    path@.len() - 1,
                ) && (b - 20) * 360 / 1000 - 15 >= 0 && (b - 2) * 360 / 1000 + 14 <= end_epoch {
                    assert(m >= spec_floor(*c));
                    assert(0 <= spec_keeptime(m, j2 as int) <= end_epoch);
                    assert(m <= total_len(path@, path@.len() - 1));
                    assert(false);
                }
            },
        }
    }
    r
}

} // verus!
