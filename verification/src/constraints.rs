use vstd::prelude::*;
use vstd::string::StringSliceAdditionalSpecFns;
use crate::numfmt::{max_milli, parse_milli, is_decimal_split, spec_split_milli};
use crate::RunError;

verus! {

/// Immutable snapshot of the active semester's identifiers and budgets,
/// produced once by constraint resolution and then only read. All distance
/// fields are in milli units (thousandths of a distance unit).
#[derive(Debug, Clone)]
pub struct SessionConstraints {
    pub semester: String,
    pub scoring: i64,
    pub limitation: String,
    pub daily_budget: i64,
    pub weekly_budget: i64,
    pub effective_start: i64,
    pub effective_end: i64,
    pub day_consumed: i64,
    pub week_consumed: i64,
}

impl SessionConstraints {
    /// Every budget and consumed total is a representable nonnegative
    /// distance.
    pub open spec fn wf(&self) -> bool {
        &&& 0 <= self.daily_budget <= max_milli()
        &&& 0 <= self.weekly_budget <= max_milli()
        &&& 0 <= self.effective_start <= max_milli()
        &&& 0 <= self.effective_end <= max_milli()
        &&& 0 <= self.day_consumed <= max_milli()
        &&& 0 <= self.week_consumed <= max_milli()
    }

    /// The daily budget, in milli units.
    pub fn daily(&self) -> (r: i64)
        ensures
            r == self.daily_budget,
    {
        self.daily_budget
    }
}

/// The eight nullable fields of a running-limit response, after the
/// transport decoded them. The two consumed totals arrive as decimal
/// strings; the budgets arrive as numbers, handed over in milli units.
pub struct LimitFields {
    pub daily_mileage: Option<i64>,
    pub effective_mileage_end: Option<i64>,
    pub effective_mileage_start: Option<i64>,
    pub limitations_goals_sex_info_id: Option<String>,
    pub scoring_type: Option<i64>,
    pub total_day_mileage: Option<String>,
    pub total_week_mileage: Option<String>,
    pub weekly_mileage: Option<i64>,
}

/// The server signals an inactive constraint period by leaving any of the
/// eight fields null; the snapshot may be built only when all are present.
pub open spec fn all_present(f: &LimitFields) -> bool {
    &&& f.daily_mileage is Some
    &&& f.effective_mileage_end is Some
    &&& f.effective_mileage_start is Some
    &&& f.limitations_goals_sex_info_id is Some
    &&& f.scoring_type is Some
    &&& f.total_day_mileage is Some
    &&& f.total_week_mileage is Some
    &&& f.weekly_mileage is Some
}

/// The four numeric budgets are representable nonnegative distances.
pub open spec fn budgets_in_range(f: &LimitFields) -> bool {
    match (f.daily_mileage, f.effective_mileage_end, f.effective_mileage_start, f.weekly_mileage) {
        (Some(d), Some(e), Some(s), Some(w)) => {
            &&& 0 <= d <= max_milli()
            &&& 0 <= e <= max_milli()
            &&& 0 <= s <= max_milli()
            &&& 0 <= w <= max_milli()
        },
        _ => false,
    }
}

/// The view of an optional string, empty when absent.
pub open spec fn view_or_empty(o: Option<String>) -> Seq<char> {
    match o {
        Some(s) => s@,
        None => Seq::empty(),
    }
}

/// The UTF-8 bytes of a character sequence.
pub open spec fn text_bytes(s: Seq<char>) -> Seq<u8> {
    vstd::utf8::encode_utf8(s)
}

/// A decimal string with a representable milli value.
pub open spec fn parseable(b: Seq<u8>) -> bool {
    exists|d: int| is_decimal_split(b, d) && spec_split_milli(b, d) <= max_milli()
}

/// All-or-nothing constraint resolution: with any of the eight fields
/// absent the semester has not started and nothing is committed; with all
/// present, the snapshot carries every field, or the response is malformed
/// because a consumed total does not parse or a budget is out of range.
pub fn resolve_constraints(semester: String, f: LimitFields) -> (r: Result<
    SessionConstraints,
    RunError,
>)
    ensures
        !all_present(&f) ==> r == Err::<SessionConstraints, RunError>(
            RunError::SemesterNotStarted,
        ),
        all_present(&f) ==> match r {
            Ok(c) => {
                &&& c.wf()
                &&& budgets_in_range(&f)
                &&& c.semester@ == semester@
                &&& f.scoring_type == Some(c.scoring)
                &&& c.limitation@ == view_or_empty(f.limitations_goals_sex_info_id)
                &&& f.daily_mileage == Some(c.daily_budget)
                &&& f.weekly_mileage == Some(c.weekly_budget)
                &&& f.effective_mileage_start == Some(c.effective_start)
                &&& f.effective_mileage_end == Some(c.effective_end)
                &&& exists|d: int|
                    is_decimal_split(text_bytes(view_or_empty(f.total_day_mileage)), d)
                        && c.day_consumed == spec_split_milli(
                        text_bytes(view_or_empty(f.total_day_mileage)),
                        d,
                    )
                &&& exists|d: int|
                    is_decimal_split(text_bytes(view_or_empty(f.total_week_mileage)), d)
                        && c.week_consumed == spec_split_milli(
                        text_bytes(view_or_empty(f.total_week_mileage)),
                        d,
                    )
            },
            Err(e) => e == RunError::MalformedResponse && (!budgets_in_range(&f) || !parseable(
                text_bytes(view_or_empty(f.total_day_mileage)),
            ) || !parseable(text_bytes(view_or_empty(f.total_week_mileage)))),
        },
{
    let LimitFields {
        daily_mileage,
        effective_mileage_end,
        effective_mileage_start,
        limitations_goals_sex_info_id,
        scoring_type,
        total_day_mileage,
        total_week_mileage,
        weekly_mileage,
    } = f;
    if let (
        Some(daily),
        Some(end),
        Some(start),
        Some(limitation),
        Some(scoring),
        Some(day_text),
        Some(week_text),
        Some(weekly),
    ) = (
        daily_mileage,
        effective_mileage_end,
        effective_mileage_start,
        limitations_goals_sex_info_id,
        scoring_type,
        total_day_mileage,
        total_week_mileage,
        weekly_mileage,
    ) {
        if !(0 <= daily && daily <= 999_999_999 && 0 <= end && end <= 999_999_999 && 0 <= start
            && start <= 999_999_999 && 0 <= weekly && weekly <= 999_999_999) {
            return Err(RunError::MalformedResponse);
        }
        let day_str = day_text.as_str();
        let day_consumed = match parse_milli(day_str) {
            Some(v) => v,
            None => {
                proof {
                    let db = text_bytes(view_or_empty(f.total_day_mileage));
                    assert(db == day_str.spec_bytes());
                    assert(!parseable(db)) by {
                        if parseable(db) {
                            let d = choose|d: int|
                                is_decimal_split(db, d) && spec_split_milli(db, d) <= max_milli();
                            assert(is_decimal_split(day_str.spec_bytes(), d));
                        }
                    }
                }
                return Err(RunError::MalformedResponse);
            },
        };
        let week_str = week_text.as_str();
        let week_consumed = match parse_milli(week_str) {
            Some(v) => v,
            None => {
                proof {
                    let wb = text_bytes(view_or_empty(f.total_week_mileage));
                    assert(wb == week_str.spec_bytes());
                    assert(!parseable(wb)) by {
                        if parseable(wb) {
                            let d = choose|d: int|
                                is_decimal_split(wb, d) && spec_split_milli(wb, d) <= max_milli();
                            assert(is_decimal_split(week_str.spec_bytes(), d));
                        }
                    }
                }
                return Err(RunError::MalformedResponse);
            },
        };
        proof {
            let db = text_bytes(view_or_empty(f.total_day_mileage));
            assert(db == day_str.spec_bytes());
            let d = choose|d: int|
                is_decimal_split(day_str.spec_bytes(), d) && day_consumed == spec_split_milli(
                    day_str.spec_bytes(),
                    d,
                );
            assert(is_decimal_split(db, d) && day_consumed == spec_split_milli(db, d));
            let wb = text_bytes(view_or_empty(f.total_week_mileage));
            assert(wb == week_str.spec_bytes());
            let w = choose|w: int|
                is_decimal_split(week_str.spec_bytes(), w) && week_consumed == spec_split_milli(
                    week_str.spec_bytes(),
                    w,
                );
            assert(is_decimal_split(wb, w) && week_consumed == spec_split_milli(wb, w));
        }
        Ok(
            SessionConstraints {
                semester,
                scoring,
                limitation,
                daily_budget: daily,
                weekly_budget: weekly,
                effective_start: start,
                effective_end: end,
                day_consumed,
                week_consumed,
            },
        )
    } else {
        Err(RunError::SemesterNotStarted)
    }
}

/// The current-semester response: a null data field means the semester has
/// not started; otherwise the semester id is captured unchanged.
pub fn resolve_semester(data: Option<String>) -> (r: Result<String, RunError>)
    ensures
        match data {
            Some(id) => r matches Ok(s) && s@ == id@,
            None => r == Err::<String, RunError>(RunError::SemesterNotStarted),
        },
{
    match data {
        Some(id) => Ok(id),
        None => Err(RunError::SemesterNotStarted),
    }
}

} // verus!
