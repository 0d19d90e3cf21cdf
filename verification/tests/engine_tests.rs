use pacer::auth::{build_login_request, classify_login_status, classify_status, login_sign, SessionIdentity};
use pacer::constraints::{resolve_constraints, resolve_semester, LimitFields, SessionConstraints};
use pacer::digest::{digest_parts, digest_str};
use pacer::numfmt::{fmt_milli, fmt_u64, parse_milli};
use pacer::route::{synthesize, PathPoint};
use pacer::submit::{build_submission, build_submission_random, draw_jitter, resolve_mileage};
use pacer::RunError;

fn two_point_path() -> Vec<PathPoint> {
    vec![
        PathPoint { lat: 30_000_000, lon: 120_000_000, seg: 10_000 },
        PathPoint { lat: 30_010_000, lon: 120_000_000, seg: 0 },
    ]
}

fn constraints() -> SessionConstraints {
    SessionConstraints {
        semester: "sem-1".to_string(),
        scoring: 2,
        limitation: "lim-9".to_string(),
        daily_budget: 5_000,
        weekly_budget: 20_000,
        effective_start: 1_000,
        effective_end: 8_000,
        day_consumed: 0,
        week_consumed: 0,
    }
}

#[test]
fn digest_matches_known_vector() {
    // The 160-bit hash of "abc" is a fixed, published value.
    let parts = vec!["a".to_string(), "bc".to_string()];
    assert_eq!(digest_parts(&parts), "a9993e364706816aba3e25717850c26c9cd0d89d");
    assert_eq!(digest_str("abc"), "a9993e364706816aba3e25717850c26c9cd0d89d");
}

#[test]
fn digest_is_deterministic_and_sensitive() {
    let a = digest_str("credential-user:credential-pass");
    let b = digest_str("credential-user:credential-pass");
    assert_eq!(a, b);
    let c = digest_str("credential-user:credential-pasr");
    assert_ne!(a, c);
    assert_eq!(a.len(), 40);
}

#[test]
fn login_sign_joins_in_order() {
    let direct = digest_str("alicepw1itauVfnexHiRigZ6");
    assert_eq!(login_sign("alice", "pw"), direct);
    let req = build_login_request("alice", "pw");
    assert_eq!(req.entrance, "1");
    assert_eq!(req.user_name, "alice");
    assert_eq!(req.password, "pw");
    assert_eq!(req.sign_digital, direct);
}

#[test]
fn login_status_classification() {
    assert_eq!(classify_login_status(400), Err(RunError::InvalidCredentials));
    assert_eq!(classify_login_status(403), Err(RunError::InvalidCredentials));
    assert_eq!(classify_login_status(499), Err(RunError::InvalidCredentials));
    assert_eq!(classify_login_status(500), Err(RunError::RequestFailed(500)));
    assert_eq!(classify_login_status(200), Ok(()));
    assert_eq!(classify_status(404), Err(RunError::RequestFailed(404)));
    assert_eq!(classify_status(204), Ok(()));
}

#[test]
fn session_identity_keeps_fields() {
    let id = SessionIdentity::new("i".to_string(), "t".to_string(), "o".to_string());
    assert_eq!(id.id, "i");
    assert_eq!(id.token, "t");
    assert_eq!(id.organization, "o");
}

#[test]
fn fmt_renders_decimal() {
    assert_eq!(fmt_u64(0), "0");
    assert_eq!(fmt_u64(7), "7");
    assert_eq!(fmt_u64(360000), "360000");
    assert_eq!(fmt_milli(3_000), "3");
    assert_eq!(fmt_milli(2_983), "2.983");
    assert_eq!(fmt_milli(2_980), "2.98");
    assert_eq!(fmt_milli(2_900), "2.9");
    assert_eq!(fmt_milli(500), "0.5");
    assert_eq!(fmt_milli(0), "0");
}

#[test]
fn parse_accepts_plain_decimals() {
    assert_eq!(parse_milli("20"), Some(20_000));
    assert_eq!(parse_milli("12.5"), Some(12_500));
    assert_eq!(parse_milli("0.0"), Some(0));
    assert_eq!(parse_milli("1.2345"), Some(1_234));
    assert_eq!(parse_milli("12."), Some(12_000));
    assert_eq!(parse_milli("999999.999"), Some(999_999_999));
}

#[test]
fn parse_rejects_other_shapes() {
    assert_eq!(parse_milli(""), None);
    assert_eq!(parse_milli("abc"), None);
    assert_eq!(parse_milli(".5"), None);
    assert_eq!(parse_milli("1.2.3"), None);
    assert_eq!(parse_milli("-1"), None);
    assert_eq!(parse_milli("1000000000"), None);
}

#[test]
fn timestamps_format_zero_padded() {
    let c = pacer::timefmt::Civil { year: 2024, month: 3, day: 7, hour: 9, minute: 5, second: 30 };
    assert_eq!(pacer::timefmt::format_civil(&c), "2024-03-07 09:05:30");
    let s = pacer::timefmt::format_epoch_local(1_700_000_000);
    assert_eq!(s.len(), 19);
    assert_eq!(s.as_bytes()[4], b'-');
    assert_eq!(s.as_bytes()[10], b' ');
    assert_eq!(s.as_bytes()[13], b':');
}

#[test]
fn semester_null_means_not_started() {
    assert_eq!(resolve_semester(None), Err(RunError::SemesterNotStarted));
    assert_eq!(resolve_semester(Some("sem-1".to_string())), Ok("sem-1".to_string()));
}

fn full_fields() -> LimitFields {
    LimitFields {
        daily_mileage: Some(5_000),
        effective_mileage_end: Some(8_000),
        effective_mileage_start: Some(1_000),
        limitations_goals_sex_info_id: Some("lim-9".to_string()),
        scoring_type: Some(2),
        total_day_mileage: Some("0.0".to_string()),
        total_week_mileage: Some("2.5".to_string()),
        weekly_mileage: Some(20_000),
    }
}

#[test]
fn constraints_resolve_when_all_present() {
    let c = resolve_constraints("sem-1".to_string(), full_fields()).unwrap();
    assert_eq!(c.semester, "sem-1");
    assert_eq!(c.scoring, 2);
    assert_eq!(c.limitation, "lim-9");
    assert_eq!(c.daily_budget, 5_000);
    assert_eq!(c.weekly_budget, 20_000);
    assert_eq!(c.effective_start, 1_000);
    assert_eq!(c.effective_end, 8_000);
    assert_eq!(c.day_consumed, 0);
    assert_eq!(c.week_consumed, 2_500);
}

#[test]
fn constraints_are_all_or_nothing() {
    // Seven of eight fields present must fail wholesale.
    let mut f = full_fields();
    f.weekly_mileage = None;
    match resolve_constraints("sem-1".to_string(), f) {
        Err(RunError::SemesterNotStarted) => {}
        other => panic!("expected SemesterNotStarted, got {:?}", other),
    }
    let mut g = full_fields();
    g.limitations_goals_sex_info_id = None;
    assert!(matches!(
        resolve_constraints("sem-1".to_string(), g),
        Err(RunError::SemesterNotStarted)
    ));
}

#[test]
fn constraints_bad_total_is_malformed() {
    let mut f = full_fields();
    f.total_day_mileage = Some("not-a-number".to_string());
    assert!(matches!(
        resolve_constraints("sem-1".to_string(), f),
        Err(RunError::MalformedResponse)
    ));
}

#[test]
fn mileage_bounded_by_budgets() {
    let c = constraints();
    // requested 3.0 with jitter -0.017 resolves to 2.983, above the floor.
    assert_eq!(resolve_mileage(3_000, &c, -17), Ok(2_983));
    // the daily budget caps a large request
    assert_eq!(resolve_mileage(50_000, &c, -2), Ok(4_998));
    // the weekly remainder caps when it is the smallest
    let mut tight = constraints();
    tight.week_consumed = 18_000;
    assert_eq!(resolve_mileage(50_000, &tight, -2), Ok(1_998));
}

#[test]
fn mileage_below_floor_fails() {
    let c = constraints();
    // requested 0.5: even before jitter the bound is below the 1.0 floor.
    assert_eq!(resolve_mileage(500, &c, -2), Err(RunError::EffectiveMileageTooLow));
    assert_eq!(resolve_mileage(500, &c, -20), Err(RunError::EffectiveMileageTooLow));
}

#[test]
fn route_matches_target_exactly() {
    let path = vec![
        PathPoint { lat: 0, lon: 0, seg: 2_000 },
        PathPoint { lat: 1_000, lon: 0, seg: 2_000 },
        PathPoint { lat: 2_000, lon: 0, seg: 2_000 },
        PathPoint { lat: 3_000, lon: 0, seg: 0 },
    ];
    let plan = synthesize(5_000, &path, 100, 400).unwrap();
    let total: i64 = plan.iter().map(|p| p.leg).sum();
    assert_eq!(total, 5_000);
    assert_eq!(plan[0].epoch, 100);
    assert_eq!(plan.last().unwrap().epoch, 400);
    for w in plan.windows(2) {
        assert!(w[0].epoch <= w[1].epoch);
    }
    // the walked prefix follows the course
    assert_eq!(plan[0].lat, 0);
    assert_eq!(plan[1].lat, 1_000);
    assert_eq!(plan[2].lat, 2_000);
    // final point interpolated half way into the third segment
    assert_eq!(plan[3].lat, 2_500);
}

#[test]
fn route_too_short_and_invalid() {
    let path = two_point_path();
    assert!(matches!(synthesize(20_000, &path, 0, 10), Err(RunError::RouteTooShort)));
    let empty: Vec<PathPoint> = Vec::new();
    assert!(matches!(
        synthesize(1_000, &empty, 0, 10),
        Err(RunError::InvalidPathDescription)
    ));
    let one = vec![PathPoint { lat: 0, lon: 0, seg: 0 }];
    assert!(matches!(synthesize(1_000, &one, 0, 10), Err(RunError::InvalidPathDescription)));
}

#[test]
fn submission_derives_truncated_fields() {
    // daily budget 5.02 so that requested 6.0 bounds to 5.02 and the
    // largest jitter lands exactly on mileage 5.0.
    let mut c = constraints();
    c.daily_budget = 5_020;
    let end_epoch: i64 = 1_700_000_000;
    let p = build_submission(&c, "3.8.2", 6_000, end_epoch, -20, 0, 600, &two_point_path())
        .unwrap();
    assert_eq!(p.mileage, 5_000);
    assert_eq!(p.mileage_text, "5");
    assert_eq!(p.keep_time, 1_800);
    // truncation, not rounding: 1800 s over 5.0 units is 360 s, as ms
    assert_eq!(p.avg_pace, 360_000);
    // 58.3 per unit over 5.0 units is 291.5, truncated
    assert_eq!(p.calorie, 291);
    // 5.0 * 1000 / 0.6 / 2, truncated
    assert_eq!(p.pace_number, 4_166);
    assert_eq!(p.pace_range, 600);
    assert_eq!(p.start_epoch, end_epoch - 1_800);
    assert_eq!(p.start_text.len(), 19);
    assert_eq!(p.end_text.len(), 19);
    assert_eq!(p.semester, "sem-1");
    assert_eq!(p.limitation, "lim-9");
    assert_eq!(p.scoring, 2);
    assert_eq!(p.version, "3.8.2");
    let legs: i64 = p.route.iter().map(|q| q.leg).sum();
    assert_eq!(legs, 5_000);
    // the signature signs exactly the payload's own fields, in order
    let expect = digest_str(&format!(
        "51{}2913600001800416651itauVfnexHiRigZ6",
        p.start_text
    ));
    assert_eq!(p.signature, expect);
}

#[test]
fn submission_fractional_mileage_keeps_truncation() {
    // mileage 5.3: keep time truncates 5.3 * 360 = 1908 exactly; with a
    // +5 jitter the average pace truncates 1913 * 1000 / 5300 = 360.9...
    let mut c = constraints();
    c.daily_budget = 5_320;
    let p = build_submission(&c, "v", 6_000, 1_700_000_000, -20, 5, 600, &two_point_path())
        .unwrap();
    assert_eq!(p.mileage, 5_300);
    assert_eq!(p.mileage_text, "5.3");
    assert_eq!(p.keep_time, 1_913);
    assert_eq!(p.avg_pace, 360_000);
    assert_eq!(p.calorie, 308);  // 58.3 * 5.3 = 308.99
    assert_eq!(p.pace_number, 4_416);  // 5300 * 500 / 600
}

#[test]
fn submission_duration_must_fit() {
    let c = constraints();
    // an end time earlier than the run's duration cannot hold the run
    let r = build_submission(&c, "v", 3_000, 100, -17, 0, 600, &two_point_path());
    assert!(matches!(r, Err(RunError::InvalidDuration)));
}

#[test]
fn submission_too_low_aborts_before_route() {
    let c = constraints();
    let r = build_submission(&c, "v", 500, 1_700_000_000, -2, 0, 600, &two_point_path());
    assert!(matches!(r, Err(RunError::EffectiveMileageTooLow)));
}

#[test]
fn submission_route_errors_surface() {
    let c = constraints();
    let empty: Vec<PathPoint> = Vec::new();
    assert!(matches!(
        build_submission(&c, "v", 3_000, 1_700_000_000, -17, 0, 600, &empty),
        Err(RunError::InvalidPathDescription)
    ));
    let short = vec![
        PathPoint { lat: 0, lon: 0, seg: 1_000 },
        PathPoint { lat: 100, lon: 0, seg: 0 },
    ];
    assert!(matches!(
        build_submission(&c, "v", 3_000, 1_700_000_000, -17, 0, 600, &short),
        Err(RunError::RouteTooShort)
    ));
}

#[test]
fn random_submission_stays_in_jitter_ranges() {
    let c = constraints();
    for _ in 0..50 {
        let (j1, j2, pr) = draw_jitter();
        assert!((-20..=-2).contains(&j1));
        assert!((-15..=14).contains(&j2));
        assert!((550..=649).contains(&pr));
        let p = build_submission_random(&c, "v", 3_000, 1_700_000_000, &two_point_path())
            .unwrap();
        // scenario: requested 3.0 resolves into [2.980, 2.999) after jitter
        assert!(p.mileage >= 2_980 && p.mileage < 2_999);
        assert!(p.mileage >= 1_000);
        let legs: i64 = p.route.iter().map(|q| q.leg).sum();
        assert_eq!(legs, p.mileage);
    }
}
