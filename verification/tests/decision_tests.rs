use workday_launcher::{decide, decide_with_invert, weekday_rule, Date, Decision, HolidayDate, HolidayIndex};

fn hd(date: &str, kind: &str, name: &str) -> HolidayDate {
    HolidayDate {
        date: date.to_string(),
        name: name.to_string(),
        name_cn: None,
        name_en: None,
        kind: kind.to_string(),
    }
}

#[test]
fn weekday_runs_when_missing_and_allow() {
    let idx = HolidayIndex::new();
    let d = Date::from_ymd_opt(2025, 12, 30).unwrap(); // Tue
    let got = decide(d, &idx, "allow");
    assert_eq!(got, Decision::Run { reason: "weekday".to_string() });
}

#[test]
fn weekend_skips_when_missing_and_allow() {
    let idx = HolidayIndex::new();
    let d = Date::from_ymd_opt(2026, 1, 3).unwrap(); // Sat
    let got = decide(d, &idx, "allow");
    assert_eq!(got, Decision::Skip { reason: "weekend".to_string() });
}

#[test]
fn missing_policy_deny_always_skips() {
    let idx = HolidayIndex::new();
    let d = Date::from_ymd_opt(2025, 12, 30).unwrap();
    let got = decide(d, &idx, "deny");
    assert_eq!(
        got,
        Decision::Skip {
            reason: "date not found in holiday json (missing_policy=deny)".to_string()
        }
    );
}

#[test]
fn public_holiday_skips_even_if_weekday() {
    let mut idx = HolidayIndex::new();
    let d = Date::from_ymd_opt(2025, 10, 1).unwrap();
    idx.insert_entry(d, hd("2025-10-01", "public_holiday", "National Day"));

    let got = decide(d, &idx, "allow");
    assert!(matches!(got, Decision::Skip { .. }));
    if let Decision::Skip { reason } = got {
        assert!(reason.contains("public_holiday"));
    }
}

#[test]
fn transfer_workday_runs_even_if_weekend() {
    let mut idx = HolidayIndex::new();
    let d = Date::from_ymd_opt(2025, 10, 11).unwrap(); // Sat
    idx.insert_entry(d, hd("2025-10-11", "transfer_workday", "Adjusted Workday"));

    let got = decide(d, &idx, "allow");
    assert!(matches!(got, Decision::Run { .. }));
    if let Decision::Run { reason } = got {
        assert!(reason.contains("transfer_workday"));
    }
}

#[test]
fn unknown_kind_falls_back_to_weekday_rule_with_reason() {
    let mut idx = HolidayIndex::new();
    let d = Date::from_ymd_opt(2025, 12, 30).unwrap(); // Tue
    idx.insert_entry(d, hd("2025-12-30", "company_event", "Foo"));

    let got = decide(d, &idx, "allow");
    assert!(matches!(got, Decision::Run { .. }));
    if let Decision::Run { reason } = got {
        assert!(reason.contains("unknown holiday type"));
        assert!(reason.contains("weekday"));
    }
}

#[test]
fn exact_reasons_for_listed_days() {
    let mut idx = HolidayIndex::new();
    let holiday = Date::from_ymd_opt(2025, 10, 1).unwrap();
    let workday = Date::from_ymd_opt(2025, 10, 11).unwrap();
    let event = Date::from_ymd_opt(2026, 1, 3).unwrap(); // Sat
    idx.insert_entry(holiday, hd("2025-10-01", "public_holiday", "National Day"));
    idx.insert_entry(workday, hd("2025-10-11", "transfer_workday", "Adjusted Workday"));
    idx.insert_entry(event, hd("2026-01-03", "company_event", "Foo"));
    assert_eq!(
        decide(holiday, &idx, "deny"),
        Decision::Skip { reason: "public_holiday: National Day".to_string() }
    );
    assert_eq!(
        decide(workday, &idx, "deny"),
        Decision::Run { reason: "transfer_workday: Adjusted Workday".to_string() }
    );
    assert_eq!(
        decide(event, &idx, "deny"),
        Decision::Skip { reason: "unknown holiday type (company_event) + weekend".to_string() }
    );
}

#[test]
fn unknown_policy_behaves_like_allow() {
    let idx = HolidayIndex::new();
    let sunday = Date::from_ymd_opt(2026, 1, 4).unwrap();
    let monday = Date::from_ymd_opt(2026, 1, 5).unwrap();
    assert_eq!(decide(sunday, &idx, "whatever"), Decision::Skip { reason: "weekend".to_string() });
    assert_eq!(decide(monday, &idx, ""), Decision::Run { reason: "weekday".to_string() });
}

#[test]
fn weekday_rule_over_a_whole_week() {
    // 2025-12-29 is a Monday.
    for (day, runs) in [(29, true), (30, true), (31, true)] {
        let d = Date::from_ymd_opt(2025, 12, day).unwrap();
        assert_eq!(matches!(weekday_rule(d), Decision::Run { .. }), runs);
    }
    for (day, runs) in [(1, true), (2, true), (3, false), (4, false)] {
        let d = Date::from_ymd_opt(2026, 1, day).unwrap();
        assert_eq!(matches!(weekday_rule(d), Decision::Run { .. }), runs);
    }
    // 5 BCE (year -4), March 14 of 309 BCE (year -308) was a Friday.
    let old = Date::from_ymd_opt(-308, 3, 14).unwrap();
    assert_eq!(old.weekday_from_monday(), 4);
    assert_eq!(weekday_rule(old), Decision::Run { reason: "weekday".to_string() });
}

#[test]
fn invert_swaps_run_and_skip() {
    let mut idx = HolidayIndex::new();
    let holiday = Date::from_ymd_opt(2025, 10, 1).unwrap();
    idx.insert_entry(holiday, hd("2025-10-01", "public_holiday", "National Day"));
    let tuesday = Date::from_ymd_opt(2025, 12, 30).unwrap();
    let saturday = Date::from_ymd_opt(2026, 1, 3).unwrap();

    assert_eq!(
        decide_with_invert(holiday, &idx, "allow", true),
        Decision::Run { reason: "public_holiday: National Day".to_string() }
    );
    assert_eq!(
        decide_with_invert(tuesday, &idx, "allow", true),
        Decision::Skip { reason: "weekday".to_string() }
    );
    assert_eq!(
        decide_with_invert(saturday, &idx, "allow", true),
        Decision::Run { reason: "weekend".to_string() }
    );
    assert_eq!(
        decide_with_invert(tuesday, &idx, "deny", true),
        Decision::Run {
            reason: "date not found in holiday json (missing_policy=deny)".to_string()
        }
    );
    assert_eq!(decide_with_invert(tuesday, &idx, "allow", false), decide(tuesday, &idx, "allow"));
}

#[test]
fn entries_for_other_days_do_not_change_a_decision() {
    let mut idx = HolidayIndex::new();
    let tuesday = Date::from_ymd_opt(2025, 12, 30).unwrap();
    let before = decide(tuesday, &idx, "allow");
    idx.insert_entry(
        Date::from_ymd_opt(2025, 12, 31).unwrap(),
        hd("2025-12-31", "public_holiday", "Eve"),
    );
    assert_eq!(decide(tuesday, &idx, "allow"), before);
}
