use workday_launcher::{Date, HolidayDate, HolidayFile, HolidayIndex, IndexError};

fn file(region: &str, dates: Vec<HolidayDate>) -> HolidayFile {
    HolidayFile {
        year: 2025,
        region: region.to_string(),
        dates,
    }
}

fn hd(date: &str, kind: &str, name: &str) -> HolidayDate {
    HolidayDate {
        date: date.to_string(),
        name: name.to_string(),
        name_cn: None,
        name_en: None,
        kind: kind.to_string(),
    }
}

#[test]
fn insert_file_rejects_mixed_region() {
    let mut idx = HolidayIndex::new();
    idx.insert_file(file("CN", vec![hd("2025-01-01", "public_holiday", "NY")]))
        .unwrap();

    let err = idx
        .insert_file(file("US", vec![hd("2025-07-04", "public_holiday", "ID")]))
        .unwrap_err();

    assert!(err.message().contains("mixed regions"));
}

#[test]
fn later_files_override_earlier_dates() {
    let mut idx = HolidayIndex::new();
    let d = Date::from_ymd_opt(2025, 1, 1).unwrap();

    idx.insert_file(file(
        "CN",
        vec![hd("2025-01-01", "public_holiday", "Old")],
    ))
    .unwrap();

    idx.insert_file(file(
        "CN",
        vec![hd("2025-01-01", "transfer_workday", "New")],
    ))
    .unwrap();

    let got = idx.get(d).unwrap();
    assert_eq!(got.kind, "transfer_workday");
    assert_eq!(got.name, "New");
}

#[test]
fn insert_file_errors_on_bad_date_format() {
    let mut idx = HolidayIndex::new();
    let err = idx
        .insert_file(file(
            "CN",
            vec![hd("2025/01/01", "public_holiday", "Bad")],
        ))
        .unwrap_err();

    assert!(err.message().contains("Bad date format"));
}

#[test]
fn error_messages_are_exact() {
    let mut idx = HolidayIndex::new();
    idx.insert_file(file("CN", vec![])).unwrap();
    let err = idx.insert_file(file("US", vec![])).unwrap_err();
    assert_eq!(
        err.message(),
        "mixed regions in holiday json files: already loaded CN, but got US"
    );
    assert!(matches!(err, IndexError::MixedRegions { .. }));

    let err = idx
        .insert_file(file("CN", vec![hd("2025-13-01", "public_holiday", "Bad")]))
        .unwrap_err();
    assert_eq!(err.message(), "Bad date format in json: 2025-13-01");
    assert!(matches!(err, IndexError::BadDateFormat { .. }));
}

#[test]
fn mixed_region_leaves_index_unchanged() {
    let mut idx = HolidayIndex::new();
    idx.insert_file(file("CN", vec![hd("2025-01-01", "public_holiday", "NY")]))
        .unwrap();
    assert!(idx
        .insert_file(file("US", vec![hd("2025-07-04", "public_holiday", "ID")]))
        .is_err());
    assert_eq!(idx.region(), Some("CN"));
    assert!(idx.get(Date::from_ymd_opt(2025, 7, 4).unwrap()).is_none());
    assert_eq!(idx.get(Date::from_ymd_opt(2025, 1, 1).unwrap()).unwrap().name, "NY");
}

#[test]
fn first_file_sets_region() {
    let mut idx = HolidayIndex::new();
    assert_eq!(idx.region(), None);
    idx.insert_file(file("JP", vec![])).unwrap();
    assert_eq!(idx.region(), Some("JP"));
}

#[test]
fn entries_before_a_bad_date_stay_indexed() {
    let mut idx = HolidayIndex::new();
    let err = idx.insert_file(file(
        "CN",
        vec![
            hd("2025-10-01", "public_holiday", "National Day"),
            hd("10/02/2025", "public_holiday", "Bad"),
            hd("2025-10-03", "public_holiday", "After"),
        ],
    ));
    assert!(err.is_err());
    assert_eq!(idx.region(), Some("CN"));
    assert!(idx.get(Date::from_ymd_opt(2025, 10, 1).unwrap()).is_some());
    assert!(idx.get(Date::from_ymd_opt(2025, 10, 3).unwrap()).is_none());
}

#[test]
fn later_entry_in_the_same_file_wins() {
    let mut idx = HolidayIndex::new();
    idx.insert_file(file(
        "CN",
        vec![
            hd("2025-05-01", "public_holiday", "First"),
            hd("2025-05-01", "transfer_workday", "Second"),
        ],
    ))
    .unwrap();
    let got = idx.get(Date::from_ymd_opt(2025, 5, 1).unwrap()).unwrap();
    assert_eq!(got.name, "Second");
}

#[test]
fn insert_parsed_uses_the_given_days() {
    let mut idx = HolidayIndex::new();
    let d = Date::from_ymd_opt(2025, 2, 3).unwrap();
    idx.insert_parsed(
        file("CN", vec![hd("whatever", "public_holiday", "Given")]),
        vec![Some(d)],
    )
    .unwrap();
    assert_eq!(idx.get(d).unwrap().name, "Given");

    let err = idx
        .insert_parsed(file("CN", vec![hd("2025-02-04", "public_holiday", "X")]), vec![None])
        .unwrap_err();
    assert_eq!(err.message(), "Bad date format in json: 2025-02-04");
}

#[test]
fn read_after_write() {
    let mut idx = HolidayIndex::new();
    let a = Date::from_ymd_opt(2024, 2, 29).unwrap();
    let b = Date::from_ymd_opt(2024, 3, 1).unwrap();
    idx.insert_entry(a, hd("2024-02-29", "public_holiday", "Leap"));
    assert_eq!(idx.get(a).unwrap().name, "Leap");
    assert!(idx.get(b).is_none());
    idx.insert_entry(a, hd("2024-02-29", "transfer_workday", "Again"));
    assert_eq!(idx.get(a).unwrap().name, "Again");
    assert_eq!(idx.region(), None);
}

#[test]
fn dates_exist_only_where_the_calendar_has_them() {
    assert!(Date::from_ymd_opt(2015, 3, 14).is_some());
    assert!(Date::from_ymd_opt(2015, 0, 14).is_none());
    assert!(Date::from_ymd_opt(2015, 2, 29).is_none());
    assert!(Date::from_ymd_opt(-4, 2, 29).is_some());
    assert!(Date::from_ymd_opt(400000, 1, 1).is_none());
    assert!(Date::from_ymd_opt(2025, 4, 31).is_none());
    let d = Date::parse_ymd("2025-10-11").unwrap();
    assert_eq!((d.year(), d.month(), d.day()), (2025, 10, 11));
    assert!(Date::parse_ymd("2025/10/11").is_none());
    assert!(Date::parse_ymd("2025-02-30").is_none());
}

#[test]
fn adding_an_accepted_file_again_changes_nothing() {
    let make = || {
        file(
            "CN",
            vec![
                hd("2025-10-01", "public_holiday", "National Day"),
                hd("2025-10-11", "transfer_workday", "Adjusted"),
            ],
        )
    };
    let mut idx = HolidayIndex::new();
    idx.insert_file(make()).unwrap();
    idx.insert_file(make()).unwrap();
    assert_eq!(idx.region(), Some("CN"));
    assert_eq!(idx.get(Date::from_ymd_opt(2025, 10, 1).unwrap()).unwrap().name, "National Day");
    assert_eq!(idx.get(Date::from_ymd_opt(2025, 10, 11).unwrap()).unwrap().name, "Adjusted");
    assert!(idx.get(Date::from_ymd_opt(2025, 10, 2).unwrap()).is_none());
}
