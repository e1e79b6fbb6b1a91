use media_sort::date::Date;
use media_sort::date::date_of_unix;
use media_sort::outcome::RelocateError;
use media_sort::outcome::RunSummary;
use media_sort::outcome::summarize;

#[test]
fn dates_of_the_two_example_files() {
    // 2023-03-05 00:00:00 UTC and 2021-12-31 00:00:00 UTC.
    assert_eq!(date_of_unix(1677974400), Some(Date { year: 2023, month: 3, day: 5 }));
    assert_eq!(date_of_unix(1640908800), Some(Date { year: 2021, month: 12, day: 31 }));
}

#[test]
fn epoch_and_before() {
    assert_eq!(date_of_unix(0), Some(Date { year: 1970, month: 1, day: 1 }));
    assert_eq!(date_of_unix(-1), Some(Date { year: 1969, month: 12, day: 31 }));
}

#[test]
fn leap_day() {
    assert_eq!(date_of_unix(1709164800), Some(Date { year: 2024, month: 2, day: 29 }));
}

#[test]
fn four_digit_year_boundary() {
    // 9999-12-31 23:59:59 UTC is the last second with a four-digit year.
    assert_eq!(date_of_unix(253402300799), Some(Date { year: 9999, month: 12, day: 31 }));
    assert_eq!(date_of_unix(253402300800), None);
}

#[test]
fn out_of_range_timestamps_have_no_date() {
    assert_eq!(date_of_unix(i64::MAX), None);
    assert_eq!(date_of_unix(i64::MIN), None);
}

#[test]
fn failures_are_counted_once_and_do_not_hide_successes() {
    let results: Vec<Result<(), RelocateError>> =
        vec![Ok(()), Err(RelocateError::Metadata), Ok(())];
    let s = summarize(&results);
    assert_eq!(s, RunSummary { moved: 2, failed: 1 });

    let empty: Vec<Result<(), RelocateError>> = Vec::new();
    assert_eq!(summarize(&empty), RunSummary { moved: 0, failed: 0 });

    let all_failed: Vec<Result<(), RelocateError>> = vec![
        Err(RelocateError::DirectoryCreate),
        Err(RelocateError::Move),
    ];
    assert_eq!(summarize(&all_failed), RunSummary { moved: 0, failed: 2 });
}

#[test]
fn error_labels() {
    assert_eq!(RelocateError::Metadata.label(), "cannot read creation time");
    assert_eq!(RelocateError::DirectoryCreate.label(), "cannot create destination directory");
    assert_eq!(RelocateError::Move.label(), "cannot move file");
}
