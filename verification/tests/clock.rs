use soulcrush::clock::Timestamp;

#[test]
fn the_epoch_is_written_as_the_first_instant_of_1970() {
    let epoch = Timestamp::from_unix_nanos(0).unwrap();
    assert_eq!(epoch.unix_nanos(), 0);
    assert_eq!(epoch.to_text(), "1970-01-01 0:00:00.0 +00:00:00");
}

#[test]
fn an_instant_is_written_with_its_date_and_time_in_utc() {
    // 2024-01-02 09:04:05.5 UTC
    let nanos: i128 = 1_704_186_245_500_000_000;
    let instant = Timestamp::from_unix_nanos(nanos).unwrap();
    assert_eq!(instant.unix_nanos(), nanos);
    assert_eq!(instant.to_text(), "2024-01-02 9:04:05.5 +00:00:00");
}

#[test]
fn an_instant_before_the_epoch_has_a_date() {
    let instant = Timestamp::from_unix_nanos(-1_000_000_000).unwrap();
    assert_eq!(instant.to_text(), "1969-12-31 23:59:59.0 +00:00:00");
}

#[test]
fn an_instant_without_a_date_cannot_be_constructed() {
    assert_eq!(Timestamp::from_unix_nanos(i128::MAX), None);
    assert_eq!(Timestamp::from_unix_nanos(i128::MIN), None);
}

#[test]
fn the_present_instant_has_a_date_and_lies_after_2020() {
    let now = Timestamp::now();
    let year_2020 = Timestamp::from_unix_nanos(1_577_836_800_000_000_000).unwrap();
    assert!(now.is_after(&year_2020));
    assert_eq!(Timestamp::from_unix_nanos(now.unix_nanos()), Some(now));
    assert!(!now.to_text().is_empty());
}

#[test]
fn is_after_is_strict() {
    let a = Timestamp::from_unix_nanos(5).unwrap();
    let b = Timestamp::from_unix_nanos(6).unwrap();
    assert!(b.is_after(&a));
    assert!(!a.is_after(&b));
    assert!(!a.is_after(&a));
}
