use hashtag_printer::caption::{
    caption_at, caption_for_date, caption_text, current_caption, unix_seconds, CalendarDate,
};

#[test]
fn caption_joins_date_and_label() {
    let d = CalendarDate::new(2024, 1, 15).unwrap();
    assert_eq!(caption_text(d, "Test"), "2024-01-15 - Test");
}

#[test]
fn caption_pads_every_part() {
    let d = CalendarDate::new(7, 3, 9).unwrap();
    assert_eq!(caption_text(d, ""), "0007-03-09 - ");
    let d = CalendarDate::new(9999, 12, 31).unwrap();
    assert_eq!(caption_text(d, "x"), "9999-12-31 - x");
}

#[test]
fn calendar_date_rejects_out_of_range_parts() {
    assert!(CalendarDate::new(10000, 1, 1).is_none());
    assert!(CalendarDate::new(-1, 1, 1).is_none());
    assert!(CalendarDate::new(2024, 13, 1).is_none());
    assert!(CalendarDate::new(2024, 0, 1).is_none());
    assert!(CalendarDate::new(2024, 1, 32).is_none());
    assert!(CalendarDate::new(2024, 1, 0).is_none());
}

#[test]
fn current_caption_begins_with_a_date() {
    let s = current_caption("Some Text Here").unwrap();
    let c: Vec<char> = s.chars().collect();
    assert_eq!(c.len(), 13 + "Some Text Here".len());
    for i in [0usize, 1, 2, 3, 5, 6, 8, 9] {
        assert!(c[i].is_ascii_digit());
    }
    assert_eq!(c[4], '-');
    assert_eq!(c[7], '-');
    assert!(s[10..].starts_with(" - Some Text Here"));
}

#[test]
fn caption_at_uses_the_utc_date_of_the_timestamp() {
    // 2024-01-15T00:00:00Z and the last second of that day
    assert_eq!(caption_at(1_705_276_800, "Test").as_deref(), Some("2024-01-15 - Test"));
    assert_eq!(caption_at(1_705_363_199, "Test").as_deref(), Some("2024-01-15 - Test"));
    assert_eq!(caption_at(0, "x").as_deref(), Some("1970-01-01 - x"));
    assert_eq!(caption_at(-1, "x").as_deref(), Some("1969-12-31 - x"));
}

#[test]
fn caption_at_out_of_range_is_none() {
    assert_eq!(caption_at(i64::MAX, "x"), None);
    assert_eq!(caption_at(i64::MIN, "x"), None);
    // 10000-01-01T00:00:00Z: a five-digit year
    assert_eq!(caption_at(253_402_300_800, "x"), None);
    // 0000-01-01 has a four-digit year, one second earlier does not
    assert_eq!(caption_at(-62_167_219_200, "x").as_deref(), Some("0000-01-01 - x"));
    assert_eq!(caption_at(-62_167_219_201, "x"), None);
}

#[test]
fn caption_for_date_checks_the_parts() {
    assert_eq!(caption_for_date(Some((2024, 1, 15)), "T").as_deref(), Some("2024-01-15 - T"));
    assert_eq!(caption_for_date(Some((12345, 1, 15)), "T"), None);
    assert_eq!(caption_for_date(None, "T"), None);
}

#[test]
fn unix_seconds_floors_readings_before_the_epoch() {
    assert_eq!(unix_seconds(Ok((5, 999))), Some(5));
    assert_eq!(unix_seconds(Err((5, 0))), Some(-5));
    assert_eq!(unix_seconds(Err((5, 1))), Some(-6));
    assert_eq!(unix_seconds(Ok((u64::MAX, 0))), None);
    assert_eq!(unix_seconds(Err((1u64 << 63, 0))), Some(i64::MIN));
    assert_eq!(unix_seconds(Err((1u64 << 63, 1))), None);
}
