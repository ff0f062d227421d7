use podsync::dates::{date_fields, is_calendar_date, pub_date_of, stamp_or_error};
use podsync::error::Error;
use podsync::info::channel;
use podsync::info::episode;

#[test]
fn stamp_of_new_year_2023() {
    assert_eq!(pub_date_of("20230101").unwrap(), "Sun, 01 Jan 2023 09:10:11 +0000");
}

#[test]
fn stamp_of_a_leap_day() {
    assert_eq!(pub_date_of("20240229").unwrap(), "Thu, 29 Feb 2024 09:10:11 +0000");
}

#[test]
fn stamp_of_the_last_day_of_a_year() {
    assert_eq!(pub_date_of("19991231").unwrap(), "Fri, 31 Dec 1999 09:10:11 +0000");
}

#[test]
fn day_that_no_calendar_has_is_malformed() {
    let error = pub_date_of("20230230").unwrap_err();
    assert!(matches!(error, Error::MalformedMetadata(text) if text == "20230230"));
    assert!(matches!(pub_date_of("20230229"), Err(Error::MalformedMetadata(_))));
    assert!(matches!(pub_date_of("20231301"), Err(Error::MalformedMetadata(_))));
    assert!(matches!(pub_date_of("20230100"), Err(Error::MalformedMetadata(_))));
}

#[test]
fn date_must_be_eight_digits() {
    assert!(matches!(pub_date_of("2023-01-01"), Err(Error::MalformedMetadata(_))));
    assert!(matches!(pub_date_of("2023011"), Err(Error::MalformedMetadata(_))));
    assert!(matches!(pub_date_of("202301011"), Err(Error::MalformedMetadata(_))));
    assert!(matches!(pub_date_of("2023010a"), Err(Error::MalformedMetadata(_))));
    assert!(matches!(pub_date_of("+2023101"), Err(Error::MalformedMetadata(_))));
    assert!(matches!(pub_date_of(""), Err(Error::MalformedMetadata(_))));
}

#[test]
fn dates_of_the_calendar() {
    assert!(is_calendar_date(20230101));
    assert!(is_calendar_date(20240229));
    assert!(is_calendar_date(19000228));
    assert!(is_calendar_date(10101));
    assert!(is_calendar_date(99991231));
    assert!(!is_calendar_date(20230229));
    assert!(!is_calendar_date(19000229));
    assert!(!is_calendar_date(20231345));
    assert!(!is_calendar_date(20230431));
    assert!(!is_calendar_date(20230100));
    assert!(!is_calendar_date(20230001));
    assert!(!is_calendar_date(100000101));
    assert!(!is_calendar_date(u32::MAX));
}

#[test]
fn fields_of_a_date() {
    assert_eq!(date_fields("20230101"), Some((2023, 1, 1)));
    assert_eq!(date_fields("00011231"), Some((1, 12, 31)));
    assert_eq!(date_fields("99999999"), Some((9999, 99, 99)));
    assert_eq!(date_fields("2023 101"), None);
    assert_eq!(date_fields("１２３４５６７８"), None);
}

#[test]
fn missing_stamp_quotes_the_date() {
    assert_eq!(stamp_or_error(Some("stamp".to_string()), "20230101").unwrap(), "stamp");
    let error = stamp_or_error(None, "yesterday").unwrap_err();
    assert!(matches!(error, Error::MalformedMetadata(text) if text == "yesterday"));
}

#[test]
fn channel_is_stamped_by_its_last_change() {
    let info = channel::Info {
        upload_date: "20230101".to_string(),
        title: "Test Channel".to_string(),
        description: String::new(),
        link: String::new(),
        author: String::new(),
    };
    assert_eq!(info.pub_date().unwrap(), "Sun, 01 Jan 2023 09:10:11 +0000");
}

#[test]
fn episode_is_stamped_by_its_upload() {
    let info = episode::Info {
        guid: "abcdefghijk".to_string(),
        upload_date: "20210704".to_string(),
        playlist_index: 1,
        title: String::new(),
        link: String::new(),
        description: String::new(),
        author: String::new(),
        duration_seconds: 0,
    };
    assert_eq!(info.pub_date().unwrap(), "Sun, 04 Jul 2021 09:10:11 +0000");
}

#[test]
fn fixed_texts_of_every_feed() {
    let info = channel::Info {
        upload_date: String::new(),
        title: String::new(),
        description: String::new(),
        link: String::new(),
        author: String::new(),
    };
    assert_eq!(info.language(), "en");
    assert_eq!(info.category(), "Technology & Science");
    assert_eq!(info.generator(), "ytdlp");
    assert_eq!(info.explicit_content(), "false");
    assert_eq!(info.channel_type(), "Serial");
}
