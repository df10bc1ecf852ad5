use openmensa_feed::feed_input::FeedInput;
use openmensa_feed::feed_input::FeedInputError;
use openmensa_feed::feed_input::parse_i32;
use openmensa_feed::feed_input::split_char;
use openmensa_feed::model::Feed;

#[test]
fn full_feed_definition_parses() {
    let fi = FeedInput::from_str("1;full;1;https://example.com/full.xml;4;30;*;1-7;*;60 5 1440")
        .unwrap();
    assert_eq!(fi.canteen_id, "1");
    assert_eq!(fi.name, "full");
    assert_eq!(fi.priority, Some(1));
    assert_eq!(fi.url, "https://example.com/full.xml");
    assert_eq!(fi.hour, "4");
    assert_eq!(fi.minute, Some("30".to_string()));
    assert_eq!(fi.day_of_week, Some("*".to_string()));
    assert_eq!(fi.day_of_month, Some("1-7".to_string()));
    assert_eq!(fi.month, Some("*".to_string()));
    assert_eq!(fi.retry, Some("60 5 1440".to_string()));
}

#[test]
fn minimal_feed_definition_parses() {
    let fi = FeedInput::from_str("7;today;;https://example.com/today.xml;6-16").unwrap();
    assert_eq!(fi.canteen_id, "7");
    assert_eq!(fi.name, "today");
    assert_eq!(fi.priority, None);
    assert_eq!(fi.hour, "6-16");
    assert_eq!(fi.minute, None);
    assert_eq!(fi.day_of_week, None);
    assert_eq!(fi.day_of_month, None);
    assert_eq!(fi.month, None);
    assert_eq!(fi.retry, None);
}

#[test]
fn empty_optional_parts_are_absent() {
    let fi = FeedInput::from_str("1;n;;u;4;;*").unwrap();
    assert_eq!(fi.minute, None);
    assert_eq!(fi.day_of_week, Some("*".to_string()));
    assert_eq!(fi.day_of_month, None);
}

#[test]
fn too_few_parts_is_a_format_error() {
    assert_eq!(FeedInput::from_str("a;b;c").err(), Some(FeedInputError::Format));
    assert_eq!(FeedInput::from_str("").err(), Some(FeedInputError::Format));
    assert_eq!(FeedInput::from_str("1;n;;u").err(), Some(FeedInputError::Format));
}

#[test]
fn bad_priority_is_a_priority_error() {
    assert_eq!(FeedInput::from_str("1;n;xx;u;4").err(), Some(FeedInputError::Priority));
    assert_eq!(FeedInput::from_str("1;n;2.5;u;4").err(), Some(FeedInputError::Priority));
    assert_eq!(
        FeedInput::from_str("1;n;99999999999;u;4").err(),
        Some(FeedInputError::Priority)
    );
}

#[test]
fn feed_input_converts_to_a_feed_with_schedule() {
    let fi = FeedInput::from_str("1;full;2;https://example.com/full.xml;4;;*;*").unwrap();
    let feed = Feed::from(fi);
    assert_eq!(feed.name, "full");
    assert_eq!(feed.priority, Some(2));
    assert_eq!(feed.url, "https://example.com/full.xml");
    assert!(feed.source.is_none());
    let s = feed.schedule.unwrap();
    assert_eq!(s.hour, "4");
    assert_eq!(s.minute, None);
    assert_eq!(s.day_of_week, Some("*".to_string()));
    assert_eq!(s.day_of_month, Some("*".to_string()));
    assert_eq!(s.month, None);
    assert_eq!(s.retry, None);
}

#[test]
fn split_keeps_empty_parts() {
    assert_eq!(split_char("a;;b;", ';'), vec!["a", "", "b", ""]);
    assert_eq!(split_char("", ';'), vec![""]);
    assert_eq!(split_char("abc", ';'), vec!["abc"]);
}

#[test]
fn parse_i32_matches_std_acceptance() {
    assert_eq!(parse_i32("0"), Some(0));
    assert_eq!(parse_i32("42"), Some(42));
    assert_eq!(parse_i32("+7"), Some(7));
    assert_eq!(parse_i32("-13"), Some(-13));
    assert_eq!(parse_i32("2147483647"), Some(i32::MAX));
    assert_eq!(parse_i32("-2147483648"), Some(i32::MIN));
    assert_eq!(parse_i32("2147483648"), None);
    assert_eq!(parse_i32("-2147483649"), None);
    assert_eq!(parse_i32(""), None);
    assert_eq!(parse_i32("+"), None);
    assert_eq!(parse_i32("-"), None);
    assert_eq!(parse_i32("1 2"), None);
    assert_eq!(parse_i32("0x10"), None);
}
