//! Tests of the activity-feed parser: the document round trip, the
//! numeric and timestamp grammars, and the rejected malformed inputs.

use aurora_alert::ParseError;
use aurora_alert::aurora_watch::{current_activity_from, current_activity_now, parse_site_activity};
use aurora_alert::datetime::{DateTimeUtc, parse_datetime};
use aurora_alert::parse::{find_sub, parse_decimal_milli};

const ACT_DATA: &'static str = "<site_activity api_version=\"0.2.5\" project_id=\"project:AWN\" site_id=\"site:AWN:SUM\" site_url=\"http://aurorawatch-api.lancs.ac.uk/0.2.5/project/awn/sum.xml\"><lower_threshold status_id=\"green\">0</lower_threshold><lower_threshold status_id=\"yellow\">50</lower_threshold><lower_threshold status_id=\"amber\">100</lower_threshold><lower_threshold status_id=\"red\">200</lower_threshold><updated><datetime>2023-05-08T19:30:32+0000</datetime></updated><activity status_id=\"green\"><datetime>2023-05-07T20:00:00+0000</datetime><value>16.9</value></activity><activity status_id=\"green\"><datetime>2023-05-07T21:00:00+0000</datetime><value>30.2</value></activity><activity status_id=\"green\"><datetime>2023-05-07T22:00:00+0000</datetime><value>17.7</value></activity><activity status_id=\"green\"><datetime>2023-05-07T23:00:00+0000</datetime><value>20.3</value></activity><activity status_id=\"green\"><datetime>2023-05-08T00:00:00+0000</datetime><value>35.5</value></activity><activity status_id=\"yellow\"><datetime>2023-05-08T01:00:00+0000</datetime><value>98.7</value></activity><activity status_id=\"yellow\"><datetime>2023-05-08T02:00:00+0000</datetime><value>63.6</value></activity><activity status_id=\"green\"><datetime>2023-05-08T03:00:00+0000</datetime><value>18.3</value></activity><activity status_id=\"green\"><datetime>2023-05-08T04:00:00+0000</datetime><value>6.2</value></activity><activity status_id=\"green\"><datetime>2023-05-08T05:00:00+0000</datetime><value>5.5</value></activity><activity status_id=\"green\"><datetime>2023-05-08T06:00:00+0000</datetime><value>10.4</value></activity><activity status_id=\"green\"><datetime>2023-05-08T07:00:00+0000</datetime><value>13.9</value></activity><activity status_id=\"green\"><datetime>2023-05-08T08:00:00+0000</datetime><value>15.5</value></activity><activity status_id=\"green\"><datetime>2023-05-08T09:00:00+0000</datetime><value>18.6</value></activity><activity status_id=\"green\"><datetime>2023-05-08T10:00:00+0000</datetime><value>13.8</value></activity><activity status_id=\"green\"><datetime>2023-05-08T11:00:00+0000</datetime><value>20.5</value></activity><activity status_id=\"green\"><datetime>2023-05-08T12:00:00+0000</datetime><value>14.0</value></activity><activity status_id=\"green\"><datetime>2023-05-08T13:00:00+0000</datetime><value>27.2</value></activity><activity status_id=\"yellow\"><datetime>2023-05-08T14:00:00+0000</datetime><value>71.3</value></activity><activity status_id=\"yellow\"><datetime>2023-05-08T15:00:00+0000</datetime><value>68.2</value></activity><activity status_id=\"green\"><datetime>2023-05-08T16:00:00+0000</datetime><value>35.4</value></activity><activity status_id=\"yellow\"><datetime>2023-05-08T17:00:00+0000</datetime><value>65.3</value></activity><activity status_id=\"yellow\"><datetime>2023-05-08T18:00:00+0000</datetime><value>58.3</value></activity><activity status_id=\"green\"><datetime>2023-05-08T19:00:00+0000</datetime><value>13.0</value></activity></site_activity>";

fn bytes(s: &str) -> Vec<u8> {
    s.as_bytes().to_vec()
}

#[test]
fn test_parse_xml() {
    let activity = parse_site_activity(&bytes(ACT_DATA)).unwrap();
    assert_eq!(
        activity.updated,
        DateTimeUtc { year: 2023, month: 5, day: 8, hour: 19, minute: 30, second: 32 }
    );
    assert_eq!(activity.activity[23].value_milli, 13_000);
}

#[test]
fn parse_xml_all_samples() {
    let activity = parse_site_activity(&bytes(ACT_DATA)).unwrap();
    assert_eq!(activity.activity.len(), 24);
    assert_eq!(activity.activity[0].value_milli, 16_900);
    assert_eq!(activity.activity[5].value_milli, 98_700);
    assert_eq!(
        activity.activity[23].datetime,
        DateTimeUtc { year: 2023, month: 5, day: 8, hour: 19, minute: 0, second: 0 }
    );
}

#[test]
fn projection_takes_last_sample() {
    let activity = parse_site_activity(&bytes(ACT_DATA)).unwrap();
    let reading = current_activity_from(&activity, 1_700_000_000);
    assert_eq!(reading.value_milli, 13_000);
    assert_eq!(reading.polled_at, 1_700_000_000);
    assert_eq!(
        reading.updated_at,
        DateTimeUtc { year: 2023, month: 5, day: 8, hour: 19, minute: 30, second: 32 }
    );
}

#[test]
fn projection_now_stamps_poll_instant() {
    let activity = parse_site_activity(&bytes(ACT_DATA)).unwrap();
    let reading = current_activity_now(&activity);
    assert_eq!(reading.value_milli, 13_000);
    assert!(reading.polled_at >= 0);
}

#[test]
fn parse_xml_rejects_missing_updated() {
    let doc = "<site_activity><activity><datetime>2023-05-08T19:00:00+0000</datetime><value>13.0</value></activity></site_activity>";
    assert_eq!(
        parse_site_activity(&bytes(doc)).unwrap_err(),
        ParseError::MalformedActivityDocument
    );
}

#[test]
fn parse_xml_rejects_short_sample_count() {
    // The updated element is present but only one sample is.
    let doc = "<site_activity><updated><datetime>2023-05-08T19:30:32+0000</datetime></updated><activity><datetime>2023-05-08T19:00:00+0000</datetime><value>13.0</value></activity></site_activity>";
    assert_eq!(parse_site_activity(&bytes(doc)).unwrap_err(), ParseError::WrongSampleCount);
}

#[test]
fn parse_xml_rejects_extra_sample() {
    // A 25th sample element follows the 24 expected ones.
    let with_extra = ACT_DATA.replace(
        "</site_activity>",
        "<activity status_id=\"green\"><datetime>2023-05-08T20:00:00+0000</datetime><value>1.0</value></activity></site_activity>",
    );
    assert_eq!(
        parse_site_activity(&bytes(&with_extra)).unwrap_err(),
        ParseError::WrongSampleCount
    );
}

#[test]
fn parse_xml_rejects_bad_value() {
    let with_bad = ACT_DATA.replace("<value>13.0</value>", "<value>13.0.1</value>");
    assert_eq!(parse_site_activity(&bytes(&with_bad)).unwrap_err(), ParseError::InvalidNumber);
}

#[test]
fn parse_xml_rejects_bad_timestamp() {
    let with_bad = ACT_DATA.replace("2023-05-08T19:30:32+0000", "2023-13-08T19:30:32+0000");
    assert_eq!(
        parse_site_activity(&bytes(&with_bad)).unwrap_err(),
        ParseError::InvalidTimestamp
    );
}

#[test]
fn decimal_milli_exact_values() {
    let cases: Vec<(&str, Option<i64>)> = vec![
        ("13", Some(13_000)),
        ("13.0", Some(13_000)),
        ("16.9", Some(16_900)),
        ("49.999", Some(49_999)),
        ("-5.0", Some(-5_000)),
        ("0.001", Some(1)),
        ("200", Some(200_000)),
        ("", None),
        ("1.2345", None),
        ("12a", None),
        ("1234567890", None),
    ];
    for (text, expected) in cases {
        let v = bytes(text);
        assert_eq!(parse_decimal_milli(&v, 0, v.len()), expected, "case {:?}", text);
    }
}

#[test]
fn datetime_exact_fields() {
    let v = bytes("2023-05-08T19:30:32+0000");
    assert_eq!(
        parse_datetime(&v, 0, v.len()),
        Some(DateTimeUtc { year: 2023, month: 5, day: 8, hour: 19, minute: 30, second: 32 })
    );
    let z = bytes("2024-02-29T00:00:00Z");
    assert_eq!(
        parse_datetime(&z, 0, z.len()),
        Some(DateTimeUtc { year: 2024, month: 2, day: 29, hour: 0, minute: 0, second: 0 })
    );
}

#[test]
fn datetime_rejects_bad_fields() {
    for text in ["2023-02-29T00:00:00+0000", "2023-00-08T19:30:32+0000", "2023-05-08T24:30:32Z",
        "2023-05-08 19:30:32+0000", "2023-05-08T19:30:32"] {
        let v = bytes(text);
        assert_eq!(parse_datetime(&v, 0, v.len()), None, "case {:?}", text);
    }
}

#[test]
fn find_sub_first_occurrence() {
    let h = bytes("abcabc");
    let n = bytes("bc");
    assert_eq!(find_sub(&h, &n, 0), Some(1));
    assert_eq!(find_sub(&h, &n, 2), Some(4));
    assert_eq!(find_sub(&h, &n, 5), None);
}
