use oxidicom::lonk::{decode_lonk, done_message, error_message, progress_message, subject_of, LonkMessage};
use oxidicom::patient_age::parse_age;
use oxidicom::sanitize::{sanitize_path, sanitize_subject_part};
use oxidicom::types::{AETitle, CalendarDate, SeriesKey};
use oxidicom::pacs_file::{parse_study_date, MaybeU32};

#[test]
fn test_parse_age() {
    assert_eq!(parse_age("030Y").unwrap(), 10957);
    assert_eq!(parse_age("020D").unwrap(), 20);
    assert_eq!(parse_age("2W").unwrap(), 14);
    assert_eq!(parse_age("5M").unwrap(), 152);
}

#[test]
fn parse_age_rejects_other_text() {
    assert_eq!(parse_age(""), None);
    assert_eq!(parse_age("Y"), None);
    assert_eq!(parse_age("12"), None);
    assert_eq!(parse_age("1X"), None);
    assert_eq!(parse_age("99999999999D"), None);
}

#[test]
fn sanitize_path_collapses_runs_and_drops_nul() {
    assert_eq!(sanitize_path("Alice Bar"), "Alice_Bar");
    assert_eq!(sanitize_path("a  /\\b"), "a____b");
    assert_eq!(sanitize_path("a  b"), "a__b");
    assert_eq!(sanitize_path("x\0y"), "xy");
    assert_eq!(sanitize_path("1.2-3"), "1.2-3");
    assert_eq!(sanitize_path(""), "");
}

#[test]
fn subject_part_replaces_separators() {
    assert_eq!(sanitize_subject_part("a.b c*d>e\0f"), "a_b_c_d_ef");
}

#[test]
fn subject_of_series() {
    let key = SeriesKey::new("1.2.3".to_string(), AETitle::new("MY PACS".to_string()), 5);
    assert_eq!(subject_of("oxidicom", &key), "oxidicom.MY_PACS.1_2_3");
}

#[test]
fn progress_round_trip() {
    for n in [0u32, 1, 255, 256, 65536, 192, 384, 1000, u32::MAX] {
        let b = progress_message(n);
        assert_eq!(b.len(), 5);
        assert_eq!(b[0], 0x01);
        assert_eq!(decode_lonk(&b), Some(LonkMessage::Ndicom(n)));
    }
    assert_eq!(progress_message(1000), vec![0x01, 0xe8, 0x03, 0x00, 0x00]);
}

#[test]
fn done_and_error_encoding() {
    assert_eq!(done_message(), vec![0x00]);
    assert_eq!(decode_lonk(&[0x00]), Some(LonkMessage::Done));
    assert_eq!(error_message("bad"), vec![0x02, b'b', b'a', b'd']);
    assert_eq!(decode_lonk(&[0x02, b'o', b'k']), Some(LonkMessage::Error("ok".to_string())));
    assert_eq!(decode_lonk(&[0x02, 0xff]), None);
    assert_eq!(decode_lonk(&[0x07]), None);
    assert_eq!(decode_lonk(&[]), None);
}

#[test]
fn study_dates() {
    assert_eq!(parse_study_date("20200418"), Some(CalendarDate { year: 2020, month: 4, day: 18 }));
    assert_eq!(parse_study_date("2020-04-18"), Some(CalendarDate { year: 2020, month: 4, day: 18 }));
    assert_eq!(parse_study_date("20200229").map(|d| d.day), Some(29));
    assert_eq!(parse_study_date("20190229"), None);
    assert_eq!(parse_study_date("20201301"), None);
    assert_eq!(parse_study_date("2020041"), None);
    assert_eq!(parse_study_date("2020/04/18"), None);
    assert_eq!(CalendarDate { year: 2020, month: 4, day: 8 }.iso(), "2020-04-08");
}

#[test]
fn maybe_u32() {
    assert_eq!(MaybeU32::parse("42"), MaybeU32::U32(42));
    assert_eq!(MaybeU32::parse("+7"), MaybeU32::U32(7));
    assert_eq!(MaybeU32::parse("4294967296"), MaybeU32::String("4294967296".to_string()));
    assert_eq!(MaybeU32::parse("x1"), MaybeU32::String("x1".to_string()));
}
