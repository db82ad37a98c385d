use photo_cull::metadata::{
    aperture, extract_metadata, focal_length, lens, lens_from_ascii, lens_from_text,
    shutter_speed, strip_quotes, ExifData, ExifFields, FieldContent, Rational, RawField,
};

fn ratio(num: u32, denom: u32, display: &str) -> RawField {
    RawField {
        content: FieldContent::Rational(vec![Rational { num, denom }]),
        display: display.to_string(),
    }
}

fn other(display: &str) -> RawField {
    RawField { content: FieldContent::Other, display: display.to_string() }
}

fn ascii(entries: &[&[u8]], display: &str) -> RawField {
    RawField {
        content: FieldContent::Ascii(entries.iter().map(|e| e.to_vec()).collect()),
        display: display.to_string(),
    }
}

fn no_fields() -> ExifFields {
    ExifFields {
        exposure_time: None,
        f_number: None,
        sensitivity: None,
        focal_length: None,
        date_time: None,
        model: None,
        lens_model: None,
    }
}

fn no_data() -> ExifData {
    ExifData {
        shutter_speed: None,
        aperture: None,
        iso: None,
        focal_length: None,
        date_time: None,
        model: None,
        lens: None,
    }
}

#[test]
fn strip_quotes_takes_quotes_off_the_ends() {
    assert_eq!(strip_quotes("\"Canon\""), "Canon");
    assert_eq!(strip_quotes("100"), "100");
    assert_eq!(strip_quotes("\"a\", \"b\""), "a\", \"b");
    assert_eq!(strip_quotes("\"\""), "");
}

#[test]
fn shutter_speed_reads_the_first_rational() {
    assert_eq!(shutter_speed(&ratio(1, 250, "1/250 s")), Some("1/250".to_string()));
    assert_eq!(shutter_speed(&ratio(2, 1, "2 s")), Some("2.0s".to_string()));
    let two = RawField {
        content: FieldContent::Rational(vec![
            Rational { num: 1, denom: 60 },
            Rational { num: 5, denom: 1 },
        ]),
        display: "ignored".to_string(),
    };
    assert_eq!(shutter_speed(&two), Some("1/60".to_string()));
}

#[test]
fn shutter_speed_of_a_rational_without_value_is_absent() {
    assert_eq!(shutter_speed(&ratio(1, 0, "1/0 s")), None);
    let empty = RawField { content: FieldContent::Rational(vec![]), display: "x".to_string() };
    assert_eq!(shutter_speed(&empty), None);
}

#[test]
fn shutter_speed_of_another_type_is_the_rendered_text() {
    assert_eq!(shutter_speed(&other("2 s")), Some("2 s".to_string()));
    assert_eq!(shutter_speed(&other("\"1/60\"")), Some("1/60".to_string()));
    assert_eq!(shutter_speed(&ascii(&[b"1/60"], "\"1/60\" s")), Some("1/60\" s".to_string()));
}

#[test]
fn aperture_reads_the_first_rational() {
    assert_eq!(aperture(&ratio(28, 10, "f/2.8")), Some("f/2.8".to_string()));
    assert_eq!(aperture(&ratio(28, 0, "f/inf")), None);
    assert_eq!(aperture(&other("f/2.8")), None);
    assert_eq!(aperture(&ascii(&[b"2.8"], "\"2.8\"")), None);
}

#[test]
fn focal_length_reads_the_first_rational() {
    assert_eq!(focal_length(&ratio(500, 10, "50 mm")), Some("50mm".to_string()));
    assert_eq!(focal_length(&ratio(50, 0, "inf mm")), None);
    assert_eq!(focal_length(&other("50 mm")), None);
}

#[test]
fn lens_from_ascii_takes_the_first_entry_that_leaves_text() {
    assert_eq!(lens_from_ascii(&vec![b"RF24-70mm F2.8".to_vec()]), Some("RF24-70mm F2.8".to_string()));
    assert_eq!(
        lens_from_ascii(&vec![b"".to_vec(), b"  \"\" ".to_vec(), b"\"EF50mm f/1.8\"".to_vec()]),
        Some("EF50mm f/1.8".to_string())
    );
    assert_eq!(
        lens_from_ascii(&vec![b"first".to_vec(), b"second".to_vec()]),
        Some("first".to_string())
    );
}

#[test]
fn lens_from_ascii_cleans_nulls_then_space_then_quotes() {
    assert_eq!(lens_from_ascii(&vec![b"\0\0 Lens \0".to_vec()]), Some("Lens".to_string()));
    assert_eq!(lens_from_ascii(&vec![b"\" Lens \"".to_vec()]), Some(" Lens ".to_string()));
    assert_eq!(lens_from_ascii(&vec![b" \0Lens\0 ".to_vec()]), Some("\0Lens\0".to_string()));
}

#[test]
fn lens_from_ascii_passes_over_bytes_that_are_no_text() {
    assert_eq!(lens_from_ascii(&vec![vec![0xff, 0xfe], b"Lens".to_vec()]), Some("Lens".to_string()));
    assert_eq!(lens_from_ascii(&vec![vec![0xc3]]), None);
    assert_eq!(lens_from_ascii(&vec![vec![0xc3, 0xa9]]), Some("é".to_string()));
}

#[test]
fn lens_from_ascii_takes_well_formed_utf8_only() {
    // An overlong form, a surrogate, and a value beyond the last code point.
    assert_eq!(lens_from_ascii(&vec![vec![0xc0, 0x80]]), None);
    assert_eq!(lens_from_ascii(&vec![vec![0xe0, 0x80, 0x80]]), None);
    assert_eq!(lens_from_ascii(&vec![vec![0xed, 0xa0, 0x80]]), None);
    assert_eq!(lens_from_ascii(&vec![vec![0xf4, 0x90, 0x80, 0x80]]), None);
    assert_eq!(lens_from_ascii(&vec![vec![0xf8, 0x88, 0x80, 0x80, 0x80]]), None);
    assert_eq!(lens_from_ascii(&vec![vec![0x80]]), None);
    assert_eq!(lens_from_ascii(&vec![vec![b'a', 0xff], b"ab".to_vec()]), Some("ab".to_string()));
    assert_eq!(lens_from_ascii(&vec![vec![0xf4, 0x8f, 0xbf, 0xbf]]), Some("\u{10ffff}".to_string()));
    assert_eq!(lens_from_ascii(&vec![vec![0xed, 0x9f, 0xbf]]), Some("\u{d7ff}".to_string()));
    assert_eq!(lens_from_ascii(&vec![vec![0xee, 0x80, 0x80]]), Some("\u{e000}".to_string()));
    assert_eq!(lens_from_ascii(&vec![vec![0xc2, 0x81]]), Some("\u{81}".to_string()));
}

#[test]
fn lens_from_ascii_without_text_is_absent() {
    assert_eq!(lens_from_ascii(&vec![]), None);
    assert_eq!(lens_from_ascii(&vec![b"".to_vec()]), None);
    assert_eq!(lens_from_ascii(&vec![b"\"\"".to_vec(), b"   ".to_vec(), b"\0".to_vec()]), None);
}

#[test]
fn lens_from_text_takes_what_stands_before_the_first_comma() {
    assert_eq!(
        lens_from_text("\"EF50mm f/1.8 STM\",\"\",\"\""),
        Some("EF50mm f/1.8 STM".to_string())
    );
    assert_eq!(lens_from_text("\"a\", \"b\""), Some("a".to_string()));
    assert_eq!(lens_from_text("  Zoom 18-55 , more"), Some("Zoom 18-55".to_string()));
    assert_eq!(lens_from_text("0x1234"), Some("0x1234".to_string()));
}

#[test]
fn lens_from_text_without_text_is_absent() {
    assert_eq!(lens_from_text(""), None);
    assert_eq!(lens_from_text("\"\""), None);
    assert_eq!(lens_from_text("\" , x\""), None);
    assert_eq!(lens_from_text(",lens"), None);
    assert_eq!(lens_from_text("\"\",\"lens\""), None);
}

#[test]
fn lens_follows_the_type_of_the_value() {
    assert_eq!(lens(&ascii(&[b"From bytes"], "\"From display\"")), Some("From bytes".to_string()));
    assert_eq!(lens(&other("\"From display\"")), Some("From display".to_string()));
    assert_eq!(lens(&ratio(1, 2, "1/2, x")), Some("1/2".to_string()));
    assert_eq!(lens(&ascii(&[], "\"From display\"")), None);
}

#[test]
fn extract_metadata_of_no_fields_is_empty() {
    assert_eq!(extract_metadata(&no_fields()), no_data());
}

#[test]
fn extract_metadata_derives_every_field_from_its_own() {
    let fields = ExifFields {
        exposure_time: Some(ratio(1, 250, "1/250 s")),
        f_number: Some(ratio(28, 10, "f/2.8")),
        sensitivity: Some(other("100")),
        focal_length: Some(ratio(500, 10, "50 mm")),
        date_time: Some(ascii(&[b"2024:03:15 10:30:00"], "2024-03-15 10:30:00")),
        model: Some(ascii(&[b"TestCam X"], "\"TestCam X\"")),
        lens_model: Some(ascii(&[b"50mm F1.8"], "\"50mm F1.8\"")),
    };
    let expected = ExifData {
        shutter_speed: Some("1/250".to_string()),
        aperture: Some("f/2.8".to_string()),
        iso: Some("100".to_string()),
        focal_length: Some("50mm".to_string()),
        date_time: Some("2024-03-15 10:30:00".to_string()),
        model: Some("TestCam X".to_string()),
        lens: Some("50mm F1.8".to_string()),
    };
    assert_eq!(extract_metadata(&fields), expected);
}

#[test]
fn extract_metadata_leaves_out_what_is_malformed() {
    let fields = ExifFields {
        exposure_time: Some(ratio(1, 0, "1/0 s")),
        f_number: Some(other("f/2.8")),
        sensitivity: Some(other("\"\"")),
        focal_length: Some(ratio(0, 0, "NaN mm")),
        date_time: None,
        model: Some(other("unknown")),
        lens_model: Some(other("\"\",\"\"")),
    };
    let expected = ExifData {
        shutter_speed: None,
        aperture: None,
        iso: Some("".to_string()),
        focal_length: None,
        date_time: None,
        model: Some("unknown".to_string()),
        lens: None,
    };
    assert_eq!(extract_metadata(&fields), expected);
}
