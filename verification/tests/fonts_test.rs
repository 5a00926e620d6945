use networking::fonts::{
    detect_font_format, display_action, font_face_key, font_loading_state, parse_font_metrics, ranges_support_char,
    DisplayAction, FontDisplay, FontFormat, FontLoadingState, FontMetrics, UnicodeRange,
};

#[test]
fn unicode_range_single_code_point() {
    let r = UnicodeRange::from_string("U+0041").unwrap();
    assert_eq!((r.start, r.end), (0x41, 0x41));
    assert!(r.contains(0x41));
    assert!(!r.contains(0x42));
}

#[test]
fn unicode_range_span_with_white_space() {
    let r = UnicodeRange::from_string("  U+0000-00ff\n").unwrap();
    assert_eq!((r.start, r.end), (0, 255));
    let r = UnicodeRange::from_string("U+4E00-9FFF").unwrap();
    assert_eq!((r.start, r.end), (0x4E00, 0x9FFF));
    assert!(r.contains(0x6000));
}

#[test]
fn unicode_range_accepts_a_plus_sign_before_the_digits() {
    let r = UnicodeRange::from_string("U++1F").unwrap();
    assert_eq!((r.start, r.end), (0x1F, 0x1F));
}

#[test]
fn unicode_range_rejects_malformed_text() {
    assert!(UnicodeRange::from_string("0041").is_err());
    assert!(UnicodeRange::from_string("u+0041").is_err());
    assert!(UnicodeRange::from_string("U+").is_err());
    assert!(UnicodeRange::from_string("U+12G").is_err());
    assert!(UnicodeRange::from_string("U+-5").is_err());
    assert!(UnicodeRange::from_string("U+5-").is_err());
    assert!(UnicodeRange::from_string("U+1-2-3").is_err());
    assert!(UnicodeRange::from_string("U+FFFFFFFFF").is_err());
    let err = UnicodeRange::from_string("U+zz").unwrap_err();
    assert_eq!(err.message(), "Typography error: Invalid unicode range");
}

#[test]
fn unicode_range_largest_value_fits() {
    let r = UnicodeRange::from_string("U+FFFFFFFF").unwrap();
    assert_eq!(r.start, u32::MAX);
}

#[test]
fn font_formats_from_signatures() {
    assert_eq!(detect_font_format(b"OTTO....").unwrap(), FontFormat::OpenType);
    assert_eq!(detect_font_format(b"ttcf").unwrap(), FontFormat::TrueType);
    assert_eq!(detect_font_format(b"wOFF").unwrap(), FontFormat::WOFF);
    assert_eq!(detect_font_format(b"wO2F").unwrap(), FontFormat::WOFF2);
    let truetype = [0u8, 1, 0, 0, 0, 0, 0, 0, 0, 0, 0, 0];
    assert_eq!(detect_font_format(&truetype).unwrap(), FontFormat::TrueType);
    assert!(detect_font_format(&truetype[..8]).is_err());
    assert!(detect_font_format(b"abc").is_err());
    assert!(detect_font_format(b"abcd").is_err());
}

#[test]
fn metrics_from_opentype_header() {
    let mut data = vec![0u8; 24];
    data[18] = 0x08;
    data[19] = 0x00;
    let m = parse_font_metrics(&data, FontFormat::OpenType).unwrap();
    assert_eq!(m.units_per_em, 2048);
    assert_eq!(m.ascent, 1900);
    assert_eq!(m.descent, -500);
    assert!(parse_font_metrics(&data[..8], FontFormat::TrueType).is_err());
}

#[test]
fn metrics_default_for_other_formats() {
    let m = parse_font_metrics(b"wOFF", FontFormat::WOFF).unwrap();
    assert_eq!(m, FontMetrics::default());
    assert_eq!(m.units_per_em, 1000);
    let m = parse_font_metrics(b"", FontFormat::SVG).unwrap();
    assert_eq!(m.cap_height, 700);
}

#[test]
fn characters_are_supported_inside_some_range() {
    let ranges = vec![UnicodeRange::new(0x41, 0x5A), UnicodeRange::new(0x400, 0x4FF)];
    assert!(ranges_support_char(&ranges, 'A'));
    assert!(ranges_support_char(&ranges, 'Z'));
    assert!(ranges_support_char(&ranges, 'Ж'));
    assert!(!ranges_support_char(&ranges, 'a'));
    assert!(!ranges_support_char(&Vec::new(), 'A'));
}

#[test]
fn face_keys_join_family_and_numbers() {
    assert_eq!(font_face_key("Open Sans", 700, 1, 100), "Open Sans:700:1:100");
    assert_eq!(font_face_key("", 0, 0, 0), ":0:0:0");
}

#[test]
fn loading_state_prefers_the_cache_then_the_queue() {
    assert_eq!(font_loading_state(true, true), FontLoadingState::Loaded);
    assert_eq!(font_loading_state(false, true), FontLoadingState::Loading);
    assert_eq!(font_loading_state(false, false), FontLoadingState::Pending);
}

#[test]
fn display_strategies_decide_how_to_wait() {
    assert_eq!(display_action(FontDisplay::Block), DisplayAction::Wait);
    assert_eq!(display_action(FontDisplay::Auto), DisplayAction::Wait);
    assert_eq!(display_action(FontDisplay::Swap), DisplayAction::TryFont);
    assert_eq!(display_action(FontDisplay::Fallback), DisplayAction::UseFallback);
    assert_eq!(display_action(FontDisplay::Optional), DisplayAction::UseFallback);
}
