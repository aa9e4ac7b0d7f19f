use yasr::{auto_fps, chars_of, decimal_string, format_clock, parse_fps_arg, parse_u32, FpsError, FpsRequest};

#[test]
fn decimal_rendering() {
    assert_eq!(decimal_string(0), "0");
    assert_eq!(decimal_string(7), "7");
    assert_eq!(decimal_string(1234567890), "1234567890");
    assert_eq!(decimal_string(u64::MAX), u64::MAX.to_string());
}

#[test]
fn chars_round_trip() {
    assert_eq!(chars_of("añb"), vec!['a', 'ñ', 'b']);
    assert_eq!(chars_of(""), Vec::<char>::new());
}

#[test]
fn parse_u32_like_std() {
    for s in ["0", "42", "+42", "007", "4294967295", "4294967296", "", "+", "-", "-1", " 1", "1 ", "1a", "99999999999999999999", "+-1"] {
        assert_eq!(parse_u32(s), s.parse::<u32>().ok(), "input {:?}", s);
    }
}

#[test]
fn parse_decimal_round_trip() {
    for n in [0u32, 1, 9, 10, 30, 65535, u32::MAX] {
        assert_eq!(parse_u32(&decimal_string(n as u64)), Some(n));
    }
}

#[test]
fn fps_argument() {
    assert_eq!(parse_fps_arg("auto"), Ok(FpsRequest::Auto));
    assert_eq!(parse_fps_arg("15"), Ok(FpsRequest::Fixed(15)));
    assert_eq!(parse_fps_arg("Auto"), Err(FpsError::NotANumber));
    assert_eq!(parse_fps_arg("fast"), Err(FpsError::NotANumber));
    assert_eq!(parse_fps_arg(""), Err(FpsError::NotANumber));
}

#[test]
fn auto_fps_is_clamped() {
    assert_eq!(auto_fps(0), 1);
    assert_eq!(auto_fps(1), 1);
    assert_eq!(auto_fps(12), 12);
    assert_eq!(auto_fps(30), 30);
    assert_eq!(auto_fps(144), 30);
}

#[test]
fn clock_format() {
    assert_eq!(format_clock(0), "00:00:00");
    assert_eq!(format_clock(3661), "01:01:01");
    assert_eq!(format_clock(59), "00:00:59");
    assert_eq!(format_clock(360000), "100:00:00");
}
