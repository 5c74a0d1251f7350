use last_legend_dob::error::LastLegendError;
use last_legend_dob::transcoder::{parse_loop_points, should_loop};

#[test]
fn loop_points_parse_from_the_first_line() {
    assert_eq!(parse_loop_points("123|4567\n").unwrap(), (123, 4567));
    assert_eq!(parse_loop_points("123|4567|extra|fields\n").unwrap(), (123, 4567));
    assert_eq!(parse_loop_points("0|0\nsecond|line\n").unwrap(), (0, 0));
}

#[test]
fn reports_without_fields_mean_no_loop() {
    assert_eq!(parse_loop_points("just-one-field\n").unwrap(), (0, 0));
    assert_eq!(parse_loop_points("x").unwrap(), (0, 0));
}

#[test]
fn empty_and_malformed_reports_are_transcoder_failures() {
    match parse_loop_points("") {
        Err(LastLegendError::FFMPEG(m)) => assert_eq!(m, "no output"),
        other => panic!("expected FFMPEG, got {:?}", other),
    }
    match parse_loop_points("abc|123\n") {
        Err(LastLegendError::FFMPEG(_)) => {}
        other => panic!("expected FFMPEG, got {:?}", other),
    }
    match parse_loop_points("12|notanumber\n") {
        Err(LastLegendError::FFMPEG(_)) => {}
        other => panic!("expected FFMPEG, got {:?}", other),
    }
}

#[test]
fn only_a_zero_start_skips_the_loop() {
    assert!(!should_loop(0));
    assert!(should_loop(1));
    assert!(should_loop(44100));
}
