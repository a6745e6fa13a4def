use port_probe::cli::{parse_args, ProbeError, DEFAULT_TIMEOUT_SECS};
use port_probe::decimal::{decimal_string, parse_bounded, parse_port, NumberError};
use port_probe::monitor::{choose_target, Monitor, Outcome, Step};
use port_probe::report::{
    connected_line, failed_line, latency_color, latency_tier, title_escape, title_text,
    LatencyTier, Rgb, Segment,
};

const GREEN: Rgb = Rgb { r: 6, g: 156, b: 86 };
const ORANGE: Rgb = Rgb { r: 255, g: 152, b: 14 };
const RED: Rgb = Rgb { r: 211, g: 33, b: 44 };

fn args(items: &[&str]) -> Vec<String> {
    items.iter().map(|s| s.to_string()).collect()
}

fn text_of(line: &[Segment]) -> String {
    line.iter().map(|s| s.text.as_str()).collect()
}

#[test]
fn port_parses_plain_digits() {
    assert_eq!(parse_port("80"), Ok(80));
    assert_eq!(parse_port("0"), Ok(0));
    assert_eq!(parse_port("65535"), Ok(65535));
    assert_eq!(parse_port("+443"), Ok(443));
    assert_eq!(parse_port("007"), Ok(7));
}

#[test]
fn port_errors_match_their_kind() {
    assert_eq!(parse_port(""), Err(NumberError::Empty));
    assert_eq!(parse_port("abc"), Err(NumberError::InvalidDigit));
    assert_eq!(parse_port("+"), Err(NumberError::InvalidDigit));
    assert_eq!(parse_port("-1"), Err(NumberError::InvalidDigit));
    assert_eq!(parse_port("8 0"), Err(NumberError::InvalidDigit));
    assert_eq!(parse_port("65536"), Err(NumberError::Overflow));
    assert_eq!(parse_port("99999x"), Err(NumberError::Overflow));
    assert_eq!(parse_port("9x9999"), Err(NumberError::InvalidDigit));
}

#[test]
fn port_parsing_agrees_with_std() {
    for s in ["1", "22", "65535", "65536", "+7", "", "x1", "١"] {
        let ours = parse_port(s).ok();
        assert_eq!(ours, s.parse::<u16>().ok(), "{s}");
    }
}

#[test]
fn bounded_parse_reaches_the_largest_u64() {
    assert_eq!(parse_bounded("18446744073709551615", u64::MAX), Ok(u64::MAX));
    assert_eq!(parse_bounded("18446744073709551616", u64::MAX), Err(NumberError::Overflow));
    assert_eq!(parse_bounded("11", 10), Err(NumberError::Overflow));
    assert_eq!(parse_bounded("10", 10), Ok(10));
}

#[test]
fn decimal_writing_matches_std() {
    for n in [0u128, 7, 10, 99, 100, 65535, 1234567890, u128::MAX] {
        assert_eq!(decimal_string(n), n.to_string());
    }
}

#[test]
fn decimal_writing_reads_back() {
    for n in [0u64, 5, 2, 3600, u64::MAX] {
        assert_eq!(parse_bounded(&decimal_string(n as u128), u64::MAX), Ok(n));
    }
}

#[test]
fn latency_boundaries_pick_the_right_color() {
    assert_eq!(latency_color(0), GREEN);
    assert_eq!(latency_color(99), GREEN);
    assert_eq!(latency_color(100), ORANGE);
    assert_eq!(latency_color(149), ORANGE);
    assert_eq!(latency_color(150), RED);
    assert_eq!(latency_color(u128::MAX), RED);
    assert_eq!(latency_tier(99), LatencyTier::Fast);
    assert_eq!(latency_tier(100), LatencyTier::Moderate);
    assert_eq!(latency_tier(150), LatencyTier::Slow);
    assert_eq!(LatencyTier::Slow.color(), RED);
}

#[test]
fn too_few_arguments_show_usage() {
    for a in [args(&[]), args(&["probe"]), args(&["probe", "127.0.0.1"])] {
        let e = parse_args(&a).unwrap_err();
        assert_eq!(e, ProbeError::Usage);
        assert_eq!(e.exit_code(), 0);
    }
}

#[test]
fn timeout_option_is_no_positional_argument() {
    for a in [
        args(&["prober", "127.0.0.1", "-t", "5"]),
        args(&["prober", "-t", "5", "127.0.0.1"]),
        args(&["prober", "--timeout", "5"]),
        args(&["prober", "127.0.0.1", "-v"]),
    ] {
        let e = parse_args(&a).unwrap_err();
        assert_eq!(e, ProbeError::Usage);
        assert_eq!(e.exit_code(), 0);
    }
}

#[test]
fn options_may_come_before_host_and_port() {
    let c = parse_args(&args(&["prober", "-t", "5", "127.0.0.1", "80"])).unwrap();
    assert_eq!(c.host, "127.0.0.1");
    assert_eq!(c.port, 80);
    assert_eq!(c.timeout, 5);
    let c = parse_args(&args(&["prober", "-q", "h", "--timeout", "4", "81", "extra"])).unwrap();
    assert_eq!(c.host, "h");
    assert_eq!(c.port, 81);
    assert_eq!(c.timeout, 4);
}

#[test]
fn program_name_is_never_the_timeout_flag() {
    let c = parse_args(&args(&["-t", "h", "80"])).unwrap();
    assert_eq!(c.host, "h");
    assert_eq!(c.port, 80);
    assert_eq!(c.timeout, 2);
}

#[test]
fn non_numeric_port_is_an_error() {
    let e = parse_args(&args(&["probe", "127.0.0.1", "abc"])).unwrap_err();
    assert_eq!(e, ProbeError::BadPort(NumberError::InvalidDigit));
    assert_eq!(e.exit_code(), 1);
    let e = parse_args(&args(&["probe", "localhost", "70000"])).unwrap_err();
    assert_eq!(e, ProbeError::BadPort(NumberError::Overflow));
}

#[test]
fn negative_port_is_a_port_error() {
    let e = parse_args(&args(&["prober", "127.0.0.1", "-1"])).unwrap_err();
    assert_eq!(e, ProbeError::BadPort(NumberError::InvalidDigit));
    assert_eq!(e.exit_code(), 1);
    let e = parse_args(&args(&["prober", "127.0.0.1", "-"])).unwrap_err();
    assert_eq!(e, ProbeError::BadPort(NumberError::InvalidDigit));
    let e = parse_args(&args(&["prober", "127.0.0.1", ""])).unwrap_err();
    assert_eq!(e, ProbeError::BadPort(NumberError::Empty));
}

#[test]
fn port_error_comes_before_timeout_error() {
    let e = parse_args(&args(&["probe", "h", "x", "-t", "y"])).unwrap_err();
    assert_eq!(e, ProbeError::BadPort(NumberError::InvalidDigit));
}

#[test]
fn default_timeout_is_two_seconds() {
    let c = parse_args(&args(&["probe", "example.org", "443"])).unwrap();
    assert_eq!(c.host, "example.org");
    assert_eq!(c.port, 443);
    assert_eq!(c.timeout, 2);
    assert_eq!(DEFAULT_TIMEOUT_SECS, 2);
}

#[test]
fn short_timeout_flag_sets_timeout() {
    let c = parse_args(&args(&["probe", "127.0.0.1", "8080", "-t", "5"])).unwrap();
    assert_eq!(c.host, "127.0.0.1");
    assert_eq!(c.port, 8080);
    assert_eq!(c.timeout, 5);
    let m = Monitor::new(&c, "127.0.0.1".to_string());
    assert_eq!(m.connect_timeout(), 5);
    match m.after_probe(Outcome::Failed) {
        Step::Report { pause_secs, .. } => assert_eq!(pause_secs, 5),
        Step::Stop(e) => panic!("stopped with {e:?}"),
    }
}

#[test]
fn long_timeout_flag_and_unknown_flags() {
    let c = parse_args(&args(&["probe", "h", "1", "-v", "--timeout", "9", "-t", "3"])).unwrap();
    assert_eq!(c.timeout, 9);
    let c = parse_args(&args(&["probe", "h", "1", "--verbose"])).unwrap();
    assert_eq!(c.timeout, 2);
}

#[test]
fn bad_timeout_values_are_errors() {
    for a in [
        args(&["probe", "h", "1", "-t"]),
        args(&["probe", "h", "1", "-t", "soon"]),
        args(&["probe", "h", "1", "--timeout", "0"]),
        args(&["probe", "h", "1", "-t", "-5"]),
    ] {
        let e = parse_args(&a).unwrap_err();
        assert_eq!(e, ProbeError::BadTimeout);
        assert_eq!(e.exit_code(), 1);
    }
}

#[test]
fn connected_line_for_local_listener() {
    let line = connected_line("127.0.0.1", 8080, 3);
    assert_eq!(text_of(&line), "Connected to 127.0.0.1 on port 8080 ms: 3");
    let colors: Vec<Option<Rgb>> = line.iter().map(|s| s.color).collect();
    let g = Some(GREEN);
    assert_eq!(colors, vec![g, None, g, None, g, None, g]);
}

#[test]
fn connected_line_colors_follow_latency() {
    assert_eq!(connected_line("10.0.0.1", 22, 120)[0].color, Some(ORANGE));
    assert_eq!(connected_line("10.0.0.1", 22, 150)[6].color, Some(RED));
    assert_eq!(text_of(&connected_line("::1", 0, 1500)), "Connected to ::1 on port 0 ms: 1500");
}

#[test]
fn failed_line_for_missing_listener() {
    let line = failed_line("127.0.0.1", 9);
    assert_eq!(text_of(&line), "Failed to connect to 127.0.0.1 on port 9");
    let colors: Vec<Option<Rgb>> = line.iter().map(|s| s.color).collect();
    let r = Some(RED);
    assert_eq!(colors, vec![r, None, r, None, r]);
}

#[test]
fn title_names_target_and_port() {
    assert_eq!(title_text("192.168.1.4", 65535), "Probing 192.168.1.4 on port 65535");
    assert_eq!(title_escape("Probing x on port 1"), "\x1B]2;Probing x on port 1\x07");
}

#[test]
fn target_is_first_resolved_address() {
    let addrs = vec!["10.1.1.1".to_string(), "10.2.2.2".to_string()];
    assert_eq!(choose_target(Some(addrs)), Ok("10.1.1.1".to_string()));
    assert_eq!(choose_target(Some(Vec::new())), Err(ProbeError::Unresolved));
    assert_eq!(choose_target(None), Err(ProbeError::Unresolved));
    assert_eq!(ProbeError::Unresolved.exit_code(), 1);
}

#[test]
fn monitor_reports_and_pauses_for_the_timeout() {
    let c = parse_args(&args(&["probe", "localhost", "80"])).unwrap();
    let m = Monitor::new(&c, "127.0.0.1".to_string());
    assert_eq!(m.title(), "Probing 127.0.0.1 on port 80");
    match m.after_probe(Outcome::Connected(12)) {
        Step::Report { line, pause_secs } => {
            assert_eq!(text_of(&line), "Connected to 127.0.0.1 on port 80 ms: 12");
            assert_eq!(line[0].color, Some(GREEN));
            assert_eq!(pause_secs, 2);
        }
        Step::Stop(e) => panic!("stopped with {e:?}"),
    }
    match m.after_probe(Outcome::Failed) {
        Step::Report { line, pause_secs } => {
            assert_eq!(text_of(&line), "Failed to connect to 127.0.0.1 on port 80");
            assert_eq!(pause_secs, 2);
        }
        Step::Stop(e) => panic!("stopped with {e:?}"),
    }
}

#[test]
fn unreadable_target_stops_the_run() {
    let c = parse_args(&args(&["probe", "h", "80"])).unwrap();
    let m = Monitor::new(&c, "not-an-ip".to_string());
    match m.after_probe(Outcome::BadAddress) {
        Step::Stop(e) => {
            assert_eq!(e, ProbeError::BadAddress);
            assert_eq!(e.exit_code(), 1);
        }
        Step::Report { .. } => panic!("a bad address must stop the run"),
    }
}
