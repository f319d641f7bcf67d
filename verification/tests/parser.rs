use esp_csi_tui_rs::csi_packet::{CsiCliParser, CsiPacket, EXPECTED_CSI_VALUES};

fn payload(values: &[i32], gap: &str) -> String {
    let mut line = String::from("[");
    for (k, v) in values.iter().enumerate() {
        if k > 0 {
            line.push(',');
            line.push_str(gap);
        }
        line.push_str(&v.to_string());
    }
    line.push(']');
    line
}

fn ramp() -> Vec<i32> {
    (0..EXPECTED_CSI_VALUES as i32).map(|k| k * 3 - 190).collect()
}

fn feed_sequence(parser: &mut CsiCliParser, ts: u64, rssi: i32, values: &[i32]) -> Option<CsiPacket> {
    assert!(parser.feed_line(&format!("timestamp: {}", ts)).is_none());
    assert!(parser.feed_line(&format!("signal-strength: {}", rssi)).is_none());
    assert!(parser.feed_line("csi raw data:").is_none());
    parser.feed_line(&payload(values, " "))
}

#[test]
fn well_formed_sequence_gives_one_frame_with_its_values() {
    let mut parser = CsiCliParser::new();
    let values = ramp();
    let packet = feed_sequence(&mut parser, 123_456_789, -57, &values).expect("a frame");
    assert_eq!(packet.esp_timestamp, 123_456_789);
    assert_eq!(packet.rssi, -57);
    assert_eq!(packet.csi_values, values);
    assert_eq!(parser.pending_timestamp(), None);
    assert_eq!(parser.pending_rssi(), None);
    assert!(!parser.is_armed());
}

#[test]
fn extreme_numbers_are_read_exactly() {
    let mut parser = CsiCliParser::new();
    let mut values = ramp();
    values[0] = i32::MIN;
    values[1] = i32::MAX;
    values[127] = 0;
    let packet = feed_sequence(&mut parser, u64::MAX, i32::MIN, &values).expect("a frame");
    assert_eq!(packet.esp_timestamp, u64::MAX);
    assert_eq!(packet.rssi, i32::MIN);
    assert_eq!(packet.csi_values, values);
}

#[test]
fn compact_payload_without_spaces_is_read() {
    let mut parser = CsiCliParser::new();
    let values = ramp();
    assert!(parser.feed_line("timestamp:7").is_none());
    assert!(parser.feed_line("signal-strength:-1").is_none());
    assert!(parser.feed_line("csi raw data").is_none());
    let packet = parser.feed_line(&payload(&values, "")).expect("a frame");
    assert_eq!(packet.esp_timestamp, 7);
    assert_eq!(packet.rssi, -1);
    assert_eq!(packet.csi_values, values);
}

#[test]
fn payload_without_marker_gives_no_frame() {
    let mut parser = CsiCliParser::new();
    assert!(parser.feed_line("timestamp: 10").is_none());
    assert!(parser.feed_line("signal-strength: -40").is_none());
    assert!(parser.feed_line(&payload(&ramp(), " ")).is_none());
    // Nothing was consumed: the metadata is still pending.
    assert_eq!(parser.pending_timestamp(), Some(10));
    assert_eq!(parser.pending_rssi(), Some(-40));
    assert!(!parser.is_armed());
}

#[test]
fn wrong_length_gives_no_frame_and_disarms() {
    let mut parser = CsiCliParser::new();
    let short: Vec<i32> = vec![1, 2, 3, 4];
    assert!(feed_sequence(&mut parser, 1, -30, &short).is_none());
    assert!(!parser.is_armed());
    assert_eq!(parser.pending_timestamp(), None);
    assert_eq!(parser.pending_rssi(), None);
    // A well-formed sequence that follows is read as if nothing had happened.
    let values = ramp();
    let packet = feed_sequence(&mut parser, 2, -31, &values).expect("a frame");
    assert_eq!(packet.esp_timestamp, 2);
    assert_eq!(packet.rssi, -31);
    assert_eq!(packet.csi_values, values);
}

#[test]
fn one_value_too_many_is_rejected() {
    let mut parser = CsiCliParser::new();
    let mut values = ramp();
    values.push(5);
    assert!(feed_sequence(&mut parser, 1, -30, &values).is_none());
}

#[test]
fn payload_after_stale_payload_needs_its_own_marker() {
    let mut parser = CsiCliParser::new();
    assert!(feed_sequence(&mut parser, 1, -30, &[1, 2]).is_none());
    assert!(parser.feed_line("timestamp: 3").is_none());
    assert!(parser.feed_line("signal-strength: -3").is_none());
    assert!(parser.feed_line(&payload(&ramp(), " ")).is_none());
    assert_eq!(parser.pending_timestamp(), Some(3));
}

#[test]
fn missing_metadata_drops_the_frame_and_resets() {
    let mut parser = CsiCliParser::new();
    assert!(parser.feed_line("timestamp: 99").is_none());
    assert!(parser.feed_line("csi raw data:").is_none());
    assert!(parser.is_armed());
    assert!(parser.feed_line(&payload(&ramp(), " ")).is_none());
    assert!(!parser.is_armed());
    assert_eq!(parser.pending_timestamp(), None);
    assert_eq!(parser.pending_rssi(), None);
}

#[test]
fn blank_lines_and_prompts_are_ignored() {
    let mut parser = CsiCliParser::new();
    assert!(parser.feed_line("timestamp: 5").is_none());
    for line in ["", "   ", "\t\r\n", "> timestamp: 6", ">", "  > signal-strength: 1"] {
        assert!(parser.feed_line(line).is_none());
    }
    assert_eq!(parser.pending_timestamp(), Some(5));
    assert_eq!(parser.pending_rssi(), None);
    assert!(!parser.is_armed());
}

#[test]
fn unrecognised_lines_are_ignored() {
    let mut parser = CsiCliParser::new();
    for line in ["I (1234) wifi: connected", "mac: 00:11:22", "Timestamp: 5", "rssi: -5", "x[1,2]"] {
        assert!(parser.feed_line(line).is_none());
    }
    assert_eq!(parser.pending_timestamp(), None);
    assert_eq!(parser.pending_rssi(), None);
    assert!(!parser.is_armed());
}

#[test]
fn metadata_that_is_no_number_changes_nothing() {
    let mut parser = CsiCliParser::new();
    assert!(parser.feed_line("timestamp: 5").is_none());
    assert!(parser.feed_line("signal-strength: -9").is_none());
    for line in [
        "timestamp: -1",
        "timestamp: 18446744073709551616",
        "timestamp: 12a",
        "timestamp:",
        "signal-strength: 2147483648",
        "signal-strength: -2147483649",
        "signal-strength: --5",
        "signal-strength: 1.5",
        "signal-strength: +",
    ] {
        assert!(parser.feed_line(line).is_none());
        assert_eq!(parser.pending_timestamp(), Some(5), "{line}");
        assert_eq!(parser.pending_rssi(), Some(-9), "{line}");
    }
}

#[test]
fn metadata_is_read_with_white_space_and_plus_sign() {
    let mut parser = CsiCliParser::new();
    assert!(parser.feed_line("  timestamp:   +42  \r").is_none());
    assert_eq!(parser.pending_timestamp(), Some(42));
    assert!(parser.feed_line("\tsignal-strength:+7\n").is_none());
    assert_eq!(parser.pending_rssi(), Some(7));
    assert!(parser.feed_line("signal-strength: -0").is_none());
    assert_eq!(parser.pending_rssi(), Some(0));
    assert!(parser.feed_line("timestamp: 007").is_none());
    assert_eq!(parser.pending_timestamp(), Some(7));
}

#[test]
fn later_metadata_replaces_earlier() {
    let mut parser = CsiCliParser::new();
    assert!(parser.feed_line("timestamp: 1").is_none());
    assert!(parser.feed_line("timestamp: 2").is_none());
    assert!(parser.feed_line("signal-strength: -1").is_none());
    assert!(parser.feed_line("signal-strength: -2").is_none());
    assert!(parser.feed_line("csi raw data").is_none());
    let packet = parser.feed_line(&payload(&ramp(), "")).expect("a frame");
    assert_eq!(packet.esp_timestamp, 2);
    assert_eq!(packet.rssi, -2);
}

#[test]
fn noise_between_marker_and_payload_does_not_disarm() {
    let mut parser = CsiCliParser::new();
    assert!(parser.feed_line("csi raw data:").is_none());
    assert!(parser.feed_line("some diagnostics").is_none());
    assert!(parser.feed_line("timestamp: 11").is_none());
    assert!(parser.feed_line("signal-strength: -12").is_none());
    assert!(parser.is_armed());
    let packet = parser.feed_line(&payload(&ramp(), " ")).expect("a frame");
    assert_eq!(packet.esp_timestamp, 11);
    assert_eq!(packet.rssi, -12);
}

#[test]
fn tokens_that_are_no_numbers_are_passed_over() {
    let mut parser = CsiCliParser::new();
    let values = ramp();
    let mut line = String::from("[[ x, ,");
    for (k, v) in values.iter().enumerate() {
        line.push_str(&format!(" {} ,", v));
        if k % 10 == 0 {
            line.push_str("abc, 1.5, 99999999999,");
        }
    }
    line.push_str(" ]]");
    assert!(parser.feed_line("timestamp: 1").is_none());
    assert!(parser.feed_line("signal-strength: 1").is_none());
    assert!(parser.feed_line("csi raw data").is_none());
    let packet = parser.feed_line(&line).expect("a frame");
    assert_eq!(packet.csi_values, values);
}

#[test]
fn payload_without_closing_bracket_is_read() {
    let mut parser = CsiCliParser::new();
    let values = ramp();
    let mut line = payload(&values, " ");
    line.pop();
    assert!(parser.feed_line("timestamp: 1").is_none());
    assert!(parser.feed_line("signal-strength: 1").is_none());
    assert!(parser.feed_line("csi raw data").is_none());
    let packet = parser.feed_line(&line).expect("a frame");
    assert_eq!(packet.csi_values, values);
}

#[test]
fn unicode_white_space_is_trimmed() {
    let mut parser = CsiCliParser::new();
    assert!(parser.feed_line("\u{a0}\u{2003}timestamp:\u{3000}8\u{2028}").is_none());
    assert_eq!(parser.pending_timestamp(), Some(8));
    // A zero-width space is no white space.
    assert!(parser.feed_line("timestamp: 9\u{200b}").is_none());
    assert_eq!(parser.pending_timestamp(), Some(8));
}

#[test]
fn feed_chars_agrees_with_feed_line() {
    let mut by_line = CsiCliParser::new();
    let mut by_chars = CsiCliParser::new();
    let values = ramp();
    let lines = vec![
        String::from("timestamp: 77"),
        String::from("signal-strength: -66"),
        String::from("csi raw data:"),
        payload(&values, " "),
    ];
    for (k, line) in lines.iter().enumerate() {
        let chars: Vec<char> = line.chars().collect();
        let a = by_line.feed_line(line);
        let b = by_chars.feed_chars(&chars);
        assert_eq!(a.is_some(), b.is_some());
        assert_eq!(a.is_some(), k == 3);
        if let (Some(a), Some(b)) = (a, b) {
            assert_eq!(a.esp_timestamp, b.esp_timestamp);
            assert_eq!(a.rssi, b.rssi);
            assert_eq!(a.csi_values, b.csi_values);
        }
    }
}

#[test]
fn default_parser_is_idle() {
    let parser = CsiCliParser::default();
    assert_eq!(parser.pending_timestamp(), None);
    assert_eq!(parser.pending_rssi(), None);
    assert!(!parser.is_armed());
}
