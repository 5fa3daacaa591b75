use remote_trackpad_backend::controller::{AppController, InputDevice};
use remote_trackpad_backend::protocol::{
    assemble_udp_packet, parse_tcp_payload, parse_udp_payload, split_udp_payload,
    ProtocolError, TcpCommand, UdpKind, UdpPacket,
};
use remote_trackpad_backend::settings::{settings_to_apply, DEFAULT_TCP_PORT, DEFAULT_UDP_PORT};
use remote_trackpad_backend::text::{chars_of, decode_text, same_text, split3};

fn read_f32(text: &str) -> Option<f32> {
    text.parse::<f32>().ok()
}

/// A device that writes down every call made on it.
#[derive(Default)]
struct Recorder {
    calls: Vec<String>,
}

impl InputDevice for Recorder {
    type Delta = i64;

    fn parse_delta(text: &str) -> Option<i64> {
        text.parse::<i64>().ok()
    }

    fn move_cursor(&mut self, dx: i64, dy: i64) {
        self.calls.push(format!("move {} {}", dx, dy));
    }

    fn scroll(&mut self, dx: i64, dy: i64) {
        self.calls.push(format!("scroll {} {}", dx, dy));
    }

    fn left_click(&mut self) {
        self.calls.push("left".to_string());
    }

    fn right_click(&mut self) {
        self.calls.push("right".to_string());
    }

    fn double_click(&mut self) {
        self.calls.push("double".to_string());
    }

    fn press_alt(&mut self) {
        self.calls.push("alt down".to_string());
    }

    fn release_alt(&mut self) {
        self.calls.push("alt up".to_string());
    }

    fn press_tab(&mut self) {
        self.calls.push("tab".to_string());
    }

    fn volume_up(&mut self) {
        self.calls.push("vol up".to_string());
    }

    fn volume_down(&mut self) {
        self.calls.push("vol down".to_string());
    }
}

#[test]
fn tcp_whitespace_around_command_is_ignored() {
    assert_eq!(parse_tcp_payload(b"  \tleft_click\r\n").unwrap(), TcpCommand::LeftClick);
    // U+00A0 and U+3000 are Unicode whitespace too.
    assert_eq!(
        parse_tcp_payload("\u{a0}volume_down\u{3000}".as_bytes()).unwrap(),
        TcpCommand::VolumeDown
    );
}

#[test]
fn tcp_every_command_name_round_trips() {
    let names = [
        ("left_click", TcpCommand::LeftClick),
        ("right_click", TcpCommand::RightClick),
        ("double_click", TcpCommand::DoubleClick),
        ("alt_tab_start", TcpCommand::AltTabStart),
        ("alt_tab_end", TcpCommand::AltTabEnd),
        ("volume_up", TcpCommand::VolumeUp),
        ("volume_down", TcpCommand::VolumeDown),
    ];
    for (name, command) in names {
        assert_eq!(parse_tcp_payload(name.as_bytes()).unwrap(), command);
    }
}

#[test]
fn tcp_unknown_command_keeps_trimmed_text() {
    assert_eq!(
        parse_tcp_payload(b"  jump ").unwrap_err(),
        ProtocolError::UnsupportedTcpCommand("jump".to_string())
    );
    assert_eq!(
        parse_tcp_payload(b"LEFT_CLICK").unwrap_err(),
        ProtocolError::UnsupportedTcpCommand("LEFT_CLICK".to_string())
    );
    assert_eq!(
        parse_tcp_payload(b"").unwrap_err(),
        ProtocolError::UnsupportedTcpCommand(String::new())
    );
}

#[test]
fn invalid_utf8_is_refused_on_both_channels() {
    assert_eq!(parse_tcp_payload(&[0xff, 0x61]).unwrap_err(), ProtocolError::InvalidUtf8);
    assert_eq!(
        parse_udp_payload(&[b'M', b',', 0xc3], read_f32).unwrap_err(),
        ProtocolError::InvalidUtf8
    );
}

#[test]
fn udp_missing_and_invalid_deltas() {
    assert_eq!(parse_udp_payload(b"M", read_f32).unwrap_err(), ProtocolError::MissingDelta);
    assert_eq!(parse_udp_payload(b"M,1", read_f32).unwrap_err(), ProtocolError::MissingDelta);
    assert_eq!(parse_udp_payload(b"S,abc", read_f32).unwrap_err(), ProtocolError::InvalidDelta);
    assert_eq!(parse_udp_payload(b"S,abc,1", read_f32).unwrap_err(), ProtocolError::InvalidDelta);
    assert_eq!(parse_udp_payload(b"M,1,x", read_f32).unwrap_err(), ProtocolError::InvalidDelta);
    assert_eq!(parse_udp_payload(b"M,,2", read_f32).unwrap_err(), ProtocolError::InvalidDelta);
}

#[test]
fn udp_unknown_tag_is_refused() {
    assert_eq!(
        parse_udp_payload(b"X,1,2", read_f32).unwrap_err(),
        ProtocolError::UnsupportedUdpPacket("X".to_string())
    );
    // Only the whole datagram is trimmed, not the tag on its own.
    assert_eq!(
        parse_udp_payload(b" M ,1,2", read_f32).unwrap_err(),
        ProtocolError::UnsupportedUdpPacket("M ".to_string())
    );
    assert_eq!(
        parse_udp_payload(b"m,1,2", read_f32).unwrap_err(),
        ProtocolError::UnsupportedUdpPacket("m".to_string())
    );
}

#[test]
fn udp_fields_are_trimmed_and_extra_fields_ignored() {
    assert_eq!(
        parse_udp_payload(b"  M, 1.5 ,\t-2  \n", read_f32).unwrap(),
        UdpPacket::Move { dx: 1.5, dy: -2.0 }
    );
    assert_eq!(
        parse_udp_payload(b"S,1,2,3,extra", read_f32).unwrap(),
        UdpPacket::Scroll { dx: 1.0, dy: 2.0 }
    );
}

#[test]
fn udp_split_gives_the_trimmed_texts() {
    let fields = split_udp_payload(b"S, 7 ,8").unwrap();
    assert_eq!(fields.kind, UdpKind::Scroll);
    assert_eq!(fields.dx, Some("7"));
    assert_eq!(fields.dy, Some("8"));
    let fields = split_udp_payload(b"M,4").unwrap();
    assert_eq!(fields.kind, UdpKind::Move);
    assert_eq!(fields.dx, Some("4"));
    assert_eq!(fields.dy, None);
}

#[test]
fn udp_assembly_checks_the_horizontal_delta_first() {
    assert_eq!(
        assemble_udp_packet::<i32>(UdpKind::Move, None, Some(Some(1))).unwrap_err(),
        ProtocolError::MissingDelta
    );
    assert_eq!(
        assemble_udp_packet::<i32>(UdpKind::Move, Some(None), None).unwrap_err(),
        ProtocolError::InvalidDelta
    );
    assert_eq!(
        assemble_udp_packet(UdpKind::Move, Some(Some(1)), None).unwrap_err(),
        ProtocolError::MissingDelta
    );
    assert_eq!(
        assemble_udp_packet(UdpKind::Scroll, Some(Some(1)), Some(None)).unwrap_err(),
        ProtocolError::InvalidDelta
    );
    assert_eq!(
        assemble_udp_packet(UdpKind::Scroll, Some(Some(1)), Some(Some(2))).unwrap(),
        UdpPacket::Scroll { dx: 1, dy: 2 }
    );
}

#[test]
fn udp_reads_deltas_into_the_given_type() {
    let read_int = |t: &str| t.parse::<i32>().ok();
    assert_eq!(
        parse_udp_payload(b"M,-3,4", read_int).unwrap(),
        UdpPacket::Move { dx: -3, dy: 4 }
    );
    assert_eq!(parse_udp_payload(b"M,1.5,4", read_int).unwrap_err(), ProtocolError::InvalidDelta);
}

#[test]
fn controller_records_calls_in_order() {
    let mut controller = AppController::new(Recorder::default());
    controller.handle_udp_payload(b"M,3,-4").unwrap();
    controller.handle_udp_payload(b"S,0,2").unwrap();
    controller.handle_tcp_payload(b"right_click").unwrap();
    controller.handle_tcp_payload(b"double_click").unwrap();
    controller.handle_tcp_payload(b"volume_down").unwrap();
    assert_eq!(
        controller.input().calls,
        vec!["move 3 -4", "scroll 0 2", "right", "double", "vol down"]
    );
}

#[test]
fn alt_tab_end_without_start_releases_nothing() {
    let mut controller = AppController::new(Recorder::default());
    controller.handle_tcp_payload(b"alt_tab_end").unwrap();
    assert!(controller.input().calls.is_empty());
}

#[test]
fn alt_tab_cycle_and_second_end() {
    let mut controller = AppController::new(Recorder::default());
    controller.handle_tcp_payload(b"alt_tab_start").unwrap();
    controller.handle_tcp_payload(b"alt_tab_end").unwrap();
    controller.handle_tcp_payload(b"alt_tab_end").unwrap();
    assert_eq!(controller.input().calls, vec!["alt down", "tab", "alt up"]);
}

#[test]
fn alt_tab_started_twice_is_released_once() {
    let mut controller = AppController::new(Recorder::default());
    controller.handle_tcp_payload(b"alt_tab_start").unwrap();
    controller.handle_udp_payload(b"M,1,1").unwrap();
    controller.handle_tcp_payload(b"alt_tab_start").unwrap();
    controller.handle_tcp_payload(b"alt_tab_end").unwrap();
    controller.handle_tcp_payload(b"alt_tab_end").unwrap();
    assert_eq!(
        controller.input().calls,
        vec!["alt down", "tab", "move 1 1", "alt down", "tab", "alt up"]
    );
}

#[test]
fn refused_payloads_make_no_call() {
    let mut controller = AppController::new(Recorder::default());
    assert_eq!(
        controller.handle_tcp_payload(b"reboot").unwrap_err(),
        ProtocolError::UnsupportedTcpCommand("reboot".to_string())
    );
    assert_eq!(controller.handle_udp_payload(b"M,1").unwrap_err(), ProtocolError::MissingDelta);
    assert_eq!(controller.handle_udp_payload(b"M,1,y").unwrap_err(), ProtocolError::InvalidDelta);
    assert_eq!(controller.handle_udp_payload(&[0x80]).unwrap_err(), ProtocolError::InvalidUtf8);
    assert!(controller.input().calls.is_empty());
}

#[test]
fn default_ports_match_the_readme() {
    assert_eq!(DEFAULT_UDP_PORT, 8001);
    assert_eq!(DEFAULT_TCP_PORT, 8002);
}

#[test]
fn settings_apply_only_when_every_field_reads() {
    assert_eq!(settings_to_apply("8001", "8002", Some(1.5f32)), Some((8001, 8002, 1.5)));
    assert_eq!(settings_to_apply("+9000", "0", Some(2)), Some((9000, 0, 2)));
    assert_eq!(settings_to_apply("65535", "00042", Some(())), Some((65535, 42, ())));
    assert_eq!(settings_to_apply("65536", "8002", Some(1)), None);
    assert_eq!(settings_to_apply(" 8001", "8002", Some(1)), None);
    assert_eq!(settings_to_apply("8001", "-1", Some(1)), None);
    assert_eq!(settings_to_apply("", "8002", Some(1)), None);
    assert_eq!(settings_to_apply("+", "8002", Some(1)), None);
    assert_eq!(settings_to_apply::<i32>("8001", "8002", None), None);
}

#[test]
fn text_helpers() {
    assert_eq!(decode_text(b"caf\xc3\xa9"), Some("café"));
    assert_eq!(decode_text(&[0xc3]), None);
    assert_eq!(chars_of("aé"), vec!['a', 'é']);
    assert!(same_text("abc", "abc"));
    assert!(!same_text("abc", "abd"));
    assert!(!same_text("ab", "abc"));
    assert_eq!(split3("a,b,c,d", ','), ("a", Some("b"), Some("c")));
    assert_eq!(split3(",", ','), ("", Some(""), None));
    assert_eq!(split3("é", ','), ("é", None, None));
}

#[test]
fn refusals_are_reported_in_words() {
    assert_eq!(
        ProtocolError::UnsupportedUdpPacket("X".to_string()).message(),
        "unsupported UDP packet: X"
    );
    assert_eq!(
        parse_tcp_payload(b" jump ").unwrap_err().message(),
        "unsupported TCP command: jump"
    );
    assert_eq!(ProtocolError::MissingDelta.message(), "missing delta value");
    assert_eq!(ProtocolError::InvalidDelta.message(), "invalid delta value");
    assert_eq!(ProtocolError::InvalidUtf8.message(), "invalid utf-8 payload");
}

#[test]
fn only_alt_tab_end_closes_the_gesture() {
    let mut controller = AppController::new(Recorder::default());
    controller.handle_tcp_payload(b"alt_tab_start").unwrap();
    controller.handle_udp_payload(b"S,0,1").unwrap();
    let _ = controller.handle_udp_payload(b"M,1");
    let _ = controller.handle_tcp_payload(b"nonsense");
    controller.handle_tcp_payload(b"left_click").unwrap();
    controller.handle_tcp_payload(b"volume_up").unwrap();
    controller.handle_tcp_payload(b"alt_tab_end").unwrap();
    assert_eq!(
        controller.input().calls,
        vec!["alt down", "tab", "scroll 0 1", "left", "vol up", "alt up"]
    );
}
