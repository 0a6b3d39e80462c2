use m87_client::control::{
    control_host, decode_message, decode_packet, frame_datagram, frame_message, frame_packet,
    parse_datagram, HeartbeatState,
};
use m87_client::flows::{FlowKey, FlowTable, FlowUse};
use m87_client::logs::{snapshot_request, FollowStartAction, FollowTable, SnapshotLines};
use m87_client::upgrade::{
    bearer_token, protocol_header, upgrade_plan, websocket_accept, UpgradePlan, WsFrameKind, WsRead, WsReadBuffer,
};
use m87_client::control::datagram_for_channel;

#[test]
fn message_frames_round_trip() {
    let f = frame_message(b"hello");
    assert_eq!(f, vec![0, 0, 0, 5, b'h', b'e', b'l', b'l', b'o']);
    let mut stream = f.clone();
    stream.extend_from_slice(&[9, 9]);
    let (body, used) = decode_message(&stream).unwrap();
    assert_eq!(body, b"hello".to_vec());
    assert_eq!(used, 9);
    assert!(decode_message(&[0, 0, 1]).is_none());
    assert!(decode_message(&[0, 0, 0, 3, 1]).is_none());
    let big = vec![7u8; 300];
    let f = frame_message(&big);
    assert_eq!(&f[..4], &[0, 0, 1, 44]);
}

#[test]
fn datagrams_round_trip() {
    let d = frame_datagram(0x01020304, &[5, 6]);
    assert_eq!(d, vec![1, 2, 3, 4, 5, 6]);
    assert_eq!(parse_datagram(&d), Some((0x01020304, vec![5, 6])));
    assert_eq!(parse_datagram(&[1, 2, 3]), None);
    assert_eq!(parse_datagram(&[0, 0, 0, 1]), Some((1, vec![])));
}

#[test]
fn packets_round_trip() {
    let p = frame_packet(&[1, 2, 3]);
    assert_eq!(p, vec![0, 3, 1, 2, 3]);
    assert_eq!(decode_packet(&p), Some((vec![1, 2, 3], 5)));
    assert_eq!(decode_packet(&[0]), None);
}

#[test]
fn heartbeat_state() {
    let mut st = HeartbeatState::new(300);
    let p = st.next_heartbeat();
    assert!(p.include_system_info);
    assert_eq!(p.interval, 300);
    let p = st.next_heartbeat();
    assert!(!p.include_system_info);
    st.on_response(Some(60), "h1".to_string());
    let p = st.next_heartbeat();
    assert_eq!(p.interval, 60);
    assert_eq!(p.last_instruction_hash, "h1");
    st.on_response(None, "h2".to_string());
    assert_eq!(st.heartbeat_interval, 60);
    assert_eq!(control_host("abc123", "eu.example.com"), "control-abc123.eu.example.com");
}

#[test]
fn udp_flows_reused_and_reaped() {
    let k1 = FlowKey { v6: false, ip: 0x7f000001, port: 5000 };
    let k2 = FlowKey { v6: false, ip: 0x7f000001, port: 5001 };
    let mut t = FlowTable::new();
    assert_eq!(t.get_or_create_flow(k1, 1_000), FlowUse::Created);
    assert_eq!(t.get_or_create_flow(k1, 2_000), FlowUse::Existing);
    assert_eq!(t.get_or_create_flow(k2, 20_000), FlowUse::Created);
    assert_eq!(t.flows.len(), 2);
    t.cleanup(32_000);
    assert_eq!(t.flows.len(), 1);
    assert_eq!(t.flows[0].key, k2);
    t.cleanup(49_999);
    assert_eq!(t.flows.len(), 1);
    t.cleanup(50_000);
    assert!(t.flows.is_empty());
}

#[test]
fn log_followers_share_a_stream() {
    let mut t = FollowTable::new();
    let id = "unit-a".to_string();
    assert_eq!(t.follow_start(&id, true), FollowStartAction::Spawn);
    t.follow_started(id.clone());
    assert_eq!(t.follow_start(&id, true), FollowStartAction::AddedFollower);
    assert!(!t.follow_stop(&id));
    assert!(t.follow_stop(&id));
    assert!(!t.follow_stop(&id));
    assert_eq!(t.follow_start(&"other".to_string(), false), FollowStartAction::Skip);
    t.follow_started("x".to_string());
    t.follow_started("y".to_string());
    let stopped = t.stop_all();
    assert_eq!(stopped, vec!["x".to_string(), "y".to_string()]);
    assert!(t.run_ids.is_empty());
}

#[test]
fn snapshot_bounds() {
    let mut s = SnapshotLines::new();
    assert!(s.push_line("abc".to_string(), 3, 100));
    assert_eq!(s.bytes, 4);
    assert!(s.push_line("é".to_string(), 3, 100));
    assert_eq!(s.bytes, 7);
    assert!(!s.push_line("x".to_string(), 3, 100));
    let mut s = SnapshotLines::new();
    assert!(!s.push_line("0123456789".to_string(), 10, 11));
    assert_eq!(snapshot_request(&None, None), Err("no record provided".to_string()));
    assert_eq!(
        snapshot_request(&Some("journalctl".to_string()), None),
        Ok(("journalctl".to_string(), 5000))
    );
}

#[test]
fn websocket_accept_matches_rfc_6455() {
    assert_eq!(
        websocket_accept("dGhlIHNhbXBsZSBub25jZQ=="),
        "s3pPLMBiTxaQ9kYGzzhZRbK+xOo="
    );
}

#[test]
fn bearer_tokens() {
    assert_eq!(bearer_token(Some("bearer.abc")), Ok("abc".to_string()));
    assert_eq!(bearer_token(Some("bearer.bearer.abc")), Ok("abc".to_string()));
    assert!(bearer_token(Some("Bearer abc")).is_err());
    assert_eq!(
        bearer_token(None),
        Err("Missing or invalid WebSocket protocol (bearer.<jwt>)".to_string())
    );
    assert_eq!(protocol_header("t"), "bearer.t");
}

#[test]
fn upgrade_transports() {
    assert!(matches!(upgrade_plan(Some("RAW"), None), UpgradePlan::Raw));
    assert!(matches!(upgrade_plan(Some("raw, websocket"), None), UpgradePlan::Raw));
    match upgrade_plan(Some("WebSocket"), Some(Ok("dGhlIHNhbXBsZSBub25jZQ=="))) {
        UpgradePlan::WebSocket(a) => assert_eq!(a, "s3pPLMBiTxaQ9kYGzzhZRbK+xOo="),
        _ => panic!("expected websocket"),
    }
    match upgrade_plan(Some("websocket"), None) {
        UpgradePlan::Reject(m) => assert_eq!(m, "missing Sec-WebSocket-Key"),
        _ => panic!("expected reject"),
    }
    match upgrade_plan(Some("websocket"), Some(Err(()))) {
        UpgradePlan::Reject(m) => assert_eq!(m, "invalid Sec-WebSocket-Key"),
        _ => panic!("expected reject"),
    }
    match upgrade_plan(None, None) {
        UpgradePlan::Reject(m) => assert_eq!(m, "Upgrade must be websocket or raw"),
        _ => panic!("expected reject"),
    }
}

#[test]
fn websocket_reads_preserve_bytes() {
    let mut b = WsReadBuffer::new();
    assert!(matches!(b.read(4), WsRead::NeedFrame));
    b.on_frame(WsFrameKind::Binary, &[1, 2, 3]);
    b.on_frame(WsFrameKind::Binary, &[4, 5]);
    match b.read(4) {
        WsRead::Data(d) => assert_eq!(d, vec![1, 2, 3, 4]),
        _ => panic!("expected data"),
    }
    b.on_close();
    match b.read(4) {
        WsRead::Data(d) => assert_eq!(d, vec![5]),
        _ => panic!("expected data"),
    }
    assert!(matches!(b.read(4), WsRead::Eof));
}

#[test]
fn datagrams_of_one_channel() {
    assert_eq!(datagram_for_channel(&[0, 0, 0, 7, 1, 2], 7), Some(vec![1, 2]));
    assert_eq!(datagram_for_channel(&[0, 0, 0, 8, 1, 2], 7), None);
    assert_eq!(datagram_for_channel(&[0, 0, 7], 7), None);
}

#[test]
fn terminal_login_prompt_text() {
    let h = m87_client::api::PrintUserAuthRequestHandler;
    assert_eq!(
        h.auth_request_text("https://auth.make87.com/activate", "ABCD-EFGH"),
        "\nTo authenticate, visit: https://auth.make87.com/activate\nEnter this code: ABCD-EFGH\n\n"
    );
}

#[test]
fn websocket_reads_ignore_text_frames() {
    let mut b = WsReadBuffer::new();
    b.on_frame(WsFrameKind::Text, b"hi");
    b.on_frame(WsFrameKind::Binary, &[1, 2]);
    b.on_frame(WsFrameKind::Control, &[9]);
    b.on_close();
    let mut got: Vec<u8> = Vec::new();
    loop {
        match b.read(16) {
            WsRead::Data(d) => got.extend(d),
            WsRead::Eof => break,
            WsRead::NeedFrame => panic!("closed buffer waits"),
        }
    }
    assert_eq!(got, vec![1, 2]);
    assert!(matches!(b.read(16), WsRead::Eof));
}

#[test]
fn websocket_writes_are_single_binary_frames() {
    let mut b = WsReadBuffer::new();
    match b.write_frame(&[7, 8, 9]) {
        Ok((k, f)) => {
            assert_eq!(k, WsFrameKind::Binary);
            assert_eq!(f, vec![7, 8, 9]);
        }
        Err(e) => panic!("{e}"),
    }
    b.on_close();
    assert_eq!(b.write_frame(&[1]).unwrap_err(), "websocket closed");
}

fn answer(a: m87_client::upgrade::UpgradeAnswer) -> String {
    match a {
        m87_client::upgrade::UpgradeAnswer::Refuse(s, m) => format!("{s} {m}"),
        m87_client::upgrade::UpgradeAnswer::SwitchRaw(p) => format!("101 raw {p}"),
        m87_client::upgrade::UpgradeAnswer::SwitchWebSocket(acc, p) => format!("101 ws {acc} {p}"),
    }
}

#[test]
fn upgrade_answers_in_order() {
    assert_eq!(answer(m87_client::upgrade::upgrade_decision(false, None, false, None, None)), "400 invalid parameters");
    assert_eq!(
        answer(m87_client::upgrade::upgrade_decision(true, Some("token.x"), true, Some("raw"), None)),
        "401 Missing or invalid WebSocket protocol (bearer.<jwt>)"
    );
    assert_eq!(answer(m87_client::upgrade::upgrade_decision(true, Some("bearer.jwt"), false, Some("raw"), None)), "401 Invalid auth token");
    assert_eq!(answer(m87_client::upgrade::upgrade_decision(true, Some("bearer.jwt"), true, Some("RAW"), None)), "101 raw bearer.jwt");
    assert_eq!(
        answer(m87_client::upgrade::upgrade_decision(true, Some("bearer.jwt"), true, Some("websocket"), Some(Ok("dGhlIHNhbXBsZSBub25jZQ==")))),
        "101 ws s3pPLMBiTxaQ9kYGzzhZRbK+xOo= bearer.jwt"
    );
    assert_eq!(
        answer(m87_client::upgrade::upgrade_decision(true, Some("bearer.jwt"), true, Some("websocket"), None)),
        "400 missing Sec-WebSocket-Key"
    );
    assert_eq!(
        answer(m87_client::upgrade::upgrade_decision(true, Some("bearer.jwt"), true, Some("h2c"), None)),
        "400 Upgrade must be websocket or raw"
    );
}
