use brainrot::json::JsonValue;
use brainrot::youtube::error::Error;
use brainrot::youtube::signaler::{
    choose_server_endpoint, gen_zx, subscription_endpoint, SignalerChannelInner,
};

fn fresh() -> SignalerChannelInner {
    SignalerChannelInner::with_topic("topicA", "TANGO")
}

#[test]
fn with_topic_starts_before_the_handshake() {
    let s = fresh();
    assert_eq!(s.topic, "topicA");
    assert_eq!(s.tango_key, "TANGO");
    assert!(s.gsessionid.is_none());
    assert!(s.sid.is_none());
    assert_eq!((s.rid, s.aid, s.session_n), (0, 0, 0));
}

#[test]
fn choose_server_stores_the_global_session_id() {
    let mut s = fresh();
    let v = JsonValue::Arr(vec![
        JsonValue::Str("GSESSION".to_string()),
        JsonValue::Null,
    ]);
    s.handle_choose_server(&v).expect("shape accepted");
    assert_eq!(s.gsessionid.as_deref(), Some("GSESSION"));
    assert!(s.sid.is_none());
}

#[test]
fn choose_server_refuses_other_shapes() {
    let mut s = fresh();
    assert!(s.handle_choose_server(&JsonValue::Null).is_err());
    assert!(s.handle_choose_server(&JsonValue::Arr(vec![])).is_err());
    assert!(s
        .handle_choose_server(&JsonValue::Arr(vec![JsonValue::Int(3)]))
        .is_err());
    assert!(s.gsessionid.is_none());
}

#[test]
fn init_session_line_stores_sid_and_keeps_gsessionid() {
    let mut s = fresh();
    s.gsessionid = Some("G".to_string());
    let line = JsonValue::Arr(vec![JsonValue::Arr(vec![
        JsonValue::Int(0),
        JsonValue::Arr(vec![
            JsonValue::Str("c".to_string()),
            JsonValue::Str("SID_X".to_string()),
        ]),
    ])]);
    s.handle_init_session("[[0,[\"c\",\"SID_X\"]]]", &line).expect("shape accepted");
    assert_eq!(s.sid.as_deref(), Some("SID_X"));
    assert_eq!(s.gsessionid.as_deref(), Some("G"));
}

#[test]
fn init_session_nonzero_marker_surfaces_the_raw_line() {
    let mut s = fresh();
    let line = JsonValue::Arr(vec![JsonValue::Arr(vec![
        JsonValue::Int(1),
        JsonValue::Arr(vec![
            JsonValue::Str("c".to_string()),
            JsonValue::Str("SID_X".to_string()),
        ]),
    ])]);
    match s.handle_init_session("[[1,[\"c\",\"SID_X\"]]]", &line) {
        Err(Error::Deserialization(raw)) => assert_eq!(raw, "[[1,[\"c\",\"SID_X\"]]]"),
        _ => panic!("a non-zero marker is an error carrying the raw line"),
    }
    assert!(s.sid.is_none());
}

#[test]
fn signal_chunk_advances_the_ack_counter() {
    let mut s = fresh();
    let line = JsonValue::Arr(vec![
        JsonValue::Arr(vec![JsonValue::Int(3), JsonValue::Str("noop".to_string())]),
        JsonValue::Arr(vec![JsonValue::Int(17)]),
    ]);
    s.handle_signal_chunk(&line).expect("shape accepted");
    assert_eq!(s.aid, 17);
}

#[test]
fn signal_chunk_refuses_other_shapes() {
    let mut s = fresh();
    assert!(s.handle_signal_chunk(&JsonValue::Arr(vec![])).is_err());
    assert!(s
        .handle_signal_chunk(&JsonValue::Arr(vec![JsonValue::Arr(vec![JsonValue::Null])]))
        .is_err());
    assert_eq!(s.aid, 0);
}

#[test]
fn reset_clears_identifiers_and_counters() {
    let mut s = fresh();
    s.gsessionid = Some("G".to_string());
    s.sid = Some("S".to_string());
    s.rid = 3;
    s.aid = 9;
    s.session_n = 1;
    s.reset();
    assert!(s.gsessionid.is_none());
    assert!(s.sid.is_none());
    assert_eq!((s.rid, s.aid, s.session_n), (0, 0, 0));
    assert_eq!(s.topic, "topicA");
}

#[test]
fn choose_server_body_is_byte_exact() {
    let s = fresh();
    assert_eq!(
        s.choose_server_body(),
        "[[null,null,null,[7,5],null,[[\"youtube_live_chat_web\"],[1],[[[\"topicA\"]]]]]]"
    );
    let q = s.choose_server_query();
    assert_eq!(q, vec![("key".to_string(), "TANGO".to_string())]);
}

#[test]
fn init_session_request_parts_are_exact() {
    let mut s = fresh();
    s.gsessionid = Some("G".to_string());
    s.aid = 5;
    let form = s.init_session_form();
    assert_eq!(form[0], ("count".to_string(), "1".to_string()));
    assert_eq!(form[1], ("ofs".to_string(), "0".to_string()));
    assert_eq!(
        form[2].1,
        "[[[\"1\",[null,null,null,[7,5],null,[[\"youtube_live_chat_web\"],[1],[[[\"topicA\"]]]],null,null,1],null,3]]]"
    );
    let q = s.init_session_query("abcdefghij0");
    assert_eq!(s.session_n, 1);
    assert_eq!(q[0], ("VER".to_string(), "8".to_string()));
    assert_eq!(q[1], ("gsessionid".to_string(), "G".to_string()));
    assert_eq!(q[2], ("key".to_string(), "TANGO".to_string()));
    assert_eq!(q[3], ("RID".to_string(), "0".to_string()));
    assert_eq!(q[4], ("AID".to_string(), "5".to_string()));
    assert_eq!(q[5], ("CVER".to_string(), "22".to_string()));
    assert_eq!(q[6], ("zx".to_string(), "abcdefghij0".to_string()));
    assert_eq!(q[7], ("t".to_string(), "1".to_string()));
}

#[test]
fn session_stream_query_is_exact() {
    let mut s = fresh();
    s.gsessionid = Some("G".to_string());
    s.sid = Some("SID_X".to_string());
    s.aid = 2;
    let q = s.session_stream_query("zzzzzzzzzz9");
    assert_eq!(q.len(), 10);
    assert_eq!(q[3], ("RID".to_string(), "rpc".to_string()));
    assert_eq!(q[4], ("SID".to_string(), "SID_X".to_string()));
    assert_eq!(q[5], ("AID".to_string(), "2".to_string()));
    assert_eq!(q[7], ("TYPE".to_string(), "xmlhttp".to_string()));
    assert_eq!(q[8], ("zx".to_string(), "zzzzzzzzzz9".to_string()));
}

#[test]
fn zx_nonce_is_eleven_lower_alphanumerics() {
    for _ in 0..50 {
        let zx = gen_zx();
        assert_eq!(zx.chars().count(), 11);
        assert!(zx.chars().all(|c| c.is_ascii_lowercase() || c.is_ascii_digit()));
    }
}

#[test]
fn signaling_endpoints_are_fixed() {
    assert_eq!(
        choose_server_endpoint(),
        "https://signaler-pa.youtube.com/punctual/v1/chooseServer"
    );
    assert_eq!(
        subscription_endpoint(),
        "https://signaler-pa.youtube.com/punctual/multi-watch/channel"
    );
}
