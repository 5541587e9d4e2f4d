use brainrot::json::JsonValue;
use brainrot::multicast::{combine_polls, Multicast, SourceKind, StreamPoll, VariantChat};
use brainrot::youtube::context::{ChatContext, LiveStreamStatus};
use brainrot::youtube::error::Error;
use brainrot::youtube::get_live_chat::{
    Action, ActionContainer, ChatItem, Continuation, GetLiveChatRequestBody, GetLiveChatResponse,
    GetLiveChatResponseContinuationContents, InvalidationId, LiveChatContinuation,
};
use brainrot::youtube::types::{
    Accessibility, AccessibilityData, Emoji, ImageContainer, LocalizedRun, Timestamp,
};
use brainrot::youtube::{emit_chunk, stream_strategy, ActionChunk, SeenSet, StreamStrategy};

fn live_ctx() -> ChatContext {
    ChatContext {
        id: "dQw4w9WgXcQ".to_string(),
        api_key: "KEY".to_string(),
        client_version: "2.20240207.07.00".to_string(),
        initial_continuation: "tok0".to_string(),
        tango_api_key: Some("TANGO".to_string()),
        live_status: LiveStreamStatus::Live,
    }
}

fn replay_ctx() -> ChatContext {
    ChatContext { live_status: LiveStreamStatus::Replay, ..live_ctx() }
}

fn add_item(id: &str) -> Action {
    Action::AddChatItem { item: ChatItem::ViewerEngagement { id: id.to_string() }, client_id: None }
}

fn response(conts: Vec<Continuation>, actions: Option<Vec<ActionContainer>>) -> GetLiveChatResponse {
    GetLiveChatResponse {
        response_context: None,
        continuation_contents: Some(GetLiveChatResponseContinuationContents {
            live_chat_continuation: LiveChatContinuation { continuations: conts, actions },
        }),
    }
}

fn invalidation(token: &str, topic: &str) -> Continuation {
    Continuation::Invalidation {
        invalidation_id: InvalidationId {
            object_source: 1056,
            object_id: "obj".to_string(),
            topic: topic.to_string(),
            subscribe_to_gcm_topics: true,
            proto_creation_timestamp_ms: "0".to_string(),
        },
        timeout_ms: 10000,
        continuation: token.to_string(),
    }
}

#[test]
fn chunk_from_invalidation_carries_token_and_topic() {
    let resp = response(
        vec![invalidation("tok1", "topicA")],
        Some(vec![ActionContainer { action: add_item("m1"), click_tracking_params: None }]),
    );
    let chunk = ActionChunk::new(resp, &live_ctx()).expect("continuable");
    assert_eq!(chunk.continuation_token.as_deref(), Some("tok1"));
    assert_eq!(chunk.signaler_topic.as_deref(), Some("topicA"));
    assert_eq!(chunk.actions.len(), 1);
}

#[test]
fn chunk_from_player_seek_ends_the_stream() {
    let resp = response(
        vec![Continuation::PlayerSeek { continuation: "tok9".to_string() }],
        Some(vec![]),
    );
    match ActionChunk::new(resp, &live_ctx()) {
        Err(Error::EndOfContinuation) => {},
        _ => panic!("a player seek is not continuable"),
    }
}

#[test]
fn chunk_without_contents_ends_the_stream() {
    let resp = GetLiveChatResponse { response_context: None, continuation_contents: None };
    match ActionChunk::new(resp, &live_ctx()) {
        Err(Error::EndOfContinuation) => {},
        _ => panic!("missing contents are not continuable"),
    }
}

#[test]
fn replay_chunk_splices_nested_actions() {
    let nested = vec![
        ActionContainer { action: add_item("r1"), click_tracking_params: None },
        ActionContainer { action: add_item("r2"), click_tracking_params: None },
    ];
    let resp = response(
        vec![Continuation::Replay {
            time_until_last_message_msec: 1000,
            continuation: "tokR".to_string(),
        }],
        Some(vec![ActionContainer {
            action: Action::ReplayChat { actions: nested, video_offset_time_msec: 42 },
            click_tracking_params: None,
        }]),
    );
    let chunk = ActionChunk::new(resp, &replay_ctx()).expect("continuable");
    assert_eq!(chunk.actions.len(), 2);
    match &chunk.actions[0] {
        Action::AddChatItem { item, .. } => assert_eq!(item.id(), "r1"),
        _ => panic!("expected the first nested add"),
    }
}

#[test]
fn replay_chunk_without_actions_ends_the_stream() {
    let resp = response(
        vec![Continuation::Replay {
            time_until_last_message_msec: 1000,
            continuation: "tokR".to_string(),
        }],
        None,
    );
    assert!(matches!(ActionChunk::new(resp, &replay_ctx()), Err(Error::EndOfContinuation)));
}

#[test]
fn dedup_suppresses_repeated_items_across_chunks() {
    let mut seen = SeenSet::new();
    let first = vec![add_item("A"), add_item("B")];
    let out1 = emit_chunk(&mut seen, first, true);
    assert_eq!(out1.len(), 2);
    let second = vec![add_item("B"), add_item("C"), add_item("D")];
    let out2 = emit_chunk(&mut seen, second, true);
    let ids: Vec<&str> = out2
        .iter()
        .map(|a| match a {
            Action::AddChatItem { item, .. } => item.id(),
            _ => panic!("only adds were emitted"),
        })
        .collect();
    assert_eq!(ids, vec!["C", "D"]);
}

#[test]
fn duplicate_arrival_changes_nothing() {
    let mut seen = SeenSet::new();
    let out1 = emit_chunk(&mut seen, vec![add_item("A")], true);
    assert_eq!(out1.len(), 1);
    let out2 = emit_chunk(&mut seen, vec![add_item("A")], true);
    assert!(out2.is_empty());
    assert!(seen.contains("A"));
}

#[test]
fn replay_emission_does_not_deduplicate() {
    let mut seen = SeenSet::new();
    let out = emit_chunk(&mut seen, vec![add_item("A"), add_item("A")], false);
    assert_eq!(out.len(), 2);
    assert!(!seen.contains("A"));
}

#[test]
fn non_add_actions_pass_through() {
    let mut seen = SeenSet::new();
    let out = emit_chunk(
        &mut seen,
        vec![Action::RemoveChatItem { target_item_id: "A".to_string() }],
        true,
    );
    assert!(matches!(&out[0], Action::RemoveChatItem { target_item_id } if target_item_id == "A"));
}

#[test]
fn seen_set_clears_on_session_reset() {
    let mut seen = SeenSet::new();
    let _ = emit_chunk(&mut seen, vec![add_item("A")], true);
    assert!(seen.contains("A"));
    seen.clear();
    assert!(!seen.contains("A"));
}

#[test]
fn strategy_follows_first_continuation() {
    match stream_strategy(&invalidation("t", "topicZ")) {
        StreamStrategy::Signaled { topic } => assert_eq!(topic, "topicZ"),
        _ => panic!("expected the signaled strategy"),
    }
    assert!(matches!(
        stream_strategy(&Continuation::Replay {
            time_until_last_message_msec: 5,
            continuation: "c".to_string()
        }),
        StreamStrategy::Replay
    ));
    match stream_strategy(&Continuation::Timed { timeout_ms: 777, continuation: "c".to_string() }) {
        StreamStrategy::Timed { timeout_ms } => assert_eq!(timeout_ms, 777),
        _ => panic!("expected the timed strategy"),
    }
}

#[test]
fn chat_item_id_reads_each_renderer() {
    let gift = ChatItem::MembershipGift { id: "g1".to_string(), data: "{}".to_string() };
    assert_eq!(gift.id(), "g1");
    let eng = ChatItem::ViewerEngagement { id: "e1".to_string() };
    assert_eq!(eng.id(), "e1");
}

#[test]
fn custom_emoji_flattens_with_colons() {
    let emoji = |custom: Option<bool>| LocalizedRun::Emoji {
        emoji: Emoji {
            emoji_id: "x".to_string(),
            shortcuts: None,
            search_terms: None,
            supports_skin_tone: None,
            image: ImageContainer {
                thumbnails: vec![],
                accessibility: Some(Accessibility {
                    accessibility_data: AccessibilityData { label: "wave".to_string() },
                }),
            },
            is_custom_emoji: custom,
        },
        variant_ids: None,
    };
    assert_eq!(emoji(Some(true)).to_chat_string(), ":wave:");
    assert_eq!(emoji(Some(false)).to_chat_string(), "wave");
    assert_eq!(emoji(None).to_chat_string(), "wave");
    let text = LocalizedRun::Text { text: "plain".to_string() };
    assert_eq!(text.to_chat_string(), "plain");
}

#[test]
fn timestamp_from_micros_keeps_sub_millisecond_precision() {
    let t = Timestamp::from_micros(1_700_000_000_123_456);
    assert_eq!(t.seconds, 1_700_000_000);
    assert_eq!(t.subsec_nanos, 123_456_000);
    let z = Timestamp::from_micros(0);
    assert_eq!(z.seconds, 0);
    assert_eq!(z.subsec_nanos, 0);
    let n = Timestamp::from_micros(-1);
    assert_eq!(n.seconds, -1);
    assert_eq!(n.subsec_nanos, 999_999_000);
}

#[test]
fn request_body_serializes_to_the_exact_envelope() {
    let body = GetLiveChatRequestBody::new("tok\"1", "2.2024", "WEB");
    assert_eq!(
        body.to_json(),
        "{\"context\":{\"client\":{\"clientVersion\":\"2.2024\",\"clientName\":\"WEB\"}},\"continuation\":\"tok\\\"1\"}"
    );
}

#[test]
fn request_query_pins_key_and_pretty_print() {
    let q = brainrot::youtube::get_live_chat::request_query("APIKEY");
    assert_eq!(q.len(), 2);
    assert_eq!(q[0], ("key".to_string(), "APIKEY".to_string()));
    assert_eq!(q[1], ("prettyPrint".to_string(), "false".to_string()));
}

#[test]
fn fan_in_first_ready_wins() {
    let polls = vec![
        StreamPoll::Pending,
        StreamPoll::Ready(Ok(VariantChat::YouTube(add_item("A")))),
        StreamPoll::Finished,
    ];
    match combine_polls(polls) {
        StreamPoll::Ready(Ok(VariantChat::YouTube(Action::AddChatItem { item, .. }))) => {
            assert_eq!(item.id(), "A");
        },
        _ => panic!("expected the ready sub-stream to win"),
    }
}

#[test]
fn fan_in_pending_and_finished() {
    assert!(matches!(
        combine_polls(vec![StreamPoll::Finished, StreamPoll::Pending]),
        StreamPoll::Pending
    ));
    assert!(matches!(
        combine_polls(vec![StreamPoll::Finished, StreamPoll::Finished]),
        StreamPoll::Finished
    ));
    assert!(matches!(combine_polls(vec![]), StreamPoll::Finished));
}

#[test]
fn multicast_registers_sources_in_order() {
    let mut m = Multicast::new();
    m.push(SourceKind::Twitch);
    m.push(SourceKind::YouTube);
    assert_eq!(m.sources, vec![SourceKind::Twitch, SourceKind::YouTube]);
}

#[test]
fn json_value_as_usize_reads_numbers() {
    assert_eq!(JsonValue::Int(7).as_usize(), Some(7));
    assert_eq!(JsonValue::UInt(9).as_usize(), Some(9));
    assert_eq!(JsonValue::Int(-1).as_usize(), None);
    assert_eq!(JsonValue::Str("7".to_string()).as_usize(), None);
}

#[test]
fn error_messages_and_fatality() {
    assert!(!Error::TimedOut.is_fatal());
    assert!(Error::EndOfContinuation.is_fatal());
    assert_eq!(Error::BadStatus(503).message(), "request returned bad HTTP status: 503");
    assert_eq!(
        Error::InvalidVideoID("xyz".to_string()).message(),
        "Invalid YouTube video ID or URL: xyz"
    );
}

#[test]
fn context_accessors() {
    let ctx = live_ctx();
    assert_eq!(ctx.id(), "dQw4w9WgXcQ");
    assert_eq!(ctx.url(), "https://www.youtube.com/watch?v=dQw4w9WgXcQ");
    assert_eq!(ctx.status(), LiveStreamStatus::Live);
    assert!(LiveStreamStatus::Upcoming.updates_live());
    assert!(LiveStreamStatus::Live.updates_live());
    assert!(!LiveStreamStatus::Replay.updates_live());
}
