use brainrot::youtube::context::{
    extract_continuation, extract_initial_data, extract_keyed_value, extract_tango_key,
    has_keyed_true, parse_channel_link, parse_stream_link, ChannelSearchOptions, ChatContext,
    LiveStreamStatus,
};
use brainrot::youtube::error::Error;
use brainrot::youtube::streams_page::{
    select_stream, FeedContentsRenderer, PageContentsRenderer, RichGridItem, RichItemContent,
    TabItemRenderer, ThumbnailOverlay, VideoTimeStatus, YouTubeInitialData,
};
use brainrot::youtube::types::{ImageContainer, LocalizedText};

fn live_page() -> String {
    [
        "<html><script>var x = 1;</script>",
        "\"isLiveContent\": true, \"isLiveNow\": true,",
        "\"INNERTUBE_API_KEY\": \"APIKEY123\",",
        "\"LIVE_CHAT_BASE_TANGO_CONFIG\": { \"apiKey\": \"TANGOKEY\" },",
        "\"clientVersion\": \"2.20240101.01.00\",",
        "Live chat\", \"selected\": true, \"continuation\": { \"reloadContinuationData\": {\"continuation\": \"CONT_LIVE\"",
        "</html>",
    ]
    .concat()
}

fn replay_page() -> String {
    [
        "\"isLiveContent\": true, \"isReplay\": true,",
        "\"INNERTUBE_API_KEY\": \"APIKEY123\",",
        "Top chat replay\", \"selected\": true, \"continuation\": { \"reloadContinuationData\": {\"continuation\": \"CONT_REPLAY\"",
    ]
    .concat()
}

#[test]
fn live_watch_page_yields_a_live_context() {
    let page = live_page();
    let ctx = ChatContext::from_watch_page("dQw4w9WgXcQ", &page).expect("a live page");
    assert_eq!(ctx.id, "dQw4w9WgXcQ");
    assert_eq!(ctx.live_status, LiveStreamStatus::Live);
    assert_eq!(ctx.api_key, "APIKEY123");
    assert_eq!(ctx.tango_api_key.as_deref(), Some("TANGOKEY"));
    assert_eq!(ctx.client_version, "2.20240101.01.00");
    assert_eq!(ctx.initial_continuation, "CONT_LIVE");
}

#[test]
fn replay_watch_page_uses_the_replay_anchor() {
    let page = replay_page();
    let ctx = ChatContext::from_watch_page("dQw4w9WgXcQ", &page).expect("a replay page");
    assert_eq!(ctx.live_status, LiveStreamStatus::Replay);
    assert_eq!(ctx.initial_continuation, "CONT_REPLAY");
    assert_eq!(ctx.tango_api_key, None);
    assert_eq!(ctx.client_version, "2.20240207.07.00");
}

#[test]
fn page_without_live_content_is_not_a_stream() {
    match ChatContext::from_watch_page("dQw4w9WgXcQ", "<html>nothing here</html>") {
        Err(Error::NotStream(s)) => assert_eq!(s, "dQw4w9WgXcQ"),
        _ => panic!("expected the not-a-stream error"),
    }
}

#[test]
fn page_without_api_key_is_refused() {
    let page = "\"isLiveContent\": true, \"isLiveNow\": true,";
    assert!(matches!(
        ChatContext::from_watch_page("dQw4w9WgXcQ", page),
        Err(Error::NoInnerTubeKey)
    ));
}

#[test]
fn page_without_continuation_is_refused() {
    let page = "\"isLiveContent\": true, \"isLiveNow\": true, \"INNERTUBE_API_KEY\": \"K\",";
    assert!(matches!(
        ChatContext::from_watch_page("dQw4w9WgXcQ", page),
        Err(Error::NoChatContinuation)
    ));
}

#[test]
fn upcoming_page_classifies_between_live_and_replay() {
    assert!(has_keyed_true("\"isLiveContent\": true", "isLiveContent"));
    assert!(!has_keyed_true("\"isLiveContent\": false", "isLiveContent"));
    assert!(has_keyed_true("'isLiveContent':true", "isLiveContent"));
}

#[test]
fn keyed_value_takes_the_first_match() {
    let page = "\"k\": \"first\" ... \"k\": \"second\"";
    assert_eq!(extract_keyed_value(page, "k").as_deref(), Some("first"));
    assert_eq!(extract_keyed_value(page, "missing"), None);
}

#[test]
fn keyed_value_accepts_either_quote_style() {
    assert_eq!(extract_keyed_value("'KEY': 'v1'", "KEY").as_deref(), Some("v1"));
    assert_eq!(extract_keyed_value("\"KEY\":'v2'", "KEY").as_deref(), Some("v2"));
}

#[test]
fn tango_key_requires_its_configuration_block() {
    let page = "\"LIVE_CHAT_BASE_TANGO_CONFIG\": { \"apiKey\" : \"T1\" }";
    assert_eq!(extract_tango_key(page).as_deref(), Some("T1"));
    assert_eq!(extract_tango_key("\"apiKey\": \"T1\""), None);
}

#[test]
fn continuation_extraction_is_deterministic() {
    let page = [
        "Live chat\", \"selected\": false, \"continuation\": { \"reloadContinuationData\": {\"continuation\": \"C1\"",
        " Live chat\", \"selected\": true, \"continuation\": { \"reloadContinuationData\": {\"continuation\": \"C2\"",
    ]
    .concat();
    let a = extract_continuation(&page, "Live chat", false);
    let b = extract_continuation(&page, "Live chat", false);
    assert_eq!(a.as_deref(), Some("C1"));
    assert_eq!(a, b);
}

#[test]
fn replay_continuation_requires_the_selected_tab() {
    let page = "Top chat replay\", \"selected\": false, \"continuation\": { \"reloadContinuationData\": {\"continuation\": \"C1\"";
    assert_eq!(extract_continuation(page, "Top chat replay", true), None);
}

#[test]
fn initial_data_blob_is_captured_between_braces() {
    let page = "<script>var ytInitialData = {\"a\": [1, 2]};</script>";
    assert_eq!(extract_initial_data(page).as_deref(), Some("{\"a\": [1, 2]}"));
    assert_eq!(extract_initial_data("<script>no data</script>"), None);
}

#[test]
fn channel_links_resolve_to_their_identifier() {
    assert_eq!(
        parse_channel_link("https://www.youtube.com/channel/UCabcdefghijklmnopqrstuw").as_deref(),
        Some("UCabcdefghijklmnopqrstuw")
    );
    assert_eq!(
        parse_channel_link("youtube.com/@somehandle").as_deref(),
        Some("@somehandle")
    );
    assert_eq!(parse_channel_link("https://example.com/@somehandle"), None);
    assert_eq!(parse_channel_link("youtube.com/channel/short"), None);
}

#[test]
fn stream_links_resolve_to_their_video_id() {
    assert_eq!(
        parse_stream_link("https://www.youtube.com/watch?v=dQw4w9WgXcQ").as_deref(),
        Some("dQw4w9WgXcQ")
    );
    assert_eq!(parse_stream_link("https://youtu.be/dQw4w9WgXcQ").as_deref(), Some("dQw4w9WgXcQ"));
    assert_eq!(parse_stream_link("https://example.com/watch?v=dQw4w9WgXcQ"), None);
}

#[test]
fn video_id_arguments_resolve() {
    assert_eq!(ChatContext::resolve_video_id("dQw4w9WgXcQ").unwrap(), "dQw4w9WgXcQ");
    assert_eq!(
        ChatContext::resolve_video_id("https://youtu.be/dQw4w9WgXcQ").unwrap(),
        "dQw4w9WgXcQ"
    );
    assert!(matches!(
        ChatContext::resolve_video_id("!!!"),
        Err(Error::InvalidVideoID(_))
    ));
}

#[test]
fn channel_arguments_resolve() {
    assert_eq!(
        ChatContext::resolve_channel_id("UCabcdefghijklmnopqrstuw").unwrap(),
        "UCabcdefghijklmnopqrstuw"
    );
    assert_eq!(ChatContext::resolve_channel_id("@handle").unwrap(), "@handle");
    assert_eq!(
        ChatContext::resolve_channel_id("youtube.com/@handle").unwrap(),
        "@handle"
    );
    assert!(matches!(
        ChatContext::resolve_channel_id("https://example.com"),
        Err(Error::InvalidChannelID(_))
    ));
}

#[test]
fn channel_streams_urls_differ_by_identifier_kind() {
    assert_eq!(
        ChatContext::channel_streams_url("@handle"),
        "https://www.youtube.com/@handle/streams"
    );
    assert_eq!(
        ChatContext::channel_streams_url("UCabcdefghijklmnopqrstuw"),
        "https://www.youtube.com/channel/UCabcdefghijklmnopqrstuw/streams"
    );
}

fn video_item(id: &str, status: VideoTimeStatus) -> RichGridItem {
    RichGridItem::RichItemRenderer {
        content: RichItemContent::VideoRenderer {
            description_snippet: LocalizedText { runs: vec![] },
            thumbnail: ImageContainer { thumbnails: vec![], accessibility: None },
            thumbnail_overlays: vec![ThumbnailOverlay::TimeStatus { style: status }],
            video_id: id.to_string(),
        },
    }
}

fn page_with(items: Vec<RichGridItem>) -> YouTubeInitialData {
    YouTubeInitialData {
        contents: PageContentsRenderer::TwoColumnBrowseResultsRenderer {
            tabs: vec![
                TabItemRenderer::ExpandableTabRenderer,
                TabItemRenderer::TabRenderer {
                    endpoint: brainrot::youtube::streams_page::FeedEndpoint {
                        browse_endpoint: brainrot::youtube::streams_page::BrowseEndpoint {
                            browse_id: "b".to_string(),
                            params: "p".to_string(),
                            canonical_base_url: "/c".to_string(),
                        },
                        command_metadata: brainrot::youtube::types::CommandMetadata {
                            web_command_metadata: "{}".to_string(),
                        },
                    },
                    title: "Live".to_string(),
                    selected: false,
                    content: Some(FeedContentsRenderer::RichGridRenderer { contents: items }),
                },
            ],
        },
    }
}

#[test]
fn policy_picks_first_live_forward() {
    let data = page_with(vec![
        video_item("up1", VideoTimeStatus::Upcoming),
        video_item("live1", VideoTimeStatus::Live),
        video_item("live2", VideoTimeStatus::Live),
    ]);
    assert_eq!(
        select_stream(&data, ChannelSearchOptions::FirstLive, "chan").unwrap(),
        "live1"
    );
    assert_eq!(
        select_stream(&data, ChannelSearchOptions::LatestLive, "chan").unwrap(),
        "live2"
    );
}

#[test]
fn policy_falls_back_to_upcoming_only_when_allowed() {
    let data = page_with(vec![
        video_item("v1", VideoTimeStatus::Default),
        video_item("up1", VideoTimeStatus::Upcoming),
        video_item("up2", VideoTimeStatus::Upcoming),
    ]);
    assert_eq!(
        select_stream(&data, ChannelSearchOptions::FirstLiveOrUpcoming, "chan").unwrap(),
        "up1"
    );
    assert_eq!(
        select_stream(&data, ChannelSearchOptions::LatestLiveOrUpcoming, "chan").unwrap(),
        "up2"
    );
    match select_stream(&data, ChannelSearchOptions::FirstLive, "chan") {
        Err(Error::NoMatchingStream(s)) => assert_eq!(s, "chan"),
        _ => panic!("expected no matching stream"),
    }
}

#[test]
fn page_without_live_tab_has_no_matching_stream() {
    let data = YouTubeInitialData {
        contents: PageContentsRenderer::TwoColumnBrowseResultsRenderer {
            tabs: vec![TabItemRenderer::ExpandableTabRenderer],
        },
    };
    assert!(matches!(
        select_stream(&data, ChannelSearchOptions::FirstLiveOrUpcoming, "chan"),
        Err(Error::NoMatchingStream(_))
    ));
}
