use brainrot::twitch::event::{
    to_chat_event, ChatEvent, IrcCommand, IrcMessage, IrcPrefix, IrcTag, MessageSegment, UserRole,
};
use brainrot::twitch::{irc_channel, oauth_password};
use brainrot::twitch::identity::{Anonymous, Authenticated, TwitchIdentity};
use brainrot::util::get_utf8_slice;

fn tag(key: &str, value: &str) -> IrcTag {
    IrcTag { key: key.to_string(), value: Some(value.to_string()) }
}

fn privmsg(tags: Vec<IrcTag>, nick: &str, body: &str) -> IrcMessage {
    IrcMessage {
        tags: Some(tags),
        prefix: Some(IrcPrefix::Nickname {
            nick: nick.to_string(),
            user: nick.to_string(),
            host: format!("{}.tmi.twitch.tv", nick),
        }),
        command: IrcCommand::Privmsg { target: "#channel".to_string(), body: body.to_string() },
    }
}

fn base_tags() -> Vec<IrcTag> {
    vec![
        tag("display-name", "MiyukiWei"),
        tag("color", "#FF5A5F"),
        tag("user-type", ""),
        tag("mod", "0"),
        tag("badges", "broadcaster/1"),
        tag("user-id", "44"),
        tag("id", "4f1f3b96-5cf3-4a7a-8db5-2b5c6e09a2bb"),
        tag("tmi-sent-ts", "1700000000000"),
        tag("emotes", ""),
    ]
}

#[test]
fn privmsg_basic_message() {
    let ev = to_chat_event(privmsg(base_tags(), "miyukiwei", "hi")).expect("accepted");
    match ev {
        ChatEvent::Message { id, user, sent_at, reply_to, emote_only, first_message, contents } => {
            assert_eq!(id, 0x4f1f3b965cf34a7a8db52b5c6e09a2bbu128);
            assert_eq!(user.username, "miyukiwei");
            assert_eq!(user.display_name, "MiyukiWei");
            assert_eq!(user.display_color, Some(0xFF5A5F));
            assert_eq!(user.role, UserRole::Broadcaster);
            assert_eq!(user.sub_months, None);
            assert_eq!(user.id, 44);
            assert!(!user.returning_chatter);
            assert_eq!(sent_at, 1_700_000_000);
            assert_eq!(reply_to, None);
            assert!(!emote_only);
            assert!(!first_message);
            assert_eq!(contents.len(), 1);
            match &contents[0] {
                MessageSegment::Text { text } => assert_eq!(text, "hi"),
                _ => panic!("expected a text segment"),
            }
        },
        _ => panic!("expected a plain message"),
    }
}

#[test]
fn privmsg_emote_segments() {
    let mut tags = base_tags();
    tags.retain(|t| t.key != "emotes");
    tags.push(tag("emotes", "25:0-4,6-10"));
    let ev = to_chat_event(privmsg(tags, "miyukiwei", "Kappa Kappa")).expect("accepted");
    match ev {
        ChatEvent::Message { contents, .. } => {
            assert_eq!(contents.len(), 3);
            match &contents[0] {
                MessageSegment::Emote { name, id } => {
                    assert_eq!(name, "Kappa");
                    assert_eq!(id, "25");
                },
                _ => panic!("expected an emote first"),
            }
            match &contents[1] {
                MessageSegment::Text { text } => assert_eq!(text, " "),
                _ => panic!("expected the gap text"),
            }
            match &contents[2] {
                MessageSegment::Emote { name, id } => {
                    assert_eq!(name, "Kappa");
                    assert_eq!(id, "25");
                },
                _ => panic!("expected an emote last"),
            }
        },
        _ => panic!("expected a plain message"),
    }
}

#[test]
fn privmsg_bits_event() {
    let mut tags = base_tags();
    tags.push(tag("bits", "500"));
    let ev = to_chat_event(privmsg(tags, "miyukiwei", "hi")).expect("accepted");
    match ev {
        ChatEvent::SendBits { bits, user, .. } => {
            assert_eq!(bits, 500);
            assert_eq!(user.username, "miyukiwei");
        },
        _ => panic!("expected a bits event"),
    }
}

#[test]
fn empty_emotes_yields_single_text_segment() {
    let ev = to_chat_event(privmsg(base_tags(), "miyukiwei", "hello world")).expect("accepted");
    match ev {
        ChatEvent::Message { contents, .. } => {
            assert_eq!(contents.len(), 1);
            match &contents[0] {
                MessageSegment::Text { text } => assert_eq!(text, "hello world"),
                _ => panic!("expected one text segment"),
            }
        },
        _ => panic!("expected a plain message"),
    }
}

#[test]
fn empty_color_is_none_not_zero() {
    let mut tags = base_tags();
    tags.retain(|t| t.key != "color");
    tags.push(tag("color", ""));
    let ev = to_chat_event(privmsg(tags, "miyukiwei", "hi")).expect("accepted");
    match ev {
        ChatEvent::Message { user, .. } => assert_eq!(user.display_color, None),
        _ => panic!("expected a plain message"),
    }
}

#[test]
fn malformed_color_is_none() {
    let mut tags = base_tags();
    tags.retain(|t| t.key != "color");
    tags.push(tag("color", "#12345"));
    let ev = to_chat_event(privmsg(tags, "miyukiwei", "hi")).expect("accepted");
    match ev {
        ChatEvent::Message { user, .. } => assert_eq!(user.display_color, None),
        _ => panic!("expected a plain message"),
    }
}

#[test]
fn sub_second_timestamp_floors_to_seconds() {
    let mut tags = base_tags();
    tags.retain(|t| t.key != "tmi-sent-ts");
    tags.push(tag("tmi-sent-ts", "1700000000999"));
    let ev = to_chat_event(privmsg(tags, "miyukiwei", "hi")).expect("accepted");
    match ev {
        ChatEvent::Message { sent_at, .. } => assert_eq!(sent_at, 1_700_000_000),
        _ => panic!("expected a plain message"),
    }
}

#[test]
fn role_priority_user_type_beats_badges() {
    let mut tags = base_tags();
    tags.retain(|t| t.key != "user-type" && t.key != "mod");
    tags.push(tag("user-type", "admin"));
    tags.push(tag("mod", "1"));
    let ev = to_chat_event(privmsg(tags, "miyukiwei", "hi")).expect("accepted");
    match ev {
        ChatEvent::Message { user, .. } => assert_eq!(user.role, UserRole::TwitchAdmin),
        _ => panic!("expected a plain message"),
    }
}

#[test]
fn role_mod_beats_broadcaster_badge() {
    let mut tags = base_tags();
    tags.retain(|t| t.key != "mod");
    tags.push(tag("mod", "1"));
    let ev = to_chat_event(privmsg(tags, "miyukiwei", "hi")).expect("accepted");
    match ev {
        ChatEvent::Message { user, .. } => assert_eq!(user.role, UserRole::Moderator),
        _ => panic!("expected a plain message"),
    }
}

#[test]
fn role_normal_without_markers() {
    let mut tags = base_tags();
    tags.retain(|t| t.key != "badges");
    let ev = to_chat_event(privmsg(tags, "miyukiwei", "hi")).expect("accepted");
    match ev {
        ChatEvent::Message { user, .. } => assert_eq!(user.role, UserRole::Normal),
        _ => panic!("expected a plain message"),
    }
}

#[test]
fn sub_months_from_badge_info() {
    let mut tags = base_tags();
    tags.push(tag("badge-info", "subscriber/14"));
    let ev = to_chat_event(privmsg(tags, "miyukiwei", "hi")).expect("accepted");
    match ev {
        ChatEvent::Message { user, .. } => assert_eq!(user.sub_months, Some(14)),
        _ => panic!("expected a plain message"),
    }
}

#[test]
fn zero_sub_months_is_absent() {
    let mut tags = base_tags();
    tags.push(tag("badge-info", "subscriber/0"));
    let ev = to_chat_event(privmsg(tags, "miyukiwei", "hi")).expect("accepted");
    match ev {
        ChatEvent::Message { user, .. } => assert_eq!(user.sub_months, None),
        _ => panic!("expected a plain message"),
    }
}

#[test]
fn bad_uuid_drops_message() {
    let mut tags = base_tags();
    tags.retain(|t| t.key != "id");
    tags.push(tag("id", "not-a-uuid"));
    assert!(to_chat_event(privmsg(tags, "miyukiwei", "hi")).is_none());
}

#[test]
fn missing_emotes_tag_drops_message() {
    let mut tags = base_tags();
    tags.retain(|t| t.key != "emotes");
    assert!(to_chat_event(privmsg(tags, "miyukiwei", "hi")).is_none());
}

#[test]
fn malformed_emote_range_drops_message() {
    let mut tags = base_tags();
    tags.retain(|t| t.key != "emotes");
    tags.push(tag("emotes", "25:zero-4"));
    assert!(to_chat_event(privmsg(tags, "miyukiwei", "hi")).is_none());
}

#[test]
fn emote_range_past_end_drops_message() {
    let mut tags = base_tags();
    tags.retain(|t| t.key != "emotes");
    tags.push(tag("emotes", "25:0-50"));
    assert!(to_chat_event(privmsg(tags, "miyukiwei", "hi")).is_none());
}

#[test]
fn emote_indices_count_code_points() {
    let mut tags = base_tags();
    tags.retain(|t| t.key != "emotes");
    tags.push(tag("emotes", "25:2-6"));
    let ev = to_chat_event(privmsg(tags, "miyukiwei", "\u{00e9}\u{00e9}Kappa!")).expect("accepted");
    match ev {
        ChatEvent::Message { contents, .. } => {
            assert_eq!(contents.len(), 3);
            match &contents[1] {
                MessageSegment::Emote { name, .. } => assert_eq!(name, "Kappa"),
                _ => panic!("expected the emote by code points"),
            }
            match &contents[2] {
                MessageSegment::Text { text } => assert_eq!(text, "!"),
                _ => panic!("expected the tail text"),
            }
        },
        _ => panic!("expected a plain message"),
    }
}

#[test]
fn unsorted_emotes_are_ordered_by_start() {
    let mut tags = base_tags();
    tags.retain(|t| t.key != "emotes");
    tags.push(tag("emotes", "1:6-10/25:0-4"));
    let ev = to_chat_event(privmsg(tags, "miyukiwei", "Kappa PogCh")).expect("accepted");
    match ev {
        ChatEvent::Message { contents, .. } => {
            match &contents[0] {
                MessageSegment::Emote { id, .. } => assert_eq!(id, "25"),
                _ => panic!("expected the earlier emote first"),
            }
        },
        _ => panic!("expected a plain message"),
    }
}

#[test]
fn display_name_falls_back_to_prefix_user() {
    let mut tags = base_tags();
    tags.retain(|t| t.key != "display-name");
    tags.push(tag("display-name", ""));
    let ev = to_chat_event(privmsg(tags, "miyukiwei", "hi")).expect("accepted");
    match ev {
        ChatEvent::Message { user, .. } => assert_eq!(user.display_name, "miyukiwei"),
        _ => panic!("expected a plain message"),
    }
}

#[test]
fn names_reply_yields_member_chunk() {
    let msg = IrcMessage {
        tags: None,
        prefix: None,
        command: IrcCommand::NamReply {
            params: vec![
                "me".to_string(),
                "=".to_string(),
                "#chan".to_string(),
                "alice".to_string(),
                "bob".to_string(),
            ],
        },
    };
    match to_chat_event(msg).expect("accepted") {
        ChatEvent::MemberChunk { names } => assert_eq!(names, vec!["alice", "bob"]),
        _ => panic!("expected a member chunk"),
    }
}

#[test]
fn end_of_names_yields_marker() {
    let msg = IrcMessage { tags: None, prefix: None, command: IrcCommand::EndOfNames };
    assert!(matches!(to_chat_event(msg), Some(ChatEvent::EndOfMembers)));
}

#[test]
fn other_commands_are_dropped() {
    let msg = IrcMessage { tags: None, prefix: None, command: IrcCommand::Other };
    assert!(to_chat_event(msg).is_none());
}

#[test]
fn reply_parent_is_carried() {
    let mut tags = base_tags();
    tags.push(tag("reply-parent-msg-id", "00000000-0000-0000-0000-000000000001"));
    let ev = to_chat_event(privmsg(tags, "miyukiwei", "hi")).expect("accepted");
    match ev {
        ChatEvent::Message { reply_to, .. } => assert_eq!(reply_to, Some(1u128)),
        _ => panic!("expected a plain message"),
    }
}

#[test]
fn utf8_slice_by_code_points() {
    assert_eq!(get_utf8_slice("a\u{00e9}c", 1, 2), Some("\u{00e9}"));
    assert_eq!(get_utf8_slice("abc", 0, 3), Some("abc"));
    assert_eq!(get_utf8_slice("abc", 2, 2), Some(""));
    assert_eq!(get_utf8_slice("abc", 0, 4), None);
    assert_eq!(get_utf8_slice("abc", 4, 4), None);
}

#[test]
fn identities_and_connection_strings() {
    assert_eq!(Anonymous.as_identity(), ("justinfan24340", None));
    let auth = Authenticated("yukifan4", "tokentokentoken");
    assert_eq!(auth.as_identity(), ("yukifan4", Some("tokentokentoken")));
    assert_eq!(oauth_password("tokentokentoken"), "oauth:tokentokentoken");
    assert_eq!(irc_channel("miyukiwei"), "#miyukiwei");
}

#[test]
fn segment_to_string_reads_text_or_name() {
    let t = MessageSegment::Text { text: "abc".to_string() };
    let e = MessageSegment::Emote { name: "Kappa".to_string(), id: "25".to_string() };
    assert_eq!(t.to_string(), "abc");
    assert_eq!(e.to_string(), "Kappa");
}

#[test]
fn negative_timestamp_floors_toward_minus_infinity() {
    let mut tags = base_tags();
    tags.retain(|t| t.key != "tmi-sent-ts");
    tags.push(tag("tmi-sent-ts", "-1500"));
    let ev = to_chat_event(privmsg(tags, "miyukiwei", "hi")).expect("accepted");
    match ev {
        ChatEvent::Message { sent_at, .. } => assert_eq!(sent_at, -2),
        _ => panic!("expected a plain message"),
    }
}

#[test]
fn lowercase_hex_color_parses() {
    let mut tags = base_tags();
    tags.retain(|t| t.key != "color");
    tags.push(tag("color", "#ff5a5f"));
    let ev = to_chat_event(privmsg(tags, "miyukiwei", "hi")).expect("accepted");
    match ev {
        ChatEvent::Message { user, .. } => assert_eq!(user.display_color, Some(0xFF5A5F)),
        _ => panic!("expected a plain message"),
    }
}

#[test]
fn malformed_badge_list_means_no_badges() {
    let mut tags = base_tags();
    tags.retain(|t| t.key != "badges");
    tags.push(tag("badges", "broadcaster/1,oops"));
    let ev = to_chat_event(privmsg(tags, "miyukiwei", "hi")).expect("accepted");
    match ev {
        ChatEvent::Message { user, .. } => assert_eq!(user.role, UserRole::Normal),
        _ => panic!("expected a plain message"),
    }
}

#[test]
fn emote_tag_stops_at_an_empty_segment() {
    let mut tags = base_tags();
    tags.retain(|t| t.key != "emotes");
    tags.push(tag("emotes", "25:0-4//1:6-10"));
    let ev = to_chat_event(privmsg(tags, "miyukiwei", "Kappa PogCh")).expect("accepted");
    match ev {
        ChatEvent::Message { contents, .. } => {
            // Only the part before the empty segment is read.
            assert_eq!(contents.len(), 2);
            assert!(matches!(&contents[0], MessageSegment::Emote { .. }));
            match &contents[1] {
                MessageSegment::Text { text } => assert_eq!(text, " PogCh"),
                _ => panic!("expected the tail text"),
            }
        },
        _ => panic!("expected a plain message"),
    }
}
