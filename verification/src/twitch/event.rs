//! Typed chat events for the IRC platform, and the translation of a tagged
//! `PRIVMSG` into one: tag lookup, badge lists, role classification, color
//! and subscription parsing, and emote segmentation.

use vstd::prelude::*;

use crate::text::{
    all_hex_digits, bounded_u64_from_str, hex_to_nat, parse_hex_span, parse_u64_max, split_char,
    split_once, split_once_at, split_str, str_eq,
};

verus! {

/// A user's role, classified from message tags in the priority
/// user-type, then mod, then broadcaster badge, then normal.
#[derive(Debug, Clone, Copy, PartialEq, Eq, Structural)]
pub enum UserRole {
    Normal,
    /// User is the one broadcasting.
    Broadcaster,
    /// User is a moderator for this channel.
    Moderator,
    /// User is a service-wide moderator.
    GlobalModerator,
    TwitchAdmin,
    TwitchStaff,
}

/// The sender of a chat message.
#[derive(Debug, Clone)]
pub struct User {
    pub username: String,
    /// The user's display name; usually the username with different
    /// capitalization, but it can be any string.
    pub display_name: String,
    /// The user's channel ID.
    pub id: u64,
    /// The user's preferred display color as 24-bit RGB, if set.
    pub display_color: Option<u32>,
    /// How many months the user has been subscribed, when subscribed;
    /// always positive when present.
    pub sub_months: Option<u16>,
    pub role: UserRole,
    /// Whether the user is a "returning" chatter in this channel.
    pub returning_chatter: bool,
}

/// One fragment of a message body: literal text, or an emote with the
/// exact substring it covers and its identifier.
#[derive(Debug, Clone)]
pub enum MessageSegment {
    Text { text: String },
    Emote { name: String, id: String },
}

/// The mathematical shape of a message segment.
pub enum SegView {
    Text { text: Seq<char> },
    Emote { name: Seq<char>, id: Seq<char> },
}

impl View for MessageSegment {
    type V = SegView;

    open spec fn view(&self) -> SegView {
        match self {
            MessageSegment::Text { text } => SegView::Text { text: text@ },
            MessageSegment::Emote { name, id } => SegView::Emote { name: name@, id: id@ },
        }
    }
}

impl DeepView for MessageSegment {
    type V = SegView;

    open spec fn deep_view(&self) -> SegView {
        self.view()
    }
}

impl MessageSegment {
    /// The plain text of a segment: the literal text, or the substring an
    /// emote covers.
    pub fn to_string(&self) -> (r: String)
        ensures
            r@ == seg_text(self@),
    {
        match self {
            MessageSegment::Text { text } => text.clone(),
            MessageSegment::Emote { name, .. } => name.clone(),
        }
    }
}

/// The text a segment contributes to the message body.
pub open spec fn seg_text(s: SegView) -> Seq<char> {
    match s {
        SegView::Text { text } => text,
        SegView::Emote { name, .. } => name,
    }
}

/// One message tag: a key and, when the tag carries one, a value.
#[derive(Debug, Clone)]
pub struct IrcTag {
    pub key: String,
    pub value: Option<String>,
}

/// The sender prefix of an IRC line.
#[derive(Debug, Clone)]
pub enum IrcPrefix {
    ServerName { name: String },
    Nickname { nick: String, user: String, host: String },
}

/// The command of an IRC line, reduced to what the adapter reads: a
/// `PRIVMSG`, a names reply, the end of a names list, or anything else.
#[derive(Debug, Clone)]
pub enum IrcCommand {
    Privmsg { target: String, body: String },
    NamReply { params: Vec<String> },
    EndOfNames,
    Other,
}

/// A parsed IRC line as the adapter consumes it.
#[derive(Debug, Clone)]
pub struct IrcMessage {
    pub tags: Option<Vec<IrcTag>>,
    pub prefix: Option<IrcPrefix>,
    pub command: IrcCommand,
}

/// A chat event produced from the IRC stream.
#[derive(Debug, Clone)]
pub enum ChatEvent {
    Message {
        /// The server-assigned message id, as the 128-bit value of its
        /// tag-format UUID.
        id: u128,
        user: User,
        /// Seconds since the Unix epoch, floored from the millisecond tag.
        sent_at: i64,
        reply_to: Option<u128>,
        emote_only: bool,
        first_message: bool,
        contents: Vec<MessageSegment>,
    },
    SendBits {
        id: u128,
        user: User,
        /// How many bits were sent; always positive.
        bits: u32,
        sent_at: i64,
        segments: Vec<MessageSegment>,
    },
    MemberChunk { names: Vec<String> },
    EndOfMembers,
}

/// The value of the tag named `key`: tags are read back to front, later
/// entries shadowing earlier ones, and entries without a value are
/// ignored, as collecting the tag list into a keyed mapping leaves them.
pub open spec fn spec_tag(tags: Seq<IrcTag>, key: Seq<char>) -> Option<Seq<char>>
    decreases tags.len(),
{
    if tags.len() == 0 {
        None
    } else if tags.last().key@ == key && tags.last().value is Some {
        Some(tags.last().value->0@)
    } else {
        spec_tag(tags.drop_last(), key)
    }
}

/// Look a tag up by key.
pub fn tag_value<'a>(tags: &'a Vec<IrcTag>, key: &str) -> (r: Option<&'a str>)
    ensures
        r matches Some(v) ==> spec_tag(tags@, key@) == Some(v@),
        r is None ==> spec_tag(tags@, key@) is None,
{
    let mut i: usize = tags.len();
    proof {
        assert(tags@.take(i as int) =~= tags@);
    }
    while i > 0
        invariant
            0 <= i <= tags@.len(),
            spec_tag(tags@, key@) == spec_tag(tags@.take(i as int), key@),
        decreases i,
    {
        i = i - 1;
        proof {
            assert(tags@.take(i + 1).last() == tags@[i as int]);
            assert(tags@.take(i + 1).drop_last() =~= tags@.take(i as int));
        }
        let t = &tags[i];
        if t.value.is_some() && str_eq(t.key.as_str(), key) {
            return Some(t.value.as_ref().unwrap().as_str());
        }
    }
    proof {
        assert(tags@.take(0) =~= Seq::<IrcTag>::empty());
    }
    None
}

/// The key/value pairs of a badge list: every comma-separated entry must
/// split at a slash, else the whole list is refused.
pub open spec fn spec_badge_pairs(segs: Seq<Seq<char>>) -> Option<Seq<(Seq<char>, Seq<char>)>>
    decreases segs.len(),
{
    if segs.len() == 0 {
        Some(Seq::empty())
    } else {
        match (split_once_at(segs[0], '/'), spec_badge_pairs(segs.drop_first())) {
            (Some(p), Some(rest)) => Some(seq![p].add(rest)),
            _ => None,
        }
    }
}

/// The badge list a tag denotes: absent or empty tags give no badges, and
/// a malformed list gives no badges either.
pub open spec fn spec_badge_list(tag: Option<Seq<char>>) -> Seq<(Seq<char>, Seq<char>)> {
    match tag {
        Some(s) => if s.len() == 0 {
            Seq::empty()
        } else {
            match spec_badge_pairs(split_char(s, ',')) {
                Some(ps) => ps,
                None => Seq::empty(),
            }
        },
        None => Seq::empty(),
    }
}

/// The value under `key` in a pair list, later entries shadowing earlier
/// ones as insertion into a keyed mapping leaves them.
pub open spec fn spec_pair_lookup(ps: Seq<(Seq<char>, Seq<char>)>, key: Seq<char>) -> Option<
    Seq<char>,
>
    decreases ps.len(),
{
    if ps.len() == 0 {
        None
    } else if ps.last().0 == key {
        Some(ps.last().1)
    } else {
        spec_pair_lookup(ps.drop_last(), key)
    }
}

/// Parse a badge tag into its key/value pairs.
fn parse_badge_list(tag: Option<&str>, ghost_tag: Ghost<Option<Seq<char>>>) -> (r: Vec<
    (String, String),
>)
    requires
        match tag {
            Some(t) => ghost_tag@ == Some(t@),
            None => ghost_tag@ is None,
        },
    ensures
        r.deep_view() == spec_badge_list(ghost_tag@),
{
    let s = match tag {
        Some(s) => s,
        None => {
            let r: Vec<(String, String)> = Vec::new();
            proof {
                assert(r.deep_view() =~= spec_badge_list(ghost_tag@));
            }
            return r;
        },
    };
    if s.unicode_len() == 0 {
        let r: Vec<(String, String)> = Vec::new();
        proof {
            assert(r.deep_view() =~= spec_badge_list(ghost_tag@));
        }
        return r;
    }
    let segs = split_str(s, ',');
    let mut out: Vec<(String, String)> = Vec::new();
    let mut k: usize = 0;
    proof {
        assert(segs.deep_view().skip(0) =~= segs.deep_view());
        assert(out.deep_view() =~= Seq::<(Seq<char>, Seq<char>)>::empty());
    }
    while k < segs.len()
        invariant
            0 <= k <= segs@.len(),
            ghost_tag@ == Some(s@),
            s@.len() > 0,
            segs.deep_view() == split_char(s@, ','),
            spec_badge_pairs(segs.deep_view()) is Some <==> spec_badge_pairs(
                segs.deep_view().skip(k as int),
            ) is Some,
            spec_badge_pairs(segs.deep_view()) matches Some(all) ==> spec_badge_pairs(
                segs.deep_view().skip(k as int),
            ) matches Some(rest) && all == out.deep_view().add(rest),
        decreases segs@.len() - k,
    {
        proof {
            assert(segs.deep_view().skip(k as int)[0] == segs@[k as int].deep_view());
            assert(segs.deep_view().skip(k as int).drop_first() =~= segs.deep_view().skip(
                k + 1,
            ));
        }
        match split_once(segs[k].as_str(), '/') {
            Some((key, val)) => {
                let ghost oldv = out.deep_view();
                let ghost pair = (key@, val@);
                out.push((key.to_owned(), val.to_owned()));
                proof {
                    assert(out.deep_view() =~= oldv.push(pair));
                    let tail = segs.deep_view().skip(k as int);
                    assert(spec_badge_pairs(tail) is Some <==> spec_badge_pairs(
                        tail.drop_first(),
                    ) is Some);
                    if spec_badge_pairs(segs.deep_view()) is Some {
                        let rest2 = spec_badge_pairs(tail.drop_first())->0;
                        assert(spec_badge_pairs(tail)->0 == seq![pair].add(rest2));
                        assert(oldv.add(seq![pair].add(rest2)) =~= oldv.push(pair).add(rest2));
                    }
                }
                k = k + 1;
            },
            None => {
                // One malformed entry refuses the whole list.
                let r: Vec<(String, String)> = Vec::new();
                proof {
                    let tail = segs.deep_view().skip(k as int);
                    assert(split_once_at(tail[0], '/') is None);
                    assert(tail.len() > 0);
                    assert(spec_badge_pairs(tail) is None);
                    assert(r.deep_view() =~= spec_badge_list(ghost_tag@));
                }
                return r;
            },
        }
    }
    proof {
        assert(segs.deep_view().skip(k as int) =~= Seq::<Seq<char>>::empty());
        assert(spec_badge_pairs(Seq::<Seq<char>>::empty()) is Some);
        assert(out.deep_view().add(Seq::empty()) =~= out.deep_view());
        assert(out.deep_view() == spec_badge_list(ghost_tag@));
    }
    out
}

/// Look a key up in a parsed badge list, later entries first.
fn pair_lookup<'a>(ps: &'a Vec<(String, String)>, key: &str) -> (r: Option<&'a String>)
    ensures
        r matches Some(v) ==> spec_pair_lookup(ps.deep_view(), key@) == Some(v@),
        r is None ==> spec_pair_lookup(ps.deep_view(), key@) is None,
{
    let mut i: usize = ps.len();
    proof {
        assert(ps.deep_view().take(i as int) =~= ps.deep_view());
    }
    while i > 0
        invariant
            0 <= i <= ps@.len(),
            spec_pair_lookup(ps.deep_view(), key@) == spec_pair_lookup(
                ps.deep_view().take(i as int),
                key@,
            ),
        decreases i,
    {
        i = i - 1;
        proof {
            assert(ps.deep_view().take(i + 1).last() == ps.deep_view()[i as int]);
            assert(ps.deep_view().take(i + 1).drop_last() =~= ps.deep_view().take(i as int));
        }
        if str_eq(ps[i].0.as_str(), key) {
            return Some(&ps[i].1);
        }
    }
    proof {
        assert(ps.deep_view().take(0) =~= Seq::<(Seq<char>, Seq<char>)>::empty());
    }
    None
}

/// The role a tag set denotes, in the fixed priority: a recognized
/// `user-type` first, then the `mod` flag, then a `broadcaster` badge,
/// and normal otherwise.
pub open spec fn spec_role(tags: Seq<IrcTag>) -> UserRole {
    if spec_tag(tags, "user-type"@) == Some("admin"@) {
        UserRole::TwitchAdmin
    } else if spec_tag(tags, "user-type"@) == Some("global_mod"@) {
        UserRole::GlobalModerator
    } else if spec_tag(tags, "user-type"@) == Some("staff"@) {
        UserRole::TwitchStaff
    } else if spec_tag(tags, "mod"@) == Some("1"@) {
        UserRole::Moderator
    } else if spec_pair_lookup(spec_badge_list(spec_tag(tags, "badges"@)), "broadcaster"@)
        is Some {
        UserRole::Broadcaster
    } else {
        UserRole::Normal
    }
}

/// A recognized `user-type` decides the role alone: neither the `mod`
/// flag nor any badge can override it, and the `mod` flag in turn beats
/// any badge.
pub proof fn lemma_role_priority(tags: Seq<IrcTag>)
    ensures
        spec_tag(tags, "user-type"@) == Some("admin"@) ==> spec_role(tags)
            == UserRole::TwitchAdmin,
        spec_tag(tags, "user-type"@) == Some("global_mod"@) ==> spec_role(tags)
            == UserRole::GlobalModerator,
        spec_tag(tags, "user-type"@) == Some("staff"@) ==> spec_role(tags)
            == UserRole::TwitchStaff,
        spec_tag(tags, "user-type"@) !== Some("admin"@) && spec_tag(tags, "user-type"@)
            !== Some("global_mod"@) && spec_tag(tags, "user-type"@) !== Some("staff"@)
            && spec_tag(tags, "mod"@) == Some("1"@) ==> spec_role(tags) == UserRole::Moderator,
        spec_role(tags) == UserRole::Broadcaster ==> spec_pair_lookup(
            spec_badge_list(spec_tag(tags, "badges"@)),
            "broadcaster"@,
        ) is Some,
{
    reveal_strlit("admin");
    reveal_strlit("global_mod");
    reveal_strlit("staff");
    assert("admin"@.len() == 5);
    assert("global_mod"@.len() == 10);
    assert("staff"@.len() == 5);
    assert("admin"@[0] == 'a' && "staff"@[0] == 's');
}

/// Classify the sender's role from the tags and the parsed badge list.
pub fn classify_role(tags: &Vec<IrcTag>, badges: &Vec<(String, String)>) -> (r: UserRole)
    requires
        badges.deep_view() == spec_badge_list(spec_tag(tags@, "badges"@)),
    ensures
        r == spec_role(tags@),
{
    match tag_value(tags, "user-type") {
        Some(ut) => {
            if str_eq(ut, "admin") {
                return UserRole::TwitchAdmin;
            }
            if str_eq(ut, "global_mod") {
                return UserRole::GlobalModerator;
            }
            if str_eq(ut, "staff") {
                return UserRole::TwitchStaff;
            }
        },
        None => {},
    }
    match tag_value(tags, "mod") {
        Some(m) => {
            if str_eq(m, "1") {
                return UserRole::Moderator;
            }
        },
        None => {},
    }
    if pair_lookup(badges, "broadcaster").is_some() {
        return UserRole::Broadcaster;
    }
    UserRole::Normal
}

/// The 24-bit color a color string denotes: an optional leading `#`,
/// then exactly six hexadecimal digits; anything else denotes no color.
pub open spec fn spec_color_value(v: Seq<char>) -> Option<u32> {
    let h = if v.len() > 0 && v[0] == '#' {
        v.drop_first()
    } else {
        v
    };
    if h.len() == 6 && all_hex_digits(h) {
        Some(hex_to_nat(h) as u32)
    } else {
        None
    }
}

/// The display color a tag denotes: a missing, empty or malformed tag
/// denotes no color, never zero.
pub open spec fn spec_display_color(tag: Option<Seq<char>>) -> Option<u32> {
    match tag {
        Some(v) => if v.len() == 0 {
            None
        } else {
            spec_color_value(v)
        },
        None => None,
    }
}

/// Parse the display color tag.
pub fn parse_display_color(tag: Option<&str>, ghost_tag: Ghost<Option<Seq<char>>>) -> (r: Option<
    u32,
>)
    requires
        match tag {
            Some(t) => ghost_tag@ == Some(t@),
            None => ghost_tag@ is None,
        },
    ensures
        r == spec_display_color(ghost_tag@),
{
    let v = match tag {
        Some(v) => v,
        None => {
            return None;
        },
    };
    let n = v.unicode_len();
    if n == 0 {
        return None;
    }
    let start: usize = if v.get_char(0) == '#' {
        1
    } else {
        0
    };
    let ghost h = if v@.len() > 0 && v@[0] == '#' {
        v@.drop_first()
    } else {
        v@
    };
    proof {
        assert(h =~= v@.subrange(start as int, v@.len() as int));
    }
    if n - start != 6 {
        return None;
    }
    let r = crate::text::parse_hex_span(v, start, 6);
    proof {
        assert(v@.subrange(start as int, start + 6) =~= h);
        if all_hex_digits(h) {
            crate::text::lemma_hex_bound(h);
            crate::text::lemma_pow16_values();
            crate::text::lemma_pow16_le(6, 7);
        }
    }
    r
}

/// The subscription-months count the `badge-info` tag denotes: the
/// `subscriber` entry parsed as a positive 16-bit count.
pub open spec fn spec_sub_months(tags: Seq<IrcTag>) -> Option<u16> {
    match spec_pair_lookup(spec_badge_list(spec_tag(tags, "badge-info"@)), "subscriber"@) {
        Some(v) => match bounded_u64_from_str(v, 0xffff) {
            Some(m) => if m > 0 {
                Some(m as u16)
            } else {
                None
            },
            None => None,
        },
        None => None,
    }
}

/// Read the subscription-months count from the parsed `badge-info` list.
pub fn sub_months_of(tags: &Vec<IrcTag>, badge_info: &Vec<(String, String)>) -> (r: Option<u16>)
    requires
        badge_info.deep_view() == spec_badge_list(spec_tag(tags@, "badge-info"@)),
    ensures
        r == spec_sub_months(tags@),
{
    match pair_lookup(badge_info, "subscriber") {
        Some(v) => match parse_u64_max(v.as_str(), 0xffff) {
            Some(m) => if m > 0 {
                Some(m as u16)
            } else {
                None
            },
            None => None,
        },
        None => None,
    }
}

/// The bits count a `bits` tag denotes: present, non-empty, and a
/// positive 32-bit number; anything else means the message carries none.
pub open spec fn spec_bits(tags: Seq<IrcTag>) -> Option<u32> {
    match spec_tag(tags, "bits"@) {
        Some(v) => if v.len() == 0 {
            None
        } else {
            match bounded_u64_from_str(v, 0xffff_ffff) {
                Some(b) => if b > 0 {
                    Some(b as u32)
                } else {
                    None
                },
                None => None,
            }
        },
        None => None,
    }
}

/// Read the bits count from the tags.
pub fn bits_of(tags: &Vec<IrcTag>) -> (r: Option<u32>)
    ensures
        r == spec_bits(tags@),
{
    match tag_value(tags, "bits") {
        Some(v) => {
            if v.unicode_len() == 0 {
                return None;
            }
            match parse_u64_max(v, 0xffff_ffff) {
                Some(b) => if b > 0 {
                    Some(b as u32)
                } else {
                    None
                },
                None => None,
            }
        },
        None => None,
    }
}

/// The display name the tags give a sender: the `display-name` tag when
/// present and non-empty, the user part of the prefix otherwise.
pub open spec fn spec_display_name(tags: Seq<IrcTag>, fallback: Seq<char>) -> Seq<char> {
    match spec_tag(tags, "display-name"@) {
        Some(v) => if v.len() == 0 {
            fallback
        } else {
            v
        },
        None => fallback,
    }
}

/// A boolean tag holding exactly `"1"`.
pub open spec fn spec_flag(tags: Seq<IrcTag>, key: Seq<char>) -> bool {
    spec_tag(tags, key) == Some("1"@)
}

/// Whether the tag named `key` holds exactly `"1"`.
pub fn flag_of(tags: &Vec<IrcTag>, key: &str) -> (r: bool)
    ensures
        r == spec_flag(tags@, key@),
{
    match tag_value(tags, key) {
        Some(v) => str_eq(v, "1"),
        None => false,
    }
}

/// Seconds denoted by a millisecond count, floored.
pub open spec fn spec_floor_ms_to_s(ms: i64) -> i64 {
    (ms as int / 1000) as i64
}

/// Floor a millisecond count to whole seconds, toward minus infinity.
pub fn floor_div_1000(ms: i64) -> (q: i64)
    ensures
        q == spec_floor_ms_to_s(ms),
{
    if ms >= 0 {
        let m = ms as u64;
        let d = m / 1000;
        d as i64
    } else if ms == i64::MIN {
        proof {
            assert(i64::MIN as int / 1000 == -9_223_372_036_854_776int);
        }
        -9_223_372_036_854_776i64
    } else {
        let p = (-ms) as u64;
        let d = p / 1000;
        let r = p % 1000;
        proof {
            assert(ms as int == -(p as int));
            assert(p as int == 1000 * (p as int / 1000) + p as int % 1000);
        }
        if r == 0 {
            proof {
                assert(ms as int / 1000 == -(d as int));
            }
            -(d as i64)
        } else {
            proof {
                assert(ms as int / 1000 == -(d as int) - 1);
            }
            -((d + 1) as i64)
        }
    }
}

/// The message id the tags denote, as a 128-bit UUID value.
pub open spec fn spec_msg_id(tags: Seq<IrcTag>) -> Option<u128> {
    match spec_tag(tags, "id"@) {
        Some(v) => uuid_from_str(v),
        None => None,
    }
}

/// The reply-parent message id the tags denote, if any.
pub open spec fn spec_reply_to(tags: Seq<IrcTag>) -> Option<u128> {
    match spec_tag(tags, "reply-parent-msg-id"@) {
        Some(v) => uuid_from_str(v),
        None => None,
    }
}

/// The sender's numeric channel id.
pub open spec fn spec_user_id(tags: Seq<IrcTag>) -> Option<u64> {
    match spec_tag(tags, "user-id"@) {
        Some(v) => crate::text::u64_from_str(v),
        None => None,
    }
}

/// The milliseconds-since-epoch timestamp of the message.
pub open spec fn spec_sent_ts(tags: Seq<IrcTag>) -> Option<i64> {
    match spec_tag(tags, "tmi-sent-ts"@) {
        Some(v) => crate::text::i64_from_str(v),
        None => None,
    }
}

/// The 128-bit value of the UUID a string denotes, when it denotes one.
pub uninterp spec fn uuid_from_str(s: Seq<char>) -> Option<u128>;

/// Relies on uuid::Uuid::try_parse: whether a string denotes a UUID, and
/// which 128-bit value, depend on its characters alone.
#[verifier::external_body]
fn parse_uuid(s: &str) -> (r: Option<u128>)
    ensures
        r == uuid_from_str(s@),
{
    match uuid::Uuid::try_parse(s) {
        Ok(u) => Some(u.as_u128()),
        Err(_) => None,
    }
}


/// One emote range entry `start "-" end`, both parsed as unsigned
/// indices; the range is inclusive.
pub open spec fn spec_range_entry(id: Seq<char>, range: Seq<char>) -> Option<
    (Seq<char>, usize, usize),
> {
    match split_once_at(range, '-') {
        Some(p) => match (
            bounded_u64_from_str(p.0, usize::MAX as u64),
            bounded_u64_from_str(p.1, usize::MAX as u64),
        ) {
            (Some(f), Some(t)) => Some((id, f as usize, t as usize)),
            _ => None,
        },
        None => None,
    }
}

/// The occurrences one emote segment contributes: its id applied to each
/// comma-separated range.
pub open spec fn spec_emote_ranges(id: Seq<char>, ranges: Seq<Seq<char>>) -> Option<
    Seq<(Seq<char>, usize, usize)>,
>
    decreases ranges.len(),
{
    if ranges.len() == 0 {
        Some(Seq::empty())
    } else {
        match (spec_range_entry(id, ranges[0]), spec_emote_ranges(id, ranges.drop_first())) {
            (Some(e), Some(rest)) => Some(seq![e].add(rest)),
            _ => None,
        }
    }
}

/// One slash-separated emote segment: `id ":" range ("," range)*`.
pub open spec fn spec_emote_seg(seg: Seq<char>) -> Option<Seq<(Seq<char>, usize, usize)>> {
    match split_once_at(seg, ':') {
        Some(p) => spec_emote_ranges(p.0, split_char(p.1, ',')),
        None => None,
    }
}

/// The occurrences an emote tag denotes. Reading stops at the first
/// empty segment; a malformed segment before that refuses the tag.
pub open spec fn spec_emote_list(segs: Seq<Seq<char>>) -> Option<Seq<(Seq<char>, usize, usize)>>
    decreases segs.len(),
{
    if segs.len() == 0 {
        Some(Seq::empty())
    } else if segs[0].len() == 0 {
        Some(Seq::empty())
    } else {
        match (spec_emote_seg(segs[0]), spec_emote_list(segs.drop_first())) {
            (Some(es), Some(rest)) => Some(es.add(rest)),
            _ => None,
        }
    }
}

/// The occurrences an emote tag denotes, in tag order.
pub open spec fn spec_emotes(tag: Seq<char>) -> Option<Seq<(Seq<char>, usize, usize)>> {
    spec_emote_list(split_char(tag, '/'))
}

/// Parse the ranges of one emote segment, appending each occurrence.
fn parse_ranges_into(id: &str, ranges: &Vec<String>, out: &mut Vec<(String, usize, usize)>) -> (ok:
    bool)
    ensures
        ok <==> spec_emote_ranges(id@, ranges.deep_view()) is Some,
        ok ==> final(out).deep_view() == old(out).deep_view().add(
            spec_emote_ranges(id@, ranges.deep_view())->0,
        ),
{
    let mut j: usize = 0;
    proof {
        assert(ranges.deep_view().skip(0) =~= ranges.deep_view());
        assert(out.deep_view().add(Seq::empty()) =~= out.deep_view());
    }
    while j < ranges.len()
        invariant
            0 <= j <= ranges@.len(),
            spec_emote_ranges(id@, ranges.deep_view()) is Some <==> spec_emote_ranges(
                id@,
                ranges.deep_view().skip(j as int),
            ) is Some,
            spec_emote_ranges(id@, ranges.deep_view()) matches Some(all) ==> spec_emote_ranges(
                id@,
                ranges.deep_view().skip(j as int),
            ) matches Some(rest) && old(out).deep_view().add(all) == out.deep_view().add(rest),
        decreases ranges@.len() - j,
    {
        proof {
            assert(ranges.deep_view().skip(j as int)[0] == ranges@[j as int].deep_view());
            assert(ranges.deep_view().skip(j as int).drop_first() =~= ranges.deep_view().skip(
                j + 1,
            ));
        }
        let entry = match split_once(ranges[j].as_str(), '-') {
            Some((a, b)) => {
                match (
                    crate::text::parse_u64_max(a, usize::MAX as u64),
                    crate::text::parse_u64_max(b, usize::MAX as u64),
                ) {
                    (Some(f), Some(t)) => Some((id.to_owned(), f as usize, t as usize)),
                    _ => None,
                }
            },
            None => None,
        };
        match entry {
            Some(e) => {
                let ghost oldv = out.deep_view();
                let ghost ev = (id@, e.1, e.2);
                out.push(e);
                proof {
                    assert(out.deep_view() =~= oldv.push(ev));
                    let tail = ranges.deep_view().skip(j as int);
                    if spec_emote_ranges(id@, ranges.deep_view()) is Some {
                        let rest2 = spec_emote_ranges(id@, tail.drop_first())->0;
                        assert(spec_emote_ranges(id@, tail)->0 == seq![ev].add(rest2));
                        assert(oldv.add(seq![ev].add(rest2)) =~= oldv.push(ev).add(rest2));
                    }
                }
                j = j + 1;
            },
            None => {
                proof {
                    assert(spec_range_entry(id@, ranges.deep_view().skip(j as int)[0]) is None);
                    assert(spec_emote_ranges(id@, ranges.deep_view().skip(j as int)) is None);
                }
                return false;
            },
        }
    }
    proof {
        assert(ranges.deep_view().skip(j as int) =~= Seq::<Seq<char>>::empty());
        assert(spec_emote_ranges(id@, Seq::<Seq<char>>::empty()) is Some);
        assert(out.deep_view().add(Seq::empty()) =~= out.deep_view());
    }
    true
}

/// Parse an emote tag into its occurrences, in tag order.
pub fn parse_emotes(tag: &str) -> (r: Option<Vec<(String, usize, usize)>>)
    ensures
        r is Some <==> spec_emotes(tag@) is Some,
        r matches Some(v) ==> spec_emotes(tag@) == Some(v.deep_view()),
{
    let segs = split_str(tag, '/');
    let mut out: Vec<(String, usize, usize)> = Vec::new();
    let mut k: usize = 0;
    proof {
        assert(segs.deep_view().skip(0) =~= segs.deep_view());
        assert(out.deep_view() =~= Seq::<(Seq<char>, usize, usize)>::empty());
    }
    while k < segs.len()
        invariant
            0 <= k <= segs@.len(),
            segs.deep_view() == split_char(tag@, '/'),
            spec_emote_list(segs.deep_view()) is Some <==> spec_emote_list(
                segs.deep_view().skip(k as int),
            ) is Some,
            spec_emote_list(segs.deep_view()) matches Some(all) ==> spec_emote_list(
                segs.deep_view().skip(k as int),
            ) matches Some(rest) && all == out.deep_view().add(rest),
        decreases segs@.len() - k,
    {
        proof {
            assert(segs.deep_view().skip(k as int)[0] == segs@[k as int].deep_view());
            assert(segs.deep_view().skip(k as int).drop_first() =~= segs.deep_view().skip(
                k + 1,
            ));
        }
        if segs[k].as_str().unicode_len() == 0 {
            // An empty segment ends the tag.
            proof {
                assert(spec_emote_list(segs.deep_view().skip(k as int)) == Some(
                    Seq::<(Seq<char>, usize, usize)>::empty(),
                ));
                assert(out.deep_view().add(Seq::empty()) =~= out.deep_view());
            }
            return Some(out);
        }
        match split_once(segs[k].as_str(), ':') {
            Some((id, ranges_str)) => {
                let ranges = split_str(ranges_str, ',');
                let ghost oldv = out.deep_view();
                let ok = parse_ranges_into(id, &ranges, &mut out);
                if !ok {
                    proof {
                        assert(spec_emote_seg(segs.deep_view().skip(k as int)[0]) is None);
                        assert(spec_emote_list(segs.deep_view().skip(k as int)) is None);
                    }
                    return None;
                }
                proof {
                    let tail = segs.deep_view().skip(k as int);
                    assert(spec_emote_seg(tail[0]) == spec_emote_ranges(
                        id@,
                        ranges.deep_view(),
                    ));
                    if spec_emote_list(segs.deep_view()) is Some {
                        let es = spec_emote_seg(tail[0])->0;
                        let rest2 = spec_emote_list(tail.drop_first())->0;
                        assert(spec_emote_list(tail)->0 == es.add(rest2));
                        assert(oldv.add(es.add(rest2)) =~= oldv.add(es).add(rest2));
                    }
                }
                k = k + 1;
            },
            None => {
                proof {
                    assert(spec_emote_seg(segs.deep_view().skip(k as int)[0]) is None);
                    assert(spec_emote_list(segs.deep_view().skip(k as int)) is None);
                }
                return None;
            },
        }
    }
    proof {
        assert(segs.deep_view().skip(k as int) =~= Seq::<Seq<char>>::empty());
        assert(spec_emote_list(Seq::<Seq<char>>::empty()) is Some);
        assert(out.deep_view().add(Seq::empty()) =~= out.deep_view());
    }
    Some(out)
}


/// Insert an occurrence into a list ordered by start index, after any
/// entries with the same start, as a stable sort places it.
pub open spec fn spec_insert_by_start(
    s: Seq<(Seq<char>, usize, usize)>,
    e: (Seq<char>, usize, usize),
) -> Seq<(Seq<char>, usize, usize)>
    decreases s.len(),
{
    if s.len() == 0 {
        seq![e]
    } else if s.last().1 <= e.1 {
        s.push(e)
    } else {
        spec_insert_by_start(s.drop_last(), e).push(s.last())
    }
}

/// The occurrences ordered by start index, entries with equal starts
/// keeping their tag order: the stable sort the translation applies.
pub open spec fn spec_sort_by_start(s: Seq<(Seq<char>, usize, usize)>) -> Seq<
    (Seq<char>, usize, usize),
>
    decreases s.len(),
{
    if s.len() == 0 {
        s
    } else {
        spec_insert_by_start(spec_sort_by_start(s.drop_last()), s.last())
    }
}

/// Where the stable insertion lands: before every entry with a larger
/// start, after everything else.
proof fn lemma_insert_at(s: Seq<(Seq<char>, usize, usize)>, e: (Seq<char>, usize, usize), j: int)
    requires
        0 <= j <= s.len(),
        forall|m: int| j <= m < s.len() ==> (#[trigger] s[m]).1 > e.1,
        j > 0 ==> s[j - 1].1 <= e.1,
    ensures
        spec_insert_by_start(s, e) == s.take(j).add(seq![e]).add(s.skip(j)),
    decreases s.len(),
{
    if s.len() == 0 {
        assert(spec_insert_by_start(s, e) =~= s.take(j).add(seq![e]).add(s.skip(j)));
    } else if j == s.len() {
        assert(s.take(j) =~= s);
        assert(s.skip(j) =~= Seq::empty());
        assert(spec_insert_by_start(s, e) =~= s.take(j).add(seq![e]).add(s.skip(j)));
    } else {
        assert(s[s.len() - 1].1 > e.1);
        lemma_insert_at(s.drop_last(), e, j);
        assert(s.drop_last().take(j) =~= s.take(j));
        assert(spec_insert_by_start(s.drop_last(), e).push(s.last()) =~= s.take(j).add(
            seq![e],
        ).add(s.skip(j)));
    }
}

/// Sort emote occurrences by their start index, stably.
pub fn sort_emotes(v: Vec<(String, usize, usize)>) -> (r: Vec<(String, usize, usize)>)
    ensures
        r.deep_view() == spec_sort_by_start(v.deep_view()),
{
    let mut out: Vec<(String, usize, usize)> = Vec::new();
    let mut k: usize = 0;
    proof {
        assert(v.deep_view().take(0) =~= Seq::<(Seq<char>, usize, usize)>::empty());
        assert(out.deep_view() =~= spec_sort_by_start(v.deep_view().take(0)));
    }
    while k < v.len()
        invariant
            0 <= k <= v@.len(),
            v.deep_view().len() == v@.len(),
            out.deep_view() == spec_sort_by_start(v.deep_view().take(k as int)),
            out@.len() == k,
        decreases v@.len() - k,
    {
        let e = (v[k].0.clone(), v[k].1, v[k].2);
        let ghost ev = v.deep_view()[k as int];
        proof {
            assert(ev == (v@[k as int].0@, v@[k as int].1, v@[k as int].2));
        }
        let mut j: usize = out.len();
        while j > 0 && out[j - 1].1 > e.1
            invariant
                0 <= j <= out@.len(),
                out@.len() == k,
                out.deep_view().len() == k,
                forall|m: int| j <= m < out@.len() ==> (#[trigger] out.deep_view()[m]).1 > e.1,
                forall|m: int| 0 <= m < out@.len() ==> out.deep_view()[m].1 == out@[m].1,
            decreases j,
        {
            j = j - 1;
        }
        let ghost oldv = out.deep_view();
        proof {
            assert(e.1 == ev.1);
        }
        out.insert(j, e);
        proof {
            assert(out.deep_view() =~= oldv.take(j as int).add(seq![ev]).add(
                oldv.skip(j as int),
            ));
            lemma_insert_at(oldv, ev, j as int);
            assert(v.deep_view().take(k + 1).drop_last() =~= v.deep_view().take(k as int));
            assert(v.deep_view().take(k + 1).last() == ev);
        }
        k = k + 1;
    }
    proof {
        assert(v.deep_view().take(k as int) =~= v.deep_view());
    }
    out
}

/// The shape of a message body walked from code point `i` with the given
/// emote occurrences: the gap before each emote becomes literal text,
/// the emote covers its inclusive range, and the tail after the last
/// emote becomes literal text. A range reaching past the end of the
/// body fails the walk.
pub open spec fn spec_seg_walk(
    body: Seq<char>,
    emotes: Seq<(Seq<char>, usize, usize)>,
    i: nat,
) -> Option<Seq<SegView>>
    decreases emotes.len(),
{
    if emotes.len() == 0 {
        if i < body.len() {
            Some(seq![SegView::Text { text: body.subrange(i as int, body.len() as int) }])
        } else {
            Some(Seq::empty())
        }
    } else {
        let id = emotes[0].0;
        let start = emotes[0].1;
        let end = emotes[0].2;
        if start > i && start > body.len() {
            None
        } else {
            let gap: Seq<SegView> = if start > i {
                seq![SegView::Text { text: body.subrange(i as int, start as int) }]
            } else {
                Seq::empty()
            };
            if end >= start {
                if end >= body.len() {
                    None
                } else {
                    match spec_seg_walk(body, emotes.drop_first(), (end + 1) as nat) {
                        Some(rest) => Some(
                            gap.add(
                                seq![
                                    SegView::Emote {
                                        name: body.subrange(start as int, end + 1),
                                        id: id,
                                    },
                                ],
                            ).add(rest),
                        ),
                        None => None,
                    }
                }
            } else {
                match spec_seg_walk(body, emotes.drop_first(), i) {
                    Some(rest) => Some(gap.add(rest)),
                    None => None,
                }
            }
        }
    }
}

/// The segments of a message body: a single literal segment when there
/// are no emotes, the walk from the start otherwise.
pub open spec fn spec_segment_message(
    body: Seq<char>,
    emotes: Seq<(Seq<char>, usize, usize)>,
) -> Option<Seq<SegView>> {
    if emotes.len() == 0 {
        Some(seq![SegView::Text { text: body }])
    } else {
        spec_seg_walk(body, emotes, 0)
    }
}

/// A `Some` sequence with `pre` in front, or the failure unchanged.
pub open spec fn with_prefix(pre: Seq<SegView>, o: Option<Seq<SegView>>) -> Option<Seq<SegView>> {
    match o {
        Some(s) => Some(pre.add(s)),
        None => None,
    }
}

/// Segment a message body along its sorted emote occurrences.
pub fn segment_message(body: &str, emotes: &Vec<(String, usize, usize)>) -> (r: Option<
    Vec<MessageSegment>,
>)
    ensures
        r is Some <==> spec_segment_message(body@, emotes.deep_view()) is Some,
        r matches Some(v) ==> spec_segment_message(body@, emotes.deep_view()) == Some(
            v.deep_view(),
        ),
{
    let n = body.unicode_len();
    if emotes.len() == 0 {
        let v = vec![MessageSegment::Text { text: body.to_owned() }];
        proof {
            assert(v.deep_view() =~= seq![SegView::Text { text: body@ }]);
        }
        return Some(v);
    }
    let mut out: Vec<MessageSegment> = Vec::new();
    let mut i: usize = 0;
    let mut k: usize = 0;
    proof {
        assert(emotes.deep_view().skip(0) =~= emotes.deep_view());
        assert(out.deep_view() =~= Seq::<SegView>::empty());
        assert(with_prefix(out.deep_view(), spec_seg_walk(body@, emotes.deep_view(), 0))
            == spec_seg_walk(body@, emotes.deep_view(), 0));
    }
    while k < emotes.len()
        invariant
            0 <= k <= emotes@.len(),
            emotes@.len() > 0,
            i <= n,
            n == body@.len(),
            emotes.deep_view().len() == emotes@.len(),
            spec_seg_walk(body@, emotes.deep_view(), 0) == with_prefix(
                out.deep_view(),
                spec_seg_walk(body@, emotes.deep_view().skip(k as int), i as nat),
            ),
        decreases emotes@.len() - k,
    {
        let start = emotes[k].1;
        let end = emotes[k].2;
        let ghost tail = emotes.deep_view().skip(k as int);
        proof {
            assert(tail[0] == emotes.deep_view()[k as int]);
            assert(tail[0].1 == emotes@[k as int].1 && tail[0].2 == emotes@[k as int].2);
            assert(tail.drop_first() =~= emotes.deep_view().skip(k + 1));
        }
        if start > i {
            if start > n {
                return None;
            }
            let ghost oldv = out.deep_view();
            out.push(MessageSegment::Text { text: body.substring_char(i, start).to_owned() });
            proof {
                assert(out.deep_view() =~= oldv.push(
                    SegView::Text { text: body@.subrange(i as int, start as int) },
                ));
            }
        }
        if end >= start {
            if end >= n {
                return None;
            }
            let ghost oldv = out.deep_view();
            out.push(
                MessageSegment::Emote {
                    name: body.substring_char(start, end + 1).to_owned(),
                    id: emotes[k].0.clone(),
                },
            );
            proof {
                assert(out.deep_view() =~= oldv.push(
                    SegView::Emote { name: body@.subrange(start as int, end + 1), id: tail[0].0 },
                ));
            }
            i = end + 1;
        }
        proof {
            assert(spec_seg_walk(body@, emotes.deep_view(), 0) == with_prefix(
                out.deep_view(),
                spec_seg_walk(body@, emotes.deep_view().skip(k + 1), i as nat),
            ));
        }
        k = k + 1;
    }
    if i < n {
        let ghost oldv = out.deep_view();
        out.push(MessageSegment::Text { text: body.substring_char(i, n).to_owned() });
        proof {
            assert(out.deep_view() =~= oldv.push(
                SegView::Text { text: body@.subrange(i as int, n as int) },
            ));
        }
    }
    proof {
        assert(emotes.deep_view().skip(k as int) =~= Seq::<(Seq<char>, usize, usize)>::empty());
    }
    Some(out)
}


/// The text of a sequence of segments, in order.
pub open spec fn spec_concat_segments(segs: Seq<SegView>) -> Seq<char>
    decreases segs.len(),
{
    if segs.len() == 0 {
        Seq::empty()
    } else {
        seg_text(segs[0]).add(spec_concat_segments(segs.drop_first()))
    }
}

/// Concatenation distributes over appending segment lists.
proof fn lemma_concat_append(a: Seq<SegView>, b: Seq<SegView>)
    ensures
        spec_concat_segments(a.add(b)) == spec_concat_segments(a).add(spec_concat_segments(b)),
    decreases a.len(),
{
    if a.len() == 0 {
        assert(a.add(b) =~= b);
        assert(spec_concat_segments(a) =~= Seq::<char>::empty());
        assert(spec_concat_segments(a).add(spec_concat_segments(b)) =~= spec_concat_segments(b));
    } else {
        lemma_concat_append(a.drop_first(), b);
        assert(a.add(b).drop_first() =~= a.drop_first().add(b));
        assert(a.add(b)[0] == a[0]);
        assert(seg_text(a[0]).add(
            spec_concat_segments(a.drop_first()).add(spec_concat_segments(b)),
        ) =~= seg_text(a[0]).add(spec_concat_segments(a.drop_first())).add(
            spec_concat_segments(b),
        ));
    }
}

/// Emote ranges that tile the body from position `i`: each next range
/// starts at or after the walker's position, runs forward, and ends
/// inside the body.
pub open spec fn spec_ranges_ok(
    body: Seq<char>,
    emotes: Seq<(Seq<char>, usize, usize)>,
    i: nat,
) -> bool
    decreases emotes.len(),
{
    if emotes.len() == 0 {
        true
    } else {
        &&& i <= emotes[0].1
        &&& emotes[0].1 <= emotes[0].2
        &&& emotes[0].2 < body.len()
        &&& spec_ranges_ok(body, emotes.drop_first(), (emotes[0].2 + 1) as nat)
    }
}

/// Over well-formed ranges the walk succeeds, and its segments carry
/// exactly the rest of the body.
proof fn lemma_seg_walk_concat(body: Seq<char>, emotes: Seq<(Seq<char>, usize, usize)>, i: nat)
    requires
        i <= body.len(),
        spec_ranges_ok(body, emotes, i),
    ensures
        spec_seg_walk(body, emotes, i) matches Some(s) && spec_concat_segments(s) == body.skip(
            i as int,
        ),
    decreases emotes.len(),
{
    if emotes.len() == 0 {
        if i < body.len() {
            let s = seq![SegView::Text { text: body.subrange(i as int, body.len() as int) }];
            assert(s.drop_first() =~= Seq::<SegView>::empty());
            assert(spec_concat_segments(Seq::<SegView>::empty()) =~= Seq::<char>::empty());
            assert(spec_concat_segments(s) =~= body.skip(i as int));
        } else {
            assert(body.skip(i as int) =~= Seq::<char>::empty());
        }
    } else {
        let start = emotes[0].1;
        let end = emotes[0].2;
        let id = emotes[0].0;
        lemma_seg_walk_concat(body, emotes.drop_first(), (end + 1) as nat);
        let gap: Seq<SegView> = if start > i {
            seq![SegView::Text { text: body.subrange(i as int, start as int) }]
        } else {
            Seq::empty()
        };
        let emote = seq![SegView::Emote { name: body.subrange(start as int, end + 1), id: id }];
        let rest = spec_seg_walk(body, emotes.drop_first(), (end + 1) as nat)->0;
        assert(spec_seg_walk(body, emotes, i) == Some(gap.add(emote).add(rest)));
        lemma_concat_append(gap.add(emote), rest);
        lemma_concat_append(gap, emote);
        assert(emote.drop_first() =~= Seq::<SegView>::empty());
        assert(spec_concat_segments(Seq::<SegView>::empty()) =~= Seq::<char>::empty());
        assert(spec_concat_segments(emote) =~= body.subrange(start as int, end + 1));
        if start > i {
            assert(gap.drop_first() =~= Seq::<SegView>::empty());
            assert(spec_concat_segments(gap) =~= body.subrange(i as int, start as int));
        } else {
            assert(spec_concat_segments(gap) =~= Seq::<char>::empty());
            assert(i == start);
        }
        assert(spec_concat_segments(gap.add(emote).add(rest)) =~= body.skip(i as int));
    }
}

/// Concatenating the segments of a message whose emote ranges are
/// well-formed — ordered, forward, disjoint and inside the body —
/// reproduces the message body exactly: literal text for the gaps, the
/// covered substring for each emote.
pub proof fn lemma_segments_rebuild_body(body: Seq<char>, emotes: Seq<(Seq<char>, usize, usize)>)
    requires
        spec_ranges_ok(body, emotes, 0),
    ensures
        spec_segment_message(body, emotes) matches Some(s) && spec_concat_segments(s) == body,
{
    if emotes.len() == 0 {
        let s = seq![SegView::Text { text: body }];
        assert(s.drop_first() =~= Seq::<SegView>::empty());
        assert(spec_concat_segments(Seq::<SegView>::empty()) =~= Seq::<char>::empty());
        assert(spec_concat_segments(s) =~= body);
    } else {
        lemma_seg_walk_concat(body, emotes, 0);
        assert(body.skip(0) =~= body);
    }
}


/// The sorted emote occurrences a message's tags denote, where the tag
/// is present and parses.
pub open spec fn spec_sorted_emotes(tags: Seq<IrcTag>) -> Option<Seq<(Seq<char>, usize, usize)>> {
    match spec_tag(tags, "emotes"@) {
        Some(t) => match spec_emotes(t) {
            Some(es) => Some(spec_sort_by_start(es)),
            None => None,
        },
        None => None,
    }
}

/// Which `PRIVMSG` lines become events: the line carries tags and a
/// nickname prefix, the `emotes` tag is present and well-formed with
/// ranges inside the body, and the `user-id`, `id` and `tmi-sent-ts`
/// tags parse. Anything else is dropped silently.
pub open spec fn spec_privmsg_accepted(msg: IrcMessage) -> bool {
    &&& msg.tags is Some
    &&& msg.prefix matches Some(IrcPrefix::Nickname { .. })
    &&& spec_sorted_emotes(msg.tags->0@) is Some
    &&& spec_segment_message(msg.command->Privmsg_body@, spec_sorted_emotes(msg.tags->0@)->0)
        is Some
    &&& spec_user_id(msg.tags->0@) is Some
    &&& spec_msg_id(msg.tags->0@) is Some
    &&& spec_sent_ts(msg.tags->0@) is Some
}

/// The sender fields an accepted message yields.
pub open spec fn spec_user_ok(
    u: User,
    tags: Seq<IrcTag>,
    nick: Seq<char>,
    userpart: Seq<char>,
) -> bool {
    &&& u.username@ == nick
    &&& u.display_name@ == spec_display_name(tags, userpart)
    &&& Some(u.id) == spec_user_id(tags)
    &&& u.display_color == spec_display_color(spec_tag(tags, "color"@))
    &&& u.sub_months == spec_sub_months(tags)
    &&& u.role == spec_role(tags)
    &&& u.returning_chatter == spec_flag(tags, "returning-chatter"@)
}

/// The event an accepted `PRIVMSG` yields: a bits event when the `bits`
/// tag carries a positive count, a plain message otherwise, with every
/// field as the tags denote it.
pub open spec fn spec_privmsg_event_ok(msg: IrcMessage, ev: ChatEvent) -> bool {
    let tags = msg.tags->0@;
    let body = msg.command->Privmsg_body@;
    let nick = msg.prefix->0->Nickname_nick@;
    let userpart = msg.prefix->0->Nickname_user@;
    let segs = spec_segment_message(body, spec_sorted_emotes(tags)->0)->0;
    match spec_bits(tags) {
        Some(b) => ev matches ChatEvent::SendBits { id, user, bits, sent_at, segments } && Some(
            id,
        ) == spec_msg_id(tags) && bits == b && (match spec_sent_ts(tags) {
            Some(ms) => sent_at == spec_floor_ms_to_s(ms),
            None => false,
        }) && spec_user_ok(user, tags, nick, userpart) && segments.deep_view() == segs,
        None => ev matches ChatEvent::Message {
            id,
            user,
            sent_at,
            reply_to,
            emote_only,
            first_message,
            contents,
        } && Some(id) == spec_msg_id(tags) && (match spec_sent_ts(tags) {
            Some(ms) => sent_at == spec_floor_ms_to_s(ms),
            None => false,
        }) && reply_to == spec_reply_to(tags) && emote_only == spec_flag(tags, "emote-only"@)
            && first_message == spec_flag(tags, "first-msg"@) && spec_user_ok(
            user,
            tags,
            nick,
            userpart,
        ) && contents.deep_view() == segs,
    }
}

/// The member names of a names reply: everything after the first three
/// parameters.
fn names_from(params: &Vec<String>) -> (r: Vec<String>)
    requires
        params@.len() >= 3,
    ensures
        r.deep_view() == params.deep_view().skip(3),
{
    let mut r: Vec<String> = Vec::new();
    let mut j: usize = 3;
    proof {
        assert(r.deep_view() =~= params.deep_view().subrange(3, 3));
    }
    while j < params.len()
        invariant
            3 <= j <= params@.len(),
            params.deep_view().len() == params@.len(),
            r.deep_view() == params.deep_view().subrange(3, j as int),
        decreases params@.len() - j,
    {
        let ghost oldv = r.deep_view();
        r.push(params[j].clone());
        proof {
            assert(r.deep_view() =~= oldv.push(params.deep_view()[j as int]));
            assert(r.deep_view() =~= params.deep_view().subrange(3, j + 1));
        }
        j = j + 1;
    }
    proof {
        assert(params.deep_view().subrange(3, params.deep_view().len() as int)
            =~= params.deep_view().skip(3));
    }
    r
}

/// Translate one IRC line into a chat event. A `PRIVMSG` yields a
/// message or a bits event when its tags are accepted, and is dropped
/// silently otherwise; a names reply yields its member chunk; the end
/// of a names list yields its marker; everything else is dropped.
pub fn to_chat_event(message: IrcMessage) -> (r: Option<ChatEvent>)
    requires
        message.command matches IrcCommand::NamReply { params } ==> params@.len() >= 3,
    ensures
        r is Some <==> match message.command {
            IrcCommand::Privmsg { .. } => spec_privmsg_accepted(message),
            IrcCommand::NamReply { .. } => true,
            IrcCommand::EndOfNames => true,
            IrcCommand::Other => false,
        },
        (message.command is Privmsg && r is Some) ==> spec_privmsg_event_ok(message, r->0),
        (message.command is NamReply && r is Some) ==> (r->0 matches ChatEvent::MemberChunk {
            names,
        } && names.deep_view() == message.command->NamReply_params.deep_view().skip(3)),
        (message.command is EndOfNames && r is Some) ==> r->0 is EndOfMembers,
{
    match message.command {
        IrcCommand::Privmsg { target: _, body } => {
            let tags = match message.tags {
                Some(t) => t,
                None => {
                    return None;
                },
            };
            let (nick, userpart) = match message.prefix {
                Some(IrcPrefix::Nickname { nick, user, host: _ }) => (nick, user),
                _ => {
                    return None;
                },
            };
            let emotes_tag = match tag_value(&tags, "emotes") {
                Some(v) => v,
                None => {
                    return None;
                },
            };
            let parsed = match parse_emotes(emotes_tag) {
                Some(p) => p,
                None => {
                    return None;
                },
            };
            let sorted = sort_emotes(parsed);
            let segments = match segment_message(body.as_str(), &sorted) {
                Some(s) => s,
                None => {
                    return None;
                },
            };
            let user_id = match tag_value(&tags, "user-id") {
                Some(v) => match crate::text::parse_u64(v) {
                    Some(x) => x,
                    None => {
                        return None;
                    },
                },
                None => {
                    return None;
                },
            };
            let msg_id = match tag_value(&tags, "id") {
                Some(v) => match parse_uuid(v) {
                    Some(x) => x,
                    None => {
                        return None;
                    },
                },
                None => {
                    return None;
                },
            };
            let sent_ms = match tag_value(&tags, "tmi-sent-ts") {
                Some(v) => match crate::text::parse_i64(v) {
                    Some(x) => x,
                    None => {
                        return None;
                    },
                },
                None => {
                    return None;
                },
            };
            let sent_at = floor_div_1000(sent_ms);
            let badges = parse_badge_list(
                tag_value(&tags, "badges"),
                Ghost(spec_tag(tags@, "badges"@)),
            );
            let badge_info = parse_badge_list(
                tag_value(&tags, "badge-info"),
                Ghost(spec_tag(tags@, "badge-info"@)),
            );
            let color = parse_display_color(
                tag_value(&tags, "color"),
                Ghost(spec_tag(tags@, "color"@)),
            );
            let role = classify_role(&tags, &badges);
            let months = sub_months_of(&tags, &badge_info);
            let returning = flag_of(&tags, "returning-chatter");
            let display_name = match tag_value(&tags, "display-name") {
                Some(v) => {
                    if v.unicode_len() > 0 {
                        v.to_owned()
                    } else {
                        userpart
                    }
                },
                None => userpart,
            };
            let user = User {
                username: nick,
                display_name,
                id: user_id,
                display_color: color,
                sub_months: months,
                role,
                returning_chatter: returning,
            };
            match bits_of(&tags) {
                Some(b) => Some(ChatEvent::SendBits { id: msg_id, user, bits: b, sent_at, segments }),
                None => {
                    let reply_to = match tag_value(&tags, "reply-parent-msg-id") {
                        Some(v) => parse_uuid(v),
                        None => None,
                    };
                    let emote_only = flag_of(&tags, "emote-only");
                    let first_message = flag_of(&tags, "first-msg");
                    Some(
                        ChatEvent::Message {
                            id: msg_id,
                            user,
                            sent_at,
                            reply_to,
                            emote_only,
                            first_message,
                            contents: segments,
                        },
                    )
                },
            }
        },
        IrcCommand::NamReply { params } => Some(
            ChatEvent::MemberChunk { names: names_from(&params) },
        ),
        IrcCommand::EndOfNames => Some(ChatEvent::EndOfMembers),
        IrcCommand::Other => None,
    }
}


/// Inserting keeps the list ordered by start index.
proof fn lemma_insert_by_start_sorted(s: Seq<(Seq<char>, usize, usize)>, e: (Seq<char>, usize, usize))
    requires
        forall|i: int, j: int| 0 <= i < j < s.len() ==> (#[trigger] s[i]).1 <= (#[trigger] s[j]).1,
    ensures
        ({
            let t = spec_insert_by_start(s, e);
            &&& t.len() == s.len() + 1
            &&& forall|i: int, j: int|
                0 <= i < j < t.len() ==> (#[trigger] t[i]).1 <= (#[trigger] t[j]).1
        }),
    decreases s.len(),
{
    if s.len() == 0 {
    } else if s.last().1 <= e.1 {
        let t = s.push(e);
        assert(forall|i: int, j: int|
            0 <= i < j < t.len() ==> (#[trigger] t[i]).1 <= (#[trigger] t[j]).1) by {
            assert(forall|i: int| 0 <= i < s.len() ==> (#[trigger] t[i]) == s[i]);
            assert(t[s.len() as int] == e);
            assert(forall|i: int| 0 <= i < s.len() ==> (#[trigger] s[i]).1 <= s.last().1);
        }
    } else {
        assert(forall|i: int, j: int|
            0 <= i < j < s.drop_last().len() ==> (#[trigger] s.drop_last()[i]).1 <= (
            #[trigger] s.drop_last()[j]).1) by {
            assert(forall|i: int|
                0 <= i < s.len() - 1 ==> (#[trigger] s.drop_last()[i]) == s[i]);
        }
        lemma_insert_by_start_sorted(s.drop_last(), e);
        let u = spec_insert_by_start(s.drop_last(), e);
        let t = u.push(s.last());
        assert(forall|i: int, j: int|
            0 <= i < j < t.len() ==> (#[trigger] t[i]).1 <= (#[trigger] t[j]).1) by {
            assert(forall|i: int| 0 <= i < u.len() ==> (#[trigger] t[i]) == u[i]);
            assert(t[u.len() as int] == s.last());
            assert(forall|i: int| 0 <= i < u.len() ==> (#[trigger] u[i]).1 <= s.last().1) by {
                lemma_insert_members(s.drop_last(), e);
                assert(forall|i: int|
                    0 <= i < s.len() - 1 ==> (#[trigger] s.drop_last()[i]).1 <= s.last().1);
            }
        }
    }
}

/// Every entry of an insertion is the inserted one or one of the old
/// entries.
proof fn lemma_insert_members(s: Seq<(Seq<char>, usize, usize)>, e: (Seq<char>, usize, usize))
    ensures
        ({
            let t = spec_insert_by_start(s, e);
            forall|i: int|
                0 <= i < t.len() ==> (#[trigger] t[i]) == e || (exists|j: int|
                    0 <= j < s.len() && t[i] == s[j])
        }),
    decreases s.len(),
{
    if s.len() == 0 {
    } else if s.last().1 <= e.1 {
        let t = s.push(e);
        assert(forall|i: int|
            0 <= i < t.len() ==> (#[trigger] t[i]) == e || (exists|j: int|
                0 <= j < s.len() && t[i] == s[j])) by {
            assert(forall|i: int| 0 <= i < s.len() ==> (#[trigger] t[i]) == s[i]);
        }
    } else {
        lemma_insert_members(s.drop_last(), e);
        let u = spec_insert_by_start(s.drop_last(), e);
        let t = u.push(s.last());
        assert(forall|i: int|
            0 <= i < t.len() ==> (#[trigger] t[i]) == e || (exists|j: int|
                0 <= j < s.len() && t[i] == s[j])) by {
            assert(forall|i: int| 0 <= i < u.len() ==> (#[trigger] t[i]) == u[i]);
            assert(t[u.len() as int] == s.last());
            assert(forall|j: int|
                0 <= j < s.len() - 1 ==> (#[trigger] s.drop_last()[j]) == s[j]);
        }
    }
}

/// The stable sort orders the occurrences by start index and keeps
/// their number.
pub proof fn lemma_sort_by_start_sorted(s: Seq<(Seq<char>, usize, usize)>)
    ensures
        spec_sort_by_start(s).len() == s.len(),
        forall|i: int, j: int|
            0 <= i < j < spec_sort_by_start(s).len() ==> (#[trigger] spec_sort_by_start(s)[i]).1
                <= (#[trigger] spec_sort_by_start(s)[j]).1,
    decreases s.len(),
{
    if s.len() > 0 {
        lemma_sort_by_start_sorted(s.drop_last());
        lemma_insert_by_start_sorted(spec_sort_by_start(s.drop_last()), s.last());
    }
}

} // verus!
