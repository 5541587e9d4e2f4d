//! The chat-fetch RPC's action model: the request envelope, the response
//! with its continuation variants, and the renderer union of chat items,
//! discriminated by which renderer key the server sent.

use vstd::prelude::*;

use crate::text::json_escape;
use crate::youtube::types::{
    Accessibility, CommandMetadata, Icon, ImageContainer, LocalizedText, Timestamp,
    UnlocalizedText,
};

verus! {

/// The client block of a chat-fetch request.
#[derive(Debug, Clone)]
pub struct GetLiveChatRequestBodyContextClient {
    pub client_version: String,
    pub client_name: String,
}

/// The context block of a chat-fetch request.
#[derive(Debug, Clone)]
pub struct GetLiveChatRequestBodyContext {
    pub client: GetLiveChatRequestBodyContextClient,
}

/// One chat-fetch request: the client context and the continuation token
/// naming the position to resume from.
#[derive(Debug, Clone)]
pub struct GetLiveChatRequestBody {
    pub context: GetLiveChatRequestBodyContext,
    pub continuation: String,
}

/// The exact JSON envelope a request serializes to.
pub open spec fn spec_request_json(
    client_version: Seq<char>,
    client_name: Seq<char>,
    continuation: Seq<char>,
) -> Seq<char> {
    "{\"context\":{\"client\":{\"clientVersion\":\""@ + json_escape(client_version)
        + "\",\"clientName\":\""@ + json_escape(client_name) + "\"}},\"continuation\":\""@
        + json_escape(continuation) + "\"}"@
}

impl GetLiveChatRequestBody {
    /// Assemble a request from its parts.
    pub fn new(continuation: &str, client_version: &str, client_name: &str) -> (r:
        GetLiveChatRequestBody)
        ensures
            r.continuation@ == continuation@,
            r.context.client.client_version@ == client_version@,
            r.context.client.client_name@ == client_name@,
    {
        GetLiveChatRequestBody {
            context: GetLiveChatRequestBodyContext {
                client: GetLiveChatRequestBodyContextClient {
                    client_version: client_version.to_owned(),
                    client_name: client_name.to_owned(),
                },
            },
            continuation: continuation.to_owned(),
        }
    }

    /// Serialize the request to the exact JSON envelope the endpoint
    /// expects.
    pub fn to_json(&self) -> (r: String)
        ensures
            r@ == spec_request_json(
                self.context.client.client_version@,
                self.context.client.client_name@,
                self.continuation@,
            ),
    {
        let mut r = "{\"context\":{\"client\":{\"clientVersion\":\"".to_owned();
        crate::text::append_json_escaped(&mut r, self.context.client.client_version.as_str());
        r.append("\",\"clientName\":\"");
        crate::text::append_json_escaped(&mut r, self.context.client.client_name.as_str());
        r.append("\"}},\"continuation\":\"");
        crate::text::append_json_escaped(&mut r, self.continuation.as_str());
        r.append("\"}");
        r
    }
}

/// The query parameters of a chat-fetch request.
pub fn request_query(api_key: &str) -> (r: Vec<(String, String)>)
    ensures
        r@.len() == 2,
        r@[0].0@ == "key"@ && r@[0].1@ == api_key@,
        r@[1].0@ == "prettyPrint"@ && r@[1].1@ == "false"@,
{
    let mut r: Vec<(String, String)> = Vec::new();
    r.push(("key".to_owned(), api_key.to_owned()));
    r.push(("prettyPrint".to_owned(), "false".to_owned()));
    r
}

/// An identifier of the invalidation topic a live stream's chat
/// publishes its updates under.
#[derive(Debug, Clone)]
pub struct InvalidationId {
    pub object_source: usize,
    pub object_id: String,
    pub topic: String,
    pub subscribe_to_gcm_topics: bool,
    pub proto_creation_timestamp_ms: String,
}

/// How the next batch of chat is to be obtained.
#[derive(Debug, Clone)]
pub enum Continuation {
    /// Wait for a signaler notification under the topic, then fetch.
    Invalidation { invalidation_id: InvalidationId, timeout_ms: usize, continuation: String },
    /// Wait the given time, then fetch.
    Timed { timeout_ms: usize, continuation: String },
    /// A replay's next batch, paced by the stored offset.
    Replay { time_until_last_message_msec: usize, continuation: String },
    /// A player seek; not continuable.
    PlayerSeek { continuation: String },
}

/// The token a continuation entry yields for the next fetch; a player
/// seek yields none.
pub open spec fn spec_continuation_token(c: Continuation) -> Option<Seq<char>> {
    match c {
        Continuation::Invalidation { continuation, .. } => Some(continuation@),
        Continuation::Timed { continuation, .. } => Some(continuation@),
        Continuation::Replay { continuation, .. } => Some(continuation@),
        Continuation::PlayerSeek { .. } => None,
    }
}

/// The signaling topic a continuation entry carries; only an
/// invalidation entry has one.
pub open spec fn spec_continuation_topic(c: Continuation) -> Option<Seq<char>> {
    match c {
        Continuation::Invalidation { invalidation_id, .. } => Some(invalidation_id.topic@),
        _ => None,
    }
}

/// A continuation entry is continuable exactly when it is not a player
/// seek, and then it yields its own token; the token is non-empty
/// whenever the entry's token is.
pub proof fn lemma_continuation_continuable(c: Continuation)
    ensures
        spec_continuation_token(c) is Some <==> !(c is PlayerSeek),
        c matches Continuation::Invalidation { continuation, .. } ==> spec_continuation_token(c)
            == Some(continuation@),
        c matches Continuation::Timed { continuation, .. } ==> spec_continuation_token(c)
            == Some(continuation@),
        c matches Continuation::Replay { continuation, .. } ==> spec_continuation_token(c)
            == Some(continuation@),
{
}

/// One action wrapped with its tracking parameters.
#[derive(Debug)]
pub struct ActionContainer {
    pub action: Action,
    pub click_tracking_params: Option<String>,
}

/// A server-emitted directive on the logical chat log. Unknown
/// directives are carried as opaque text rather than refused.
#[derive(Debug)]
pub enum Action {
    AddChatItem { item: ChatItem, client_id: Option<String> },
    RemoveChatItem { target_item_id: String },
    RemoveChatItemByAuthor { external_channel_id: String },
    AddLiveChatTicker { item: String },
    ReplayChat { actions: Vec<ActionContainer>, video_offset_time_msec: i64 },
    LiveChatReportModerationStateCommand(String),
}

/// One badge shown beside an author.
#[derive(Debug, Clone)]
pub struct AuthorBadge {
    pub live_chat_author_badge_renderer: LiveChatAuthorBadgeRenderer,
}

/// The renderer of an author badge.
#[derive(Debug, Clone)]
pub struct LiveChatAuthorBadgeRenderer {
    pub custom_thumbnail: Option<ImageContainer>,
    pub icon: Option<Icon>,
    pub tooltip: String,
    pub accessibility: Accessibility,
}

/// The fields every message renderer carries: the stable message id, the
/// author's identity, the timestamp, and a rendering-only context menu
/// token.
#[derive(Debug, Clone)]
pub struct MessageRendererBase {
    pub author_name: Option<UnlocalizedText>,
    pub author_photo: ImageContainer,
    pub author_badges: Option<Vec<AuthorBadge>>,
    pub context_menu_endpoint: ContextMenuEndpoint,
    pub id: String,
    pub timestamp_usec: Timestamp,
    pub author_external_channel_id: String,
    pub context_menu_accessibility: Accessibility,
}

/// The context menu token of a message.
#[derive(Debug, Clone)]
pub struct ContextMenuEndpoint {
    pub command_metadata: CommandMetadata,
    pub live_chat_item_context_menu_endpoint: LiveChatItemContextMenuEndpoint,
}

/// The opaque parameters of a context menu.
#[derive(Debug, Clone)]
pub struct LiveChatItemContextMenuEndpoint {
    pub params: String,
}

/// The renderer union of chat items, one variant per renderer key the
/// server discriminates on. Gift renderers that the adapter does not
/// model further carry their remaining fields as opaque text.
#[derive(Debug, Clone)]
pub enum ChatItem {
    TextMessage { message_renderer_base: MessageRendererBase, message: Option<LocalizedText> },
    Superchat {
        message_renderer_base: MessageRendererBase,
        message: Option<LocalizedText>,
        purchase_amount_text: UnlocalizedText,
        header_background_color: isize,
        header_text_color: isize,
        body_background_color: isize,
        body_text_color: isize,
        author_name_text_color: isize,
    },
    MembershipItem {
        message_renderer_base: MessageRendererBase,
        header_sub_text: Option<LocalizedText>,
        author_badges: Option<Vec<AuthorBadge>>,
    },
    PaidSticker {
        message_renderer_base: MessageRendererBase,
        purchase_amount_text: UnlocalizedText,
        sticker: ImageContainer,
        money_chip_background_color: isize,
        money_chip_text_color: isize,
        sticker_display_width: isize,
        sticker_display_height: isize,
        background_color: isize,
        author_name_text_color: isize,
    },
    MembershipGift { id: String, data: String },
    MembershipGiftRedemption { id: String, data: String },
    ViewerEngagement { id: String },
}

/// The stable id of a chat item, whichever renderer carries it.
pub open spec fn spec_chat_item_id(item: ChatItem) -> Seq<char> {
    match item {
        ChatItem::TextMessage { message_renderer_base, .. } => message_renderer_base.id@,
        ChatItem::Superchat { message_renderer_base, .. } => message_renderer_base.id@,
        ChatItem::MembershipItem { message_renderer_base, .. } => message_renderer_base.id@,
        ChatItem::PaidSticker { message_renderer_base, .. } => message_renderer_base.id@,
        ChatItem::MembershipGift { id, .. } => id@,
        ChatItem::MembershipGiftRedemption { id, .. } => id@,
        ChatItem::ViewerEngagement { id } => id@,
    }
}

impl ChatItem {
    /// The stable id of this item.
    pub fn id(&self) -> (r: &str)
        ensures
            r@ == spec_chat_item_id(*self),
    {
        match self {
            ChatItem::TextMessage { message_renderer_base, .. } => {
                message_renderer_base.id.as_str()
            },
            ChatItem::Superchat { message_renderer_base, .. } => message_renderer_base.id.as_str(),
            ChatItem::MembershipItem { message_renderer_base, .. } => {
                message_renderer_base.id.as_str()
            },
            ChatItem::PaidSticker { message_renderer_base, .. } => {
                message_renderer_base.id.as_str()
            },
            ChatItem::MembershipGift { id, .. } => id.as_str(),
            ChatItem::MembershipGiftRedemption { id, .. } => id.as_str(),
            ChatItem::ViewerEngagement { id } => id.as_str(),
        }
    }
}

/// A list of continuation entries with the actions of one batch.
#[derive(Debug)]
pub struct LiveChatContinuation {
    pub continuations: Vec<Continuation>,
    pub actions: Option<Vec<ActionContainer>>,
}

/// The continuation contents of a chat-fetch response.
#[derive(Debug)]
pub struct GetLiveChatResponseContinuationContents {
    pub live_chat_continuation: LiveChatContinuation,
}

/// One chat-fetch response. The response context is opaque and carried
/// as raw text.
#[derive(Debug)]
pub struct GetLiveChatResponse {
    pub response_context: Option<String>,
    pub continuation_contents: Option<GetLiveChatResponseContinuationContents>,
}

} // verus!
