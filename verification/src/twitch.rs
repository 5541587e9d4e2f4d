//! The IRC-platform adapter: a typed event model for tagged chat messages,
//! the tag and emote parsers, and the identity handling a connection needs.
//! The caller owns the socket; it hands parsed IRC messages in as plain
//! values and receives typed chat events back.

pub mod event;
pub mod identity;

use vstd::prelude::*;

verus! {

/// The IRC password sent for an authenticated identity: the OAuth token
/// under the scheme prefix the chat service expects.
pub fn oauth_password(token: &str) -> (r: String)
    ensures
        r@ == "oauth:"@ + token@,
{
    let mut r = "oauth:".to_owned();
    r.append(token);
    r
}

/// The channel name joined for a plain channel identifier.
pub fn irc_channel(channel: &str) -> (r: String)
    ensures
        r@ == "#"@ + channel@,
{
    let mut r = "#".to_owned();
    r.append(channel);
    r
}

} // verus!
