//! Identities for the IRC connection: an anonymous viewer and an
//! authenticated user with an OAuth token.

use vstd::prelude::*;

verus! {

/// Represents a type that can be used to identify the client.
pub trait TwitchIdentity {
    /// The username this identity connects under.
    spec fn spec_username(&self) -> Seq<char>;

    /// The OAuth token this identity authenticates with, if any.
    spec fn spec_token(&self) -> Option<Seq<char>>;

    /// Converts this type into a tuple of `(username, Option<auth_key>)`.
    fn as_identity(&self) -> (r: (&str, Option<&str>))
        ensures
            r.0@ == self.spec_username(),
            r.1 is Some <==> self.spec_token() is Some,
            r.1 matches Some(t) ==> self.spec_token() == Some(t@),
    ;
}

/// Anonymous identity with no authentication. It will not show up in the
/// chatters list, and it can only receive chat events, never send.
#[derive(Debug, Clone, Copy)]
pub struct Anonymous;

impl TwitchIdentity for Anonymous {
    open spec fn spec_username(&self) -> Seq<char> {
        "justinfan24340"@
    }

    open spec fn spec_token(&self) -> Option<Seq<char>> {
        None
    }

    fn as_identity(&self) -> (r: (&str, Option<&str>)) {
        ("justinfan24340", None)
    }
}

/// Authenticated identity with a username and an OAuth access token. The
/// account shows up in the chatters list.
#[derive(Debug, Clone)]
pub struct Authenticated<'u, 'p>(pub &'u str, pub &'p str);

impl<'u, 'p> TwitchIdentity for Authenticated<'u, 'p> {
    open spec fn spec_username(&self) -> Seq<char> {
        self.0@
    }

    open spec fn spec_token(&self) -> Option<Seq<char>> {
        Some(self.1@)
    }

    fn as_identity(&self) -> (r: (&str, Option<&str>)) {
        (self.0, Some(self.1))
    }
}

} // verus!
