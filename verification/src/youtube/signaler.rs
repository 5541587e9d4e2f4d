//! The signaling session: the state of the three-step handshake, the
//! byte-exact request bodies and query strings each step sends, and the
//! readers that take the server's framed answers apart. The caller
//! performs the HTTP exchanges and hands each parsed frame in.

use vstd::prelude::*;

use rand::RngExt;

use crate::json::JsonValue;
use crate::text::nat_to_digits;
use crate::youtube::error::Error;

verus! {

/// The server-selection endpoint of the signaling service.
pub fn choose_server_endpoint() -> (r: &'static str)
    ensures
        r@ == "https://signaler-pa.youtube.com/punctual/v1/chooseServer"@,
{
    "https://signaler-pa.youtube.com/punctual/v1/chooseServer"
}

/// The subscription endpoint of the signaling service.
pub fn subscription_endpoint() -> (r: &'static str)
    ensures
        r@ == "https://signaler-pa.youtube.com/punctual/multi-watch/channel"@,
{
    "https://signaler-pa.youtube.com/punctual/multi-watch/channel"
}

/// The view of an optional owned string.
pub open spec fn spec_opt_str(o: Option<String>) -> Option<Seq<char>> {
    match o {
        Some(s) => Some(s@),
        None => None,
    }
}

/// The state of one signaling session: the topic subscribed to, the
/// signaling API key, the two identifiers the handshake yields, and the
/// request, acknowledgment and session counters.
#[derive(Debug)]
pub struct SignalerChannelInner {
    pub topic: String,
    pub tango_key: String,
    pub gsessionid: Option<String>,
    pub sid: Option<String>,
    pub rid: usize,
    pub aid: usize,
    pub session_n: usize,
}

/// The pre-handshake state: no identifiers, all counters zero.
pub open spec fn spec_counters_reset(s: SignalerChannelInner) -> bool {
    &&& s.gsessionid is None
    &&& s.sid is None
    &&& s.rid == 0
    &&& s.aid == 0
    &&& s.session_n == 0
}

/// The opaque session id of a server-selection response: the first
/// element of the answer array, which must be a string.
pub open spec fn spec_choose_server_shape(v: JsonValue) -> Option<Seq<char>> {
    match v {
        JsonValue::Arr(a) => if a@.len() > 0 {
            match a@[0] {
                JsonValue::Str(s) => Some(s@),
                _ => None,
            }
        } else {
            None
        },
        _ => None,
    }
}

/// A JSON number denoting zero, the success marker of the handshake.
pub open spec fn spec_is_zero(v: JsonValue) -> bool {
    v.spec_as_usize() == Some(0usize)
}

/// The session id of an init-session answer line `[[0, [_, [_, sid,
/// ...]-shaped]]]`: the outer array's first element opens with the
/// success marker zero and carries the id at position one of its second
/// element.
pub open spec fn spec_init_session_sid(v: JsonValue) -> Option<Seq<char>> {
    match v {
        JsonValue::Arr(outer) => if outer@.len() > 0 {
            match outer@[0] {
                JsonValue::Arr(inner) => if inner@.len() >= 2 && spec_is_zero(inner@[0]) {
                    match inner@[1] {
                        JsonValue::Arr(sess) => if sess@.len() >= 2 {
                            match sess@[1] {
                                JsonValue::Str(s) => Some(s@),
                                _ => None,
                            }
                        } else {
                            None
                        },
                        _ => None,
                    }
                } else {
                    None
                },
                _ => None,
            }
        } else {
            None
        },
        _ => None,
    }
}

/// The new acknowledgment counter of a notification chunk's answer
/// line: the first element of the answer array's last element.
pub open spec fn spec_chunk_aid(v: JsonValue) -> Option<usize> {
    match v {
        JsonValue::Arr(a) => if a@.len() > 0 {
            match a@[a@.len() - 1] {
                JsonValue::Arr(b) => if b@.len() > 0 {
                    b@[0].spec_as_usize()
                } else {
                    None
                },
                _ => None,
            }
        } else {
            None
        },
        _ => None,
    }
}

/// A server-selection answer applied to the state: only the global
/// session id changes, to the id the answer carries.
pub open spec fn spec_choose_applied(
    pre: SignalerChannelInner,
    post: SignalerChannelInner,
    v: JsonValue,
) -> bool {
    &&& spec_choose_server_shape(v) is Some
    &&& spec_opt_str(post.gsessionid) == spec_choose_server_shape(v)
    &&& post.topic == pre.topic
    &&& post.tango_key == pre.tango_key
    &&& post.sid == pre.sid
    &&& post.rid == pre.rid
    &&& post.aid == pre.aid
    &&& post.session_n == pre.session_n
}

/// An init-session answer applied to the state: only the session id
/// changes, to the id the answer carries; the global session id is
/// preserved.
pub open spec fn spec_init_applied(
    pre: SignalerChannelInner,
    post: SignalerChannelInner,
    v: JsonValue,
) -> bool {
    &&& spec_init_session_sid(v) is Some
    &&& spec_opt_str(post.sid) == spec_init_session_sid(v)
    &&& post.topic == pre.topic
    &&& post.tango_key == pre.tango_key
    &&& post.gsessionid == pre.gsessionid
    &&& post.rid == pre.rid
    &&& post.aid == pre.aid
    &&& post.session_n == pre.session_n
}

/// After a successful handshake — a server-selection answer accepted,
/// then an init-session answer accepted — both session identifiers are
/// present.
pub proof fn lemma_handshake_session_identifiers(
    s0: SignalerChannelInner,
    s1: SignalerChannelInner,
    s2: SignalerChannelInner,
    v1: JsonValue,
    v2: JsonValue,
)
    requires
        spec_choose_applied(s0, s1, v1),
        spec_init_applied(s1, s2, v2),
    ensures
        s2.gsessionid is Some,
        s2.sid is Some,
{
}

impl SignalerChannelInner {
    /// A fresh session for a topic: both identifiers absent, all
    /// counters zero.
    pub fn with_topic(topic: &str, tango_key: &str) -> (r: Self)
        ensures
            r.topic@ == topic@,
            r.tango_key@ == tango_key@,
            spec_counters_reset(r),
    {
        SignalerChannelInner {
            topic: topic.to_owned(),
            tango_key: tango_key.to_owned(),
            gsessionid: None,
            sid: None,
            rid: 0,
            aid: 0,
            session_n: 0,
        }
    }

    /// Return to the pre-handshake state: both identifiers absent, all
    /// counters zero; topic and key stay.
    pub fn reset(&mut self)
        ensures
            spec_counters_reset(*final(self)),
            final(self).topic == old(self).topic,
            final(self).tango_key == old(self).tango_key,
    {
        self.gsessionid = None;
        self.sid = None;
        self.rid = 0;
        self.aid = 0;
        self.session_n = 0;
    }

    /// The byte-exact body of the server-selection request.
    pub fn choose_server_body(&self) -> (r: String)
        ensures
            r@ == "[[null,null,null,[7,5],null,[[\"youtube_live_chat_web\"],[1],[[[\""@
                + self.topic@ + "\"]]]]]]"@,
    {
        let mut r = "[[null,null,null,[7,5],null,[[\"youtube_live_chat_web\"],[1],[[[\""
            .to_owned();
        r.append(self.topic.as_str());
        r.append("\"]]]]]]");
        r
    }

    /// The query of the server-selection request.
    pub fn choose_server_query(&self) -> (r: Vec<(String, String)>)
        ensures
            r@.len() == 1,
            r@[0].0@ == "key"@ && r@[0].1@ == self.tango_key@,
    {
        let mut r: Vec<(String, String)> = Vec::new();
        r.push(("key".to_owned(), self.tango_key.clone()));
        r
    }

    /// Store the global session id a server-selection answer carries;
    /// an answer of any other shape is refused and leaves the state
    /// unchanged.
    pub fn handle_choose_server(&mut self, v: &JsonValue) -> (r: Result<(), Error>)
        ensures
            r is Ok <==> spec_choose_server_shape(*v) is Some,
            r is Ok ==> spec_choose_applied(*old(self), *final(self), *v),
            r is Err ==> *final(self) == *old(self),
            r matches Err(e) ==> e is Deserialization,
    {
        match v {
            JsonValue::Arr(a) => {
                if a.len() > 0 {
                    match &a[0] {
                        JsonValue::Str(s) => {
                            self.gsessionid = Some(s.clone());
                            return Ok(());
                        },
                        _ => {},
                    }
                }
            },
            _ => {},
        }
        Err(Error::Deserialization("unexpected server-selection response shape".to_owned()))
    }

    /// The exact subscription payload of the init-session request.
    pub fn init_session_data(&self) -> (r: String)
        ensures
            r@ == "[[[\"1\",[null,null,null,[7,5],null,[[\"youtube_live_chat_web\"],[1],[[[\""@
                + self.topic@ + "\"]]]],null,null,1],null,3]]]"@,
    {
        let mut r =
            "[[[\"1\",[null,null,null,[7,5],null,[[\"youtube_live_chat_web\"],[1],[[[\""
            .to_owned();
        r.append(self.topic.as_str());
        r.append("\"]]]],null,null,1],null,3]]]");
        r
    }

    /// The form fields of the init-session request: a single
    /// subscription carrying the payload.
    pub fn init_session_form(&self) -> (r: Vec<(String, String)>)
        ensures
            r@.len() == 3,
            r@[0].0@ == "count"@ && r@[0].1@ == "1"@,
            r@[1].0@ == "ofs"@ && r@[1].1@ == "0"@,
            r@[2].0@ == "req0___data__"@ && r@[2].1@
                == "[[[\"1\",[null,null,null,[7,5],null,[[\"youtube_live_chat_web\"],[1],[[[\""@
                + self.topic@ + "\"]]]],null,null,1],null,3]]]"@,
    {
        let mut r: Vec<(String, String)> = Vec::new();
        r.push(("count".to_owned(), "1".to_owned()));
        r.push(("ofs".to_owned(), "0".to_owned()));
        r.push(("req0___data__".to_owned(), self.init_session_data()));
        r
    }

    /// The query of the init-session request, under a fresh nonce; the
    /// session counter moves to one.
    pub fn init_session_query(&mut self, zx: &str) -> (r: Vec<(String, String)>)
        requires
            old(self).gsessionid is Some,
        ensures
            final(self).session_n == 1,
            final(self).topic == old(self).topic,
            final(self).tango_key == old(self).tango_key,
            final(self).gsessionid == old(self).gsessionid,
            final(self).sid == old(self).sid,
            final(self).rid == old(self).rid,
            final(self).aid == old(self).aid,
            r@.len() == 8,
            r@[0].0@ == "VER"@ && r@[0].1@ == "8"@,
            r@[1].0@ == "gsessionid"@ && Some(r@[1].1@) == spec_opt_str(old(self).gsessionid),
            r@[2].0@ == "key"@ && r@[2].1@ == old(self).tango_key@,
            r@[3].0@ == "RID"@ && r@[3].1@ == nat_to_digits(old(self).rid as nat),
            r@[4].0@ == "AID"@ && r@[4].1@ == nat_to_digits(old(self).aid as nat),
            r@[5].0@ == "CVER"@ && r@[5].1@ == "22"@,
            r@[6].0@ == "zx"@ && r@[6].1@ == zx@,
            r@[7].0@ == "t"@ && r@[7].1@ == "1"@,
    {
        self.session_n = 1;
        let mut r: Vec<(String, String)> = Vec::new();
        r.push(("VER".to_owned(), "8".to_owned()));
        r.push(("gsessionid".to_owned(), self.gsessionid.as_ref().unwrap().clone()));
        r.push(("key".to_owned(), self.tango_key.clone()));
        r.push(("RID".to_owned(), crate::text::u64_to_string(self.rid as u64)));
        r.push(("AID".to_owned(), crate::text::u64_to_string(self.aid as u64)));
        r.push(("CVER".to_owned(), "22".to_owned()));
        r.push(("zx".to_owned(), zx.to_owned()));
        r.push(("t".to_owned(), "1".to_owned()));
        r
    }

    /// Store the session id an init-session answer line carries. A line
    /// whose opening integer is not the success marker, or of any other
    /// shape, is refused verbatim and leaves the state unchanged.
    pub fn handle_init_session(&mut self, raw: &str, v: &JsonValue) -> (r: Result<(), Error>)
        ensures
            r is Ok <==> spec_init_session_sid(*v) is Some,
            r is Ok ==> spec_init_applied(*old(self), *final(self), *v),
            r is Err ==> *final(self) == *old(self),
            r matches Err(e) ==> e matches Error::Deserialization(m) && m@ == raw@,
    {
        match v {
            JsonValue::Arr(outer) => {
                if outer.len() > 0 {
                    match &outer[0] {
                        JsonValue::Arr(inner) => {
                            if inner.len() >= 2 {
                                let zero = match inner[0].as_usize() {
                                    Some(0) => true,
                                    _ => false,
                                };
                                if zero {
                                    match &inner[1] {
                                        JsonValue::Arr(sess) => {
                                            if sess.len() >= 2 {
                                                match &sess[1] {
                                                    JsonValue::Str(s) => {
                                                        self.sid = Some(s.clone());
                                                        return Ok(());
                                                    },
                                                    _ => {},
                                                }
                                            }
                                        },
                                        _ => {},
                                    }
                                }
                            }
                        },
                        _ => {},
                    }
                }
            },
            _ => {},
        }
        Err(Error::Deserialization(raw.to_owned()))
    }

    /// The query of the hanging subscription request, under a fresh
    /// nonce.
    pub fn session_stream_query(&self, zx: &str) -> (r: Vec<(String, String)>)
        requires
            self.gsessionid is Some,
            self.sid is Some,
        ensures
            r@.len() == 10,
            r@[0].0@ == "VER"@ && r@[0].1@ == "8"@,
            r@[1].0@ == "gsessionid"@ && Some(r@[1].1@) == spec_opt_str(self.gsessionid),
            r@[2].0@ == "key"@ && r@[2].1@ == self.tango_key@,
            r@[3].0@ == "RID"@ && r@[3].1@ == "rpc"@,
            r@[4].0@ == "SID"@ && Some(r@[4].1@) == spec_opt_str(self.sid),
            r@[5].0@ == "AID"@ && r@[5].1@ == nat_to_digits(self.aid as nat),
            r@[6].0@ == "CI"@ && r@[6].1@ == "0"@,
            r@[7].0@ == "TYPE"@ && r@[7].1@ == "xmlhttp"@,
            r@[8].0@ == "zx"@ && r@[8].1@ == zx@,
            r@[9].0@ == "t"@ && r@[9].1@ == "1"@,
    {
        let mut r: Vec<(String, String)> = Vec::new();
        r.push(("VER".to_owned(), "8".to_owned()));
        r.push(("gsessionid".to_owned(), self.gsessionid.as_ref().unwrap().clone()));
        r.push(("key".to_owned(), self.tango_key.clone()));
        r.push(("RID".to_owned(), "rpc".to_owned()));
        r.push(("SID".to_owned(), self.sid.as_ref().unwrap().clone()));
        r.push(("AID".to_owned(), crate::text::u64_to_string(self.aid as u64)));
        r.push(("CI".to_owned(), "0".to_owned()));
        r.push(("TYPE".to_owned(), "xmlhttp".to_owned()));
        r.push(("zx".to_owned(), zx.to_owned()));
        r.push(("t".to_owned(), "1".to_owned()));
        r
    }

    /// Advance the acknowledgment counter to the one a notification
    /// chunk's answer line carries; a line of any other shape is
    /// refused and leaves the state unchanged.
    pub fn handle_signal_chunk(&mut self, v: &JsonValue) -> (r: Result<(), Error>)
        ensures
            r is Ok <==> spec_chunk_aid(*v) is Some,
            r is Ok ==> Some(final(self).aid) == spec_chunk_aid(*v),
            r is Ok ==> final(self).topic == old(self).topic && final(self).tango_key == old(
                self,
            ).tango_key && final(self).gsessionid == old(self).gsessionid && final(self).sid
                == old(self).sid && final(self).rid == old(self).rid && final(self).session_n
                == old(self).session_n,
            r is Err ==> *final(self) == *old(self),
            r matches Err(e) ==> e is Deserialization,
    {
        match v {
            JsonValue::Arr(a) => {
                if a.len() > 0 {
                    match &a[a.len() - 1] {
                        JsonValue::Arr(b) => {
                            if b.len() > 0 {
                                match b[0].as_usize() {
                                    Some(aid) => {
                                        self.aid = aid;
                                        return Ok(());
                                    },
                                    None => {},
                                }
                            }
                        },
                        _ => {},
                    }
                }
            },
            _ => {},
        }
        Err(Error::Deserialization("unexpected notification chunk shape".to_owned()))
    }
}

/// A character the request nonce may hold: a lower-case letter or a
/// digit.
pub open spec fn is_zx_char(c: char) -> bool {
    (97 <= c as u32 <= 122) || crate::text::is_digit(c)
}

/// Relies on rand::RngExt::random_range over rand::rng(): the drawn index
/// lies within the half-open range it is given.
#[verifier::external_body]
fn random_index(bound: usize) -> (r: usize)
    requires
        bound > 0,
    ensures
        r < bound,
{
    rand::rng().random_range(0..bound)
}

/// A fresh request nonce: eleven characters drawn from the lower-case
/// letters and digits.
pub fn gen_zx() -> (r: String)
    ensures
        r@.len() == 11,
        forall|i: int| 0 <= i < 11 ==> is_zx_char(#[trigger] r@[i]),
{
    let charset = "abcdefghijklmnopqrstuvwxyz0123456789";
    proof {
        reveal_strlit("abcdefghijklmnopqrstuvwxyz0123456789");
        assert forall|d: int| 0 <= d < 36 implies is_zx_char(#[trigger] charset@[d]) by {
        }
    }
    let mut r = String::new();
    let mut k: usize = 0;
    while k < 11
        invariant
            0 <= k <= 11,
            r@.len() == k,
            charset@.len() == 36,
            forall|d: int| 0 <= d < 36 ==> is_zx_char(#[trigger] charset@[d]),
            forall|i: int| 0 <= i < k ==> is_zx_char(#[trigger] r@[i]),
        decreases 11 - k,
    {
        let d = random_index(36);
        let c = charset.substring_char(d, d + 1);
        r.append(c);
        proof {
            assert(c@ =~= seq![charset@[d as int]]);
        }
        k = k + 1;
    }
    r
}

} // verus!
