//! The chat context: the handle a live stream's chat is fetched with,
//! and the bootstrap extraction that discovers it from the platform's
//! served pages.

use vstd::prelude::*;

use crate::youtube::error::Error;

verus! {

/// Whether a stream is upcoming, currently live, or a finished replay.
#[derive(Debug, Clone, Copy, PartialEq, Eq, Structural)]
pub enum LiveStreamStatus {
    Upcoming,
    Live,
    Replay,
}

impl LiveStreamStatus {
    /// Whether the stream updates live, seen from a contract.
    pub open spec fn spec_updates_live(&self) -> bool {
        self is Upcoming || self is Live
    }

    /// Whether the stream updates live: upcoming and live streams use
    /// signaling, a replay is paced by server-supplied timeouts.
    #[verifier::when_used_as_spec(spec_updates_live)]
    #[inline]
    pub fn updates_live(&self) -> (r: bool)
        ensures
            r == (self is Upcoming || self is Live),
    {
        match self {
            LiveStreamStatus::Upcoming => true,
            LiveStreamStatus::Live => true,
            LiveStreamStatus::Replay => false,
        }
    }
}

/// Which of a channel's streams the bootstrap picks.
#[derive(Debug, Clone, Copy, PartialEq, Eq, Structural)]
pub enum ChannelSearchOptions {
    /// The latest live stream, or the latest upcoming stream when none
    /// is live.
    LatestLiveOrUpcoming,
    /// The first live stream, or the first upcoming stream when none is
    /// live.
    FirstLiveOrUpcoming,
    /// The first live stream only.
    FirstLive,
    /// The latest live stream only.
    LatestLive,
}

impl Default for ChannelSearchOptions {
    /// The default policy: the first live stream, or the first upcoming
    /// one.
    fn default() -> (r: Self)
        ensures
            r == ChannelSearchOptions::FirstLiveOrUpcoming,
    {
        ChannelSearchOptions::FirstLiveOrUpcoming
    }
}

/// An immutable handle to a live stream's chat: the video id, the keys
/// and version the fetch endpoints need, the initial continuation, and
/// the live status that picks the wait strategy.
#[derive(Debug, Clone)]
pub struct ChatContext {
    pub id: String,
    pub api_key: String,
    pub client_version: String,
    pub initial_continuation: String,
    pub tango_api_key: Option<String>,
    pub live_status: LiveStreamStatus,
}

impl ChatContext {
    /// The video id this context belongs to.
    pub fn id(&self) -> (r: &str)
        ensures
            r@ == self.id@,
    {
        self.id.as_str()
    }

    /// The watch-page URL of the video.
    pub fn url(&self) -> (r: String)
        ensures
            r@ == "https://www.youtube.com/watch?v="@ + self.id@,
    {
        let mut r = "https://www.youtube.com/watch?v=".to_owned();
        r.append(self.id.as_str());
        r
    }

    /// The live status of the stream.
    pub fn status(&self) -> (r: LiveStreamStatus)
        ensures
            r == self.live_status,
    {
        self.live_status
    }
}


/// A single or double quote, as the served pages use either around
/// their keys.
pub open spec fn is_quote(c: char) -> bool {
    c == '\'' || c == '"'
}

/// A whitespace character as the extraction grammar skips it.
pub open spec fn is_ws(c: char) -> bool {
    c == ' ' || c == '\t' || c == '\n' || c == '\r' || c == '\u{b}' || c == '\u{c}'
}

/// A character of a dotted numeric version.
pub open spec fn is_version_char(c: char) -> bool {
    crate::text::is_digit(c) || c == '.'
}

/// What a scan stops at.
#[derive(Debug, Clone, Copy)]
pub enum ScanStop {
    /// The first non-whitespace character.
    NonWs,
    /// The first quote or newline; a newline voids a value capture.
    QuoteOrNewline,
    /// The first character outside a dotted numeric version.
    NonVersion,
    /// The first character outside an identifier.
    NonId,
}

/// Whether a scan stops at this character.
pub open spec fn scan_stops(stop: ScanStop, c: char) -> bool {
    match stop {
        ScanStop::NonWs => !is_ws(c),
        ScanStop::QuoteOrNewline => is_quote(c) || c == '\n',
        ScanStop::NonVersion => !is_version_char(c),
        ScanStop::NonId => !is_id_char(c),
    }
}

/// The first position at or past `j` where the scan stops; the length
/// of the page when it never does.
pub open spec fn scan_end(s: Seq<char>, stop: ScanStop, j: int) -> int
    decreases s.len() - j,
{
    if j < 0 || j >= s.len() {
        s.len() as int
    } else if scan_stops(stop, s[j]) {
        j
    } else {
        scan_end(s, stop, j + 1)
    }
}

/// Where a scan lands: within bounds, on a stopping character when
/// inside the page, with nothing stopping before it.
pub proof fn lemma_scan_end(s: Seq<char>, stop: ScanStop, j: int)
    requires
        0 <= j <= s.len(),
    ensures
        j <= scan_end(s, stop, j) <= s.len(),
        scan_end(s, stop, j) < s.len() ==> scan_stops(stop, s[scan_end(s, stop, j)]),
        forall|k: int| j <= k < scan_end(s, stop, j) ==> !scan_stops(stop, s[k]),
    decreases s.len() - j,
{
    if j < s.len() && !scan_stops(stop, s[j]) {
        lemma_scan_end(s, stop, j + 1);
    }
}

/// Scan for the first stopping character at or past `from`.
pub fn scan_to(s: &str, stop: ScanStop, from: usize) -> (r: usize)
    requires
        from <= s@.len(),
    ensures
        r == scan_end(s@, stop, from as int),
        from <= r <= s@.len(),
        r < s@.len() ==> scan_stops(stop, s@[r as int]),
        forall|k: int| from <= k < r ==> !scan_stops(stop, s@[k]),
{
    proof {
        lemma_scan_end(s@, stop, from as int);
    }
    let n = s.unicode_len();
    let mut i: usize = from;
    while i < n
        invariant
            from <= i <= n,
            n == s@.len(),
            scan_end(s@, stop, from as int) == scan_end(s@, stop, i as int),
        decreases n - i,
    {
        let c = s.get_char(i);
        let hit = match stop {
            ScanStop::NonWs => !(c == ' ' || c == '\t' || c == '\n' || c == '\r' || c == '\u{b}'
                || c == '\u{c}'),
            ScanStop::QuoteOrNewline => c == '\'' || c == '"' || c == '\n',
            ScanStop::NonVersion => {
                let v = c as u32;
                !((48 <= v && v <= 57) || c == '.')
            },
            ScanStop::NonId => {
                let v = c as u32;
                !((65 <= v && v <= 90) || (97 <= v && v <= 122) || (48 <= v && v <= 57) || c
                    == '_' || c == '-')
            },
        };
        if hit {
            proof {
                assert(scan_stops(stop, s@[i as int]));
                assert(scan_end(s@, stop, i as int) == i);
                lemma_scan_end(s@, stop, from as int);
                assert(forall|k: int| from <= k < i ==> !scan_stops(stop, s@[k]));
            }
            return i;
        }
        i = i + 1;
    }
    n
}

/// A quoted key followed by a colon at `pos`: a quote, the name, a
/// quote, then `:`; yields the position after the colon.
pub open spec fn quoted_key_end(page: Seq<char>, name: Seq<char>, pos: int) -> Option<int> {
    let l = name.len() as int;
    if 0 <= pos && pos + l + 2 < page.len() && is_quote(page[pos]) && page.subrange(
        pos + 1,
        pos + 1 + l,
    ) == name && is_quote(page[pos + 1 + l]) && page[pos + 2 + l] == ':' {
        Some(pos + 3 + l)
    } else {
        None
    }
}

/// Match a quoted key with its colon at `pos`.
pub fn match_quoted_key(page: &str, name: &str, pos: usize) -> (r: Option<usize>)
    requires
        pos <= page@.len(),
    ensures
        r matches Some(p) ==> quoted_key_end(page@, name@, pos as int) == Some(p as int),
        r is None ==> quoted_key_end(page@, name@, pos as int) is None,
{
    let n = page.unicode_len();
    let l = name.unicode_len();
    let end = match pos.checked_add(l) {
        Some(x) => match x.checked_add(2) {
            Some(y) => y,
            None => {
                return None;
            },
        },
        None => {
            return None;
        },
    };
    if end >= n {
        return None;
    }
    let c0 = page.get_char(pos);
    if !(c0 == '\'' || c0 == '"') {
        return None;
    }
    if !crate::text::starts_with_at(page, name, pos + 1) {
        return None;
    }
    let c1 = page.get_char(pos + 1 + l);
    if !(c1 == '\'' || c1 == '"') {
        return None;
    }
    if page.get_char(pos + 2 + l) != ':' {
        return None;
    }
    Some(pos + 3 + l)
}

/// A quoted value capture at `pos`: optional whitespace, an opening
/// quote, then at least one character up to the next quote, with no
/// newline inside; yields the value.
pub open spec fn value_capture_at(page: Seq<char>, pos: int) -> Option<Seq<char>> {
    let v0 = scan_end(page, ScanStop::NonWs, pos);
    if v0 + 1 < page.len() && is_quote(page[v0]) && page[v0 + 1] != '\n' {
        let e = scan_end(page, ScanStop::QuoteOrNewline, v0 + 2);
        if e < page.len() && is_quote(page[e]) {
            Some(page.subrange(v0 + 1, e))
        } else {
            None
        }
    } else {
        None
    }
}

/// Capture a quoted value at `pos`.
pub fn capture_value(page: &str, pos: usize) -> (r: Option<String>)
    requires
        pos <= page@.len(),
    ensures
        r matches Some(v) ==> value_capture_at(page@, pos as int) == Some(v@),
        r is None ==> value_capture_at(page@, pos as int) is None,
{
    let n = page.unicode_len();
    let v0 = scan_to(page, ScanStop::NonWs, pos);
    if n - v0 < 2 {
        return None;
    }
    let q = page.get_char(v0);
    if !(q == '\'' || q == '"') {
        return None;
    }
    if page.get_char(v0 + 1) == '\n' {
        return None;
    }
    let e = scan_to(page, ScanStop::QuoteOrNewline, v0 + 2);
    if e >= n {
        return None;
    }
    let c = page.get_char(e);
    if !(c == '\'' || c == '"') {
        return None;
    }
    Some(page.substring_char(v0 + 1, e).to_owned())
}


/// A keyed string at `i`: a quoted key with its colon, then a quoted
/// value capture.
pub open spec fn keyed_value_at(page: Seq<char>, name: Seq<char>, i: int) -> Option<Seq<char>> {
    match quoted_key_end(page, name, i) {
        Some(p) => value_capture_at(page, p),
        None => None,
    }
}

/// `v` is the value of the first keyed-string match of `name` in the
/// page.
pub open spec fn is_first_keyed_value(page: Seq<char>, name: Seq<char>, v: Seq<char>) -> bool {
    exists|i: int|
        #[trigger] keyed_value_at(page, name, i) == Some(v) && (forall|k: int|
            0 <= k < i ==> keyed_value_at(page, name, k) is None)
}

/// The first keyed-string match is one value: two values that are both
/// first matches are equal.
pub proof fn lemma_keyed_value_deterministic(
    page: Seq<char>,
    name: Seq<char>,
    v1: Seq<char>,
    v2: Seq<char>,
)
    requires
        is_first_keyed_value(page, name, v1),
        is_first_keyed_value(page, name, v2),
    ensures
        v1 == v2,
{
    let i1 = choose|i: int|
        #[trigger] keyed_value_at(page, name, i) == Some(v1) && (forall|k: int|
            0 <= k < i ==> keyed_value_at(page, name, k) is None);
    let i2 = choose|i: int|
        #[trigger] keyed_value_at(page, name, i) == Some(v2) && (forall|k: int|
            0 <= k < i ==> keyed_value_at(page, name, k) is None);
    if i1 < i2 {
        assert(keyed_value_at(page, name, i1) is None);
    } else if i2 < i1 {
        assert(keyed_value_at(page, name, i2) is None);
    }
}

/// Extract the first keyed-string match of `name` from the page.
pub fn extract_keyed_value(page: &str, name: &str) -> (r: Option<String>)
    ensures
        r matches Some(v) ==> is_first_keyed_value(page@, name@, v@),
        r is None ==> forall|i: int| keyed_value_at(page@, name@, i) is None,
{
    let n = page.unicode_len();
    let mut i: usize = 0;
    while i < n
        invariant
            0 <= i <= n,
            n == page@.len(),
            forall|k: int| 0 <= k < i ==> keyed_value_at(page@, name@, k) is None,
        decreases n - i,
    {
        match match_quoted_key(page, name, i) {
            Some(p) => {
                match capture_value(page, p) {
                    Some(v) => {
                        proof {
                            assert(keyed_value_at(page@, name@, i as int) == Some(v@));
                        }
                        return Some(v);
                    },
                    None => {
                        proof {
                            assert(keyed_value_at(page@, name@, i as int) is None);
                        }
                    },
                }
            },
            None => {
                proof {
                    assert(keyed_value_at(page@, name@, i as int) is None);
                }
            },
        }
        i = i + 1;
    }
    proof {
        assert forall|i2: int| keyed_value_at(page@, name@, i2) is None by {
            if 0 <= i2 < n {
            } else {
                assert(quoted_key_end(page@, name@, i2) is None);
            }
        }
    }
    None
}

/// A keyed dotted-numeric version at `i`: a quoted key with its colon,
/// whitespace, then a quote, a non-empty run of digits and dots, and a
/// closing quote.
pub open spec fn keyed_version_at(page: Seq<char>, name: Seq<char>, i: int) -> Option<Seq<char>> {
    match quoted_key_end(page, name, i) {
        Some(p) => {
            let v0 = scan_end(page, ScanStop::NonWs, p);
            if v0 < page.len() && is_quote(page[v0]) {
                let e = scan_end(page, ScanStop::NonVersion, v0 + 1);
                if e > v0 + 1 && e < page.len() && is_quote(page[e]) {
                    Some(page.subrange(v0 + 1, e))
                } else {
                    None
                }
            } else {
                None
            }
        },
        None => None,
    }
}

/// `v` is the value of the first keyed-version match of `name` in the
/// page.
pub open spec fn is_first_keyed_version(page: Seq<char>, name: Seq<char>, v: Seq<char>) -> bool {
    exists|i: int|
        #[trigger] keyed_version_at(page, name, i) == Some(v) && (forall|k: int|
            0 <= k < i ==> keyed_version_at(page, name, k) is None)
}

/// Extract the first keyed-version match of `name` from the page.
pub fn extract_keyed_version(page: &str, name: &str) -> (r: Option<String>)
    ensures
        r matches Some(v) ==> is_first_keyed_version(page@, name@, v@),
        r is None ==> forall|i: int| keyed_version_at(page@, name@, i) is None,
{
    let n = page.unicode_len();
    let mut i: usize = 0;
    while i < n
        invariant
            0 <= i <= n,
            n == page@.len(),
            forall|k: int| 0 <= k < i ==> keyed_version_at(page@, name@, k) is None,
        decreases n - i,
    {
        match match_quoted_key(page, name, i) {
            Some(p) => {
                let v0 = scan_to(page, ScanStop::NonWs, p);
                if v0 < n {
                    let q = page.get_char(v0);
                    if q == '\'' || q == '"' {
                        let e = scan_to(page, ScanStop::NonVersion, v0 + 1);
                        if e > v0 + 1 && e < n {
                            let c = page.get_char(e);
                            if c == '\'' || c == '"' {
                                let v = page.substring_char(v0 + 1, e).to_owned();
                                proof {
                                    assert(keyed_version_at(page@, name@, i as int) == Some(
                                        v@,
                                    ));
                                }
                                return Some(v);
                            }
                        }
                    }
                }
                proof {
                    assert(keyed_version_at(page@, name@, i as int) is None);
                }
            },
            None => {
                proof {
                    assert(keyed_version_at(page@, name@, i as int) is None);
                }
            },
        }
        i = i + 1;
    }
    proof {
        assert forall|i2: int| keyed_version_at(page@, name@, i2) is None by {
            if 0 <= i2 < n {
            } else {
                assert(quoted_key_end(page@, name@, i2) is None);
            }
        }
    }
    None
}

/// A keyed literal `true` at `i`: a quoted key with its colon,
/// whitespace, then the word `true`.
pub open spec fn keyed_true_at(page: Seq<char>, name: Seq<char>, i: int) -> bool {
    match quoted_key_end(page, name, i) {
        Some(p) => {
            let v0 = scan_end(page, ScanStop::NonWs, p);
            crate::text::lit_at(page, "true"@, v0)
        },
        None => false,
    }
}

/// The page marks `name` as true somewhere.
pub open spec fn spec_has_keyed_true(page: Seq<char>, name: Seq<char>) -> bool {
    exists|i: int| #[trigger] keyed_true_at(page, name, i)
}

/// Whether the page marks `name` as true anywhere.
pub fn has_keyed_true(page: &str, name: &str) -> (r: bool)
    ensures
        r == spec_has_keyed_true(page@, name@),
{
    let n = page.unicode_len();
    let mut i: usize = 0;
    while i < n
        invariant
            0 <= i <= n,
            n == page@.len(),
            forall|k: int| 0 <= k < i ==> !keyed_true_at(page@, name@, k),
        decreases n - i,
    {
        match match_quoted_key(page, name, i) {
            Some(p) => {
                let v0 = scan_to(page, ScanStop::NonWs, p);
                if crate::text::starts_with_at(page, "true", v0) {
                    proof {
                        reveal_strlit("true");
                        assert(keyed_true_at(page@, name@, i as int));
                    }
                    return true;
                }
                proof {
                    reveal_strlit("true");
                    assert(!keyed_true_at(page@, name@, i as int));
                }
            },
            None => {
                proof {
                    assert(!keyed_true_at(page@, name@, i as int));
                }
            },
        }
        i = i + 1;
    }
    proof {
        assert forall|i2: int| !keyed_true_at(page@, name@, i2) by {
            if 0 <= i2 < n {
            } else {
                assert(quoted_key_end(page@, name@, i2) is None);
            }
        }
    }
    false
}


/// The signaling configuration block at `i`: the quoted configuration
/// key with its colon, whitespace, an opening brace, whitespace, the
/// quoted `apiKey` key, whitespace before its colon, then a quoted
/// value capture.
pub open spec fn tango_key_at(page: Seq<char>, i: int) -> Option<Seq<char>> {
    match quoted_key_end(page, "LIVE_CHAT_BASE_TANGO_CONFIG"@, i) {
        Some(p) => {
            let b = scan_end(page, ScanStop::NonWs, p);
            if b < page.len() && page[b] == '{' {
                let k = scan_end(page, ScanStop::NonWs, b + 1);
                let l = "apiKey"@.len() as int;
                if k + l + 1 < page.len() && is_quote(page[k]) && page.subrange(k + 1, k + 1 + l)
                    == "apiKey"@ && is_quote(page[k + 1 + l]) {
                    let c = scan_end(page, ScanStop::NonWs, k + 2 + l);
                    if c < page.len() && page[c] == ':' {
                        value_capture_at(page, c + 1)
                    } else {
                        None
                    }
                } else {
                    None
                }
            } else {
                None
            }
        },
        None => None,
    }
}

/// `v` is the value of the first signaling-configuration match in the
/// page.
pub open spec fn is_first_tango_key(page: Seq<char>, v: Seq<char>) -> bool {
    exists|i: int|
        #[trigger] tango_key_at(page, i) == Some(v) && (forall|k: int|
            0 <= k < i ==> tango_key_at(page, k) is None)
}

/// Extract the signaling API key from the page, where the page carries
/// the configuration block.
pub fn extract_tango_key(page: &str) -> (r: Option<String>)
    ensures
        r matches Some(v) ==> is_first_tango_key(page@, v@),
        r is None ==> forall|i: int| tango_key_at(page@, i) is None,
{
    let n = page.unicode_len();
    let mut i: usize = 0;
    proof {
        reveal_strlit("apiKey");
    }
    while i < n
        invariant
            0 <= i <= n,
            n == page@.len(),
            forall|k: int| 0 <= k < i ==> tango_key_at(page@, k) is None,
        decreases n - i,
    {
        proof {
            reveal_strlit("apiKey");
        }
        match match_quoted_key(page, "LIVE_CHAT_BASE_TANGO_CONFIG", i) {
            Some(p) => {
                let mut found: Option<String> = None;
                let b = scan_to(page, ScanStop::NonWs, p);
                if b < n && page.get_char(b) == '{' {
                    let k = scan_to(page, ScanStop::NonWs, b + 1);
                    let l = "apiKey".unicode_len();
                    if n - k > l + 1 {
                        let q0 = page.get_char(k);
                        if q0 == '\'' || q0 == '"' {
                            if crate::text::starts_with_at(page, "apiKey", k + 1) {
                                let q1 = page.get_char(k + 1 + l);
                                if q1 == '\'' || q1 == '"' {
                                    let c = scan_to(page, ScanStop::NonWs, k + 2 + l);
                                    if c < n && page.get_char(c) == ':' {
                                        found = capture_value(page, c + 1);
                                    }
                                }
                            }
                        }
                    }
                }
                match found {
                    Some(v) => {
                        proof {
                            assert(tango_key_at(page@, i as int) == Some(v@));
                        }
                        return Some(v);
                    },
                    None => {
                        proof {
                            assert(tango_key_at(page@, i as int) is None);
                        }
                    },
                }
            },
            None => {
                proof {
                    assert(tango_key_at(page@, i as int) is None);
                }
            },
        }
        i = i + 1;
    }
    proof {
        reveal_strlit("apiKey");
        assert forall|i2: int| tango_key_at(page@, i2) is None by {
            if 0 <= i2 < n {
            } else {
                assert(quoted_key_end(page@, "LIVE_CHAT_BASE_TANGO_CONFIG"@, i2) is None);
            }
        }
    }
    None
}

/// A chat-tab continuation block at `i`: the leading tab title, a
/// closing quote and comma, the quoted `selected` flag — which must be
/// literally `true` when `selected_only` holds, and `true` or `false`
/// otherwise — then the quoted `continuation` key opening a reload
/// block whose inner `continuation` value is captured.
pub open spec fn continuation_at(
    page: Seq<char>,
    lead: Seq<char>,
    selected_only: bool,
    i: int,
) -> Option<Seq<char>> {
    if crate::text::lit_at(page, lead, i) {
        let q = i + lead.len() as int;
        if q + 1 < page.len() && is_quote(page[q]) && page[q + 1] == ',' {
            let s0 = scan_end(page, ScanStop::NonWs, q + 2);
            match quoted_key_end(page, "selected"@, s0) {
                Some(p1) => {
                    let t0 = scan_end(page, ScanStop::NonWs, p1);
                    let after_flag: Option<int> = if crate::text::lit_at(page, "true"@, t0) {
                        Some(t0 + 4)
                    } else if !selected_only && crate::text::lit_at(page, "false"@, t0) {
                        Some(t0 + 5)
                    } else {
                        None
                    };
                    match after_flag {
                        Some(f) => {
                            if f < page.len() && page[f] == ',' {
                                let c0 = scan_end(page, ScanStop::NonWs, f + 1);
                                match quoted_key_end(page, "continuation"@, c0) {
                                    Some(p2) => {
                                        let b0 = scan_end(page, ScanStop::NonWs, p2);
                                        if b0 < page.len() && page[b0] == '{' {
                                            let r0 = scan_end(page, ScanStop::NonWs, b0 + 1);
                                            match quoted_key_end(
                                                page,
                                                "reloadContinuationData"@,
                                                r0,
                                            ) {
                                                Some(p3) => {
                                                    let b1 = scan_end(
                                                        page,
                                                        ScanStop::NonWs,
                                                        p3,
                                                    );
                                                    if b1 < page.len() && page[b1] == '{' {
                                                        match quoted_key_end(
                                                            page,
                                                            "continuation"@,
                                                            b1 + 1,
                                                        ) {
                                                            Some(p4) => value_capture_at(
                                                                page,
                                                                p4,
                                                            ),
                                                            None => None,
                                                        }
                                                    } else {
                                                        None
                                                    }
                                                },
                                                None => None,
                                            }
                                        } else {
                                            None
                                        }
                                    },
                                    None => None,
                                }
                            } else {
                                None
                            }
                        },
                        None => None,
                    }
                },
                None => None,
            }
        } else {
            None
        }
    } else {
        None
    }
}

/// `v` is the value of the first chat-tab continuation match in the
/// page.
pub open spec fn is_first_continuation(
    page: Seq<char>,
    lead: Seq<char>,
    selected_only: bool,
    v: Seq<char>,
) -> bool {
    exists|i: int|
        #[trigger] continuation_at(page, lead, selected_only, i) == Some(v) && (forall|k: int|
            0 <= k < i ==> continuation_at(page, lead, selected_only, k) is None)
}

/// Try a chat-tab continuation match at `i`.
fn try_continuation_at(page: &str, lead: &str, selected_only: bool, i: usize) -> (r: Option<
    String,
>)
    requires
        i <= page@.len(),
    ensures
        r matches Some(v) ==> continuation_at(page@, lead@, selected_only, i as int) == Some(v@),
        r is None ==> continuation_at(page@, lead@, selected_only, i as int) is None,
{
    proof {
        reveal_strlit("true");
        reveal_strlit("false");
    }
    let n = page.unicode_len();
    if !crate::text::starts_with_at(page, lead, i) {
        return None;
    }
    let ll = lead.unicode_len();
    proof {
        assert(i + ll <= n);
    }
    let q = i + ll;
    if n - q < 2 {
        return None;
    }
    let qc = page.get_char(q);
    if !(qc == '\'' || qc == '"') {
        return None;
    }
    if page.get_char(q + 1) != ',' {
        return None;
    }
    let s0 = scan_to(page, ScanStop::NonWs, q + 2);
    let p1 = match match_quoted_key(page, "selected", s0) {
        Some(p) => p,
        None => {
            return None;
        },
    };
    let t0 = scan_to(page, ScanStop::NonWs, p1);
    let f: usize = if crate::text::starts_with_at(page, "true", t0) {
        t0 + 4
    } else if !selected_only && crate::text::starts_with_at(page, "false", t0) {
        t0 + 5
    } else {
        return None;
    };
    if f >= n {
        return None;
    }
    if page.get_char(f) != ',' {
        return None;
    }
    let c0 = scan_to(page, ScanStop::NonWs, f + 1);
    let p2 = match match_quoted_key(page, "continuation", c0) {
        Some(p) => p,
        None => {
            return None;
        },
    };
    let b0 = scan_to(page, ScanStop::NonWs, p2);
    if b0 >= n {
        return None;
    }
    if page.get_char(b0) != '{' {
        return None;
    }
    let r0 = scan_to(page, ScanStop::NonWs, b0 + 1);
    let p3 = match match_quoted_key(page, "reloadContinuationData", r0) {
        Some(p) => p,
        None => {
            return None;
        },
    };
    let b1 = scan_to(page, ScanStop::NonWs, p3);
    if b1 >= n {
        return None;
    }
    if page.get_char(b1) != '{' {
        return None;
    }
    let p4 = match match_quoted_key(page, "continuation", b1 + 1) {
        Some(p) => p,
        None => {
            return None;
        },
    };
    capture_value(page, p4)
}

/// Extract the first chat-tab continuation match from the page.
pub fn extract_continuation(page: &str, lead: &str, selected_only: bool) -> (r: Option<String>)
    ensures
        r matches Some(v) ==> is_first_continuation(page@, lead@, selected_only, v@),
        r is None ==> forall|i: int| continuation_at(page@, lead@, selected_only, i) is None,
{
    let n = page.unicode_len();
    let mut i: usize = 0;
    while i < n
        invariant
            0 <= i <= n,
            n == page@.len(),
            forall|k: int| 0 <= k < i ==> continuation_at(page@, lead@, selected_only, k) is None,
        decreases n - i,
    {
        match try_continuation_at(page, lead, selected_only, i) {
            Some(v) => {
                return Some(v);
            },
            None => {},
        }
        i = i + 1;
    }
    proof {
        assert forall|i2: int| continuation_at(page@, lead@, selected_only, i2) is None by {
            if i2 < 0 || i2 > n {
                assert(!crate::text::lit_at(page@, lead@, i2));
            } else if i2 == n {
                if crate::text::lit_at(page@, lead@, i2) {
                    assert(i2 + lead@.len() >= n);
                }
            }
        }
    }
    None
}


/// The first chat-tab continuation match is one value.
pub proof fn lemma_continuation_deterministic(
    page: Seq<char>,
    lead: Seq<char>,
    selected_only: bool,
    v1: Seq<char>,
    v2: Seq<char>,
)
    requires
        is_first_continuation(page, lead, selected_only, v1),
        is_first_continuation(page, lead, selected_only, v2),
    ensures
        v1 == v2,
{
    let i1 = choose|i: int|
        #[trigger] continuation_at(page, lead, selected_only, i) == Some(v1) && (forall|k: int|
            0 <= k < i ==> continuation_at(page, lead, selected_only, k) is None);
    let i2 = choose|i: int|
        #[trigger] continuation_at(page, lead, selected_only, i) == Some(v2) && (forall|k: int|
            0 <= k < i ==> continuation_at(page, lead, selected_only, k) is None);
    if i1 < i2 {
        assert(continuation_at(page, lead, selected_only, i1) is None);
    } else if i2 < i1 {
        assert(continuation_at(page, lead, selected_only, i2) is None);
    }
}

/// The first position at or past `j` holding a newline or closing an
/// embedded object with `};`; the length of the page when none does.
pub open spec fn brace_semi_end(s: Seq<char>, j: int) -> int
    decreases s.len() - j,
{
    if j < 0 || j >= s.len() {
        s.len() as int
    } else if s[j] == '\n' || (s[j] == '}' && j + 1 < s.len() && s[j + 1] == ';') {
        j
    } else {
        brace_semi_end(s, j + 1)
    }
}

/// Where the embedded-object scan lands.
proof fn lemma_brace_semi_end(s: Seq<char>, j: int)
    requires
        0 <= j <= s.len(),
    ensures
        j <= brace_semi_end(s, j) <= s.len(),
        brace_semi_end(s, j) < s.len() ==> (s[brace_semi_end(s, j)] == '\n' || (s[brace_semi_end(
            s,
            j,
        )] == '}' && brace_semi_end(s, j) + 1 < s.len() && s[brace_semi_end(s, j) + 1] == ';')),
    decreases s.len() - j,
{
    if j < s.len() && !(s[j] == '\n' || (s[j] == '}' && j + 1 < s.len() && s[j + 1] == ';')) {
        lemma_brace_semi_end(s, j + 1);
    }
}

/// Scan for a newline or an embedded object's closing `};`.
fn scan_brace_semi(s: &str, from: usize) -> (r: usize)
    requires
        from <= s@.len(),
    ensures
        r == brace_semi_end(s@, from as int),
{
    proof {
        lemma_brace_semi_end(s@, from as int);
    }
    let n = s.unicode_len();
    let mut i: usize = from;
    while i < n
        invariant
            from <= i <= n,
            n == s@.len(),
            brace_semi_end(s@, from as int) == brace_semi_end(s@, i as int),
        decreases n - i,
    {
        let c = s.get_char(i);
        if c == '\n' {
            proof {
                assert(brace_semi_end(s@, i as int) == i);
            }
            return i;
        }
        if c == '}' && i + 1 < n && s.get_char(i + 1) == ';' {
            proof {
                assert(brace_semi_end(s@, i as int) == i);
            }
            return i;
        }
        i = i + 1;
    }
    n
}

/// The page's embedded initial-data object at `i`: the assignment
/// marker, whitespace, `=`, whitespace, then a braced object captured
/// up to the first `};` on the same line, braces included.
pub open spec fn initial_data_at(page: Seq<char>, i: int) -> Option<Seq<char>> {
    if crate::text::lit_at(page, "var ytInitialData"@, i) {
        let e0 = scan_end(page, ScanStop::NonWs, i + 17);
        if e0 < page.len() && page[e0] == '=' {
            let b = scan_end(page, ScanStop::NonWs, e0 + 1);
            if b < page.len() && page[b] == '{' {
                let e = brace_semi_end(page, b + 1);
                if e > b + 1 && e < page.len() && page[e] == '}' {
                    Some(page.subrange(b, e + 1))
                } else {
                    None
                }
            } else {
                None
            }
        } else {
            None
        }
    } else {
        None
    }
}

/// `v` is the first initial-data object found in the page.
pub open spec fn is_first_initial_data(page: Seq<char>, v: Seq<char>) -> bool {
    exists|i: int|
        #[trigger] initial_data_at(page, i) == Some(v) && (forall|k: int|
            0 <= k < i ==> initial_data_at(page, k) is None)
}

/// Extract the page's embedded initial-data object, braces included.
pub fn extract_initial_data(page: &str) -> (r: Option<String>)
    ensures
        r matches Some(v) ==> is_first_initial_data(page@, v@),
        r is None ==> forall|i: int| initial_data_at(page@, i) is None,
{
    proof {
        reveal_strlit("var ytInitialData");
    }
    let n = page.unicode_len();
    let mut i: usize = 0;
    while i < n
        invariant
            0 <= i <= n,
            n == page@.len(),
            forall|k: int| 0 <= k < i ==> initial_data_at(page@, k) is None,
        decreases n - i,
    {
        proof {
            reveal_strlit("var ytInitialData");
        }
        if crate::text::starts_with_at(page, "var ytInitialData", i) {
            proof {
                assert("var ytInitialData"@.len() == 17);
            }
            let e0 = scan_to(page, ScanStop::NonWs, i + 17);
            if e0 < n && page.get_char(e0) == '=' {
                let b = scan_to(page, ScanStop::NonWs, e0 + 1);
                if b < n && page.get_char(b) == '{' {
                    let e = scan_brace_semi(page, b + 1);
                    if e > b + 1 && e < n && page.get_char(e) == '}' {
                        let v = page.substring_char(b, e + 1).to_owned();
                        proof {
                            assert(initial_data_at(page@, i as int) == Some(v@));
                        }
                        return Some(v);
                    }
                }
            }
            proof {
                assert(initial_data_at(page@, i as int) is None);
            }
        } else {
            proof {
                assert(initial_data_at(page@, i as int) is None);
            }
        }
        i = i + 1;
    }
    proof {
        reveal_strlit("var ytInitialData");
        assert forall|i2: int| initial_data_at(page@, i2) is None by {
            if i2 < 0 || i2 + 17 > n {
                assert(!crate::text::lit_at(page@, "var ytInitialData"@, i2));
            }
        }
    }
    None
}


/// A word character of an identifier: a letter, a digit, or an
/// underscore.
pub open spec fn is_word_char(c: char) -> bool {
    (65 <= c as u32 <= 90) || (97 <= c as u32 <= 122) || crate::text::is_digit(c) || c == '_'
}

/// A character a video or channel id may hold: a word character or a
/// dash.
pub open spec fn is_id_char(c: char) -> bool {
    is_word_char(c) || c == '-'
}

/// A URL with its scheme stripped, when it carries one.
pub open spec fn spec_after_scheme(url: Seq<char>) -> Seq<char> {
    if crate::text::lit_at(url, "https://"@, 0) {
        url.skip(8)
    } else if crate::text::lit_at(url, "http://"@, 0) {
        url.skip(7)
    } else {
        url
    }
}

/// A URL with a leading `www.` stripped, when it carries one.
pub open spec fn spec_after_www(u: Seq<char>) -> Seq<char> {
    if crate::text::lit_at(u, "www."@, 0) {
        u.skip(4)
    } else {
        u
    }
}

/// The channel identifier a channel URL denotes: after the optional
/// scheme and `www.`, the platform host, then either `channel/` and a
/// 24-character channel id — `UC`, twenty-one id characters, and one
/// of the four closing letters — or an `@` handle of word characters,
/// reaching the end of the URL.
pub open spec fn spec_channel_link_id(url: Seq<char>) -> Option<Seq<char>> {
    let u = spec_after_www(spec_after_scheme(url));
    if crate::text::lit_at(u, "youtube.com/"@, 0) {
        let t = u.skip(12);
        if crate::text::lit_at(t, "channel/"@, 0) {
            let id = t.skip(8);
            if id.len() == 24 && id[0] == 'U' && id[1] == 'C' && (forall|k: int|
                2 <= k < 23 ==> is_id_char(#[trigger] id[k])) && (id[23] == 'A' || id[23] == 'Q'
                || id[23] == 'g' || id[23] == 'w') {
                Some(id)
            } else {
                None
            }
        } else if t.len() >= 2 && t[0] == '@' && (forall|k: int|
            1 <= k < t.len() ==> is_word_char(#[trigger] t[k])) {
            Some(t)
        } else {
            None
        }
    } else {
        None
    }
}

/// Test a run of characters with an exec class.
fn all_chars_in(s: &str, from: usize, to: usize, id_class: bool) -> (r: bool)
    requires
        from <= to <= s@.len(),
    ensures
        id_class ==> r == (forall|k: int| from <= k < to ==> is_id_char(#[trigger] s@[k])),
        !id_class ==> r == (forall|k: int| from <= k < to ==> is_word_char(#[trigger] s@[k])),
{
    let mut i: usize = from;
    while i < to
        invariant
            from <= i <= to,
            to <= s@.len(),
            forall|k: int|
                from <= k < i ==> (if id_class {
                    is_id_char(#[trigger] s@[k])
                } else {
                    is_word_char(s@[k])
                }),
        decreases to - i,
    {
        let c = s.get_char(i);
        let v = c as u32;
        let word = (65 <= v && v <= 90) || (97 <= v && v <= 122) || (48 <= v && v <= 57) || c
            == '_';
        let ok = if id_class {
            word || c == '-'
        } else {
            word
        };
        if !ok {
            proof {
                if id_class {
                    assert(!is_id_char(s@[i as int]));
                } else {
                    assert(!is_word_char(s@[i as int]));
                }
            }
            return false;
        }
        i = i + 1;
    }
    true
}

/// Parse a channel URL into the channel identifier it names.
#[verifier::rlimit(50)]
pub fn parse_channel_link(url: &str) -> (r: Option<String>)
    ensures
        r matches Some(v) ==> spec_channel_link_id(url@) == Some(v@),
        r is None ==> spec_channel_link_id(url@) is None,
{
    proof {
        reveal_strlit("https://");
        reveal_strlit("http://");
        reveal_strlit("www.");
        reveal_strlit("youtube.com/");
        reveal_strlit("channel/");
    }
    let n = url.unicode_len();
    let s0: usize = if crate::text::starts_with_at(url, "https://", 0) {
        8
    } else if crate::text::starts_with_at(url, "http://", 0) {
        7
    } else {
        0
    };
    let ghost u = spec_after_scheme(url@);
    proof {
        assert(u =~= url@.skip(s0 as int));
    }
    let s1: usize = if crate::text::starts_with_at(url, "www.", s0) {
        s0 + 4
    } else {
        s0
    };
    let ghost u2 = spec_after_www(u);
    proof {
        assert(crate::text::lit_at(u, "www."@, 0) == crate::text::lit_at(url@, "www."@, s0 as int))
            by {
            if crate::text::lit_at(u, "www."@, 0) {
                assert(url@.subrange(s0 as int, s0 + 4) =~= u.subrange(0, 4));
            }
            if crate::text::lit_at(url@, "www."@, s0 as int) {
                assert(u.subrange(0, 4) =~= url@.subrange(s0 as int, s0 + 4));
            }
        }
        assert(u2 =~= url@.skip(s1 as int));
    }
    if !crate::text::starts_with_at(url, "youtube.com/", s1) {
        proof {
            assert(!crate::text::lit_at(u2, "youtube.com/"@, 0)) by {
                if crate::text::lit_at(u2, "youtube.com/"@, 0) {
                    assert(url@.subrange(s1 as int, s1 + 12) =~= u2.subrange(0, 12));
                }
            }
        }
        return None;
    }
    proof {
        assert(crate::text::lit_at(u2, "youtube.com/"@, 0)) by {
            assert(u2.subrange(0, 12) =~= url@.subrange(s1 as int, s1 + 12));
        }
    }
    let h = s1 + 12;
    let ghost t = u2.skip(12);
    proof {
        assert(t =~= url@.skip(h as int));
        assert(forall|k: int| 0 <= k < t.len() ==> #[trigger] t[k] == url@[h + k]);
    }
    if crate::text::starts_with_at(url, "channel/", h) {
        proof {
            assert(crate::text::lit_at(t, "channel/"@, 0)) by {
                assert(t.subrange(0, 8) =~= url@.subrange(h as int, h + 8));
            }
        }
        let c0 = h + 8;
        let ghost id = t.skip(8);
        proof {
            assert(id =~= url@.skip(c0 as int));
            assert(forall|k: int| 0 <= k < id.len() ==> #[trigger] id[k] == url@[c0 + k]);
        }
        if n - c0 != 24 {
            return None;
        }
        if url.get_char(c0) != 'U' || url.get_char(c0 + 1) != 'C' {
            proof {
                assert(id.len() == 24);
                assert(id[0] != 'U' || id[1] != 'C');
                assert(spec_channel_link_id(url@) is None);
            }
            return None;
        }
        if !all_chars_in(url, c0 + 2, c0 + 23, true) {
            proof {
                assert(!(forall|k: int| 2 <= k < 23 ==> is_id_char(#[trigger] id[k]))) by {
                    if forall|k: int| 2 <= k < 23 ==> is_id_char(#[trigger] id[k]) {
                        assert(forall|k: int|
                            c0 + 2 <= k < c0 + 23 ==> is_id_char(#[trigger] url@[k])) by {
                            assert(forall|k: int|
                                c0 + 2 <= k < c0 + 23 ==> #[trigger] url@[k] == id[k - c0]);
                        }
                    }
                }
                assert(spec_channel_link_id(url@) is None);
            }
            return None;
        }
        let last = url.get_char(c0 + 23);
        if !(last == 'A' || last == 'Q' || last == 'g' || last == 'w') {
            return None;
        }
        let v = url.substring_char(c0, n).to_owned();
        proof {
            assert(v@ =~= id);
            assert(forall|k: int| 2 <= k < 23 ==> is_id_char(#[trigger] id[k]));
        }
        Some(v)
    } else {
        proof {
            assert(!crate::text::lit_at(t, "channel/"@, 0)) by {
                if crate::text::lit_at(t, "channel/"@, 0) {
                    assert(url@.subrange(h as int, h + 8) =~= t.subrange(0, 8));
                }
            }
        }
        if n - h < 2 {
            return None;
        }
        if url.get_char(h) != '@' {
            return None;
        }
        if !all_chars_in(url, h + 1, n, false) {
            proof {
                assert(t.len() == n - h);
                assert(!(forall|k: int| 1 <= k < t.len() ==> is_word_char(#[trigger] t[k])))
                    by {
                    if forall|k: int| 1 <= k < t.len() ==> is_word_char(#[trigger] t[k]) {
                        assert(forall|k: int|
                            h + 1 <= k < n ==> is_word_char(#[trigger] url@[k])) by {
                            assert(forall|k: int|
                                h + 1 <= k < n ==> #[trigger] url@[k] == t[k - h]);
                        }
                    }
                }
                assert(spec_channel_link_id(url@) is None);
            }
            return None;
        }
        let v = url.substring_char(h, n).to_owned();
        proof {
            assert(v@ =~= t);
            assert(forall|k: int| 1 <= k < t.len() ==> is_word_char(#[trigger] t[k]));
        }
        Some(v)
    }
}


/// The last position at or before `j` where `lit` stands in `s`.
pub open spec fn last_lit_pos(s: Seq<char>, lit: Seq<char>, j: int) -> Option<int>
    decreases j + 1,
{
    if j < 0 {
        None
    } else if crate::text::lit_at(s, lit, j) {
        Some(j)
    } else {
        last_lit_pos(s, lit, j - 1)
    }
}

/// Where the backward search lands.
proof fn lemma_last_lit_pos(s: Seq<char>, lit: Seq<char>, j: int)
    ensures
        last_lit_pos(s, lit, j) matches Some(p) ==> 0 <= p <= j && crate::text::lit_at(
            s,
            lit,
            p,
        ) && (forall|k: int| p < k <= j ==> !crate::text::lit_at(s, lit, k)),
        last_lit_pos(s, lit, j) is None ==> forall|k: int|
            0 <= k <= j ==> !crate::text::lit_at(s, lit, k),
    decreases j + 1,
{
    if j >= 0 && !crate::text::lit_at(s, lit, j) {
        lemma_last_lit_pos(s, lit, j - 1);
    }
}

/// Search backward from `j` for the last occurrence of `lit`.
fn find_last_lit(s: &str, lit: &str, j: usize) -> (r: Option<usize>)
    requires
        j < s@.len() || j == 0,
        j <= s@.len(),
    ensures
        r matches Some(p) ==> last_lit_pos(s@, lit@, j as int) == Some(p as int) && p <= j,
        r is None ==> last_lit_pos(s@, lit@, j as int) is None,
{
    let mut i: usize = j;
    loop
        invariant
            0 <= i <= j <= s@.len(),
            last_lit_pos(s@, lit@, j as int) == last_lit_pos(s@, lit@, i as int),
        decreases i,
    {
        if crate::text::starts_with_at(s, lit, i) {
            return Some(i);
        }
        if i == 0 {
            return None;
        }
        i = i - 1;
    }
}

/// The video id a stream URL denotes. The URL must name the platform —
/// it carries the `youtu` host marker — and the id is read after the
/// last `v=` parameter marker when one occurs, and after the last slash
/// otherwise: the non-empty run of id characters standing there.
pub open spec fn spec_stream_link_id(url: Seq<char>) -> Option<Seq<char>> {
    if exists|i: int| crate::text::lit_at(url, "youtu"@, i) {
        let start: Option<int> = match last_lit_pos(url, "v="@, url.len() - 2) {
            Some(j) => Some(j + 2),
            None => match last_lit_pos(url, "/"@, url.len() - 1) {
                Some(j) => Some(j + 1),
                None => None,
            },
        };
        match start {
            Some(b) => {
                let e = scan_end(url, ScanStop::NonId, b);
                if e > b {
                    Some(url.subrange(b, e))
                } else {
                    None
                }
            },
            None => None,
        }
    } else {
        None
    }
}

/// Parse a stream URL into the video id it names.
pub fn parse_stream_link(url: &str) -> (r: Option<String>)
    ensures
        r matches Some(v) ==> spec_stream_link_id(url@) == Some(v@),
        r is None ==> spec_stream_link_id(url@) is None,
{
    proof {
        reveal_strlit("youtu");
        reveal_strlit("v=");
        reveal_strlit("/");
    }
    let n = url.unicode_len();
    let mut has_marker = false;
    let mut i: usize = 0;
    while i < n && !has_marker
        invariant
            0 <= i <= n,
            n == url@.len(),
            has_marker ==> exists|k: int| crate::text::lit_at(url@, "youtu"@, k),
            !has_marker ==> forall|k: int| 0 <= k < i ==> !crate::text::lit_at(
                url@,
                "youtu"@,
                k,
            ),
        decreases n - i + (if has_marker {
            0int
        } else {
            1int
        }),
    {
        if crate::text::starts_with_at(url, "youtu", i) {
            has_marker = true;
        } else {
            i = i + 1;
        }
    }
    if !has_marker {
        proof {
            assert(forall|k: int| 0 <= k < n ==> !crate::text::lit_at(url@, "youtu"@, k));
            assert(!(exists|k: int| crate::text::lit_at(url@, "youtu"@, k))) by {
                if exists|k: int| crate::text::lit_at(url@, "youtu"@, k) {
                    let k = choose|k: int| crate::text::lit_at(url@, "youtu"@, k);
                    assert("youtu"@.len() == 5);
                    assert(0 <= k < n);
                }
            }
        }
        return None;
    }
    let b: usize = if n >= 2 {
        match find_last_lit(url, "v=", n - 2) {
            Some(j) => j + 2,
            None => {
                match find_last_lit(url, "/", n - 1) {
                    Some(j) => j + 1,
                    None => {
                        return None;
                    },
                }
            },
        }
    } else {
        proof {
            assert("v="@.len() == 2);
            assert(last_lit_pos(url@, "v="@, n - 2) is None);
        }
        match find_last_lit(url, "/", if n == 0 {
            0
        } else {
            n - 1
        }) {
            Some(j) => j + 1,
            None => {
                return None;
            },
        }
    };
    proof {
        assert("v="@.len() == 2);
        assert("/"@.len() == 1);
        lemma_last_lit_pos(url@, "v="@, n - 2);
        lemma_last_lit_pos(url@, "/"@, n - 1);
    }
    if b > n {
        proof {
            assert(false);
        }
        return None;
    }
    let e = scan_to(url, ScanStop::NonId, b);
    if e > b {
        Some(url.substring_char(b, e).to_owned())
    } else {
        None
    }
}


/// The page marks this key somewhere with a string value.
pub open spec fn spec_has_keyed_value(page: Seq<char>, name: Seq<char>) -> bool {
    exists|i: int| (#[trigger] keyed_value_at(page, name, i)) is Some
}

/// The live status a watch page denotes: a page without the
/// live-content marker is not a stream; one with it is live when the
/// live-now marker stands, a replay when the replay marker stands, and
/// upcoming otherwise.
pub open spec fn spec_live_status(page: Seq<char>) -> Option<LiveStreamStatus> {
    if spec_has_keyed_true(page, "isLiveContent"@) {
        Some(
            if spec_has_keyed_true(page, "isLiveNow"@) {
                LiveStreamStatus::Live
            } else if spec_has_keyed_true(page, "isReplay"@) {
                LiveStreamStatus::Replay
            } else {
                LiveStreamStatus::Upcoming
            },
        )
    } else {
        None
    }
}

/// The chat-tab title and selected-flag rule the continuation is
/// anchored on: the live chat tab for a stream that updates live, the
/// selected top-chat-replay tab for a replay.
pub open spec fn spec_continuation_lead(status: LiveStreamStatus) -> Seq<char> {
    if status.spec_updates_live() {
        "Live chat"@
    } else {
        "Top chat replay"@
    }
}

/// Whether the continuation anchor demands the tab be selected.
pub open spec fn spec_continuation_selected_only(status: LiveStreamStatus) -> bool {
    !status.spec_updates_live()
}

/// The context a watch page denotes for a video id: the status the
/// page's markers classify, the first API key, the first signaling key
/// when one stands, the first client version — or the stable fallback
/// when none stands — and the first chat continuation for the status's
/// tab anchor.
pub open spec fn spec_context_of_page(id: Seq<char>, page: Seq<char>, ctx: ChatContext) -> bool {
    &&& ctx.id@ == id
    &&& Some(ctx.live_status) == spec_live_status(page)
    &&& is_first_keyed_value(page, "INNERTUBE_API_KEY"@, ctx.api_key@)
    &&& match ctx.tango_api_key {
        Some(k) => is_first_tango_key(page, k@),
        None => forall|i: int| tango_key_at(page, i) is None,
    }
    &&& (is_first_keyed_version(page, "clientVersion"@, ctx.client_version@) || ((forall|i: int|
        keyed_version_at(page, "clientVersion"@, i) is None) && ctx.client_version@
        == "2.20240207.07.00"@))
    &&& is_first_continuation(
        page,
        spec_continuation_lead(ctx.live_status),
        spec_continuation_selected_only(ctx.live_status),
        ctx.initial_continuation@,
    )
}

/// A page snapshot denotes one context: bootstrapping the same id from
/// the same page twice yields the same status, keys, version and
/// continuation.
pub proof fn lemma_bootstrap_deterministic(
    id: Seq<char>,
    page: Seq<char>,
    c1: ChatContext,
    c2: ChatContext,
)
    requires
        spec_context_of_page(id, page, c1),
        spec_context_of_page(id, page, c2),
    ensures
        c1.id@ == c2.id@,
        c1.live_status == c2.live_status,
        c1.api_key@ == c2.api_key@,
        c1.client_version@ == c2.client_version@,
        c1.initial_continuation@ == c2.initial_continuation@,
        c1.tango_api_key is Some <==> c2.tango_api_key is Some,
        c1.tango_api_key matches Some(k1) ==> c2.tango_api_key matches Some(k2) && k1@ == k2@,
{
    lemma_keyed_value_deterministic(page, "INNERTUBE_API_KEY"@, c1.api_key@, c2.api_key@);
    lemma_continuation_deterministic(
        page,
        spec_continuation_lead(c1.live_status),
        spec_continuation_selected_only(c1.live_status),
        c1.initial_continuation@,
        c2.initial_continuation@,
    );
    match (c1.tango_api_key, c2.tango_api_key) {
        (Some(k1), Some(k2)) => {
            let i1 = choose|i: int|
                #[trigger] tango_key_at(page, i) == Some(k1@) && (forall|k: int|
                    0 <= k < i ==> tango_key_at(page, k) is None);
            let i2 = choose|i: int|
                #[trigger] tango_key_at(page, i) == Some(k2@) && (forall|k: int|
                    0 <= k < i ==> tango_key_at(page, k) is None);
            if i1 < i2 {
                assert(tango_key_at(page, i1) is None);
            } else if i2 < i1 {
                assert(tango_key_at(page, i2) is None);
            }
        },
        (Some(k1), None) => {
            let i1 = choose|i: int|
                #[trigger] tango_key_at(page, i) == Some(k1@) && (forall|k: int|
                    0 <= k < i ==> tango_key_at(page, k) is None);
            assert(tango_key_at(page, i1) is None);
        },
        (None, Some(k2)) => {
            let i2 = choose|i: int|
                #[trigger] tango_key_at(page, i) == Some(k2@) && (forall|k: int|
                    0 <= k < i ==> tango_key_at(page, k) is None);
            assert(tango_key_at(page, i2) is None);
        },
        (None, None) => {},
    }
    if is_first_keyed_version(page, "clientVersion"@, c1.client_version@)
        && is_first_keyed_version(page, "clientVersion"@, c2.client_version@) {
        let i1 = choose|i: int|
            #[trigger] keyed_version_at(page, "clientVersion"@, i) == Some(c1.client_version@)
                && (forall|k: int|
                0 <= k < i ==> keyed_version_at(page, "clientVersion"@, k) is None);
        let i2 = choose|i: int|
            #[trigger] keyed_version_at(page, "clientVersion"@, i) == Some(c2.client_version@)
                && (forall|k: int|
                0 <= k < i ==> keyed_version_at(page, "clientVersion"@, k) is None);
        if i1 < i2 {
            assert(keyed_version_at(page, "clientVersion"@, i1) is None);
        } else if i2 < i1 {
            assert(keyed_version_at(page, "clientVersion"@, i2) is None);
        }
    } else if is_first_keyed_version(page, "clientVersion"@, c1.client_version@) {
        let i1 = choose|i: int|
            #[trigger] keyed_version_at(page, "clientVersion"@, i) == Some(c1.client_version@)
                && (forall|k: int|
                0 <= k < i ==> keyed_version_at(page, "clientVersion"@, k) is None);
        assert(keyed_version_at(page, "clientVersion"@, i1) is None);
    } else if is_first_keyed_version(page, "clientVersion"@, c2.client_version@) {
        let i2 = choose|i: int|
            #[trigger] keyed_version_at(page, "clientVersion"@, i) == Some(c2.client_version@)
                && (forall|k: int|
                0 <= k < i ==> keyed_version_at(page, "clientVersion"@, k) is None);
        assert(keyed_version_at(page, "clientVersion"@, i2) is None);
    }
}

impl ChatContext {
    /// Classify and extract a chat context from a served watch page.
    /// The live status decides which chat tab anchors the continuation;
    /// a page without the live-content marker is refused as not a
    /// stream, one without an API key or without a continuation is
    /// refused accordingly.
    pub fn from_watch_page(id: &str, page: &str) -> (r: Result<ChatContext, Error>)
        ensures
            r is Ok <==> spec_live_status(page@) is Some && spec_has_keyed_value(
                page@,
                "INNERTUBE_API_KEY"@,
            ) && (exists|i: int|
                (#[trigger] continuation_at(
                    page@,
                    spec_continuation_lead(spec_live_status(page@)->0),
                    spec_continuation_selected_only(spec_live_status(page@)->0),
                    i,
                )) is Some),
            r matches Ok(ctx) ==> spec_context_of_page(id@, page@, ctx),
            r matches Err(e) ==> (match e {
                Error::NotStream(s) => s@ == id@ && spec_live_status(page@) is None,
                Error::NoInnerTubeKey => spec_live_status(page@) is Some
                    && !spec_has_keyed_value(page@, "INNERTUBE_API_KEY"@),
                Error::NoChatContinuation => spec_live_status(page@) is Some
                    && spec_has_keyed_value(page@, "INNERTUBE_API_KEY"@),
                _ => false,
            }),
    {
        let live_status = if has_keyed_true(page, "isLiveContent") {
            if has_keyed_true(page, "isLiveNow") {
                LiveStreamStatus::Live
            } else if has_keyed_true(page, "isReplay") {
                LiveStreamStatus::Replay
            } else {
                LiveStreamStatus::Upcoming
            }
        } else {
            return Err(Error::NotStream(id.to_owned()));
        };
        let api_key = match extract_keyed_value(page, "INNERTUBE_API_KEY") {
            Some(k) => k,
            None => {
                return Err(Error::NoInnerTubeKey);
            },
        };
        let tango_api_key = extract_tango_key(page);
        let client_version = match extract_keyed_version(page, "clientVersion") {
            Some(v) => v,
            None => "2.20240207.07.00".to_owned(),
        };
        let continuation = if live_status.updates_live() {
            extract_continuation(page, "Live chat", false)
        } else {
            extract_continuation(page, "Top chat replay", true)
        };
        let continuation = match continuation {
            Some(c) => c,
            None => {
                return Err(Error::NoChatContinuation);
            },
        };
        Ok(
            ChatContext {
                id: id.to_owned(),
                api_key,
                client_version,
                initial_continuation: continuation,
                tango_api_key,
                live_status,
            },
        )
    }

    /// Resolve a video id argument: an eleven-character ASCII id stands
    /// as it is, anything else must be a stream URL naming one.
    pub fn resolve_video_id(id: &str) -> (r: Result<String, Error>)
        ensures
            r matches Ok(v) ==> (id@.len() == 11 && vstd::string::is_ascii(id) && v@ == id@) || (
            !(id@.len() == 11 && vstd::string::is_ascii(id)) && spec_stream_link_id(id@) == Some(
                v@,
            )),
            r matches Err(e) ==> e matches Error::InvalidVideoID(s) && s@ == id@
                && !(id@.len() == 11 && vstd::string::is_ascii(id)) && spec_stream_link_id(id@)
                is None,
    {
        let n = id.unicode_len();
        if id.is_ascii() && n == 11 {
            return Ok(id.to_owned());
        }
        match parse_stream_link(id) {
            Some(v) => Ok(v),
            None => Err(Error::InvalidVideoID(id.to_owned())),
        }
    }

    /// Resolve a channel argument: a `UC` channel id or an `@` handle
    /// stands as it is, anything else must be a channel URL naming one.
    pub fn resolve_channel_id(channel: &str) -> (r: Result<String, Error>)
        ensures
            r matches Ok(v) ==> ((crate::text::lit_at(channel@, "UC"@, 0) || (channel@.len() > 0
                && channel@[0] == '@')) && v@ == channel@) || (!(crate::text::lit_at(
                channel@,
                "UC"@,
                0,
            ) || (channel@.len() > 0 && channel@[0] == '@')) && spec_channel_link_id(channel@)
                == Some(v@)),
            r matches Err(e) ==> e matches Error::InvalidChannelID(s) && s@ == channel@
                && spec_channel_link_id(channel@) is None,
    {
        proof {
            reveal_strlit("UC");
        }
        let n = channel.unicode_len();
        let plain = crate::text::starts_with_at(channel, "UC", 0) || (n > 0 && channel.get_char(0)
            == '@');
        if plain {
            return Ok(channel.to_owned());
        }
        match parse_channel_link(channel) {
            Some(v) => Ok(v),
            None => Err(Error::InvalidChannelID(channel.to_owned())),
        }
    }

    /// The streams-tab URL of a channel: handles address the channel
    /// directly, channel ids go under the channel path.
    pub fn channel_streams_url(channel_id: &str) -> (r: String)
        ensures
            channel_id@.len() > 0 && channel_id@[0] == '@' ==> r@ == "https://www.youtube.com/"@
                + channel_id@ + "/streams"@,
            !(channel_id@.len() > 0 && channel_id@[0] == '@') ==> r@
                == "https://www.youtube.com/channel/"@ + channel_id@ + "/streams"@,
    {
        let n = channel_id.unicode_len();
        let mut r = if n > 0 && channel_id.get_char(0) == '@' {
            "https://www.youtube.com/".to_owned()
        } else {
            "https://www.youtube.com/channel/".to_owned()
        };
        r.append(channel_id);
        r.append("/streams");
        r
    }
}

} // verus!
