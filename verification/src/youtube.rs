//! The web-platform adapter: the chat context discovered from a watch
//! page, the chat-fetch action model, the signaling session, and the
//! orchestrator decisions that turn fetched chunks into a deduplicated
//! action stream. Transport stays with the caller.

pub mod context;
pub mod error;
pub mod get_live_chat;
pub mod signaler;
pub mod streams_page;
pub mod types;

use vstd::prelude::*;

verus! {

/// The endpoint the live chat is fetched from.
pub fn live_endpoint() -> (r: &'static str)
    ensures
        r@ == "https://www.youtube.com/youtubei/v1/live_chat/get_live_chat"@,
{
    "https://www.youtube.com/youtubei/v1/live_chat/get_live_chat"
}

/// The endpoint a replay's chat is fetched from.
pub fn replay_endpoint() -> (r: &'static str)
    ensures
        r@ == "https://www.youtube.com/youtubei/v1/live_chat/get_live_chat_replay"@,
{
    "https://www.youtube.com/youtubei/v1/live_chat/get_live_chat_replay"
}


/// The first continuation entry of a fetch response, where one exists.
pub open spec fn spec_first_continuation(resp: get_live_chat::GetLiveChatResponse) -> Option<
    get_live_chat::Continuation,
> {
    match resp.continuation_contents {
        Some(cc) => if cc.live_chat_continuation.continuations@.len() > 0 {
            Some(cc.live_chat_continuation.continuations@[0])
        } else {
            None
        },
        None => None,
    }
}

/// The plain actions of a container list, in order.
pub open spec fn spec_actions_of(containers: Seq<get_live_chat::ActionContainer>) -> Seq<
    get_live_chat::Action,
> {
    containers.map_values(|c: get_live_chat::ActionContainer| c.action)
}

/// The actions of a replay batch with each replay wrapper's children
/// spliced in, in order.
pub open spec fn spec_flatten_replay(containers: Seq<get_live_chat::ActionContainer>) -> Seq<
    get_live_chat::Action,
>
    decreases containers.len(),
{
    if containers.len() == 0 {
        Seq::empty()
    } else {
        let hs: Seq<get_live_chat::Action> = match containers[0].action {
            get_live_chat::Action::ReplayChat { actions, .. } => spec_actions_of(actions@),
            _ => seq![containers[0].action],
        };
        hs.add(spec_flatten_replay(containers.drop_first()))
    }
}

/// The output of one chat-fetch call: the ordered actions of the batch,
/// the token naming the next batch, and the signaling topic when the
/// stream publishes invalidations. Ephemeral, consumed once.
#[derive(Debug)]
pub struct ActionChunk {
    pub actions: Vec<get_live_chat::Action>,
    pub continuation_token: Option<String>,
    pub signaler_topic: Option<String>,
}

/// Map a container list to its plain actions.
fn actions_of(containers: Vec<get_live_chat::ActionContainer>) -> (r: Vec<get_live_chat::Action>)
    ensures
        r@ == spec_actions_of(containers@),
{
    let ghost orig = containers@;
    let mut containers = containers;
    let mut r: Vec<get_live_chat::Action> = Vec::new();
    proof {
        assert(orig.skip(0) =~= orig);
    }
    while containers.len() > 0
        invariant
            r@.len() + containers@.len() == orig.len(),
            containers@ == orig.skip(r@.len() as int),
            forall|m: int| 0 <= m < r@.len() ==> r@[m] == #[trigger] orig[m].action,
        decreases containers@.len(),
    {
        let c = containers.remove(0);
        proof {
            assert(c == orig[r@.len() as int]);
        }
        r.push(c.action);
        proof {
            assert(containers@ =~= orig.skip(r@.len() as int));
        }
    }
    proof {
        assert(r@ =~= spec_actions_of(orig));
    }
    r
}

/// Splice a replay batch: each replay wrapper contributes its children,
/// anything else stands as itself.
fn flatten_replay(containers: Vec<get_live_chat::ActionContainer>) -> (r: Vec<
    get_live_chat::Action,
>)
    ensures
        r@ == spec_flatten_replay(containers@),
{
    let ghost orig = containers@;
    let mut containers = containers;
    let mut r: Vec<get_live_chat::Action> = Vec::new();
    let ghost mut k: int = 0;
    proof {
        assert(orig.skip(0) =~= orig);
        assert(r@.add(spec_flatten_replay(orig.skip(0))) =~= spec_flatten_replay(orig));
    }
    while containers.len() > 0
        invariant
            0 <= k <= orig.len(),
            containers@ == orig.skip(k),
            spec_flatten_replay(orig) == r@.add(spec_flatten_replay(orig.skip(k))),
        decreases containers@.len(),
    {
        let c = containers.remove(0);
        proof {
            assert(c == orig[k]);
            assert(orig.skip(k).drop_first() =~= orig.skip(k + 1));
        }
        let ghost r_before = r@;
        match c.action {
            get_live_chat::Action::ReplayChat { actions, video_offset_time_msec: _ } => {
                let inner = actions_of(actions);
                let ghost inner_view = inner@;
                let mut inner = inner;
                proof {
                    assert(inner_view.take(0) =~= Seq::<get_live_chat::Action>::empty());
                    assert(r@ =~= r_before.add(inner_view.take(0)));
                    assert(inner@ =~= inner_view.skip(0));
                }
                while inner.len() > 0
                    invariant
                        inner@.len() <= inner_view.len(),
                        r@ == r_before.add(inner_view.take(inner_view.len() - inner@.len())),
                        inner@ == inner_view.skip(inner_view.len() - inner@.len()),
                    decreases inner@.len(),
                {
                    let ghost done = inner_view.len() - inner@.len();
                    proof {
                        assert(0 <= done < inner_view.len());
                        assert(inner_view.skip(done)[0] == inner_view[done]);
                    }
                    let a = inner.remove(0);
                    proof {
                        assert(a == inner_view[done]);
                    }
                    r.push(a);
                    proof {
                        assert(inner_view.take(done + 1) =~= inner_view.take(done).push(
                            inner_view[done],
                        ));
                        assert(r@ =~= r_before.add(inner_view.take(done + 1)));
                        assert(inner@ =~= inner_view.skip(done + 1));
                    }
                }
                proof {
                    assert(inner_view.take(inner_view.len() as int) =~= inner_view);
                    assert(r@ =~= r_before.add(inner_view));
                }
            },
            other => {
                r.push(other);
                proof {
                    assert(r@ =~= r_before.add(seq![orig[k].action]));
                }
            },
        }
        proof {
            assert(r@.add(spec_flatten_replay(orig.skip(k + 1))) =~= spec_flatten_replay(orig));
            k = k + 1;
        }
    }
    proof {
        assert(orig.skip(k) =~= Seq::<get_live_chat::ActionContainer>::empty());
        assert(spec_flatten_replay(Seq::<get_live_chat::ActionContainer>::empty())
            =~= Seq::<get_live_chat::Action>::empty());
        assert(r@.add(Seq::empty()) =~= r@);
    }
    r
}

impl ActionChunk {
    /// Derive a chunk from one fetch response. The first continuation
    /// entry yields the next token — a player seek yields none and ends
    /// the stream — and, when the stream updates live, the actions are
    /// taken as they are; a replay's wrappers are spliced, and a replay
    /// without actions ends the stream.
    pub fn new(response: get_live_chat::GetLiveChatResponse, ctx: &context::ChatContext) -> (r:
        Result<ActionChunk, error::Error>)
        requires
            response.continuation_contents matches Some(cc)
                ==> cc.live_chat_continuation.continuations@.len() > 0,
        ensures
            r is Ok <==> response.continuation_contents is Some
                && get_live_chat::spec_continuation_token(spec_first_continuation(response)->0)
                is Some && (ctx.live_status.updates_live()
                || response.continuation_contents->0.live_chat_continuation.actions is Some),
            r matches Ok(chunk) ==> {
                let first = spec_first_continuation(response)->0;
                &&& signaler::spec_opt_str(chunk.continuation_token)
                    == get_live_chat::spec_continuation_token(first)
                &&& signaler::spec_opt_str(chunk.signaler_topic)
                    == get_live_chat::spec_continuation_topic(first)
                &&& chunk.actions@ == (if ctx.live_status.updates_live() {
                    match response.continuation_contents->0.live_chat_continuation.actions {
                        Some(cs) => spec_actions_of(cs@),
                        None => Seq::<get_live_chat::Action>::empty(),
                    }
                } else {
                    spec_flatten_replay(
                        response.continuation_contents->0.live_chat_continuation.actions->0@,
                    )
                })
            },
            r matches Err(e) ==> e is EndOfContinuation,
    {
        let contents = match response.continuation_contents {
            Some(c) => c,
            None => {
                return Err(error::Error::EndOfContinuation);
            },
        };
        let mut continuations = contents.live_chat_continuation.continuations;
        let first = continuations.remove(0);
        let (token, topic): (String, Option<String>) = match first {
            get_live_chat::Continuation::Invalidation { invalidation_id, timeout_ms: _, continuation } => (
                continuation,
                Some(invalidation_id.topic),
            ),
            get_live_chat::Continuation::Timed { timeout_ms: _, continuation } => (
                continuation,
                None,
            ),
            get_live_chat::Continuation::Replay {
                time_until_last_message_msec: _,
                continuation,
            } => (continuation, None),
            get_live_chat::Continuation::PlayerSeek { .. } => {
                return Err(error::Error::EndOfContinuation);
            },
        };
        let actions = if ctx.live_status.updates_live() {
            match contents.live_chat_continuation.actions {
                Some(cs) => actions_of(cs),
                None => Vec::new(),
            }
        } else {
            match contents.live_chat_continuation.actions {
                Some(cs) => flatten_replay(cs),
                None => {
                    return Err(error::Error::EndOfContinuation);
                },
            }
        };
        Ok(ActionChunk { actions, continuation_token: Some(token), signaler_topic: topic })
    }
}


/// The set of message ids already emitted in this signaling-session
/// lifetime. Owned by one orchestrator; cleared on a session reset.
#[derive(Debug)]
pub struct SeenSet {
    items: Vec<String>,
}

impl SeenSet {
    /// The ids held, in insertion order.
    pub closed spec fn ids(&self) -> Seq<Seq<char>> {
        self.items.deep_view()
    }

    /// An empty set.
    pub fn new() -> (r: SeenSet)
        ensures
            r.ids() == Seq::<Seq<char>>::empty(),
    {
        let r = SeenSet { items: Vec::new() };
        proof {
            assert(r.ids() =~= Seq::<Seq<char>>::empty());
        }
        r
    }

    /// Whether an id was already recorded.
    pub fn contains(&self, id: &str) -> (r: bool)
        ensures
            r == self.ids().contains(id@),
    {
        let mut i: usize = 0;
        while i < self.items.len()
            invariant
                0 <= i <= self.items@.len(),
                self.ids().len() == self.items@.len(),
                forall|m: int| 0 <= m < i ==> self.ids()[m] != id@,
            decreases self.items@.len() - i,
        {
            if crate::text::str_eq(self.items[i].as_str(), id) {
                proof {
                    assert(self.ids()[i as int] == id@);
                }
                return true;
            }
            i = i + 1;
        }
        proof {
            assert(!self.ids().contains(id@)) by {
                if self.ids().contains(id@) {
                    let m = choose|m: int|
                        0 <= m < self.ids().len() && self.ids()[m] == id@;
                    assert(self.ids()[m] != id@);
                }
            }
        }
        false
    }

    /// Record an id.
    pub fn insert(&mut self, id: &str)
        ensures
            final(self).ids() == old(self).ids().push(id@),
    {
        self.items.push(id.to_owned());
        proof {
            assert(self.ids() =~= old(self).ids().push(id@));
        }
    }

    /// Forget everything; done when the signaling session rotates.
    pub fn clear(&mut self)
        ensures
            final(self).ids() == Seq::<Seq<char>>::empty(),
    {
        self.items = Vec::new();
        proof {
            assert(self.ids() =~= Seq::<Seq<char>>::empty());
        }
    }
}

/// The add-chat-item children of a replay wrapper, emitted as they are.
pub open spec fn spec_nested_adds(containers: Seq<get_live_chat::ActionContainer>) -> Seq<
    get_live_chat::Action,
>
    decreases containers.len(),
{
    if containers.len() == 0 {
        Seq::empty()
    } else {
        let hs: Seq<get_live_chat::Action> = if containers[0].action is AddChatItem {
            seq![containers[0].action]
        } else {
            Seq::empty()
        };
        hs.add(spec_nested_adds(containers.drop_first()))
    }
}

/// What one chunk emits and what the seen set becomes: an add is
/// emitted only when its item's id is new and is then recorded (when
/// deduplication is on), a replay wrapper contributes its add children
/// as they are, and every other action is emitted unconditionally.
pub open spec fn spec_emit(
    seen: Seq<Seq<char>>,
    actions: Seq<get_live_chat::Action>,
    dedup: bool,
) -> (Seq<get_live_chat::Action>, Seq<Seq<char>>)
    decreases actions.len(),
{
    if actions.len() == 0 {
        (Seq::empty(), seen)
    } else {
        let a = actions[0];
        match a {
            get_live_chat::Action::AddChatItem { item, .. } => {
                let id = get_live_chat::spec_chat_item_id(item);
                if dedup && seen.contains(id) {
                    spec_emit(seen, actions.drop_first(), dedup)
                } else {
                    let next_seen = if dedup {
                        seen.push(id)
                    } else {
                        seen
                    };
                    let rest = spec_emit(next_seen, actions.drop_first(), dedup);
                    (seq![a].add(rest.0), rest.1)
                }
            },
            get_live_chat::Action::ReplayChat { actions: nested, .. } => {
                let rest = spec_emit(seen, actions.drop_first(), dedup);
                (spec_nested_adds(nested@).add(rest.0), rest.1)
            },
            _ => {
                let rest = spec_emit(seen, actions.drop_first(), dedup);
                (seq![a].add(rest.0), rest.1)
            },
        }
    }
}

/// Emit the add-chat-item children of a replay wrapper.
fn emit_nested_adds(
    nested: Vec<get_live_chat::ActionContainer>,
    out: &mut Vec<get_live_chat::Action>,
)
    ensures
        final(out)@ == old(out)@.add(spec_nested_adds(nested@)),
{
    let ghost orig = nested@;
    let mut nested = nested;
    let ghost mut k: int = 0;
    proof {
        assert(orig.skip(0) =~= orig);
        assert(old(out)@.add(spec_nested_adds(orig.skip(0))) =~= old(out)@.add(
            spec_nested_adds(orig),
        ));
    }
    while nested.len() > 0
        invariant
            0 <= k <= orig.len(),
            nested@ == orig.skip(k),
            old(out)@.add(spec_nested_adds(orig)) == out@.add(spec_nested_adds(orig.skip(k))),
        decreases nested@.len(),
    {
        proof {
            assert(orig.skip(k)[0] == orig[k]);
            assert(orig.skip(k).drop_first() =~= orig.skip(k + 1));
        }
        let c = nested.remove(0);
        let ghost out_before = out@;
        match c.action {
            get_live_chat::Action::AddChatItem { item, client_id } => {
                out.push(get_live_chat::Action::AddChatItem { item, client_id });
                proof {
                    assert(out@ =~= out_before.add(seq![orig[k].action]));
                }
            },
            _ => {},
        }
        proof {
            assert(out@.add(spec_nested_adds(orig.skip(k + 1))) =~= old(out)@.add(
                spec_nested_adds(orig),
            ));
            k = k + 1;
            assert(nested@ =~= orig.skip(k));
        }
    }
    proof {
        assert(orig.skip(k) =~= Seq::<get_live_chat::ActionContainer>::empty());
        assert(out@.add(Seq::empty()) =~= out@);
    }
}

/// Emit one chunk's actions in server order, consuming the chunk:
/// deduplicated adds when `dedup` is on, replay children spliced
/// through, everything else as it is.
pub fn emit_chunk(
    seen: &mut SeenSet,
    actions: Vec<get_live_chat::Action>,
    dedup: bool,
) -> (out: Vec<get_live_chat::Action>)
    ensures
        (out@, final(seen).ids()) == spec_emit(old(seen).ids(), actions@, dedup),
{
    let ghost orig = actions@;
    let mut actions = actions;
    let mut out: Vec<get_live_chat::Action> = Vec::new();
    let ghost mut k: int = 0;
    proof {
        assert(orig.skip(0) =~= orig);
    }
    while actions.len() > 0
        invariant
            0 <= k <= orig.len(),
            actions@ == orig.skip(k),
            spec_emit(old(seen).ids(), orig, dedup) == {
                let rest = spec_emit(seen.ids(), orig.skip(k), dedup);
                (out@.add(rest.0), rest.1)
            },
        decreases actions@.len(),
    {
        proof {
            assert(orig.skip(k)[0] == orig[k]);
            assert(orig.skip(k).drop_first() =~= orig.skip(k + 1));
        }
        let a = actions.remove(0);
        let ghost out_before = out@;
        let ghost seen_before = seen.ids();
        let mut skip_this = false;
        match &a {
            get_live_chat::Action::AddChatItem { item, .. } => {
                if dedup {
                    if seen.contains(item.id()) {
                        skip_this = true;
                    } else {
                        let id = item.id().to_owned();
                        seen.insert(id.as_str());
                    }
                }
            },
            _ => {},
        }
        if !skip_this {
            match a {
                get_live_chat::Action::ReplayChat { actions: nested, video_offset_time_msec: _ } => {
                    emit_nested_adds(nested, &mut out);
                },
                other => {
                    out.push(other);
                    proof {
                        assert(out@ =~= out_before.add(seq![orig[k]]));
                    }
                },
            }
        }
        proof {
            let rest_next = spec_emit(seen.ids(), orig.skip(k + 1), dedup);
            assert(spec_emit(old(seen).ids(), orig, dedup) == (
                out@.add(rest_next.0),
                rest_next.1,
            ));
            k = k + 1;
        }
    }
    proof {
        assert(orig.skip(k) =~= Seq::<get_live_chat::Action>::empty());
        assert(out@.add(Seq::empty()) =~= out@);
        assert(spec_emit(old(seen).ids(), orig, dedup) == (out@, seen.ids()));
    }
    out
}


/// The id of an add action.
pub open spec fn spec_add_id(a: get_live_chat::Action) -> Seq<char> {
    get_live_chat::spec_chat_item_id(a->AddChatItem_item)
}

/// Within one session no add is emitted twice with the same item id:
/// over a batch free of replay wrappers, every add the deduplicating
/// step emits carries an id outside the seen set, the emitted adds have
/// pairwise distinct ids, and the new seen set records every id it let
/// through, so a later batch of the same session cannot emit them
/// again.
pub proof fn lemma_emit_no_duplicates(seen: Seq<Seq<char>>, actions: Seq<get_live_chat::Action>)
    requires
        forall|i: int| 0 <= i < actions.len() ==> !((#[trigger] actions[i]) is ReplayChat),
    ensures
        ({
            let r = spec_emit(seen, actions, true);
            &&& forall|i: int|
                0 <= i < r.0.len() && (#[trigger] r.0[i]) is AddChatItem ==> !seen.contains(
                    spec_add_id(r.0[i]),
                )
            &&& forall|i: int, j: int|
                0 <= i < j < r.0.len() && (#[trigger] r.0[i]) is AddChatItem && (
                #[trigger] r.0[j]) is AddChatItem ==> spec_add_id(r.0[i]) != spec_add_id(r.0[j])
            &&& forall|i: int|
                0 <= i < r.0.len() && (#[trigger] r.0[i]) is AddChatItem ==> r.1.contains(
                    spec_add_id(r.0[i]),
                )
            &&& forall|x: Seq<char>| seen.contains(x) ==> #[trigger] r.1.contains(x)
        }),
    decreases actions.len(),
{
    if actions.len() > 0 {
        let a = actions[0];
        assert(forall|i: int|
            0 <= i < actions.drop_first().len() ==> !((#[trigger] actions.drop_first()[i])
                is ReplayChat));
        match a {
            get_live_chat::Action::AddChatItem { item, .. } => {
                let id = get_live_chat::spec_chat_item_id(item);
                if seen.contains(id) {
                    lemma_emit_no_duplicates(seen, actions.drop_first());
                } else {
                    lemma_emit_no_duplicates(seen.push(id), actions.drop_first());
                    let r = spec_emit(seen.push(id), actions.drop_first(), true);
                    assert(seen.push(id).contains(id)) by {
                        assert(seen.push(id)[seen.len() as int] == id);
                    }
                    assert(forall|x: Seq<char>|
                        seen.contains(x) ==> #[trigger] seen.push(id).contains(x)) by {
                        assert(forall|x: Seq<char>| #[trigger]
                            seen.contains(x) ==> seen.push(id)[choose|m: int|
                                0 <= m < seen.len() && seen[m] == x] == x);
                    }
                    let whole = spec_emit(seen, actions, true);
                    assert(whole.0 == seq![a].add(r.0));
                    assert(forall|j: int|
                        1 <= j < whole.0.len() ==> #[trigger] whole.0[j] == r.0[j - 1]);
                    assert(whole.0[0] == a);
                }
            },
            get_live_chat::Action::ReplayChat { .. } => {
                assert(false);
            },
            _ => {
                lemma_emit_no_duplicates(seen, actions.drop_first());
                let r = spec_emit(seen, actions.drop_first(), true);
                let whole = spec_emit(seen, actions, true);
                assert(whole.0 == seq![a].add(r.0));
                assert(forall|j: int|
                    1 <= j < whole.0.len() ==> #[trigger] whole.0[j] == r.0[j - 1]);
                assert(whole.0[0] == a);
            },
        }
    }
}

/// Deduplication is idempotent: when an add arrives whose id is already
/// recorded, nothing is emitted for it and the seen set is unchanged —
/// the step behaves as if the duplicate had not arrived.
pub proof fn lemma_dedup_idempotent(
    seen: Seq<Seq<char>>,
    a: get_live_chat::Action,
    rest: Seq<get_live_chat::Action>,
)
    requires
        a matches get_live_chat::Action::AddChatItem { item, .. } && seen.contains(
            get_live_chat::spec_chat_item_id(item),
        ),
    ensures
        spec_emit(seen, seq![a].add(rest), true) == spec_emit(seen, rest, true),
{
    let whole = seq![a].add(rest);
    assert(whole[0] == a);
    assert(whole.drop_first() =~= rest);
}

/// How the orchestrator paces one stream, fixed by the first
/// continuation entry of the initial fetch: wait for a signaler
/// notification, fetch immediately, or sleep a fixed timeout.
#[derive(Debug, Clone)]
pub enum StreamStrategy {
    /// Wait on the signaling channel for the topic, deduplicating adds.
    Signaled { topic: String },
    /// Fetch the next chunk immediately, without deduplication.
    Replay,
    /// Sleep the timeout between fetches, deduplicating adds.
    Timed { timeout_ms: usize },
}

impl StreamStrategy {
    /// Whether emission deduplicates add actions under this strategy.
    pub open spec fn spec_dedup(&self) -> bool {
        !(self is Replay)
    }

    /// Whether emission deduplicates add actions under this strategy.
    #[verifier::when_used_as_spec(spec_dedup)]
    pub fn dedup(&self) -> (r: bool)
        ensures
            r == self.spec_dedup(),
    {
        match self {
            StreamStrategy::Replay => false,
            _ => true,
        }
    }
}

/// The strategy the first continuation entry of the initial fetch
/// dictates. A player seek cannot open a stream.
pub fn stream_strategy(first: &get_live_chat::Continuation) -> (r: StreamStrategy)
    requires
        !(first is PlayerSeek),
    ensures
        first matches get_live_chat::Continuation::Invalidation { invalidation_id, .. } ==> (
        r matches StreamStrategy::Signaled { topic } && topic@ == invalidation_id.topic@),
        first is Replay ==> r is Replay,
        first matches get_live_chat::Continuation::Timed { timeout_ms, .. } ==> (
        r matches StreamStrategy::Timed { timeout_ms: t } && t == timeout_ms),
{
    match first {
        get_live_chat::Continuation::Invalidation { invalidation_id, .. } => {
            StreamStrategy::Signaled { topic: invalidation_id.topic.clone() }
        },
        get_live_chat::Continuation::Replay { .. } => StreamStrategy::Replay,
        get_live_chat::Continuation::Timed { timeout_ms, .. } => {
            StreamStrategy::Timed { timeout_ms: *timeout_ms }
        },
        get_live_chat::Continuation::PlayerSeek { .. } => {
            proof {
                assert(false);
            }
            StreamStrategy::Replay
        },
    }
}


/// Across two consecutive batches of one session, the deduplicating
/// step never emits the same add twice: an id let through in the first
/// batch is recorded, and the second batch cannot emit it again.
pub proof fn lemma_no_duplicates_across_chunks(
    seen: Seq<Seq<char>>,
    batch1: Seq<get_live_chat::Action>,
    batch2: Seq<get_live_chat::Action>,
)
    requires
        forall|i: int| 0 <= i < batch1.len() ==> !((#[trigger] batch1[i]) is ReplayChat),
        forall|i: int| 0 <= i < batch2.len() ==> !((#[trigger] batch2[i]) is ReplayChat),
    ensures
        ({
            let r1 = spec_emit(seen, batch1, true);
            let r2 = spec_emit(r1.1, batch2, true);
            forall|i: int, j: int|
                0 <= i < r1.0.len() && 0 <= j < r2.0.len() && (#[trigger] r1.0[i]) is AddChatItem
                    && (#[trigger] r2.0[j]) is AddChatItem ==> spec_add_id(r1.0[i])
                    != spec_add_id(r2.0[j])
        }),
{
    lemma_emit_no_duplicates(seen, batch1);
    let r1 = spec_emit(seen, batch1, true);
    lemma_emit_no_duplicates(r1.1, batch2);
}

} // verus!
