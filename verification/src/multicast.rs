//! Multi-source fan-in: one event type over any mix of platform
//! streams, and the round-robin decision that combines one poll pass
//! over all of them.

use vstd::prelude::*;

use crate::twitch::event::ChatEvent;
use crate::youtube::error::Error;
use crate::youtube::get_live_chat::Action;

verus! {

/// A failure of one platform stream, tagged by its source.
#[derive(Debug)]
pub enum MulticastError {
    /// The IRC platform failed; the underlying error's description.
    TwitchError(String),
    YouTubeError(Error),
}

/// One event of the combined stream, tagged by its source.
#[derive(Debug)]
pub enum VariantChat {
    Twitch(ChatEvent),
    YouTube(Action),
}

/// Which platform a registered stream belongs to.
#[derive(Debug, Clone, Copy, PartialEq, Eq, Structural)]
pub enum SourceKind {
    Twitch,
    YouTube,
}

/// What one sub-stream reported in a poll pass.
#[derive(Debug)]
pub enum StreamPoll {
    /// The sub-stream yielded an event or an error.
    Ready(Result<VariantChat, MulticastError>),
    /// The sub-stream has terminated.
    Finished,
    /// The sub-stream has nothing yet.
    Pending,
}

/// The first ready sub-stream at or past `from` in a poll pass.
pub open spec fn spec_first_ready(polls: Seq<StreamPoll>, from: int) -> Option<int>
    decreases polls.len() - from,
{
    if from < 0 || from >= polls.len() {
        None
    } else if polls[from] is Ready {
        Some(from)
    } else {
        spec_first_ready(polls, from + 1)
    }
}

/// Combine one poll pass over all sub-streams, in order: the first
/// ready one wins; with none ready the pass is pending when any
/// sub-stream is, and the combined stream is finished only when every
/// sub-stream is.
#[verifier::loop_isolation(false)]
pub fn combine_polls(polls: Vec<StreamPoll>) -> (r: StreamPoll)
    ensures
        spec_first_ready(polls@, 0) matches Some(i) ==> r == polls@[i],
        spec_first_ready(polls@, 0) is None ==> (r is Pending <==> exists|j: int|
            0 <= j < polls@.len() && (#[trigger] polls@[j]) is Pending),
        spec_first_ready(polls@, 0) is None ==> (r is Finished <==> forall|j: int|
            0 <= j < polls@.len() ==> !((#[trigger] polls@[j]) is Pending)),
        r is Ready ==> spec_first_ready(polls@, 0) is Some,
{
    let ghost orig = polls@;
    let mut polls = polls;
    let mut saw_pending = false;
    let ghost mut k: int = 0;
    while polls.len() > 0
        invariant
            0 <= k <= orig.len(),
            polls@ == orig.skip(k),
            spec_first_ready(orig, 0) == spec_first_ready(orig, k),
            saw_pending <==> exists|j: int| 0 <= j < k && (#[trigger] orig[j]) is Pending,
        decreases polls@.len(),
    {
        proof {
            assert(orig.skip(k)[0] == orig[k]);
        }
        let p = polls.remove(0);
        proof {
            assert(polls@ =~= orig.skip(k + 1));
        }
        match p {
            StreamPoll::Ready(item) => {
                proof {
                    assert(spec_first_ready(orig, k) == Some(k));
                }
                return StreamPoll::Ready(item);
            },
            StreamPoll::Pending => {
                saw_pending = true;
                proof {
                    assert(orig[k] is Pending);
                    k = k + 1;
                }
            },
            StreamPoll::Finished => {
                proof {
                    if exists|j: int| 0 <= j < k + 1 && (#[trigger] orig[j]) is Pending {
                        let j = choose|j: int|
                            0 <= j < k + 1 && (#[trigger] orig[j]) is Pending;
                        assert(0 <= j < k && orig[j] is Pending);
                    }
                    k = k + 1;
                }
            },
        }
    }
    proof {
        assert(k == orig.len());
        assert(spec_first_ready(orig, k) is None);
    }
    if saw_pending {
        StreamPoll::Pending
    } else {
        StreamPoll::Finished
    }
}

/// The set of platform streams one consumer subscribes to, combined
/// behind a single event type. The caller owns the transports; this
/// registry carries which sources were pushed, in order, and the
/// fan-in decision above combines their polls.
#[derive(Debug)]
pub struct Multicast {
    pub sources: Vec<SourceKind>,
}

impl Multicast {
    /// An empty combination.
    pub fn new() -> (r: Multicast)
        ensures
            r.sources@.len() == 0,
    {
        Multicast { sources: Vec::new() }
    }

    /// Register one more source stream at the end of the poll order.
    pub fn push(&mut self, source: SourceKind)
        ensures
            final(self).sources@ == old(self).sources@.push(source),
    {
        self.sources.push(source);
    }
}

} // verus!
