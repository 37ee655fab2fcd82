//! Reconnect supervision for the two streaming connections.
//!
//! Each stream is driven by a supervisor: connect, then receive in a loop,
//! and on a transport failure back off for [`BACKOFF_SECONDS`] and connect
//! again. A failure during that reconnect cycle — a failed reconnect, or for
//! the market data stream a failed re-subscription — stops the supervisor
//! for good. The decisions are a pure transition function here; the caller
//! performs the I/O each [`SupervisorAction`] names and feeds the outcome
//! back as a [`SupervisorEvent`].

use crate::stream::StreamUpdate;
use vstd::prelude::*;

verus! {

/// Seconds slept between a stream failure and the reconnect attempt.
pub const BACKOFF_SECONDS: u64 = 5;

/// Which stream a supervisor drives. The market data stream also subscribes
/// to bar channels after each successful connect.
#[derive(Clone, Copy, PartialEq, Eq, Structural, Debug)]
pub enum StreamKind {
    Trading,
    MarketData,
}

/// Lifecycle phase of a supervisor.
#[derive(Clone, Copy, PartialEq, Eq, Structural, Debug)]
pub enum SupervisorPhase {
    /// Awaiting the outcome of the first connect.
    Connecting,
    /// Transport up; awaiting the outcome of the bar subscription. No
    /// lifecycle update is published until the subscription stands.
    Subscribing,
    /// Receiving messages.
    Streaming,
    /// A transport failure was seen; awaiting the backed-off reconnect.
    Backoff,
    /// Stopped for good.
    Stopped,
}

/// The outcome of the I/O the caller performed for the supervisor.
#[derive(Clone, Debug)]
pub enum SupervisorEvent {
    ConnectSucceeded,
    ConnectFailed(String),
    SubscribeSucceeded,
    SubscribeFailed(String),
    /// One received envelope decoded to a consumer-relevant update.
    MessageDecoded(StreamUpdate),
    /// A control frame, unknown envelope or benign decode error: skipped.
    BenignSkip,
    ReceiveFailed(String),
    /// The application is shutting down; observed at any point of the cycle.
    ShutdownRequested,
}

/// The I/O the caller must perform next.
#[derive(Clone, Copy, PartialEq, Eq, Structural, Debug)]
pub enum SupervisorAction {
    Connect,
    Subscribe,
    Receive,
    /// Sleep [`BACKOFF_SECONDS`], then try to connect again.
    SleepThenConnect,
    Exit,
}

/// The lifecycle update published when this stream goes down for good.
pub open spec fn spec_disconnected_update(kind: StreamKind) -> StreamUpdate {
    match kind {
        StreamKind::Trading => StreamUpdate::Disconnected,
        StreamKind::MarketData => StreamUpdate::MarketDataDisconnected,
    }
}

/// Prefix of the error published when the first connect fails.
pub open spec fn spec_connect_fail_prefix(kind: StreamKind) -> Seq<char> {
    match kind {
        StreamKind::Trading => "Connection failed: "@,
        StreamKind::MarketData => "Market Data connection failed: "@,
    }
}

/// Prefix of the error published when receiving fails.
pub open spec fn spec_stream_error_prefix(kind: StreamKind) -> Seq<char> {
    match kind {
        StreamKind::Trading => "Stream error: "@,
        StreamKind::MarketData => "Market data stream error: "@,
    }
}

/// Prefix of the error published when the first bar subscription fails.
pub open spec fn spec_subscribe_fail_prefix() -> Seq<char> {
    "Failed to subscribe to bars: "@
}

/// A substring position: `n` occurs in `h` at `i`.
pub open spec fn spec_contains_at(h: Seq<char>, n: Seq<char>, i: int) -> bool {
    0 <= i && i + n.len() <= h.len() && h.subrange(i, i + n.len()) == n
}

/// `n` occurs somewhere in `h`.
pub open spec fn spec_contains(h: Seq<char>, n: Seq<char>) -> bool {
    exists|i: int| spec_contains_at(h, n, i)
}

/// Whether `needle` matches `haystack` at position `i`.
fn match_at(h: &str, n: &str, i: usize) -> (r: bool)
    requires
        i + n@.len() <= h@.len(),
    ensures
        r == (h@.subrange(i as int, i + n@.len()) == n@),
{
    let hl = h.unicode_len();
    let nl = n.unicode_len();
    let mut k: usize = 0;
    while k < nl
        invariant
            hl == h@.len(),
            nl == n@.len(),
            i + nl <= hl,
            k <= nl,
            forall|m: int| 0 <= m < k ==> h@[i + m] == #[trigger] n@[m],
        decreases nl - k,
    {
        if h.get_char(i + k) != n.get_char(k) {
            proof {
                assert(h@.subrange(i as int, i + nl)[k as int] == h@[i + k]);
            }
            return false;
        }
        k = k + 1;
    }
    proof {
        assert(h@.subrange(i as int, i + n@.len()) =~= n@);
    }
    true
}

/// Whether `needle` occurs as a substring of `haystack`.
pub fn contains_str(haystack: &str, needle: &str) -> (r: bool)
    ensures
        r == spec_contains(haystack@, needle@),
{
    let hl = haystack.unicode_len();
    let nl = needle.unicode_len();
    if nl > hl {
        return false;
    }
    if nl == 0 {
        proof {
            assert(haystack@.subrange(0, 0) =~= needle@);
            assert(spec_contains_at(haystack@, needle@, 0));
        }
        return true;
    }
    let mut i: usize = 0;
    while i <= hl - nl
        invariant
            hl == haystack@.len(),
            nl == needle@.len(),
            1 <= nl <= hl,
            i <= hl - nl + 1,
            forall|j: int| 0 <= j < i ==> !spec_contains_at(haystack@, needle@, j),
        decreases hl - nl + 1 - i,
    {
        if match_at(haystack, needle, i) {
            proof {
                assert(spec_contains_at(haystack@, needle@, i as int));
            }
            return true;
        }
        i = i + 1;
    }
    proof {
        assert forall|j: int| !spec_contains_at(haystack@, needle@, j) by {
            if 0 <= j && j + needle@.len() <= haystack@.len() {
                assert(j < i);
            }
        }
    }
    false
}

/// A receive failure that only means an unsupported message type: the
/// stream goes on, nothing is published.
pub open spec fn spec_benign_stream_error(m: Seq<char>) -> bool {
    spec_contains(m, "Serialization error"@) || spec_contains(m, "Unsupported message type"@)
}

/// Classifies a receive failure as a benign decode skip.
pub fn is_benign_stream_error(msg: &str) -> (r: bool)
    ensures
        r == spec_benign_stream_error(msg@),
{
    contains_str(msg, "Serialization error") || contains_str(msg, "Unsupported message type")
}

/// One stream's reconnect supervisor.
pub struct Supervisor {
    pub kind: StreamKind,
    pub phase: SupervisorPhase,
    /// Whether the current connect/subscribe cycle is a reconnect; a failure
    /// then stops the supervisor without a fresh error update.
    pub reconnecting: bool,
    /// Policy for a failure during a reconnect cycle (a failed reconnect, or
    /// a failed re-subscription): `true` publishes the disconnect and stops
    /// for good; `false` backs off and tries again, publishing nothing.
    pub stop_on_failed_reconnect: bool,
}

impl Supervisor {
    /// A supervisor with the default policy: stop for good after a failed
    /// reconnect cycle.
    pub fn new(kind: StreamKind) -> (s: Self)
        ensures
            s.kind == kind,
            s.phase == SupervisorPhase::Connecting,
            !s.reconnecting,
            s.stop_on_failed_reconnect,
    {
        Supervisor {
            kind,
            phase: SupervisorPhase::Connecting,
            reconnecting: false,
            stop_on_failed_reconnect: true,
        }
    }

    /// A supervisor that retries a failed reconnect cycle with backoff,
    /// forever, instead of stopping.
    pub fn new_retrying(kind: StreamKind) -> (s: Self)
        ensures
            s.kind == kind,
            s.phase == SupervisorPhase::Connecting,
            !s.reconnecting,
            !s.stop_on_failed_reconnect,
    {
        Supervisor {
            kind,
            phase: SupervisorPhase::Connecting,
            reconnecting: false,
            stop_on_failed_reconnect: false,
        }
    }

    /// The I/O the caller must perform in the current phase.
    pub fn next_action(&self) -> (a: SupervisorAction)
        ensures
            a == spec_action_for(self.phase),
    {
        match self.phase {
            SupervisorPhase::Connecting => SupervisorAction::Connect,
            SupervisorPhase::Subscribing => SupervisorAction::Subscribe,
            SupervisorPhase::Streaming => SupervisorAction::Receive,
            SupervisorPhase::Backoff => SupervisorAction::SleepThenConnect,
            SupervisorPhase::Stopped => SupervisorAction::Exit,
        }
    }

    /// Feeds the outcome of the performed I/O into the state machine,
    /// yielding the updates to publish, in order. An event that the current
    /// phase cannot produce changes nothing.
    pub fn step(&mut self, event: SupervisorEvent) -> (emits: Vec<StreamUpdate>)
        ensures
            final(self).kind == old(self).kind,
            final(self).stop_on_failed_reconnect == old(self).stop_on_failed_reconnect,
            spec_step_post(*old(self), *final(self), event, emits@),
    {
        let kind = self.kind;
        match (self.phase, event) {
            (SupervisorPhase::Connecting, SupervisorEvent::ConnectSucceeded)
            | (SupervisorPhase::Backoff, SupervisorEvent::ConnectSucceeded) => {
                let mut emits: Vec<StreamUpdate> = Vec::new();
                match kind {
                    StreamKind::Trading => {
                        emits.push(StreamUpdate::Connected);
                        self.phase = SupervisorPhase::Streaming;
                    },
                    StreamKind::MarketData => {
                        self.phase = SupervisorPhase::Subscribing;
                    },
                }
                emits
            },
            (SupervisorPhase::Connecting, SupervisorEvent::ConnectFailed(e)) => {
                let mut emits: Vec<StreamUpdate> = Vec::new();
                let mut m = match kind {
                    StreamKind::Trading => String::from_str("Connection failed: "),
                    StreamKind::MarketData => String::from_str("Market Data connection failed: "),
                };
                m.append(e.as_str());
                emits.push(StreamUpdate::Error(m));
                emits.push(
                    match kind {
                        StreamKind::Trading => StreamUpdate::Disconnected,
                        StreamKind::MarketData => StreamUpdate::MarketDataDisconnected,
                    },
                );
                self.phase = SupervisorPhase::Stopped;
                emits
            },
            (SupervisorPhase::Backoff, SupervisorEvent::ConnectFailed(_)) => {
                let mut emits: Vec<StreamUpdate> = Vec::new();
                if self.stop_on_failed_reconnect {
                    emits.push(
                        match kind {
                            StreamKind::Trading => StreamUpdate::Disconnected,
                            StreamKind::MarketData => StreamUpdate::MarketDataDisconnected,
                        },
                    );
                    self.phase = SupervisorPhase::Stopped;
                }
                emits
            },
            (SupervisorPhase::Subscribing, SupervisorEvent::SubscribeSucceeded) => {
                let mut emits: Vec<StreamUpdate> = Vec::new();
                emits.push(StreamUpdate::MarketDataConnected);
                self.phase = SupervisorPhase::Streaming;
                emits
            },
            (SupervisorPhase::Subscribing, SupervisorEvent::SubscribeFailed(e)) => {
                let mut emits: Vec<StreamUpdate> = Vec::new();
                if self.reconnecting && !self.stop_on_failed_reconnect {
                    self.phase = SupervisorPhase::Backoff;
                    return emits;
                }
                if !self.reconnecting {
                    let mut m = String::from_str("Failed to subscribe to bars: ");
                    m.append(e.as_str());
                    emits.push(StreamUpdate::Error(m));
                }
                emits.push(StreamUpdate::MarketDataDisconnected);
                self.phase = SupervisorPhase::Stopped;
                emits
            },
            (SupervisorPhase::Streaming, SupervisorEvent::MessageDecoded(u)) => {
                let mut emits: Vec<StreamUpdate> = Vec::new();
                emits.push(u);
                emits
            },
            (SupervisorPhase::Streaming, SupervisorEvent::BenignSkip) => Vec::new(),
            (SupervisorPhase::Streaming, SupervisorEvent::ReceiveFailed(e)) => {
                if is_benign_stream_error(e.as_str()) {
                    Vec::new()
                } else {
                    let mut emits: Vec<StreamUpdate> = Vec::new();
                    let mut m = match kind {
                        StreamKind::Trading => String::from_str("Stream error: "),
                        StreamKind::MarketData => String::from_str("Market data stream error: "),
                    };
                    m.append(e.as_str());
                    emits.push(StreamUpdate::Error(m));
                    self.phase = SupervisorPhase::Backoff;
                    self.reconnecting = true;
                    emits
                }
            },
            (_, SupervisorEvent::ShutdownRequested) => {
                self.phase = SupervisorPhase::Stopped;
                Vec::new()
            },
            (_, _) => Vec::new(),
        }
    }
}

/// The I/O owed in each phase.
pub open spec fn spec_action_for(phase: SupervisorPhase) -> SupervisorAction {
    match phase {
        SupervisorPhase::Connecting => SupervisorAction::Connect,
        SupervisorPhase::Subscribing => SupervisorAction::Subscribe,
        SupervisorPhase::Streaming => SupervisorAction::Receive,
        SupervisorPhase::Backoff => SupervisorAction::SleepThenConnect,
        SupervisorPhase::Stopped => SupervisorAction::Exit,
    }
}

/// The supervisor transition relation: next state and published updates for
/// each phase and event. Events a phase cannot produce change nothing and
/// publish nothing.
pub open spec fn spec_step_post(
    pre: Supervisor,
    post: Supervisor,
    event: SupervisorEvent,
    emits: Seq<StreamUpdate>,
) -> bool {
    match (pre.phase, event) {
        (SupervisorPhase::Connecting, SupervisorEvent::ConnectSucceeded)
        | (SupervisorPhase::Backoff, SupervisorEvent::ConnectSucceeded) => {
            &&& emits =~= (match pre.kind {
                StreamKind::Trading => seq![StreamUpdate::Connected],
                StreamKind::MarketData => Seq::<StreamUpdate>::empty(),
            })
            &&& post.phase == (match pre.kind {
                StreamKind::Trading => SupervisorPhase::Streaming,
                StreamKind::MarketData => SupervisorPhase::Subscribing,
            })
            &&& post.reconnecting == pre.reconnecting
        },
        (SupervisorPhase::Connecting, SupervisorEvent::ConnectFailed(e)) => {
            &&& emits.len() == 2
            &&& emits[0] matches StreamUpdate::Error(m) && m@ == spec_connect_fail_prefix(
                pre.kind,
            ) + e@
            &&& emits[1] == spec_disconnected_update(pre.kind)
            &&& post.phase == SupervisorPhase::Stopped
            &&& post.reconnecting == pre.reconnecting
        },
        (SupervisorPhase::Backoff, SupervisorEvent::ConnectFailed(_)) => {
            if pre.stop_on_failed_reconnect {
                &&& emits =~= seq![spec_disconnected_update(pre.kind)]
                &&& post.phase == SupervisorPhase::Stopped
                &&& post.reconnecting == pre.reconnecting
            } else {
                &&& emits =~= Seq::<StreamUpdate>::empty()
                &&& post == pre
            }
        },
        (SupervisorPhase::Subscribing, SupervisorEvent::SubscribeSucceeded) => {
            &&& emits =~= seq![StreamUpdate::MarketDataConnected]
            &&& post.phase == SupervisorPhase::Streaming
            &&& post.reconnecting == pre.reconnecting
        },
        (SupervisorPhase::Subscribing, SupervisorEvent::SubscribeFailed(e)) => {
            if pre.reconnecting && !pre.stop_on_failed_reconnect {
                &&& emits =~= Seq::<StreamUpdate>::empty()
                &&& post.phase == SupervisorPhase::Backoff
                &&& post.reconnecting == pre.reconnecting
            } else {
                &&& (if pre.reconnecting {
                    emits =~= seq![StreamUpdate::MarketDataDisconnected]
                } else {
                    emits.len() == 2 && (emits[0] matches StreamUpdate::Error(m) && m@
                        == spec_subscribe_fail_prefix() + e@) && emits[1]
                        == StreamUpdate::MarketDataDisconnected
                })
                &&& post.phase == SupervisorPhase::Stopped
                &&& post.reconnecting == pre.reconnecting
            }
        },
        (SupervisorPhase::Streaming, SupervisorEvent::MessageDecoded(u)) => {
            &&& emits =~= seq![u]
            &&& post == pre
        },
        (SupervisorPhase::Streaming, SupervisorEvent::BenignSkip) => {
            &&& emits =~= Seq::<StreamUpdate>::empty()
            &&& post == pre
        },
        (SupervisorPhase::Streaming, SupervisorEvent::ReceiveFailed(e)) => {
            if spec_benign_stream_error(e@) {
                &&& emits =~= Seq::<StreamUpdate>::empty()
                &&& post == pre
            } else {
                &&& emits.len() == 1
                &&& emits[0] matches StreamUpdate::Error(m) && m@ == spec_stream_error_prefix(
                    pre.kind,
                ) + e@
                &&& post.phase == SupervisorPhase::Backoff
                &&& post.reconnecting
            }
        },
        (_, SupervisorEvent::ShutdownRequested) => {
            &&& emits =~= Seq::<StreamUpdate>::empty()
            &&& post.phase == SupervisorPhase::Stopped
            &&& post.reconnecting == pre.reconnecting
        },
        (_, _) => {
            &&& emits =~= Seq::<StreamUpdate>::empty()
            &&& post == pre
        },
    }
}

} // verus!
