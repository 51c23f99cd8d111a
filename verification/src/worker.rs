//! The delivery back-end: the decision core of the background worker that
//! drains the queue and writes frames to the collector connection.
//!
//! The worker alternates outside work (connect, write, sleep) with
//! decisions. The decisions live here, verified: which frame to write for
//! a dequeued message, what a connect or write outcome does to the link
//! state, and what is reported on the diagnostic stream. The caller owns
//! the socket, performs each action, and hands the outcome back.
//!
//! The worker keeps a ghost history of every dequeued message's fate, so
//! the delivery laws can be stated and proved: a message counts as
//! delivered only after a successful write and flush; a failed write drops
//! exactly that message and never duplicates another; connect retries
//! change nothing already accounted; and delivered messages leave in
//! exactly the order they were dequeued.

use vstd::prelude::*;

use crate::wire::frame_of;

verus! {

/// A transient internal failure, reported on the process diagnostic
/// stream, never to callers.
#[derive(Clone, Copy, PartialEq, Eq, Structural, Debug)]
pub enum Diagnostic {
    /// A connection attempt to the collector failed.
    ConnectFailed,
    /// Writing or flushing a frame on the connection failed.
    WriteFailed,
    /// The queue's consumer side was gone when a record was enqueued.
    SendFailed,
}

impl Diagnostic {
    /// The fixed text reported for this failure.
    pub open spec fn text(self) -> Seq<char> {
        match self {
            Diagnostic::ConnectFailed => "TCP socket log error: connect failed"@,
            Diagnostic::WriteFailed => "TCP socket log error: write failed"@,
            Diagnostic::SendFailed => "error sending TCP socket channel message"@,
        }
    }

    /// The fixed text reported for this failure.
    pub fn describe(&self) -> (s: &'static str)
        ensures
            s@ == self.text(),
    {
        match self {
            Diagnostic::ConnectFailed => "TCP socket log error: connect failed",
            Diagnostic::WriteFailed => "TCP socket log error: write failed",
            Diagnostic::SendFailed => "error sending TCP socket channel message",
        }
    }
}

/// The link state of the delivery back-end.
#[derive(Clone, Copy, PartialEq, Eq, Structural, Debug)]
pub enum LinkState {
    /// No live connection; the worker retries with a fixed backoff.
    Disconnected,
    /// A live connection; the worker dequeues and writes frames.
    Connected,
}

/// The fate of one dequeued message: its payload, and whether the write
/// and flush of its frame succeeded.
pub struct Attempt {
    pub payload: Seq<char>,
    pub delivered: bool,
}

/// The payloads of a history of attempts, in dequeue order.
pub open spec fn payloads_of(h: Seq<Attempt>) -> Seq<Seq<char>>
    decreases h.len(),
{
    if h.len() == 0 {
        Seq::<Seq<char>>::empty()
    } else {
        payloads_of(h.drop_last()).push(h.last().payload)
    }
}

/// The payloads whose write succeeded, in dequeue order.
pub open spec fn delivered_of(h: Seq<Attempt>) -> Seq<Seq<char>>
    decreases h.len(),
{
    if h.len() == 0 {
        Seq::<Seq<char>>::empty()
    } else if h.last().delivered {
        delivered_of(h.drop_last()).push(h.last().payload)
    } else {
        delivered_of(h.drop_last())
    }
}

/// The payloads lost to a failed write, in dequeue order.
pub open spec fn dropped_of(h: Seq<Attempt>) -> Seq<Seq<char>>
    decreases h.len(),
{
    if h.len() == 0 {
        Seq::<Seq<char>>::empty()
    } else if h.last().delivered {
        dropped_of(h.drop_last())
    } else {
        dropped_of(h.drop_last()).push(h.last().payload)
    }
}

/// True when `a` is `b` with zero or more elements deleted: every element
/// of `a` occurs in `b`, in the same order, at most as often.
pub open spec fn is_subsequence_of(a: Seq<Seq<char>>, b: Seq<Seq<char>>) -> bool
    decreases b.len(),
{
    if a.len() == 0 {
        true
    } else if b.len() == 0 {
        false
    } else {
        (a.last() == b.last() && is_subsequence_of(a.drop_last(), b.drop_last()))
            || is_subsequence_of(a, b.drop_last())
    }
}

/// Delivered messages are the dequeued messages with only the write
/// failures deleted: once enqueued, messages are never reordered and never
/// duplicated on their way to the collector.
pub proof fn lemma_delivery_preserves_order(h: Seq<Attempt>)
    ensures
        is_subsequence_of(delivered_of(h), payloads_of(h)),
    decreases h.len(),
{
    if h.len() == 0 {
    } else {
        lemma_delivery_preserves_order(h.drop_last());
        let p = payloads_of(h.drop_last());
        assert(p.push(h.last().payload).drop_last() =~= p);
        if h.last().delivered {
            let d = delivered_of(h.drop_last());
            assert(d.push(h.last().payload).drop_last() =~= d);
        }
    }
}

/// What a failed write loses is likewise a deletion-only part of the
/// dequeued messages: a reconnect neither duplicates a lost message nor
/// loses one that was never dequeued.
pub proof fn lemma_drops_preserve_order(h: Seq<Attempt>)
    ensures
        is_subsequence_of(dropped_of(h), payloads_of(h)),
    decreases h.len(),
{
    if h.len() == 0 {
    } else {
        lemma_drops_preserve_order(h.drop_last());
        let p = payloads_of(h.drop_last());
        assert(p.push(h.last().payload).drop_last() =~= p);
        if !h.last().delivered {
            let d = dropped_of(h.drop_last());
            assert(d.push(h.last().payload).drop_last() =~= d);
        }
    }
}

/// While no write fails, the collector sees every dequeued message,
/// in exactly the dequeue order.
pub proof fn lemma_uninterrupted_delivery(h: Seq<Attempt>)
    requires
        forall|i: int| 0 <= i < h.len() ==> h[i].delivered,
    ensures
        delivered_of(h) == payloads_of(h),
    decreases h.len(),
{
    if h.len() == 0 {
    } else {
        assert(h.drop_last() =~= h.subrange(0, h.len() - 1));
        lemma_uninterrupted_delivery(h.drop_last());
    }
}

/// Every dequeued message is accounted exactly once: delivered or dropped.
pub proof fn lemma_no_message_unaccounted(h: Seq<Attempt>)
    ensures
        delivered_of(h).len() + dropped_of(h).len() == payloads_of(h).len(),
    decreases h.len(),
{
    if h.len() == 0 {
    } else {
        lemma_no_message_unaccounted(h.drop_last());
    }
}

/// The delivery back-end's decision core. The caller performs the
/// connects, writes and sleeps, and reports each outcome here.
pub struct Worker {
    link: LinkState,
    inflight: Ghost<Option<Seq<char>>>,
    history: Ghost<Seq<Attempt>>,
}

impl Worker {
    /// True when the worker holds a live connection.
    pub closed spec fn is_connected(self) -> bool {
        self.link is Connected
    }

    /// The message dequeued but not yet resolved, if any.
    pub closed spec fn in_flight(self) -> Option<Seq<char>> {
        self.inflight@
    }

    /// The fate of every resolved dequeued message, in dequeue order.
    pub closed spec fn attempts(self) -> Seq<Attempt> {
        self.history@
    }

    /// The resolved dequeued payloads, in dequeue order.
    pub open spec fn dequeued(self) -> Seq<Seq<char>> {
        payloads_of(self.attempts())
    }

    /// The payloads the collector has received, in dequeue order.
    pub open spec fn delivered(self) -> Seq<Seq<char>> {
        delivered_of(self.attempts())
    }

    /// The payloads lost to failed writes, in dequeue order.
    pub open spec fn dropped(self) -> Seq<Seq<char>> {
        dropped_of(self.attempts())
    }

    /// Whether the worker holds a live connection, for the caller that
    /// runs the loop.
    pub fn is_live(&self) -> (b: bool)
        ensures
            b == self.is_connected(),
    {
        match self.link {
            LinkState::Connected => true,
            LinkState::Disconnected => false,
        }
    }

    /// A fresh worker: disconnected, nothing dequeued.
    pub fn new() -> (w: Worker)
        ensures
            !w.is_connected(),
            w.in_flight() is None,
            w.attempts() == Seq::<Attempt>::empty(),
    {
        Worker {
            link: LinkState::Disconnected,
            inflight: Ghost(None),
            history: Ghost(Seq::empty()),
        }
    }

    /// Accounts the outcome of one connection attempt. A failed attempt is
    /// reported and leaves every already-dequeued message's fate untouched;
    /// the caller then sleeps one backoff interval and retries.
    pub fn on_connect(&mut self, success: bool) -> (d: Option<Diagnostic>)
        requires
            !old(self).is_connected(),
            old(self).in_flight() is None,
        ensures
            final(self).attempts() == old(self).attempts(),
            final(self).in_flight() is None,
            final(self).is_connected() == success,
            d == if success {
                None::<Diagnostic>
            } else {
                Some(Diagnostic::ConnectFailed)
            },
    {
        if success {
            self.link = LinkState::Connected;
            None
        } else {
            Some(Diagnostic::ConnectFailed)
        }
    }

    /// Takes one dequeued message and produces the frame to write: the
    /// payload followed by the single NUL delimiter.
    pub fn begin_delivery(&mut self, msg: String) -> (f: String)
        requires
            old(self).is_connected(),
            old(self).in_flight() is None,
        ensures
            f@ == frame_of(msg@),
            final(self).is_connected(),
            final(self).in_flight() == Some(msg@),
            final(self).attempts() == old(self).attempts(),
    {
        proof {
            self.inflight@ = Some(msg@);
        }
        crate::wire::frame(msg.as_str())
    }

    /// Accounts the outcome of writing and flushing the in-flight frame.
    /// The message counts as delivered only when both succeeded; on
    /// failure it is dropped — never silently marked delivered, never
    /// retried as a duplicate — the connection is discarded, and the
    /// failure is reported. Later messages continue after reconnect.
    pub fn finish_delivery(&mut self, success: bool) -> (d: Option<Diagnostic>)
        requires
            old(self).is_connected(),
            old(self).in_flight() is Some,
        ensures
            final(self).in_flight() is None,
            final(self).attempts() == old(self).attempts().push(
                Attempt { payload: old(self).in_flight().unwrap(), delivered: success },
            ),
            final(self).is_connected() == success,
            d == if success {
                None::<Diagnostic>
            } else {
                Some(Diagnostic::WriteFailed)
            },
    {
        proof {
            self.history@ = self.history@.push(
                Attempt { payload: self.inflight@.unwrap(), delivered: success },
            );
            self.inflight@ = None;
        }
        if success {
            None
        } else {
            self.link = LinkState::Disconnected;
            Some(Diagnostic::WriteFailed)
        }
    }
}

} // verus!
