//! The about-to-reload / reloaded notification bus.
//!
//! A reload is bracketed by two broadcasts. "About to reload" hands every
//! live subscriber a [`BlockReload`] token and raises a pending count by one
//! per token; the reload may proceed only once the count is back at zero,
//! which the host realizes by waiting on [`LibReloadNotifier::blocks_pending`].
//! "Reloaded" is a plain broadcast with no blocking semantics.
//!
//! Delivery runs through the host: a broadcast returns the addressed events,
//! the host carries each to its subscriber's channel, and the subscriber
//! feeds it into its observer with [`LibReloadObserver::receive`]. Cloning
//! and releasing tokens is counted by the notifier, so a dropped token must
//! be handed back through [`LibReloadNotifier::release_block`].

use vstd::prelude::*;

verus! {

/// A token handed out with an about-to-reload broadcast. While any token of
/// the current broadcast is unreleased, the pending reload may not proceed.
#[derive(Debug)]
pub struct BlockReload {
    /// The broadcast cycle this token belongs to.
    pub cycle: u64,
}

/// Signals how the watched library is changing.
#[derive(Debug)]
pub enum ChangedEvent {
    /// A reload is about to happen; the carried token blocks it while held.
    LibAboutToReload(BlockReload),
    /// A new library version has been loaded.
    LibReloaded,
}

/// One registry entry of the notifier.
#[derive(Clone, Copy, Debug, PartialEq, Eq, Structural)]
pub struct Subscriber {
    /// Identifies the subscriber; never reused.
    pub id: u64,
    /// False once the subscriber's receiving end is gone; the entry is
    /// pruned at the next broadcast.
    pub connected: bool,
}

/// The entries of `s` that are still connected, in order.
pub open spec fn connected_subscribers(s: Seq<Subscriber>) -> Seq<Subscriber>
    decreases s.len(),
{
    if s.len() == 0 {
        Seq::empty()
    } else if s.first().connected {
        seq![s.first()] + connected_subscribers(s.drop_first())
    } else {
        connected_subscribers(s.drop_first())
    }
}

proof fn lemma_connected_subscribers_concat(a: Seq<Subscriber>, b: Seq<Subscriber>)
    ensures
        connected_subscribers(a + b) == connected_subscribers(a) + connected_subscribers(b),
    decreases a.len(),
{
    if a.len() == 0 {
        assert(a + b =~= b);
        assert(connected_subscribers(a) + connected_subscribers(b) =~= connected_subscribers(b));
    } else {
        assert((a + b).drop_first() =~= a.drop_first() + b);
        lemma_connected_subscribers_concat(a.drop_first(), b);
        if a.first().connected {
            assert(seq![a.first()] + (connected_subscribers(a.drop_first())
                + connected_subscribers(b)) =~= (seq![a.first()] + connected_subscribers(
                a.drop_first(),
            )) + connected_subscribers(b));
        }
    }
}

proof fn lemma_connected_subscribers_le_len(s: Seq<Subscriber>)
    ensures
        connected_subscribers(s).len() <= s.len(),
    decreases s.len(),
{
    if s.len() > 0 {
        lemma_connected_subscribers_le_len(s.drop_first());
    }
}

proof fn lemma_connected_subscribers_ids_below(s: Seq<Subscriber>, bound: u64)
    requires
        forall|i: int| 0 <= i < s.len() ==> #[trigger] s[i].id < bound,
    ensures
        forall|k: int|
            0 <= k < connected_subscribers(s).len() ==> #[trigger] connected_subscribers(
                s,
            )[k].id < bound,
    decreases s.len(),
{
    if s.len() > 0 {
        lemma_connected_subscribers_ids_below(s.drop_first(), bound);
        assert forall|k: int|
            0 <= k < connected_subscribers(s).len() implies #[trigger] connected_subscribers(
            s,
        )[k].id < bound by {
            if s.first().connected {
                if k == 0 {
                    assert(connected_subscribers(s)[0] == s[0]);
                } else {
                    assert(connected_subscribers(s)[k] == connected_subscribers(
                        s.drop_first(),
                    )[k - 1]);
                }
            } else {
                assert(connected_subscribers(s)[k] == connected_subscribers(s.drop_first())[k]);
            }
        }
    }
}

proof fn lemma_connected_subscribers_ids_above(s: Seq<Subscriber>, bound: u64)
    requires
        forall|i: int| 0 <= i < s.len() ==> #[trigger] s[i].id > bound,
    ensures
        forall|k: int|
            0 <= k < connected_subscribers(s).len() ==> #[trigger] connected_subscribers(
                s,
            )[k].id > bound,
    decreases s.len(),
{
    if s.len() > 0 {
        lemma_connected_subscribers_ids_above(s.drop_first(), bound);
        assert forall|k: int|
            0 <= k < connected_subscribers(s).len() implies #[trigger] connected_subscribers(
            s,
        )[k].id > bound by {
            if s.first().connected {
                if k == 0 {
                    assert(connected_subscribers(s)[0] == s[0]);
                } else {
                    assert(connected_subscribers(s)[k] == connected_subscribers(
                        s.drop_first(),
                    )[k - 1]);
                }
            } else {
                assert(connected_subscribers(s)[k] == connected_subscribers(s.drop_first())[k]);
            }
        }
    }
}

proof fn lemma_connected_subscribers_increasing(s: Seq<Subscriber>)
    requires
        forall|i: int, j: int| 0 <= i < j < s.len() ==> s[i].id < s[j].id,
    ensures
        forall|i: int, j: int|
            0 <= i < j < connected_subscribers(s).len() ==> connected_subscribers(s)[i].id
                < connected_subscribers(s)[j].id,
    decreases s.len(),
{
    if s.len() > 0 {
        let tail = s.drop_first();
        assert forall|i: int, j: int| 0 <= i < j < tail.len() implies tail[i].id
            < tail[j].id by {
            assert(tail[i] == s[i + 1] && tail[j] == s[j + 1]);
        }
        lemma_connected_subscribers_increasing(tail);
        if s.first().connected {
            assert forall|i: int| 0 <= i < tail.len() implies #[trigger] tail[i].id
                > s.first().id by {
                assert(tail[i] == s[i + 1]);
            }
            lemma_connected_subscribers_ids_above(tail, s.first().id);
            assert forall|i: int, j: int|
                0 <= i < j < connected_subscribers(s).len() implies connected_subscribers(
                s,
            )[i].id < connected_subscribers(s)[j].id by {
                assert(connected_subscribers(s)[j] == connected_subscribers(tail)[j - 1]);
                if i == 0 {
                    assert(connected_subscribers(s)[0] == s[0]);
                } else {
                    assert(connected_subscribers(s)[i] == connected_subscribers(tail)[i - 1]);
                }
            }
        } else {
            assert forall|i: int, j: int|
                0 <= i < j < connected_subscribers(s).len() implies connected_subscribers(
                s,
            )[i].id < connected_subscribers(s)[j].id by {
                assert(connected_subscribers(s)[i] == connected_subscribers(tail)[i]);
                assert(connected_subscribers(s)[j] == connected_subscribers(tail)[j]);
            }
        }
    }
}

/// Pruning a well-formed registry to its connected entries keeps it
/// well-formed: ids still grow with order and stay below the next free id.
proof fn lemma_pruning_preserves_wf(v: NotifierView, w: NotifierView)
    requires
        v.wf(),
        w.subscribers == connected_subscribers(v.subscribers),
        w.next_id == v.next_id,
    ensures
        w.wf(),
{
    lemma_connected_subscribers_ids_below(v.subscribers, v.next_id);
    lemma_connected_subscribers_increasing(v.subscribers);
}

/// The abstract state of a [`LibReloadNotifier`].
pub struct NotifierView {
    /// The registry, in subscription order.
    pub subscribers: Seq<Subscriber>,
    /// How many tokens of the current about-to-reload broadcast are alive.
    pub pending_blocks: u64,
    /// How many about-to-reload broadcasts have been begun.
    pub cycle: u64,
    /// The id the next subscriber will get.
    pub next_id: u64,
}

impl NotifierView {
    /// Well-formedness: ids grow with subscription order and stay below the
    /// next free id, so no id is ever reused.
    pub open spec fn wf(self) -> bool {
        &&& forall|i: int|
            0 <= i < self.subscribers.len() ==> #[trigger] self.subscribers[i].id < self.next_id
        &&& forall|i: int, j: int|
            0 <= i < j < self.subscribers.len() ==> self.subscribers[i].id
                < self.subscribers[j].id
    }

    /// How many subscribers a broadcast reaches.
    pub open spec fn live_count(self) -> nat {
        connected_subscribers(self.subscribers).len()
    }
}

/// An about-to-reload broadcast: the registry is pruned to its connected
/// entries, each of them is handed a token of the new cycle, and the
/// pending count holds one unit per token.
pub open spec fn spec_send_about_to_reload(v: NotifierView) -> NotifierView {
    NotifierView {
        subscribers: connected_subscribers(v.subscribers),
        pending_blocks: connected_subscribers(v.subscribers).len() as u64,
        cycle: (v.cycle + 1) as u64,
        next_id: v.next_id,
    }
}

/// A reloaded broadcast: the registry is pruned; nothing blocks.
pub open spec fn spec_send_reloaded(v: NotifierView) -> NotifierView {
    NotifierView { subscribers: connected_subscribers(v.subscribers), ..v }
}

/// Releasing (or dropping) one token of the current broadcast.
pub open spec fn spec_release_block(v: NotifierView) -> NotifierView {
    NotifierView { pending_blocks: (v.pending_blocks - 1) as u64, ..v }
}

/// Cloning a token of the current broadcast.
pub open spec fn spec_clone_block(v: NotifierView) -> NotifierView {
    NotifierView { pending_blocks: (v.pending_blocks + 1) as u64, ..v }
}

/// The state after `n` tokens have been released.
pub open spec fn spec_releases(v: NotifierView, n: nat) -> NotifierView
    decreases n,
{
    if n == 0 {
        v
    } else {
        spec_releases(spec_release_block(v), (n - 1) as nat)
    }
}

proof fn lemma_releases_count(v: NotifierView, n: nat)
    requires
        n <= v.pending_blocks,
    ensures
        spec_releases(v, n) == (NotifierView {
            pending_blocks: (v.pending_blocks - n) as u64,
            ..v
        }),
    decreases n,
{
    if n > 0 {
        lemma_releases_count(spec_release_block(v), (n - 1) as nat);
    }
}

/// A held token gates the reload: after an about-to-reload broadcast that
/// reached `n` subscribers, the pending count is `n`; while fewer than `n`
/// tokens have been released the count is positive, so the reload may not
/// proceed; after the `n`-th release the count is zero and it may. With no
/// subscribers the broadcast completes at once.
pub proof fn lemma_block_tokens_gate_reload(v: NotifierView, j: nat)
    requires
        v.live_count() <= u64::MAX,
        j <= v.live_count(),
    ensures
        ({
            let w = spec_send_about_to_reload(v);
            let n = v.live_count();
            &&& w.pending_blocks == n
            &&& j < n ==> spec_releases(w, j).pending_blocks > 0
            &&& spec_releases(w, n).pending_blocks == 0
            &&& n == 0 ==> w.pending_blocks == 0
        }),
{
    let w = spec_send_about_to_reload(v);
    let n = v.live_count();
    lemma_releases_count(w, j);
    lemma_releases_count(w, n);
}

/// The event an about-to-reload broadcast of cycle `c` delivers.
pub open spec fn about_to_reload_event(c: u64) -> ChangedEvent {
    ChangedEvent::LibAboutToReload(BlockReload { cycle: c })
}

/// Broadcasts library-change events to subscribers and counts the
/// outstanding [`BlockReload`] tokens of the current reload cycle.
pub struct LibReloadNotifier {
    subscribers: Vec<Subscriber>,
    pending_blocks: u64,
    cycle: u64,
    next_id: u64,
}

impl View for LibReloadNotifier {
    type V = NotifierView;

    closed spec fn view(&self) -> NotifierView {
        NotifierView {
            subscribers: self.subscribers@,
            pending_blocks: self.pending_blocks,
            cycle: self.cycle,
            next_id: self.next_id,
        }
    }
}

impl LibReloadNotifier {
    /// A notifier with no subscribers and no pending reload cycle.
    pub fn new() -> (r: Self)
        ensures
            r@ == (NotifierView {
                subscribers: Seq::empty(),
                pending_blocks: 0,
                cycle: 0,
                next_id: 0,
            }),
            r@.wf(),
    {
        LibReloadNotifier { subscribers: Vec::new(), pending_blocks: 0, cycle: 0, next_id: 0 }
    }

    /// Registers a new subscriber and returns its observer, whose inbox is
    /// empty until the host delivers events to it.
    pub fn subscribe(&mut self) -> (obs: LibReloadObserver)
        requires
            old(self)@.next_id < u64::MAX,
        ensures
            final (self)@ == (NotifierView {
                subscribers: old(self)@.subscribers.push(
                    Subscriber { id: old(self)@.next_id, connected: true },
                ),
                next_id: (old(self)@.next_id + 1) as u64,
                ..old(self)@
            }),
            obs@ == (ObserverView { id: old(self)@.next_id, inbox: Seq::empty() }),
            old(self)@.wf() ==> final (self)@.wf(),
    {
        let id = self.next_id;
        self.subscribers.push(Subscriber { id, connected: true });
        self.next_id = self.next_id + 1;
        LibReloadObserver { id, inbox: Vec::new() }
    }

    /// Marks the subscriber `id` as gone, as the host detects when a
    /// delivery to it fails; the entry is pruned at the next broadcast.
    pub fn disconnect(&mut self, id: u64)
        ensures
            final (self)@.subscribers.len() == old(self)@.subscribers.len(),
            forall|i: int|
                0 <= i < old(self)@.subscribers.len() ==> #[trigger] final (self)@.subscribers[i]
                    == if old(self)@.subscribers[i].id == id {
                    Subscriber { id, connected: false }
                } else {
                    old(self)@.subscribers[i]
                },
            final (self)@.pending_blocks == old(self)@.pending_blocks,
            final (self)@.cycle == old(self)@.cycle,
            final (self)@.next_id == old(self)@.next_id,
            old(self)@.wf() ==> final (self)@.wf(),
    {
        let n = self.subscribers.len();
        let mut i: usize = 0;
        while i < n
            invariant
                i <= n,
                n == self.subscribers.len(),
                self.pending_blocks == old(self).pending_blocks,
                self.cycle == old(self).cycle,
                self.next_id == old(self).next_id,
                forall|k: int|
                    0 <= k < i ==> #[trigger] self.subscribers@[k] == if old(
                        self,
                    ).subscribers@[k].id == id {
                        Subscriber { id, connected: false }
                    } else {
                        old(self).subscribers@[k]
                    },
                forall|k: int|
                    i <= k < n ==> #[trigger] self.subscribers@[k] == old(self).subscribers@[k],
            decreases n - i,
    {
            if self.subscribers[i].id == id {
                self.subscribers.set(i, Subscriber { id, connected: false });
            }
            i = i + 1;
        }
        proof {
            if old(self)@.wf() {
                assert forall|k: int|
                    0 <= k < self.subscribers@.len() implies #[trigger] self.subscribers@[k].id
                    == old(self).subscribers@[k].id by {}
                assert forall|k: int|
                    0 <= k < self.subscribers@.len() implies #[trigger] self.subscribers@[k].id
                    < self.next_id by {
                    assert(old(self)@.subscribers[k].id < old(self)@.next_id);
                }
                assert forall|k: int, l: int|
                    0 <= k < l < self.subscribers@.len() implies self.subscribers@[k].id
                    < self.subscribers@[l].id by {
                    assert(self.subscribers@[k].id == old(self)@.subscribers[k].id);
                    assert(self.subscribers@[l].id == old(self)@.subscribers[l].id);
                    assert(old(self)@.subscribers[k].id < old(self)@.subscribers[l].id);
                }
            }
        }
    }

    /// The shared fan-out: prunes entries that are gone and produces one
    /// event per remaining subscriber, addressed by id. An about-to-reload
    /// fan-out (`block_cycle` set) wraps a fresh token of that cycle into
    /// each event.
    fn notify(&mut self, block_cycle: Option<u64>) -> (out: Vec<(u64, ChangedEvent)>)
        ensures
            final (self)@ == (NotifierView {
                subscribers: connected_subscribers(old(self)@.subscribers),
                ..old(self)@
            }),
            old(self)@.wf() ==> final (self)@.wf(),
            out@.len() == connected_subscribers(old(self)@.subscribers).len(),
            forall|i: int|
                0 <= i < out@.len() ==> #[trigger] out@[i].0 == connected_subscribers(
                    old(self)@.subscribers,
                )[i].id,
            forall|i: int|
                0 <= i < out@.len() ==> #[trigger] out@[i].1 == match block_cycle {
                    Some(c) => about_to_reload_event(c),
                    None => ChangedEvent::LibReloaded,
                },
    {
        let n = self.subscribers.len();
        let mut kept: Vec<Subscriber> = Vec::new();
        let mut out: Vec<(u64, ChangedEvent)> = Vec::new();
        let mut i: usize = 0;
        while i < n
            invariant
                i <= n,
                n == self.subscribers.len(),
                self.subscribers@ == old(self).subscribers@,
                self.pending_blocks == old(self).pending_blocks,
                self.cycle == old(self).cycle,
                self.next_id == old(self).next_id,
                kept@ == connected_subscribers(self.subscribers@.take(i as int)),
                out@.len() == kept@.len(),
                forall|k: int| 0 <= k < out@.len() ==> #[trigger] out@[k].0 == kept@[k].id,
                forall|k: int|
                    0 <= k < out@.len() ==> #[trigger] out@[k].1 == match block_cycle {
                        Some(c) => about_to_reload_event(c),
                        None => ChangedEvent::LibReloaded,
                    },
            decreases n - i,
        {
            let s = self.subscribers[i];
            proof {
                let pre = self.subscribers@.take(i as int);
                assert(self.subscribers@.take(i as int + 1) =~= pre + seq![s]);
                lemma_connected_subscribers_concat(pre, seq![s]);
                assert(seq![s].drop_first() =~= Seq::<Subscriber>::empty());
                assert(connected_subscribers(Seq::<Subscriber>::empty())
                    == Seq::<Subscriber>::empty());
                assert(seq![s].first() == s);
                if s.connected {
                    assert(connected_subscribers(seq![s]) =~= seq![s]);
                } else {
                    assert(connected_subscribers(seq![s]) =~= Seq::<Subscriber>::empty());
                    assert(connected_subscribers(pre) + Seq::<Subscriber>::empty()
                        =~= connected_subscribers(pre));
                }
            }
            if s.connected {
                kept.push(s);
                let evt = match block_cycle {
                    Some(c) => ChangedEvent::LibAboutToReload(BlockReload { cycle: c }),
                    None => ChangedEvent::LibReloaded,
                };
                out.push((s.id, evt));
                proof {
                    assert(kept@ =~= connected_subscribers(self.subscribers@.take(i as int))
                        + seq![s]);
                }
            }
            i = i + 1;
        }
        proof {
            assert(self.subscribers@.take(n as int) =~= self.subscribers@);
        }
        self.subscribers = kept;
        proof {
            if old(self)@.wf() {
                lemma_pruning_preserves_wf(old(self)@, self@);
            }
        }
        out
    }

    /// Begins a reload cycle: fans an about-to-reload event, carrying one
    /// fresh token each, out to every live subscriber, and raises the
    /// pending count accordingly. The host must deliver the returned events
    /// and then hold the reload until [`Self::blocks_pending`] is false —
    /// with no subscribers that is the case at once.
    pub fn send_about_to_reload_event_and_wait_for_blocks(&mut self) -> (out: Vec<
        (u64, ChangedEvent),
    >)
        requires
            old(self)@.cycle < u64::MAX,
        ensures
            final (self)@ == spec_send_about_to_reload(old(self)@),
            old(self)@.wf() ==> final (self)@.wf(),
            out@.len() == old(self)@.live_count(),
            forall|i: int|
                0 <= i < out@.len() ==> #[trigger] out@[i].0 == connected_subscribers(
                    old(self)@.subscribers,
                )[i].id,
            forall|i: int|
                0 <= i < out@.len() ==> #[trigger] out@[i].1 == about_to_reload_event(
                    (old(self)@.cycle + 1) as u64,
                ),
    {
        self.cycle = self.cycle + 1;
        let out = self.notify(Some(self.cycle));
        proof {
            lemma_connected_subscribers_le_len(old(self)@.subscribers);
        }
        self.pending_blocks = out.len() as u64;
        proof {
            if old(self)@.wf() {
                lemma_pruning_preserves_wf(old(self)@, self@);
            }
        }
        out
    }

    /// Fans a reloaded event out to every live subscriber; nothing blocks.
    /// The host delivers the returned events.
    pub fn send_reloaded_event(&mut self) -> (out: Vec<(u64, ChangedEvent)>)
        ensures
            final (self)@ == spec_send_reloaded(old(self)@),
            old(self)@.wf() ==> final (self)@.wf(),
            out@.len() == old(self)@.live_count(),
            forall|i: int|
                0 <= i < out@.len() ==> #[trigger] out@[i].0 == connected_subscribers(
                    old(self)@.subscribers,
                )[i].id,
            forall|i: int|
                0 <= i < out@.len() ==> #[trigger] out@[i].1 == ChangedEvent::LibReloaded,
    {
        self.notify(None)
    }

    /// Whether tokens of the current about-to-reload broadcast are still
    /// alive, so the pending reload may not proceed yet.
    pub fn blocks_pending(&self) -> (r: bool)
        ensures
            r == (self@.pending_blocks > 0),
    {
        self.pending_blocks > 0
    }

    /// The number of the current about-to-reload broadcast cycle.
    pub fn current_cycle(&self) -> (r: u64)
        ensures
            r == self@.cycle,
    {
        self.cycle
    }

    /// Counts a clone of a live token of the current broadcast: one more
    /// release is needed before the reload may proceed.
    pub fn clone_block(&mut self, token: &BlockReload) -> (r: BlockReload)
        requires
            token.cycle == old(self)@.cycle,
            old(self)@.pending_blocks >= 1,
            old(self)@.pending_blocks < u64::MAX,
        ensures
            final (self)@ == spec_clone_block(old(self)@),
            r.cycle == token.cycle,
    {
        self.pending_blocks = self.pending_blocks + 1;
        BlockReload { cycle: token.cycle }
    }

    /// Releases a token of the current broadcast, as dropping it does in a
    /// running host: the pending count falls by one, and the reload may
    /// proceed once it reaches zero.
    pub fn release_block(&mut self, token: BlockReload)
        requires
            token.cycle == old(self)@.cycle,
            old(self)@.pending_blocks >= 1,
        ensures
            final (self)@ == spec_release_block(old(self)@),
    {
        let BlockReload { cycle: _ } = token;
        self.pending_blocks = self.pending_blocks - 1;
    }
}

impl Default for LibReloadNotifier {
    /// Same as [`LibReloadNotifier::new`].
    fn default() -> (r: Self)
        ensures
            r@ == (NotifierView {
                subscribers: Seq::empty(),
                pending_blocks: 0,
                cycle: 0,
                next_id: 0,
            }),
    {
        LibReloadNotifier::new()
    }
}

/// The abstract state of a [`LibReloadObserver`].
pub struct ObserverView {
    /// The id under which the notifier addresses this subscriber.
    pub id: u64,
    /// The delivered, not yet consumed events, oldest first.
    pub inbox: Seq<ChangedEvent>,
}

/// Whether `e` announces an imminent reload.
pub open spec fn is_about_to_reload(e: ChangedEvent) -> bool {
    e is LibAboutToReload
}

/// Whether `e` announces a finished reload.
pub open spec fn is_reloaded(e: ChangedEvent) -> bool {
    e is LibReloaded
}

/// Whether some event in `q` announces an imminent reload.
pub open spec fn has_about_to_reload(q: Seq<ChangedEvent>) -> bool {
    exists|i: int| 0 <= i < q.len() && is_about_to_reload(#[trigger] q[i])
}

/// Whether some event in `q` announces a finished reload.
pub open spec fn has_reloaded(q: Seq<ChangedEvent>) -> bool {
    exists|i: int| 0 <= i < q.len() && is_reloaded(#[trigger] q[i])
}

/// The tokens carried by the events of `q`, in order.
pub open spec fn tokens_of(q: Seq<ChangedEvent>) -> Seq<BlockReload>
    decreases q.len(),
{
    if q.len() == 0 {
        Seq::empty()
    } else {
        (match q.first() {
            ChangedEvent::LibAboutToReload(b) => seq![b],
            ChangedEvent::LibReloaded => Seq::empty(),
        }) + tokens_of(q.drop_first())
    }
}

proof fn lemma_tokens_of_concat(a: Seq<ChangedEvent>, b: Seq<ChangedEvent>)
    ensures
        tokens_of(a + b) == tokens_of(a) + tokens_of(b),
    decreases a.len(),
{
    if a.len() == 0 {
        assert(a + b =~= b);
        assert(tokens_of(a) + tokens_of(b) =~= tokens_of(b));
    } else {
        assert((a + b).drop_first() =~= a.drop_first() + b);
        lemma_tokens_of_concat(a.drop_first(), b);
        match a.first() {
            ChangedEvent::LibAboutToReload(t) => {
                assert(seq![t] + (tokens_of(a.drop_first()) + tokens_of(b)) =~= (seq![t]
                    + tokens_of(a.drop_first())) + tokens_of(b));
            },
            ChangedEvent::LibReloaded => {},
        }
    }
}

/// Receives library-change events delivered by the host and lets the
/// subscriber wait for the two notification points of a reload cycle.
pub struct LibReloadObserver {
    id: u64,
    inbox: Vec<ChangedEvent>,
}

impl View for LibReloadObserver {
    type V = ObserverView;

    closed spec fn view(&self) -> ObserverView {
        ObserverView { id: self.id, inbox: self.inbox@ }
    }
}

impl LibReloadObserver {
    /// The id under which the notifier addresses this subscriber.
    pub fn id(&self) -> (r: u64)
        ensures
            r == self@.id,
    {
        self.id
    }

    /// Takes delivery of one event from the host.
    pub fn receive(&mut self, evt: ChangedEvent)
        ensures
            final (self)@ == (ObserverView {
                inbox: old(self)@.inbox.push(evt),
                ..old(self)@
            }),
    {
        self.inbox.push(evt);
    }

    /// Waits until the library is about to change — in this model, consumes
    /// delivered events up to and including the first about-to-reload event,
    /// whose token it returns. While that token is alive the pending reload
    /// may not proceed. Events consumed on the way announce only finished
    /// reloads and carry no token.
    pub fn wait_for_about_to_reload(&mut self) -> (r: BlockReload)
        requires
            has_about_to_reload(old(self)@.inbox),
        ensures
            final (self)@.id == old(self)@.id,
            ({
                let q = old(self)@.inbox;
                exists|k: int|
                    {
                        &&& 0 <= k < q.len()
                        &&& #[trigger] q[k] == ChangedEvent::LibAboutToReload(r)
                        &&& forall|i: int| 0 <= i < k ==> !is_about_to_reload(#[trigger] q[i])
                        &&& final (self)@.inbox == q.skip(k + 1)
                    }
            }),
    {
        let ghost q = self@.inbox;
        let ghost mut j: int = 0;
        loop
            invariant
                0 <= j <= q.len(),
                q == old(self)@.inbox,
                self@.id == old(self)@.id,
                self@.inbox == q.skip(j),
                forall|i: int| 0 <= i < j ==> !is_about_to_reload(#[trigger] q[i]),
                has_about_to_reload(q.skip(j)),
            decreases q.len() - j,
        {
            proof {
                if self@.inbox.len() == 0 {
                    assert(false);
                }
            }
            let e = self.inbox.remove(0);
            proof {
                assert(q.skip(j)[0] == q[j]);
                assert(q.skip(j).remove(0) =~= q.skip(j + 1));
            }
            match e {
                ChangedEvent::LibAboutToReload(b) => {
                    proof {
                        assert(q[j] == ChangedEvent::LibAboutToReload(b));
                    }
                    return b;
                },
                ChangedEvent::LibReloaded => {
                    proof {
                        assert(!is_about_to_reload(q[j]));
                        assert(has_about_to_reload(q.skip(j + 1))) by {
                            let w = choose|i: int|
                                0 <= i < q.skip(j).len() && is_about_to_reload(
                                    #[trigger] q.skip(j)[i],
                                );
                            assert(is_about_to_reload(q.skip(j + 1)[w - 1]));
                        }
                        j = j + 1;
                    }
                },
            }
        }
    }

    /// Like [`Self::wait_for_about_to_reload`] but giving up instead of
    /// blocking — in this model, where no about-to-reload event has been
    /// delivered. Consumed events carry no token; on `None` every delivered
    /// event has been consumed.
    pub fn wait_for_about_to_reload_timeout(&mut self) -> (r: Option<BlockReload>)
        ensures
            final (self)@.id == old(self)@.id,
            ({
                let q = old(self)@.inbox;
                match r {
                    Some(b) => exists|k: int|
                        {
                            &&& 0 <= k < q.len()
                            &&& #[trigger] q[k] == ChangedEvent::LibAboutToReload(b)
                            &&& forall|i: int| 0 <= i < k ==> !is_about_to_reload(#[trigger] q[i])
                            &&& final (self)@.inbox == q.skip(k + 1)
                        },
                    None => !has_about_to_reload(q) && final (self)@.inbox
                        == Seq::<ChangedEvent>::empty(),
                }
            }),
    {
        let ghost q = self@.inbox;
        let ghost mut j: int = 0;
        loop
            invariant
                0 <= j <= q.len(),
                q == old(self)@.inbox,
                self@.id == old(self)@.id,
                self@.inbox == q.skip(j),
                forall|i: int| 0 <= i < j ==> !is_about_to_reload(#[trigger] q[i]),
            decreases q.len() - j,
        {
            if self.inbox.len() == 0 {
                proof {
                    assert(q.skip(j) =~= Seq::<ChangedEvent>::empty());
                    if has_about_to_reload(q) {
                        let w = choose|i: int|
                            0 <= i < q.len() && is_about_to_reload(#[trigger] q[i]);
                        assert(!is_about_to_reload(q[w]));
                    }
                }
                return None;
            }
            let e = self.inbox.remove(0);
            proof {
                assert(q.skip(j)[0] == q[j]);
                assert(q.skip(j).remove(0) =~= q.skip(j + 1));
            }
            match e {
                ChangedEvent::LibAboutToReload(b) => {
                    proof {
                        assert(q[j] == ChangedEvent::LibAboutToReload(b));
                    }
                    return Some(b);
                },
                ChangedEvent::LibReloaded => {
                    proof {
                        assert(!is_about_to_reload(q[j]));
                        j = j + 1;
                    }
                },
            }
        }
    }

    /// Waits until a new library version is loaded — in this model, consumes
    /// delivered events up to and including the first reloaded event.
    /// About-to-reload events consumed on the way are discarded; their
    /// tokens are returned so the host can release each against the
    /// notifier.
    pub fn wait_for_reload(&mut self) -> (dropped: Vec<BlockReload>)
        requires
            has_reloaded(old(self)@.inbox),
        ensures
            final (self)@.id == old(self)@.id,
            ({
                let q = old(self)@.inbox;
                exists|k: int|
                    {
                        &&& 0 <= k < q.len()
                        &&& is_reloaded(#[trigger] q[k])
                        &&& forall|i: int| 0 <= i < k ==> !is_reloaded(#[trigger] q[i])
                        &&& final (self)@.inbox == q.skip(k + 1)
                        &&& dropped@ == tokens_of(q.take(k))
                    }
            }),
    {
        let ghost q = self@.inbox;
        let ghost mut j: int = 0;
        let mut dropped: Vec<BlockReload> = Vec::new();
        loop
            invariant
                0 <= j <= q.len(),
                q == old(self)@.inbox,
                self@.id == old(self)@.id,
                self@.inbox == q.skip(j),
                forall|i: int| 0 <= i < j ==> !is_reloaded(#[trigger] q[i]),
                has_reloaded(q.skip(j)),
                dropped@ == tokens_of(q.take(j)),
            decreases q.len() - j,
        {
            proof {
                if self@.inbox.len() == 0 {
                    assert(false);
                }
            }
            let e = self.inbox.remove(0);
            proof {
                assert(q.skip(j)[0] == q[j]);
                assert(q.skip(j).remove(0) =~= q.skip(j + 1));
                assert(q.take(j + 1) =~= q.take(j) + seq![q[j]]);
                lemma_tokens_of_concat(q.take(j), seq![q[j]]);
                assert(seq![q[j]].drop_first() =~= Seq::<ChangedEvent>::empty());
                assert(tokens_of(Seq::<ChangedEvent>::empty()) == Seq::<BlockReload>::empty());
                assert(seq![q[j]].first() == q[j]);
            }
            match e {
                ChangedEvent::LibReloaded => {
                    proof {
                        assert(is_reloaded(q[j]));
                    }
                    return dropped;
                },
                ChangedEvent::LibAboutToReload(b) => {
                    dropped.push(b);
                    proof {
                        assert(tokens_of(seq![q[j]]) =~= seq![b]);
                        assert(dropped@ =~= tokens_of(q.take(j)) + seq![b]);
                        assert(!is_reloaded(q[j]));
                        assert(has_reloaded(q.skip(j + 1))) by {
                            let w = choose|i: int|
                                0 <= i < q.skip(j).len() && is_reloaded(#[trigger] q.skip(j)[i]);
                            assert(is_reloaded(q.skip(j + 1)[w - 1]));
                        }
                        j = j + 1;
                    }
                },
            }
        }
    }

    /// Like [`Self::wait_for_reload`] but giving up instead of blocking — in
    /// this model, where no reloaded event has been delivered. Returns
    /// whether a reload was seen, and the tokens of discarded
    /// about-to-reload events, for the host to release.
    pub fn wait_for_reload_timeout(&mut self) -> (r: (bool, Vec<BlockReload>))
        ensures
            final (self)@.id == old(self)@.id,
            ({
                let q = old(self)@.inbox;
                if r.0 {
                    exists|k: int|
                        {
                            &&& 0 <= k < q.len()
                            &&& is_reloaded(#[trigger] q[k])
                            &&& forall|i: int| 0 <= i < k ==> !is_reloaded(#[trigger] q[i])
                            &&& final (self)@.inbox == q.skip(k + 1)
                            &&& r.1@ == tokens_of(q.take(k))
                        }
                } else {
                    &&& !has_reloaded(q)
                    &&& final (self)@.inbox == Seq::<ChangedEvent>::empty()
                    &&& r.1@ == tokens_of(q)
                }
            }),
    {
        let ghost q = self@.inbox;
        let ghost mut j: int = 0;
        let mut dropped: Vec<BlockReload> = Vec::new();
        loop
            invariant
                0 <= j <= q.len(),
                q == old(self)@.inbox,
                self@.id == old(self)@.id,
                self@.inbox == q.skip(j),
                forall|i: int| 0 <= i < j ==> !is_reloaded(#[trigger] q[i]),
                dropped@ == tokens_of(q.take(j)),
            decreases q.len() - j,
        {
            if self.inbox.len() == 0 {
                proof {
                    assert(q.skip(j) =~= Seq::<ChangedEvent>::empty());
                    assert(q.take(j) =~= q);
                    if has_reloaded(q) {
                        let w = choose|i: int| 0 <= i < q.len() && is_reloaded(#[trigger] q[i]);
                        assert(!is_reloaded(q[w]));
                    }
                }
                return (false, dropped);
            }
            let e = self.inbox.remove(0);
            proof {
                assert(q.skip(j)[0] == q[j]);
                assert(q.skip(j).remove(0) =~= q.skip(j + 1));
                assert(q.take(j + 1) =~= q.take(j) + seq![q[j]]);
                lemma_tokens_of_concat(q.take(j), seq![q[j]]);
                assert(seq![q[j]].drop_first() =~= Seq::<ChangedEvent>::empty());
                assert(tokens_of(Seq::<ChangedEvent>::empty()) == Seq::<BlockReload>::empty());
                assert(seq![q[j]].first() == q[j]);
            }
            match e {
                ChangedEvent::LibReloaded => {
                    proof {
                        assert(is_reloaded(q[j]));
                    }
                    return (true, dropped);
                },
                ChangedEvent::LibAboutToReload(b) => {
                    dropped.push(b);
                    proof {
                        assert(tokens_of(seq![q[j]]) =~= seq![b]);
                        assert(dropped@ =~= tokens_of(q.take(j)) + seq![b]);
                        assert(!is_reloaded(q[j]));
                        j = j + 1;
                    }
                },
            }
        }
    }
}

} // verus!
