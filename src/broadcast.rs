use crate::boardstate::Change;
use std::collections::VecDeque;
use vstd::prelude::*;

verus! {

/// Number of pending changes a subscriber holds before the oldest are dropped.
pub const SUBSCRIBER_CAPACITY: usize = 100;

/// What a subscriber reads: a change, or the sign that changes were dropped
/// because it read too slowly and its view of the canvas may be stale.
#[derive(PartialEq, Eq, Debug)]
pub enum Delivery {
    Delivered(Change),
    Lagged,
}

/// Handle of one subscription, handed out by `subscribe`.
#[derive(Clone, Copy, PartialEq, Eq, Debug, Structural)]
pub struct SubscriberId {
    pub index: usize,
}

/// The state of one subscription: the changes waiting in its buffer, whether
/// changes were dropped since it last read, and whether it is still open.
pub struct SubscriberView {
    pub pending: Seq<Change>,
    pub lagged: bool,
    pub open: bool,
}

/// The state of the broadcaster: its buffer capacity and every subscription
/// made so far, in order of subscription.
pub struct BroadcasterView {
    pub capacity: nat,
    pub subscribers: Seq<SubscriberView>,
}

/// A subscription with nothing pending.
pub open spec fn fresh_subscriber() -> SubscriberView {
    SubscriberView { pending: Seq::empty(), lagged: false, open: true }
}

/// A subscription after `c` was published: an open one queues it, dropping
/// its oldest pending change and marking itself lagged when the buffer is full.
pub open spec fn deliver(s: SubscriberView, c: Change, capacity: nat) -> SubscriberView {
    if !s.open {
        s
    } else if s.pending.len() >= capacity {
        SubscriberView { pending: s.pending.drop_first().push(c), lagged: true, open: true }
    } else {
        SubscriberView { pending: s.pending.push(c), lagged: s.lagged, open: true }
    }
}

/// The broadcaster after `c` was published to every subscription.
pub open spec fn published(b: BroadcasterView, c: Change) -> BroadcasterView {
    BroadcasterView {
        capacity: b.capacity,
        subscribers: b.subscribers.map_values(|s: SubscriberView| deliver(s, c, b.capacity)),
    }
}

/// The broadcaster after each change of `cs` was published, in order.
pub open spec fn published_all(b: BroadcasterView, cs: Seq<Change>) -> BroadcasterView
    decreases cs.len(),
{
    if cs.len() == 0 {
        b
    } else {
        published(published_all(b, cs.drop_last()), cs.last())
    }
}

/// The broadcaster after one more subscription was made.
pub open spec fn subscribed(b: BroadcasterView) -> BroadcasterView {
    BroadcasterView { capacity: b.capacity, subscribers: b.subscribers.push(fresh_subscriber()) }
}

/// What a subscription will read, in order, if nothing more is published: a
/// lag marker first if changes were dropped, then its pending changes.
pub open spec fn upcoming(s: SubscriberView) -> Seq<Delivery> {
    let items = s.pending.map_values(|c: Change| Delivery::Delivered(c));
    if s.lagged {
        seq![Delivery::Lagged].add(items)
    } else {
        items
    }
}

/// A subscription after it read the first item of `upcoming`.
pub open spec fn received(s: SubscriberView) -> SubscriberView {
    if s.lagged {
        SubscriberView { lagged: false, ..s }
    } else if s.pending.len() > 0 {
        SubscriberView { pending: s.pending.drop_first(), ..s }
    } else {
        s
    }
}

/// The broadcaster with subscription `i` replaced by `s`.
pub open spec fn with_subscriber(b: BroadcasterView, i: int, s: SubscriberView) -> BroadcasterView {
    BroadcasterView { capacity: b.capacity, subscribers: b.subscribers.update(i, s) }
}

/// What subscription `i` reads next: `None` when it has nothing to read.
pub open spec fn next_item(b: BroadcasterView, i: int) -> Option<Delivery> {
    if 0 <= i < b.subscribers.len() && upcoming(b.subscribers[i]).len() > 0 {
        Some(upcoming(b.subscribers[i])[0])
    } else {
        None
    }
}

/// A subscription after it was closed: nothing pending, nothing to report.
pub open spec fn closed_subscriber() -> SubscriberView {
    SubscriberView { pending: Seq::empty(), lagged: false, open: false }
}

struct Subscriber {
    pending: VecDeque<Change>,
    lagged: bool,
    open: bool,
}

impl Subscriber {
    closed spec fn view(&self) -> SubscriberView {
        SubscriberView { pending: self.pending@, lagged: self.lagged, open: self.open }
    }

    fn deliver(&mut self, c: Change, capacity: usize)
        requires
            capacity > 0,
        ensures
            final(self).view() == deliver(old(self).view(), c, capacity as nat),
    {
        if self.open {
            if self.pending.len() >= capacity {
                self.pending.pop_front();
                self.lagged = true;
            }
            self.pending.push_back(c);
        }
        assert(final(self).view().pending =~= deliver(old(self).view(), c, capacity as nat).pending);
    }
}

/// Fans each published change out to every open subscription, each with a
/// buffer of its own; publishing never waits on a subscriber.
pub struct Broadcaster {
    capacity: usize,
    subscribers: Vec<Subscriber>,
}

impl View for Broadcaster {
    type V = BroadcasterView;

    closed spec fn view(&self) -> BroadcasterView {
        BroadcasterView {
            capacity: self.capacity as nat,
            subscribers: self.subscribers@.map_values(|s: Subscriber| s.view()),
        }
    }
}

/// The broadcaster's invariant: a positive capacity, no buffer beyond it, and
/// nothing held for a closed subscription.
pub open spec fn broadcaster_wf(b: BroadcasterView) -> bool {
    &&& b.capacity > 0
    &&& forall|i: int|
        0 <= i < b.subscribers.len() ==> {
            &&& (#[trigger] b.subscribers[i]).pending.len() <= b.capacity
            &&& !b.subscribers[i].open ==> b.subscribers[i] == closed_subscriber()
        }
}

impl Broadcaster {
    /// The broadcaster's invariant, over its view.
    pub open spec fn wf(&self) -> bool {
        broadcaster_wf(self@)
    }

    /// A broadcaster with no subscription, whose subscribers each buffer up
    /// to `capacity` changes.
    pub fn new(capacity: usize) -> (r: Broadcaster)
        requires
            capacity > 0,
        ensures
            r.wf(),
            r@.capacity == capacity,
            r@.subscribers == Seq::<SubscriberView>::empty(),
    {
        let r = Broadcaster { capacity, subscribers: Vec::new() };
        assert(r@.subscribers =~= Seq::<SubscriberView>::empty());
        r
    }

    /// Starts a subscription that sees every change published from now on.
    pub fn subscribe(&mut self) -> (r: SubscriberId)
        requires
            old(self).wf(),
        ensures
            final(self).wf(),
            final(self)@ == subscribed(old(self)@),
            r.index == old(self)@.subscribers.len(),
    {
        let r = SubscriberId { index: self.subscribers.len() };
        self.subscribers.push(Subscriber { pending: VecDeque::new(), lagged: false, open: true });
        assert(self@.subscribers =~= subscribed(old(self)@).subscribers);
        r
    }

    /// Queues `c` for every open subscription. Never fails and never waits;
    /// with no subscription it changes nothing.
    pub fn publish(&mut self, c: &Change)
        requires
            old(self).wf(),
        ensures
            final(self).wf(),
            final(self)@ == published(old(self)@, *c),
    {
        let n = self.subscribers.len();
        let mut i: usize = 0;
        while i < n
            invariant
                self.capacity == old(self).capacity,
                self.capacity > 0,
                self.subscribers@.len() == n,
                n == old(self).subscribers@.len(),
                forall|j: int|
                    0 <= j < i ==> (#[trigger] self.subscribers@[j]).view() == deliver(
                        old(self).subscribers@[j].view(),
                        *c,
                        self.capacity as nat,
                    ),
                forall|j: int|
                    i <= j < n ==> #[trigger] self.subscribers@[j] == old(self).subscribers@[j],
            decreases n - i,
        {
            self.subscribers[i].deliver(c.clone(), self.capacity);
            i += 1;
        }
        assert(self@.subscribers =~= published(old(self)@, *c).subscribers);
    }

    /// The next item for subscription `id`, or `None` when it has nothing to
    /// read (or is closed, or was never handed out).
    pub fn recv(&mut self, id: SubscriberId) -> (r: Option<Delivery>)
        requires
            old(self).wf(),
        ensures
            final(self).wf(),
            r == next_item(old(self)@, id.index as int),
            id.index < old(self)@.subscribers.len() ==> final(self)@ == with_subscriber(
                old(self)@,
                id.index as int,
                received(old(self)@.subscribers[id.index as int]),
            ),
            id.index >= old(self)@.subscribers.len() ==> final(self)@ == old(self)@,
    {
        if id.index >= self.subscribers.len() {
            return None;
        }
        let ghost s = old(self)@.subscribers[id.index as int];
        let sub = &mut self.subscribers[id.index];
        let r = if sub.lagged {
            sub.lagged = false;
            Some(Delivery::Lagged)
        } else {
            match sub.pending.pop_front() {
                Some(c) => Some(Delivery::Delivered(c)),
                None => None,
            }
        };
        assert(self@.subscribers =~= old(self)@.subscribers.update(id.index as int, received(s)));
        r
    }

    /// Closes subscription `id` and frees what it held; an unknown id is
    /// ignored.
    pub fn unsubscribe(&mut self, id: SubscriberId)
        requires
            old(self).wf(),
        ensures
            final(self).wf(),
            id.index < old(self)@.subscribers.len() ==> final(self)@ == with_subscriber(
                old(self)@,
                id.index as int,
                closed_subscriber(),
            ),
            id.index >= old(self)@.subscribers.len() ==> final(self)@ == old(self)@,
    {
        if id.index < self.subscribers.len() {
            self.subscribers[id.index] = Subscriber {
                pending: VecDeque::new(),
                lagged: false,
                open: false,
            };
            assert(self@.subscribers =~= old(self)@.subscribers.update(
                id.index as int,
                closed_subscriber(),
            ));
        }
    }

    /// The number of subscriptions made so far, open or closed.
    pub fn subscriber_count(&self) -> (r: usize)
        ensures
            r == self@.subscribers.len(),
    {
        self.subscribers.len()
    }
}

/// The last `n` changes of `s`, or all of them when there are fewer.
pub open spec fn newest(s: Seq<Change>, n: nat) -> Seq<Change> {
    if s.len() > n {
        s.subrange(s.len() - n, s.len() as int)
    } else {
        s
    }
}

/// The items that a subscription holding `cs`, with no lag, reads.
pub open spec fn delivered_all(cs: Seq<Change>) -> Seq<Delivery> {
    cs.map_values(|c: Change| Delivery::Delivered(c))
}

proof fn lemma_published_all_shape(b: BroadcasterView, cs: Seq<Change>)
    ensures
        published_all(b, cs).subscribers.len() == b.subscribers.len(),
        published_all(b, cs).capacity == b.capacity,
    decreases cs.len(),
{
    if cs.len() > 0 {
        lemma_published_all_shape(b, cs.drop_last());
    }
}

proof fn lemma_newest_twice(a: Seq<Change>, b: Seq<Change>, n: nat)
    requires
        n > 0,
    ensures
        newest(newest(a, n) + b, n) == newest(a + b, n),
{
    if a.len() > n {
        let l = newest(a, n) + b;
        let r = a + b;
        assert(newest(l, n) =~= newest(r, n)) by {
            assert forall|k: int| 0 <= k < newest(l, n).len() implies #[trigger] newest(l, n)[k]
                == newest(r, n)[k] by {
                if k + l.len() - n < n {
                    assert(newest(l, n)[k] == a[k + a.len() - n + l.len() - n]);
                } else {
                    assert(newest(l, n)[k] == b[k + l.len() - n - n]);
                }
            }
        }
    } else {
        assert(newest(a, n) == a);
    }
}

/// An open subscription with changes `p` pending, after `cs` was published:
/// it holds the most recent `capacity` changes of `p + cs`, and is lagged
/// exactly when it was already, or when more than `capacity` of them arrived.
pub proof fn lemma_buffer_after(b: BroadcasterView, cs: Seq<Change>, i: int)
    requires
        b.capacity > 0,
        0 <= i < b.subscribers.len(),
        b.subscribers[i].open,
        b.subscribers[i].pending.len() <= b.capacity,
    ensures
        ({
            let s = b.subscribers[i];
            let all = s.pending + cs;
            let t = published_all(b, cs).subscribers[i];
            &&& t.open
            &&& t.pending == newest(all, b.capacity)
            &&& t.lagged == (s.lagged || all.len() > b.capacity)
        }),
    decreases cs.len(),
{
    let s = b.subscribers[i];
    if cs.len() == 0 {
        assert(s.pending + cs =~= s.pending);
    } else {
        let prev = cs.drop_last();
        let x = cs.last();
        lemma_buffer_after(b, prev, i);
        lemma_published_all_shape(b, prev);
        let before = published_all(b, prev);
        let t0 = before.subscribers[i];
        let all0 = s.pending + prev;
        let all = s.pending + cs;
        assert(all =~= all0.push(x));
        assert(published_all(b, cs).subscribers[i] == deliver(t0, x, b.capacity));
        if all0.len() >= b.capacity {
            assert(t0.pending.drop_first().push(x) =~= newest(all, b.capacity));
        } else {
            assert(t0.pending.push(x) =~= newest(all, b.capacity));
        }
    }
}

/// Reading takes the first upcoming item and leaves the rest in order.
pub proof fn lemma_read_takes_first(s: SubscriberView)
    requires
        upcoming(s).len() > 0,
    ensures
        upcoming(received(s)) == upcoming(s).drop_first(),
{
    assert(upcoming(received(s)) =~= upcoming(s).drop_first());
}

/// Publishing to an open subscription whose buffer has room appends the
/// change to what it will read, after everything already upcoming.
pub proof fn lemma_publish_appends(s: SubscriberView, c: Change, capacity: nat)
    requires
        s.open,
        s.pending.len() < capacity,
    ensures
        upcoming(deliver(s, c, capacity)) == upcoming(s).push(Delivery::Delivered(c)),
{
    assert(upcoming(deliver(s, c, capacity)) =~= upcoming(s).push(Delivery::Delivered(c)));
}

/// Publishing with no open subscription changes nothing, and so never has
/// anything to wait on.
pub proof fn lemma_publish_without_subscribers(b: BroadcasterView, c: Change)
    requires
        forall|i: int| 0 <= i < b.subscribers.len() ==> !(#[trigger] b.subscribers[i]).open,
    ensures
        published(b, c) == b,
{
    assert(published(b, c).subscribers =~= b.subscribers);
}

/// A subscription that has not overflowed reads exactly the changes
/// published since it began, in publish order, and no lag marker.
pub proof fn lemma_subscriber_sees_published(b: BroadcasterView, cs: Seq<Change>)
    requires
        broadcaster_wf(b),
        cs.len() <= b.capacity,
    ensures
        upcoming(published_all(subscribed(b), cs).subscribers[b.subscribers.len() as int])
            == delivered_all(cs),
{
    let i = b.subscribers.len() as int;
    lemma_buffer_after(subscribed(b), cs, i);
    assert(Seq::<Change>::empty() + cs =~= cs);
}

/// A subscription that does not read while more than `capacity` changes are
/// published reads a lag marker first, then fewer changes than were
/// published: the most recent `capacity` of them.
pub proof fn lemma_overflow_reports_lag(b: BroadcasterView, cs: Seq<Change>)
    requires
        broadcaster_wf(b),
        cs.len() > b.capacity,
    ensures
        ({
            let u = upcoming(published_all(subscribed(b), cs).subscribers[b.subscribers.len() as int]);
            &&& u[0] == Delivery::Lagged
            &&& u.len() - 1 == b.capacity
            &&& u.len() - 1 < cs.len()
            &&& u.drop_first() == delivered_all(cs.subrange(cs.len() - b.capacity, cs.len() as int))
        }),
{
    let i = b.subscribers.len() as int;
    lemma_buffer_after(subscribed(b), cs, i);
    assert(Seq::<Change>::empty() + cs =~= cs);
    let u = upcoming(published_all(subscribed(b), cs).subscribers[i]);
    assert(u.drop_first() =~= delivered_all(cs.subrange(cs.len() - b.capacity, cs.len() as int)));
}

/// Two subscriptions made at different times, with `early` published between
/// them and `late` after both: each holds only changes published after it
/// began, the most recent `capacity` of them, and reads all of them in order
/// when none overflowed.
pub proof fn lemma_two_subscribers(b: BroadcasterView, early: Seq<Change>, late: Seq<Change>)
    requires
        broadcaster_wf(b),
    ensures
        ({
            let first = b.subscribers.len() as int;
            let mid = subscribed(published_all(subscribed(b), early));
            let end = published_all(mid, late);
            &&& end.subscribers[first].pending == newest(early + late, b.capacity)
            &&& end.subscribers[first].lagged == (early.len() + late.len() > b.capacity)
            &&& end.subscribers[first + 1].pending == newest(late, b.capacity)
            &&& end.subscribers[first + 1].lagged == (late.len() > b.capacity)
            &&& early.len() + late.len() <= b.capacity ==> upcoming(end.subscribers[first])
                == delivered_all(early + late)
            &&& late.len() <= b.capacity ==> upcoming(end.subscribers[first + 1])
                == delivered_all(late)
        }),
{
    let first = b.subscribers.len() as int;
    let b1 = subscribed(b);
    let b2 = published_all(b1, early);
    let mid = subscribed(b2);
    lemma_buffer_after(b1, early, first);
    lemma_published_all_shape(b1, early);
    assert(Seq::<Change>::empty() + early =~= early);
    assert(Seq::<Change>::empty() + late =~= late);
    assert(mid.subscribers[first] == b2.subscribers[first]);
    lemma_buffer_after(mid, late, first);
    lemma_buffer_after(mid, late, first + 1);
    lemma_newest_twice(early, late, b.capacity);
}

} // verus!
