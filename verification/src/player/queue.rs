//! A queue with a limit between two workers, and what a look into it finds.

use vstd::prelude::*;

verus! {

/// The sending end of a `kanal` queue; nothing of its inside is known here.
#[verifier::external_type_specification]
#[verifier::external_body]
#[verifier::reject_recursive_types(T)]
pub struct ExSender<T>(kanal::Sender<T>);

/// The receiving end of a `kanal` queue; nothing of its inside is known here.
#[verifier::external_type_specification]
#[verifier::external_body]
#[verifier::reject_recursive_types(T)]
pub struct ExReceiver<T>(kanal::Receiver<T>);

/// What a look into a queue found.
pub enum Polled<T> {
    /// The other side is gone.
    Closed,
    /// Nothing is queued.
    Empty,
    /// The oldest item, now taken out.
    Item(T),
}

/// A queue between two workers that never holds more than a fixed number of
/// items: its two ends, and the limit that it was made with. The ends are
/// shared with other threads, so what the queue holds at a given moment is
/// not known; the limit never changes.
#[verifier::reject_recursive_types(T)]
pub struct BoundedQueue<T> {
    sender: kanal::Sender<T>,
    receiver: kanal::Receiver<T>,
    limit: usize,
}

/// What emptying a queue came to: how many items the queue held when it
/// was looked at, and how many were then taken out and dropped.
#[derive(PartialEq, Eq, Structural, Clone, Copy, Debug)]
pub struct Drained {
    pub seen: usize,
    pub dropped: usize,
}

/// `kanal::bounded`: a queue that holds at most `limit` items, as its two
/// ends, kept together with that limit.
#[verifier::external_body]
fn queue_bounded<T>(limit: usize) -> (queue: BoundedQueue<T>)
    ensures
        queue.limit_spec() == limit,
{
    let (sender, receiver) = kanal::bounded(limit);
    BoundedQueue { sender, receiver, limit }
}

/// `Receiver::try_recv`: takes the oldest item out if there is one, without
/// waiting. Other threads fill and empty the queue, so nothing is known
/// beforehand of what is found.
#[verifier::external_body]
pub(crate) fn queue_try_recv<T>(receiver: &kanal::Receiver<T>) -> (polled: Polled<T>) {
    match receiver.try_recv() {
        Err(_) => Polled::Closed,
        Ok(None) => Polled::Empty,
        Ok(Some(item)) => Polled::Item(item),
    }
}

/// `Receiver::len`: the number of items queued at the moment of the call,
/// which is never more than the limit that the queue was made with.
#[verifier::external_body]
fn queue_len<T>(queue: &BoundedQueue<T>) -> (len: usize)
    ensures
        len <= queue.limit_spec(),
{
    queue.receiver.len()
}

/// `Sender::is_full`: whether the queue held as many items as it can at the
/// moment of the call.
#[verifier::external_body]
pub(crate) fn queue_is_full<T>(sender: &kanal::Sender<T>) -> (full: bool) {
    sender.is_full()
}

impl<T> BoundedQueue<T> {
    /// The limit that the queue was made with.
    pub closed spec fn limit_spec(&self) -> usize {
        self.limit
    }

    /// The sending end.
    pub closed spec fn sender_spec(&self) -> kanal::Sender<T> {
        self.sender
    }

    /// The receiving end.
    pub closed spec fn receiver_spec(&self) -> kanal::Receiver<T> {
        self.receiver
    }

    /// A new queue that holds at most `limit` items.
    pub fn new(limit: usize) -> (queue: Self)
        ensures
            queue.limit_spec() == limit,
    {
        queue_bounded(limit)
    }

    pub fn limit(&self) -> (limit: usize)
        ensures
            limit == self.limit_spec(),
    {
        self.limit
    }

    pub fn sender(&self) -> (sender: &kanal::Sender<T>)
        ensures
            *sender == self.sender_spec(),
    {
        &self.sender
    }

    pub fn receiver(&self) -> (receiver: &kanal::Receiver<T>)
        ensures
            *receiver == self.receiver_spec(),
    {
        &self.receiver
    }

    /// Whether the queue held as many items as it can when it was asked.
    pub fn is_full(&self) -> (full: bool) {
        queue_is_full(&self.sender)
    }

    /// How many items the queue held when it was asked: never more than
    /// its limit.
    pub fn in_flight(&self) -> (len: usize)
        ensures
            len <= self.limit_spec(),
    {
        queue_len(self)
    }
}

impl Drained {
    /// Nothing seen and nothing dropped.
    pub open spec fn nothing() -> Drained {
        Drained { seen: 0, dropped: 0 }
    }

    /// No more was dropped than was seen.
    pub open spec fn is_bounded(self) -> bool {
        self.dropped <= self.seen
    }

    /// The two counts added to those of `other`, each as far as a count goes.
    pub open spec fn plus(self, other: Drained) -> Drained {
        Drained {
            seen: if self.seen + other.seen > usize::MAX {
                usize::MAX
            } else {
                (self.seen + other.seen) as usize
            },
            dropped: if self.dropped + other.dropped > usize::MAX {
                usize::MAX
            } else {
                (self.dropped + other.dropped) as usize
            },
        }
    }

    /// Computes [`Drained::plus`].
    pub fn merged(self, other: Drained) -> (sum: Drained)
        ensures
            sum == self.plus(other),
            self.is_bounded() && other.is_bounded() ==> sum.is_bounded(),
    {
        Drained {
            seen: self.seen.saturating_add(other.seen),
            dropped: self.dropped.saturating_add(other.dropped),
        }
    }
}

/// How many of the looks found an item.
pub open spec fn items_among<T>(looks: Seq<Polled<T>>) -> nat
    decreases looks.len(),
{
    if looks.len() == 0 {
        0
    } else {
        items_among(looks.drop_last()) + if looks.last() is Item {
            1nat
        } else {
            0nat
        }
    }
}

/// Whether `drained` is what emptying `queue` comes to when the looks into
/// it find `looks`: as many looks were taken as items were seen at first,
/// which is no more than the queue can hold, and every item that a look
/// found was dropped.
pub open spec fn drained_by<T>(queue: BoundedQueue<T>, looks: Seq<Polled<T>>, drained: Drained) -> bool {
    &&& drained.seen <= queue.limit_spec()
    &&& looks.len() == drained.seen
    &&& drained.dropped == items_among(looks)
}

/// Whether `drained` is what emptying a queue that may be absent can come
/// to: nothing where there is no queue, and otherwise what some run of
/// looks into the queue gives.
pub open spec fn drained_of<T>(queue: Option<BoundedQueue<T>>, drained: Drained) -> bool {
    match queue {
        Some(q) => exists|looks: Seq<Polled<T>>| drained_by(q, looks, drained),
        None => drained == Drained::nothing(),
    }
}

/// No more looks find an item than there are looks.
pub proof fn lemma_items_among_bounded<T>(looks: Seq<Polled<T>>)
    ensures
        items_among(looks) <= looks.len(),
    decreases looks.len(),
{
    if looks.len() > 0 {
        lemma_items_among_bounded(looks.drop_last());
    }
}

/// The count of dropped items after one more look: one more when the look
/// found an item, which is thereby dropped.
pub fn drain_step<T>(polled: Polled<T>, dropped: usize) -> (next: usize)
    requires
        dropped < usize::MAX,
    ensures
        next == dropped + if polled is Item {
            1nat
        } else {
            0nat
        },
{
    match polled {
        Polled::Item(_) => dropped + 1,
        _ => dropped,
    }
}

/// Looks once how many items a queue holds, and then looks into it that
/// many times, dropping every item that a look finds: what comes into the
/// queue after the first look is left in it beyond that number. Returns
/// how many items it saw at first, which is never more than the limit of
/// the queue, and how many it dropped: one for each look that found one.
pub fn drain_queue<T>(queue: &BoundedQueue<T>) -> (drained: Drained)
    ensures
        drained.is_bounded(),
        drained.seen <= queue.limit_spec(),
        exists|looks: Seq<Polled<T>>| drained_by(*queue, looks, drained),
{
    let size = queue_len(queue);
    let mut dropped: usize = 0;
    let mut i: usize = 0;
    let ghost mut looks: Seq<Polled<T>> = Seq::empty();
    while i < size
        invariant
            dropped <= i <= size,
            looks.len() == i,
            dropped == items_among(looks),
        decreases size - i,
    {
        let polled = queue_try_recv(&queue.receiver);
        proof {
            let before = looks;
            looks = looks.push(polled);
            assert(looks.drop_last() =~= before);
        }
        dropped = drain_step(polled, dropped);
        proof {
            lemma_items_among_bounded(looks);
        }
        i += 1;
    }
    let drained = Drained { seen: size, dropped };
    assert(drained_by(*queue, looks, drained));
    drained
}

/// Empties a queue that may be absent, see [`drain_queue`].
pub fn drain_optional<T>(queue: &Option<BoundedQueue<T>>) -> (drained: Drained)
    ensures
        drained_of(*queue, drained),
        drained.is_bounded(),
        match *queue {
            Some(q) => drained.seen <= q.limit_spec(),
            None => drained.seen == 0,
        },
{
    match queue {
        Some(q) => drain_queue(q),
        None => Drained { seen: 0, dropped: 0 },
    }
}

} // verus!
