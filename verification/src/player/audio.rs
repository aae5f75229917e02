//! Playable audio frames and the ring of samples between the audio presenter
//! and the output device.

use vstd::prelude::*;
use vstd::slice::slice_subrange;
use crate::player::consts::AUDIO_RING_CAPACITY;
use ringbuf::traits::{Consumer, Observer, Producer, Split};

verus! {

/// Decoded audio ready for the speaker: samples in the output format, with
/// the stamps of the frame they come from. `S` is the sample type of the
/// output device.
#[derive(Clone, Debug)]
pub struct AudioPlayFrame<S> {
    pub samples: Vec<S>,
    pub channels: u16,
    pub sample_rate: u32,
    /// Presentation timestamp, in ticks of the audio stream.
    pub pts: i64,
    /// Duration, in ticks of the audio stream.
    pub duration: i64,
    /// Timestamp in ticks of the container clock.
    pub timestamp: i64,
}

impl<S> AudioPlayFrame<S> {
    pub fn new(samples: Vec<S>, channels: u16, sample_rate: u32, pts: i64, duration: i64) -> (frame:
        Self)
        ensures
            frame == (AudioPlayFrame { samples, channels, sample_rate, pts, duration, timestamp: 0 }),
    {
        AudioPlayFrame { samples, channels, sample_rate, pts, duration, timestamp: 0 }
    }
}

/// Overwrites every sample with `silence`.
pub fn fill_silence<S: Copy>(samples: &mut Vec<S>, silence: S)
    ensures
        final(samples)@ == Seq::new(old(samples)@.len(), |i: int| silence),
{
    let n: usize = samples.len();
    let mut i: usize = 0;
    while i < n
        invariant
            i <= n,
            samples@.len() == n,
            forall|j: int| 0 <= j < i ==> samples@[j] == silence,
        decreases n - i,
    {
        samples[i] = silence;
        i += 1;
    }
    assert(samples@ =~= Seq::new(n as nat, |i: int| silence));
}

/// The writing end of the ring between the audio presenter and the output
/// device, a `ringbuf::HeapProd`. The ring carries samples as words of 32
/// bits, whatever their format. The reading end belongs to another thread,
/// so how full the ring is at a given moment is not known to the writer.
#[verifier::external_body]
pub struct SampleProducer {
    inner: ringbuf::HeapProd<u32>,
}

/// The reading end of the ring of samples, a `ringbuf::HeapCons`.
#[verifier::external_body]
pub struct SampleConsumer {
    inner: ringbuf::HeapCons<u32>,
}

/// Every sample that this end has put into the ring so far, oldest first.
/// It grows by what `Producer::push_slice` takes and by nothing else.
pub uninterp spec fn ring_pushed(producer: SampleProducer) -> Seq<u32>;

/// The places that the writer has seen free and has not filled since. The
/// reader only ever frees places, so as many are free in truth, or more.
pub uninterp spec fn ring_room(producer: SampleProducer) -> nat;

/// The samples in the ring that the reader has seen and has not taken out
/// since, oldest first. The writer only ever adds behind them, so the ring
/// holds them in truth, and maybe more behind.
pub uninterp spec fn ring_seen(consumer: SampleConsumer) -> Seq<u32>;

/// Every sample that this end has taken out of the ring so far, oldest
/// first. It grows by what `Consumer::pop_slice` hands out and by nothing else.
pub uninterp spec fn ring_popped(consumer: SampleConsumer) -> Seq<u32>;

/// `ringbuf::HeapRb::new` followed by `split`: a ring of the given
/// capacity, as its two ends, with nothing put in or taken out yet and
/// every place free.
#[verifier::external_body]
fn ring_split(capacity: usize) -> (ends: (SampleProducer, SampleConsumer))
    requires
        0 < capacity <= 0x0fff_ffff,
    ensures
        ring_pushed(ends.0) == Seq::<u32>::empty(),
        ring_room(ends.0) == capacity,
        ring_popped(ends.1) == Seq::<u32>::empty(),
        ring_seen(ends.1) == Seq::<u32>::empty(),
{
    let (producer, consumer) = ringbuf::HeapRb::<u32>::new(capacity).split();
    (SampleProducer { inner: producer }, SampleConsumer { inner: consumer })
}

/// `Observer::vacant_len` of the writing end: the free places at the
/// moment of the call, which the writer has then seen (hence `&mut`: the
/// look changes what the writer knows). They are no fewer than it had seen
/// before, and nothing is put into the ring.
#[verifier::external_body]
fn ring_vacant_len(producer: &mut SampleProducer) -> (vacant: usize)
    ensures
        ring_room(*final(producer)) == vacant,
        ring_room(*old(producer)) <= vacant,
        ring_pushed(*final(producer)) == ring_pushed(*old(producer)),
{
    producer.inner.vacant_len()
}

/// `Producer::push_slice`: appends as many of `elems`, from the front and
/// in their order, as there is room for, and returns how many. It looks
/// for room afresh, so it takes all of `elems` that fit in the room seen
/// before, and uses up no more room than it fills.
#[verifier::external_body]
fn ring_push_slice(producer: &mut SampleProducer, elems: &[u32]) -> (count: usize)
    ensures
        count <= elems@.len(),
        ring_pushed(*final(producer)) == ring_pushed(*old(producer)) + elems@.take(count as int),
        count == elems@.len() || count >= ring_room(*old(producer)),
        ring_room(*final(producer)) + count >= ring_room(*old(producer)),
{
    producer.inner.push_slice(elems)
}

/// `Observer::is_empty` of the reading end: whether the ring holds no
/// sample at the moment of the call, which the reader has then seen (hence
/// `&mut`: the look changes what the reader knows). What it had seen before
/// is still there, in front; nothing is taken out.
#[verifier::external_body]
fn ring_is_empty(consumer: &mut SampleConsumer) -> (empty: bool)
    ensures
        empty == (ring_seen(*final(consumer)).len() == 0),
        ring_seen(*old(consumer)).is_prefix_of(ring_seen(*final(consumer))),
        ring_popped(*final(consumer)) == ring_popped(*old(consumer)),
{
    consumer.inner.is_empty()
}

/// `Consumer::pop_slice`: moves the oldest samples, in their order, into
/// the front of `elems` and returns how many; the rest of `elems` is left
/// as it was. It looks afresh at what the ring holds: what it takes and
/// what it then leaves seen begin with what the reader had seen before, and
/// it stops short of filling `elems` only when it has taken all there was.
#[verifier::external_body]
fn ring_pop_slice(consumer: &mut SampleConsumer, elems: &mut [u32]) -> (count: usize)
    ensures
        count <= old(elems)@.len(),
        final(elems)@.len() == old(elems)@.len(),
        forall|i: int| count <= i < old(elems)@.len() ==> final(elems)@[i] == old(elems)@[i],
        ring_popped(*final(consumer)) == ring_popped(*old(consumer)) + final(elems)@.take(
            count as int,
        ),
        ring_seen(*old(consumer)).is_prefix_of(
            final(elems)@.take(count as int) + ring_seen(*final(consumer)),
        ),
        count == old(elems)@.len() || ring_seen(*final(consumer)).len() == 0,
{
    consumer.inner.pop_slice(elems)
}

/// A fresh ring of samples of the size the player uses, as its two ends.
pub fn audio_ring() -> (ends: (SampleProducer, SampleConsumer))
    ensures
        ring_pushed(ends.0) == Seq::<u32>::empty(),
        ring_room(ends.0) == AUDIO_RING_CAPACITY,
        ring_popped(ends.1) == Seq::<u32>::empty(),
        ring_seen(ends.1) == Seq::<u32>::empty(),
{
    ring_split(AUDIO_RING_CAPACITY)
}

/// Whether a frame of `len` samples can ever be in the ring whole: a
/// longer one never finds room, however long the writer waits, and has to
/// go in piece by piece.
pub fn fits_ring(len: usize) -> (fits: bool)
    ensures
        fits == (len <= AUDIO_RING_CAPACITY),
{
    len <= AUDIO_RING_CAPACITY
}

/// Whether the ring has room for `needed` more samples. The reader only
/// ever frees places, so room that was seen stays until the writer uses it.
pub fn has_room(producer: &mut SampleProducer, needed: usize) -> (room: bool)
    ensures
        room == (ring_room(*final(producer)) >= needed),
        ring_room(*final(producer)) >= ring_room(*old(producer)),
        ring_pushed(*final(producer)) == ring_pushed(*old(producer)),
{
    ring_vacant_len(producer) >= needed
}

/// Puts a whole frame into the ring, or nothing: no sample is dropped and
/// no frame is torn. Returns whether the frame went in; while it did not,
/// the ring was too full, and the caller waits and tries again.
pub fn push_frame(producer: &mut SampleProducer, samples: &[u32]) -> (pushed: bool)
    ensures
        pushed ==> ring_pushed(*final(producer)) == ring_pushed(*old(producer)) + samples@,
        !pushed ==> ring_pushed(*final(producer)) == ring_pushed(*old(producer)),
        !pushed ==> ring_room(*final(producer)) < samples@.len(),
        ring_room(*old(producer)) >= samples@.len() ==> pushed,
{
    if has_room(producer, samples.len()) {
        let next = feed_samples(producer, samples, 0);
        assert(samples@.subrange(0, samples@.len() as int) =~= samples@);
        true
    } else {
        false
    }
}

/// Hands the samples from `from` on to the ring, as many as it takes, in
/// their order. Returns where to go on from: `samples.len()` once all are
/// in the ring, which they are when the room seen before was enough.
pub fn feed_samples(producer: &mut SampleProducer, samples: &[u32], from: usize) -> (next: usize)
    requires
        from <= samples@.len(),
    ensures
        from <= next <= samples@.len(),
        ring_pushed(*final(producer)) == ring_pushed(*old(producer)) + samples@.subrange(
            from as int,
            next as int,
        ),
        next == samples@.len() || next - from >= ring_room(*old(producer)),
        ring_room(*final(producer)) + (next - from) >= ring_room(*old(producer)),
{
    let rest = slice_subrange(samples, from, samples.len());
    let count = ring_push_slice(producer, rest);
    assert(rest@.take(count as int) =~= samples@.subrange(from as int, from + count));
    from + count
}

/// However a frame is cut up on its way into the ring, what has gone in
/// once the feeding has reached the end of the frame is the frame: every
/// sample once, in its place. Two steps of feeding, the second taken up
/// where the first left off, put in what one step over both would.
pub proof fn lemma_feeding_keeps_every_sample(
    before: Seq<u32>,
    samples: Seq<u32>,
    from: int,
    mid: int,
    next: int,
)
    requires
        0 <= from <= mid <= next <= samples.len(),
    ensures
        (before + samples.subrange(from, mid)) + samples.subrange(mid, next) == before
            + samples.subrange(from, next),
        before + samples.subrange(0, samples.len() as int) == before + samples,
{
    assert((before + samples.subrange(from, mid)) + samples.subrange(mid, next) =~= before
        + samples.subrange(from, next));
    assert(samples.subrange(0, samples.len() as int) =~= samples);
}

/// What the reader finds in the ring at a look: the samples it had seen
/// before, and behind them what the writer has added since.
pub open spec fn found_in_ring(before: SampleConsumer, taken: Seq<u32>, after: SampleConsumer) -> bool {
    ring_seen(before).is_prefix_of(taken + ring_seen(after))
}

/// The samples that a buffer of `len` places takes out of a ring in which
/// the reader has seen `seen`: as many as fit, from the oldest on.
pub proof fn lemma_takes_the_oldest(
    before: SampleConsumer,
    taken: Seq<u32>,
    after: SampleConsumer,
    len: int,
)
    requires
        found_in_ring(before, taken, after),
        taken.len() <= len,
        taken.len() == len || ring_seen(after).len() == 0,
    ensures
        taken.len() >= ring_seen(before).len() || taken.len() == len,
        forall|i: int|
            0 <= i < taken.len() && i < ring_seen(before).len() ==> taken[i] == ring_seen(
                before,
            )[i],
{
    let whole = taken + ring_seen(after);
    assert forall|i: int|
        0 <= i < taken.len() && i < ring_seen(before).len() implies taken[i] == ring_seen(
        before,
    )[i] by {
        assert(whole.subrange(0, ring_seen(before).len() as int)[i] == whole[i]);
    }
}

/// Fills `data` for the output device: with samples from the ring, oldest
/// first, as far as it has any, and with `silence` from there on. Returns
/// how many samples came from the ring: all that the buffer has room for,
/// or all that the ring held.
pub fn write_audio(data: &mut [u32], consumer: &mut SampleConsumer, silence: u32) -> (done: usize)
    ensures
        done <= old(data)@.len(),
        final(data)@.len() == old(data)@.len(),
        forall|i: int| done <= i < old(data)@.len() ==> final(data)@[i] == silence,
        found_in_ring(*old(consumer), final(data)@.take(done as int), *final(consumer)),
        done == old(data)@.len() || ring_seen(*final(consumer)).len() == 0,
        ring_popped(*final(consumer)) == ring_popped(*old(consumer)) + final(data)@.take(
            done as int,
        ),
{
    let n: usize = data.len();
    let mut done: usize = 0;
    let empty = ring_is_empty(consumer);
    let ghost looked = *consumer;
    if !empty {
        done = ring_pop_slice(consumer, data);
    }
    let ghost popped = data@.take(done as int);
    proof {
        let whole = popped + ring_seen(*consumer);
        if empty {
            assert(popped =~= Seq::<u32>::empty());
            assert(whole =~= ring_seen(*consumer));
        } else {
            let first = ring_seen(*old(consumer));
            let mid = ring_seen(looked);
            assert(first =~= mid.subrange(0, first.len() as int));
            assert(mid =~= whole.subrange(0, mid.len() as int));
            assert(first =~= whole.subrange(0, first.len() as int));
        }
        assert(found_in_ring(*old(consumer), popped, *consumer));
    }
    let mut i: usize = done;
    while i < n
        invariant
            done <= i <= n,
            data@.len() == n,
            data@.take(done as int) == popped,
            forall|j: int| done <= j < i ==> data@[j] == silence,
        decreases n - i,
    {
        let ghost before = data@;
        data[i] = silence;
        assert(data@.take(done as int) =~= before.take(done as int));
        i += 1;
    }
    proof {
        if done == 0 {
            assert(data@.take(0) =~= Seq::<u32>::empty());
            assert(ring_popped(*old(consumer)) + Seq::<u32>::empty() =~= ring_popped(
                *old(consumer),
            ));
        }
    }
    done
}

} // verus!
