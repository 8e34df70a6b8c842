//! Bounded producer/consumer channel of sample chunks, with a consumer that
//! serves fixed-size windows in arrival order.

use std::sync::mpsc::{Receiver, RecvError, SyncSender, TrySendError};
use vstd::prelude::*;

verus! {

/// Number of chunks the channel holds before the producer starts dropping.
pub const QUEUE_CAPACITY: usize = 1024;

/// Samples reserved up front in the consumer's buffer.
pub const BUFFER_MIN_CAPACITY: usize = 1048576;

#[verifier::external_type_specification]
#[verifier::external_body]
#[verifier::reject_recursive_types(T)]
pub struct ExReceiver<T>(Receiver<T>);

#[verifier::external_type_specification]
#[verifier::external_body]
#[verifier::reject_recursive_types(T)]
pub struct ExSyncSender<T>(SyncSender<T>);

#[verifier::external_type_specification]
#[verifier::external_body]
pub struct ExRecvError(RecvError);

#[verifier::external_type_specification]
#[verifier::external_body]
#[verifier::reject_recursive_types(T)]
pub struct ExTrySendError<T>(TrySendError<T>);

/// Relies on `std::sync::mpsc::sync_channel`: a connected sender/receiver pair
/// with a bounded queue. Nothing about the queue is observable here.
pub assume_specification<T>[ std::sync::mpsc::sync_channel::<T> ](bound: usize) -> (SyncSender<T>, Receiver<T>);

/// Relies on `Receiver::recv`: blocks until a value arrives or every sender is
/// gone. What arrives depends on other threads, so nothing is promised of it.
pub assume_specification<T>[ Receiver::<T>::recv ](rx: &Receiver<T>) -> Result<T, RecvError>;

/// Relies on `SyncSender::try_send`: never blocks; the value is either queued
/// or handed back in the error. Which happens depends on the receiver's thread.
pub assume_specification<T>[ SyncSender::<T>::try_send ](tx: &SyncSender<T>, t: T) -> Result<(), TrySendError<T>>;

/// All samples of a sequence of chunks, in order.
pub open spec fn flatten<T>(chunks: Seq<Seq<T>>) -> Seq<T>
    decreases chunks.len(),
{
    if chunks.len() == 0 {
        Seq::empty()
    } else {
        flatten(chunks.drop_last()) + chunks.last()
    }
}

/// Flattening after one more chunk appends that chunk's samples.
pub proof fn lemma_flatten_push<T>(a: Seq<Seq<T>>, c: Seq<T>)
    ensures
        flatten(a.push(c)) == flatten(a) + c,
{
    assert(a.push(c).drop_last() =~= a);
    assert(a.push(c).last() == c);
}

/// A non-empty run of samples delivered by one producer write.
#[verifier::reject_recursive_types(T)]
pub struct Chunk<T> {
    samples: Vec<T>,
}

impl<T> Chunk<T> {
    #[verifier::type_invariant]
    spec fn inv(self) -> bool {
        self.samples@.len() > 0
    }

    /// The chunk's samples, in order.
    pub closed spec fn view(&self) -> Seq<T> {
        self.samples@
    }
}

impl<T: Copy> Chunk<T> {
    /// A chunk holding a copy of `data`, or `None` when `data` is empty.
    pub fn from_slice(data: &[T]) -> (r: Option<Chunk<T>>)
        ensures
            match r {
                Some(c) => data@.len() > 0 && c@ == data@,
                None => data@.len() == 0,
            },
    {
        if data.len() == 0 {
            return None;
        }
        let mut samples: Vec<T> = Vec::with_capacity(data.len());
        let mut i: usize = 0;
        while i < data.len()
            invariant
                i <= data@.len(),
                samples@ == data@.subrange(0, i as int),
            decreases data@.len() - i,
        {
            samples.push(data[i]);
            i = i + 1;
            assert(samples@ =~= data@.subrange(0, i as int));
        }
        assert(data@.subrange(0, data@.len() as int) =~= data@);
        Some(Chunk { samples })
    }
}

/// Receiving end: owns the leftover samples between reads.
#[verifier::reject_recursive_types(T)]
pub struct Consumer<T> {
    receiver: Receiver<Chunk<T>>,
    buffer: Vec<T>,
    /// Every chunk accepted by this consumer so far, in order.
    received: Ghost<Seq<Seq<T>>>,
    /// Every window returned by `read` so far, in order.
    windows: Ghost<Seq<Seq<T>>>,
}

impl<T> Consumer<T> {
    /// Samples received but not yet returned by `read`.
    pub closed spec fn pending(&self) -> Seq<T> {
        self.buffer@
    }

    /// Chunks accepted so far.
    pub closed spec fn received(&self) -> Seq<Seq<T>> {
        self.received@
    }

    /// Windows returned so far.
    pub closed spec fn windows(&self) -> Seq<Seq<T>> {
        self.windows@
    }

    /// The returned windows followed by the pending samples are exactly the
    /// received chunks, in order.
    pub closed spec fn wf(&self) -> bool {
        flatten(self.windows@) + self.buffer@ == flatten(self.received@)
    }

    fn new(receiver: Receiver<Chunk<T>>) -> (r: Self)
        ensures
            r.wf(),
            r.pending() == Seq::<T>::empty(),
            r.received() == Seq::<Seq<T>>::empty(),
            r.windows() == Seq::<Seq<T>>::empty(),
    {
        let r = Consumer {
            receiver,
            buffer: Vec::with_capacity(BUFFER_MIN_CAPACITY),
            received: Ghost(Seq::empty()),
            windows: Ghost(Seq::empty()),
        };
        proof {
            assert(flatten(Seq::<Seq<T>>::empty()) =~= Seq::<T>::empty());
            assert(r.buffer@ =~= Seq::<T>::empty());
        }
        r
    }

    /// Appends a chunk's samples to the pending ones and records the chunk.
    pub fn accept(&mut self, chunk: Chunk<T>)
        requires
            old(self).wf(),
        ensures
            final(self).wf(),
            final(self).pending() == old(self).pending() + chunk@,
            final(self).received() == old(self).received().push(chunk@),
            final(self).windows() == old(self).windows(),
            chunk@.len() > 0,
    {
        proof {
            use_type_invariant(&chunk);
            lemma_flatten_push(self.received@, chunk@);
        }
        let ghost c = chunk@;
        let ghost buf_before = self.buffer@;
        let mut samples = chunk.samples;
        self.received = Ghost(self.received@.push(c));
        self.buffer.append(&mut samples);
        assert(self.buffer@ =~= buf_before + c);
        assert(flatten(self.windows@) + self.buffer@ =~= (flatten(self.windows@) + buf_before) + c);
    }
}

impl<T: Copy> Consumer<T> {
    /// Returns the next `n` samples in arrival order, taking chunks off the
    /// channel (blocking) until that many are buffered. Samples past `n` stay
    /// buffered for the next call. Fails once the channel is closed and fewer
    /// than `n` samples are available; what was received stays buffered.
    pub fn read(&mut self, n: usize) -> (r: Result<Vec<T>, RecvError>)
        requires
            old(self).wf(),
        ensures
            final(self).wf(),
            final(self).received().len() >= old(self).received().len(),
            final(self).received().subrange(0, old(self).received().len() as int)
                == old(self).received(),
            old(self).pending() + flatten(
                final(self).received().skip(old(self).received().len() as int),
            ) == match r {
                Ok(w) => w@ + final(self).pending(),
                Err(_) => final(self).pending(),
            },
            final(self).received().len() > old(self).received().len() ==> old(self).pending().len()
                + flatten(
                final(self).received().subrange(
                    old(self).received().len() as int,
                    final(self).received().len() - 1,
                ),
            ).len() < n,
            match r {
                Ok(w) => w@.len() == n && final(self).windows() == old(self).windows().push(w@),
                Err(_) => final(self).pending().len() < n && final(self).windows()
                    == old(self).windows(),
            },
    {
        let ghost k0 = self.received@.len();
        let ghost p0 = self.buffer@;
        assert(self.received@.subrange(0, k0 as int) =~= self.received@);
        assert(self.received@.skip(k0 as int) =~= Seq::<Seq<T>>::empty());
        assert(p0 + flatten(Seq::<Seq<T>>::empty()) =~= p0);
        while self.buffer.len() < n
            invariant
                self.wf(),
                self.windows@ == old(self).windows@,
                self.received@.len() >= k0,
                k0 == old(self).received@.len(),
                p0 == old(self).buffer@,
                self.received@.subrange(0, k0 as int) == old(self).received@,
                self.buffer@ == p0 + flatten(self.received@.skip(k0 as int)),
                self.received@.len() > k0 ==> p0.len() + flatten(
                    self.received@.subrange(k0 as int, self.received@.len() - 1),
                ).len() < n,
            decreases if self.buffer@.len() < n { n - self.buffer@.len() } else { 0 },
        {
            let chunk = match self.receiver.recv() {
                Ok(c) => c,
                Err(e) => {
                    return Err(e);
                },
            };
            let ghost before = self.received@;
            proof {
                lemma_flatten_push(before.skip(k0 as int), chunk@);
                assert(before.push(chunk@).skip(k0 as int) =~= before.skip(k0 as int).push(chunk@));
                assert(before.push(chunk@).subrange(k0 as int, before.len() as int) =~= before.skip(
                    k0 as int,
                ));
                assert(before.push(chunk@).subrange(0, k0 as int) =~= before.subrange(0, k0 as int));
            }
            self.accept(chunk);
        }
        let ghost all = self.buffer@;
        assert(flatten(self.windows@) + all == flatten(self.received@));
        let mut head = self.buffer.split_off(n);
        std::mem::swap(&mut self.buffer, &mut head);
        proof {
            assert(all =~= head@ + self.buffer@);
            lemma_flatten_push(self.windows@, head@);
        }
        self.windows = Ghost(self.windows@.push(head@));
        assert(flatten(self.windows@) + self.buffer@ =~= (flatten(old(self).windows@) + head@)
            + self.buffer@);
        assert((flatten(old(self).windows@) + head@) + self.buffer@ =~= flatten(old(self).windows@)
            + all);
        Ok(head)
    }
}

/// Order preservation: the windows returned so far, followed by the samples
/// still pending, are the received chunks' samples in order; so once the
/// windows' lengths add up to every sample received, the windows are exactly
/// that stream and nothing is pending.
pub proof fn lemma_windows_reconstruct_stream<T>(c: &Consumer<T>)
    requires
        c.wf(),
    ensures
        flatten(c.windows()) + c.pending() == flatten(c.received()),
        flatten(c.windows()).len() == flatten(c.received()).len() ==> flatten(c.windows())
            == flatten(c.received()) && c.pending().len() == 0,
{
    let w = flatten(c.windows());
    if w.len() == flatten(c.received()).len() {
        assert(w + c.pending() =~= w);
    }
}

/// Sending end, for a real-time context: `write` never blocks.
#[verifier::reject_recursive_types(T)]
pub struct Producer<T> {
    sender: SyncSender<Chunk<T>>,
}

impl<T: Copy> Producer<T> {
    /// Offers a copy of `data` to the channel as one chunk, without blocking,
    /// and returns the samples offered. When the channel is full or closed the
    /// chunk is dropped; an empty `data` carries no samples and sends nothing.
    pub fn write(&self, data: &[T]) -> (offered: Ghost<Option<Seq<T>>>)
        ensures
            offered@ == (if data@.len() == 0 {
                None::<Seq<T>>
            } else {
                Some(data@)
            }),
    {
        match Chunk::from_slice(data) {
            Some(chunk) => {
                let ghost samples = chunk@;
                let _ = self.sender.try_send(chunk);
                Ghost(Some(samples))
            },
            None => Ghost(None),
        }
    }
}

/// A connected producer and consumer over a channel of `QUEUE_CAPACITY`
/// chunks. The consumer starts with nothing received and nothing buffered.
pub fn new<T>() -> (r: (Producer<T>, Consumer<T>))
    ensures
        r.1.wf(),
        r.1.pending() == Seq::<T>::empty(),
        r.1.received() == Seq::<Seq<T>>::empty(),
        r.1.windows() == Seq::<Seq<T>>::empty(),
{
    let (sender, receiver) = std::sync::mpsc::sync_channel(QUEUE_CAPACITY);
    let producer = Producer { sender };
    let consumer = Consumer::new(receiver);
    (producer, consumer)
}

} // verus!
