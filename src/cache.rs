//! The image download pipeline: a bounded FIFO of requested addresses, the
//! decisions of the single worker that drains it, and the events it reports.
//!
//! The worker's outside work (the network fetch, waiting for the next
//! request) is done by the caller: it asks `next_step` what to do, performs
//! it, and hands the outcome to `finish_fetch`.
use crate::data::{item_urls, CatalogSet};
use bytes::Bytes;
use std::collections::VecDeque;
use vstd::prelude::*;

verus! {

#[verifier::external_type_specification]
#[verifier::external_body]
pub struct ExBytes(Bytes);

/// Number of requests the download queue holds before it drops new ones.
pub const QUEUE_CAPACITY: usize = 16 * 1024;

/// A notification from the worker, or from the feed, to the control loop.
pub enum Call {
    /// The image at `url` was downloaded.
    ToTexture { bytes: Bytes, url: String },
    /// The worker drained its queue after the last producer left; it stops.
    TextureCachingBatchComplete,
    /// A new set was discovered: append a row for it.
    AddSet(CatalogSet),
}

/// What the worker does next.
pub enum WorkerStep {
    /// Download this address, then report the outcome to `finish_fetch`.
    Fetch(String),
    /// Nothing queued yet: wait for a producer.
    Wait,
    /// Everything was served and no producer is left: send this last event
    /// and stop.
    Finish(Call),
}

/// `idx` maps each element of `sub` to a position of `s` holding it, in
/// strictly increasing order.
pub open spec fn index_witness(idx: Seq<int>, sub: Seq<Seq<char>>, s: Seq<Seq<char>>) -> bool {
    &&& idx.len() == sub.len()
    &&& forall|k: int| 0 <= k < idx.len() ==> 0 <= #[trigger] idx[k] < s.len() && sub[k] == s[idx[k]]
    &&& forall|k: int, l: int| 0 <= k < l < idx.len() ==> #[trigger] idx[k] < #[trigger] idx[l]
}

/// `sub` is `s` with some elements left out, the rest in their order.
pub open spec fn ordered_within(sub: Seq<Seq<char>>, s: Seq<Seq<char>>) -> bool {
    exists|idx: Seq<int>| index_witness(idx, sub, s)
}

/// What a download queue holds, and its history.
pub struct QueueView {
    /// Requests waiting to be served, oldest first.
    pub pending: Seq<Seq<char>>,
    pub capacity: nat,
    /// No producer is left.
    pub closed: bool,
    /// The request being downloaded, if any.
    pub in_flight: Option<Seq<char>>,
    /// The worker has sent its last event.
    pub drained: bool,
    /// Every request ever accepted, in order.
    pub accepted: Seq<Seq<char>>,
    /// How many accepted requests were handed to the worker.
    pub served: nat,
    /// The address of every download the worker reported, in order.
    pub emitted: Seq<Seq<char>>,
}

/// A bounded FIFO of image addresses with a single consumer. Enqueueing
/// never blocks: a request that does not fit is dropped.
pub struct DownloadQueue {
    pending: VecDeque<String>,
    capacity: usize,
    closed: bool,
    in_flight: Option<String>,
    drained: bool,
    accepted: Ghost<Seq<Seq<char>>>,
    served: Ghost<nat>,
    emitted: Ghost<Seq<Seq<char>>>,
    emitted_at: Ghost<Seq<int>>,
}

impl View for DownloadQueue {
    type V = QueueView;

    closed spec fn view(&self) -> QueueView {
        QueueView {
            pending: self.pending@.map_values(|s: String| s@),
            capacity: self.capacity as nat,
            closed: self.closed,
            in_flight: match self.in_flight {
                Some(s) => Some(s@),
                None => None,
            },
            drained: self.drained,
            accepted: self.accepted@,
            served: self.served@,
            emitted: self.emitted@,
        }
    }
}

impl DownloadQueue {
    pub closed spec fn wf(&self) -> bool {
        let served = self.served@ as int;
        let handed = if self.in_flight is Some {
            served - 1
        } else {
            served
        };
        &&& self.pending@.len() <= self.capacity
        &&& served <= self.accepted@.len()
        &&& self.accepted@.subrange(served, self.accepted@.len() as int) == self.pending@.map_values(
            |s: String| s@,
        )
        &&& (self.in_flight matches Some(u) ==> served >= 1 && u@ == self.accepted@[served - 1])
        &&& index_witness(self.emitted_at@, self.emitted@, self.accepted@)
        &&& forall|k: int| 0 <= k < self.emitted_at@.len() ==> #[trigger] self.emitted_at@[k] < handed
        &&& (self.drained ==> self.closed && self.pending@.len() == 0 && self.in_flight is None)
    }

    /// An open, empty queue holding at most `capacity` requests.
    pub fn new(capacity: usize) -> (r: DownloadQueue)
        ensures
            r.wf(),
            r@ == (QueueView {
                pending: seq![],
                capacity: capacity as nat,
                closed: false,
                in_flight: None,
                drained: false,
                accepted: seq![],
                served: 0,
                emitted: seq![],
            }),
    {
        let r = DownloadQueue {
            pending: VecDeque::new(),
            capacity,
            closed: false,
            in_flight: None,
            drained: false,
            accepted: Ghost(Seq::empty()),
            served: Ghost(0),
            emitted: Ghost(Seq::empty()),
            emitted_at: Ghost(Seq::empty()),
        };
        proof {
            assert(r@.pending =~= seq![]);
            assert(r.accepted@.subrange(0, 0) =~= r.pending@.map_values(|s: String| s@));
        }
        r
    }

    /// Whether a request enqueued now would be accepted.
    pub open spec fn has_room(self) -> bool {
        !self@.closed && self@.pending.len() < self@.capacity
    }

    /// Offers `url` to the worker. It is accepted, and `true` returned, when
    /// the queue is open and not full; otherwise it is dropped.
    pub fn enqueue(&mut self, url: String) -> (accepted: bool)
        requires
            old(self).wf(),
        ensures
            final(self).wf(),
            accepted == old(self).has_room(),
            accepted ==> final(self)@ == (QueueView {
                pending: old(self)@.pending.push(url@),
                accepted: old(self)@.accepted.push(url@),
                ..old(self)@
            }),
            !accepted ==> final(self)@ == old(self)@,
    {
        if self.closed || self.pending.len() >= self.capacity {
            return false;
        }
        let ghost old_pending = self.pending@;
        let ghost u = url@;
        self.pending.push_back(url);
        self.accepted = Ghost(self.accepted@.push(u));
        proof {
            let served = self.served@ as int;
            assert(self.accepted@.subrange(served, self.accepted@.len() as int) =~= old(
                self,
            ).accepted@.subrange(served, old(self).accepted@.len() as int).push(u));
            assert(self.pending@.map_values(|s: String| s@) =~= old_pending.map_values(
                |s: String| s@,
            ).push(u));
            assert forall|k: int| 0 <= k < self.emitted_at@.len() implies 0
                <= #[trigger] self.emitted_at@[k] < self.accepted@.len() && self.emitted@[k]
                == self.accepted@[self.emitted_at@[k]] by {
                assert(self.emitted_at@[k] < old(self).accepted@.len());
            }
            assert(self@.pending =~= old(self)@.pending.push(u));
        }
        true
    }

    /// No producer is left: once the pending requests are served the worker
    /// finishes.
    pub fn close(&mut self)
        requires
            old(self).wf(),
        ensures
            final(self).wf(),
            final(self)@ == (QueueView { closed: true, ..old(self)@ }),
    {
        self.closed = true;
    }

    /// Number of requests waiting to be served.
    pub fn len(&self) -> (r: usize)
        requires
            self.wf(),
        ensures
            r == self@.pending.len(),
    {
        self.pending.len()
    }

    /// Whether a download handed out by `next_step` still waits for its
    /// outcome.
    pub fn has_fetch_in_flight(&self) -> (r: bool)
        ensures
            r == self@.in_flight is Some,
    {
        self.in_flight.is_some()
    }

    /// Whether the worker has sent its last event.
    pub fn is_drained(&self) -> (r: bool)
        ensures
            r == self@.drained,
    {
        self.drained
    }

    /// Decides the worker's next move: serve the oldest request, wait for
    /// one, or, when every request was served and no producer is left, send
    /// the last event and stop.
    pub fn next_step(&mut self) -> (r: WorkerStep)
        requires
            old(self).wf(),
            old(self)@.in_flight is None,
            !old(self)@.drained,
        ensures
            final(self).wf(),
            old(self)@.pending.len() > 0 ==> {
                &&& r matches WorkerStep::Fetch(url) && url@ == old(self)@.pending[0]
                &&& final(self)@ == (QueueView {
                    pending: old(self)@.pending.drop_first(),
                    in_flight: Some(old(self)@.pending[0]),
                    served: old(self)@.served + 1,
                    ..old(self)@
                })
            },
            old(self)@.pending.len() == 0 && old(self)@.closed ==> {
                &&& r matches WorkerStep::Finish(Call::TextureCachingBatchComplete)
                &&& final(self)@ == (QueueView { drained: true, ..old(self)@ })
            },
            old(self)@.pending.len() == 0 && !old(self)@.closed ==> {
                &&& r is Wait
                &&& final(self)@ == old(self)@
            },
    {
        let ghost old_pending = self.pending@;
        match self.pending.pop_front() {
            Some(url) => {
                let out = url.clone();
                self.in_flight = Some(url);
                self.served = Ghost(self.served@ + 1);
                proof {
                    let s = old(self).served@ as int;
                    let n = self.accepted@.len() as int;
                    assert(self.accepted@.subrange(s + 1, n) =~= self.accepted@.subrange(
                        s,
                        n,
                    ).drop_first());
                    assert(self.pending@.map_values(|s: String| s@) =~= old_pending.map_values(
                        |s: String| s@,
                    ).drop_first());
                    assert(self.accepted@.subrange(s, n)[0] == self.accepted@[s]);
                    assert(self@.pending =~= old(self)@.pending.drop_first());
                }
                WorkerStep::Fetch(out)
            },
            None => {
                if self.closed {
                    self.drained = true;
                    WorkerStep::Finish(Call::TextureCachingBatchComplete)
                } else {
                    WorkerStep::Wait
                }
            },
        }
    }

    /// Takes the outcome of the download that `next_step` asked for: the
    /// downloaded bytes, or `None` when it failed. A success is reported as
    /// an event; a failure is dropped.
    pub fn finish_fetch(&mut self, fetched: Option<Bytes>) -> (r: Option<Call>)
        requires
            old(self).wf(),
            old(self)@.in_flight is Some,
        ensures
            final(self).wf(),
            fetched is Some ==> {
                &&& r matches Some(Call::ToTexture { bytes, url }) && bytes == fetched->0 && url@
                    == old(self)@.in_flight->0
                &&& final(self)@ == (QueueView {
                    in_flight: None,
                    emitted: old(self)@.emitted.push(old(self)@.in_flight->0),
                    ..old(self)@
                })
            },
            fetched is None ==> {
                &&& r is None
                &&& final(self)@ == (QueueView { in_flight: None, ..old(self)@ })
            },
    {
        let url = match self.in_flight.take() {
            Some(u) => u,
            None => {
                return None;
            },
        };
        match fetched {
            Some(bytes) => {
                let ghost at = self.served@ - 1;
                self.emitted = Ghost(self.emitted@.push(url@));
                self.emitted_at = Ghost(self.emitted_at@.push(at));
                proof {
                    let e = self.emitted_at@;
                    assert forall|k: int| 0 <= k < e.len() implies 0 <= #[trigger] e[k]
                        < self.accepted@.len() && self.emitted@[k] == self.accepted@[e[k]] by {
                        if k < e.len() - 1 {
                            assert(e[k] == old(self).emitted_at@[k]);
                        }
                    }
                    assert forall|k: int, l: int| 0 <= k < l < e.len() implies #[trigger] e[k]
                        < #[trigger] e[l] by {
                        assert(e[k] == old(self).emitted_at@[k]);
                        if l < e.len() - 1 {
                            assert(e[l] == old(self).emitted_at@[l]);
                        }
                    }
                    assert forall|k: int| 0 <= k < e.len() implies #[trigger] e[k]
                        < self.served@ by {
                        if k < e.len() - 1 {
                            assert(e[k] == old(self).emitted_at@[k]);
                        }
                    }
                }
                Some(Call::ToTexture { bytes, url })
            },
            None => None,
        }
    }
}

/// Every address the worker ever reported was requested and accepted, and
/// the reports come in the order the requests were accepted: they are the
/// accepted requests handed out so far, with the failed downloads left out.
pub proof fn lemma_ready_in_request_order(q: DownloadQueue)
    requires
        q.wf(),
    ensures
        ordered_within(q@.emitted, q@.accepted.subrange(0, q@.served as int)),
{
    let idx = q.emitted_at@;
    let s = q@.accepted.subrange(0, q@.served as int);
    assert(index_witness(idx, q@.emitted, s));
}

/// Offers the address of every item of `set`, in order, to `queue`. The
/// items that find the queue full or closed are dropped.
pub fn cache_set(set: &CatalogSet, queue: &mut DownloadQueue)
    requires
        old(queue).wf(),
    ensures
        final(queue).wf(),
        ({
            let room = if old(queue)@.closed {
                0
            } else {
                old(queue)@.capacity - old(queue)@.pending.len()
            };
            let taken = if set.items@.len() <= room {
                set.items@.len() as int
            } else {
                room
            };
            let urls = item_urls(set.items@).subrange(0, taken);
            final(queue)@ == (QueueView {
                pending: old(queue)@.pending + urls,
                accepted: old(queue)@.accepted + urls,
                ..old(queue)@
            })
        }),
{
    let ghost room = if old(queue)@.closed {
        0
    } else {
        old(queue)@.capacity - old(queue)@.pending.len()
    };
    let mut i: usize = 0;
    while i < set.items.len()
        invariant
            queue.wf(),
            i <= set.items@.len(),
            room == if old(queue)@.closed {
                0
            } else {
                old(queue)@.capacity - old(queue)@.pending.len()
            },
            0 <= room,
            ({
                let taken = if i <= room {
                    i as int
                } else {
                    room
                };
                let urls = item_urls(set.items@).subrange(0, taken);
                queue@ == (QueueView {
                    pending: old(queue)@.pending + urls,
                    accepted: old(queue)@.accepted + urls,
                    ..old(queue)@
                })
            }),
        decreases set.items@.len() - i,
    {
        let url = set.items[i].image_url.clone();
        let ghost before = queue@;
        proof {
            let all = item_urls(set.items@);
            if i < room {
                assert(queue.has_room());
            } else {
                assert(!queue.has_room());
            }
        }
        queue.enqueue(url);
        proof {
            let all = item_urls(set.items@);
            if i < room {
                assert(all.subrange(0, i + 1) =~= all.subrange(0, i as int).push(
                    set.items@[i as int].image_url@,
                ));
                assert(queue@.pending =~= old(queue)@.pending + all.subrange(0, i + 1));
                assert(queue@.accepted =~= old(queue)@.accepted + all.subrange(0, i + 1));
            }
        }
        i = i + 1;
    }
}

} // verus!
