use vstd::prelude::*;

verus! {

/// Why handling one message failed. Any of them sends the message back to
/// its queue.
#[derive(Clone, Debug, PartialEq, Eq)]
pub enum ConsumerError {
    /// The message body is not UTF-8 text.
    DecodeError,
    /// The text is not a notification record.
    ParseError,
    /// The template repository has no template with this id.
    TemplateNotFound(String),
    /// The template repository failed otherwise.
    RepositoryError(String),
    /// The template could not be rendered with the record's metadata.
    RenderError(String),
    /// The delivery provider refused the message or could not be reached.
    DeliveryError(String),
    /// The handler stopped without an outcome.
    HandlerPanicked,
}

/// What the consumer tells the broker about a delivered message.
#[derive(Clone, Copy, Debug, PartialEq, Eq, Structural)]
pub enum Settlement {
    /// The message was handled: the broker drops it.
    Ack { delivery_tag: u64 },
    /// The message was not handled: the broker requeues it when `requeue`
    /// holds, and drops it otherwise.
    Nack { delivery_tag: u64, requeue: bool },
}

/// Acknowledges a message whose handler succeeded; rejects one whose handler
/// failed, with requeue, so that the broker delivers it again.
pub fn settle(delivery_tag: u64, outcome: &Result<(), ConsumerError>) -> (r: Settlement)
    ensures
        outcome is Ok ==> r == (Settlement::Ack { delivery_tag }),
        outcome is Err ==> r == (Settlement::Nack { delivery_tag, requeue: true }),
{
    match outcome {
        Ok(()) => Settlement::Ack { delivery_tag },
        Err(_) => Settlement::Nack { delivery_tag, requeue: true },
    }
}

/// A message handed to a consumer and not yet settled.
pub struct Delivery {
    pub delivery_tag: u64,
    pub body: Vec<u8>,
}

/// The state of one queue: messages ready for delivery, in order, and
/// messages delivered and awaiting their settlement.
pub struct QueueView {
    pub ready: Seq<Seq<u8>>,
    pub unacked: Seq<(u64, Seq<u8>)>,
    pub next_tag: u64,
}

impl QueueView {
    /// Every delivery tag in flight was handed out before and is unique.
    pub open spec fn wf(&self) -> bool {
        &&& forall|i: int| 0 <= i < self.unacked.len() ==> #[trigger] self.unacked[i].0 < self.next_tag
        &&& forall|i: int, j: int|
            0 <= i < j < self.unacked.len() ==> self.unacked[i].0 != self.unacked[j].0
    }
}

/// Whether a message with `tag` is in flight.
pub open spec fn in_flight(q: QueueView, tag: u64) -> bool {
    exists|i: int| 0 <= i < q.unacked.len() && q.unacked[i].0 == tag
}

pub open spec fn flight_index(q: QueueView, tag: u64) -> int {
    choose|i: int| 0 <= i < q.unacked.len() && q.unacked[i].0 == tag
}

pub open spec fn settlement_tag(s: Settlement) -> u64 {
    match s {
        Settlement::Ack { delivery_tag } => delivery_tag,
        Settlement::Nack { delivery_tag, .. } => delivery_tag,
    }
}

/// The queue after a settlement: an unknown tag changes nothing; otherwise the
/// message leaves the in-flight set, and a requeued one goes back to the
/// head of the ready messages.
pub open spec fn apply_spec(q: QueueView, s: Settlement) -> QueueView {
    let tag = settlement_tag(s);
    if !in_flight(q, tag) {
        q
    } else {
        let i = flight_index(q, tag);
        let rest = q.unacked.remove(i);
        match s {
            Settlement::Nack { requeue: true, .. } => QueueView {
                ready: seq![q.unacked[i].1] + q.ready,
                unacked: rest,
                next_tag: q.next_tag,
            },
            _ => QueueView { ready: q.ready, unacked: rest, next_tag: q.next_tag },
        }
    }
}

/// An in-memory queue that hands out and settles messages as a broker with
/// manual acknowledgement does.
pub struct MemoryQueue {
    pub ready: Vec<Vec<u8>>,
    pub unacked: Vec<Delivery>,
    pub next_tag: u64,
}

impl View for MemoryQueue {
    type V = QueueView;

    open spec fn view(&self) -> QueueView {
        QueueView {
            ready: self.ready@.map_values(|b: Vec<u8>| b@),
            unacked: self.unacked@.map_values(|d: Delivery| (d.delivery_tag, d.body@)),
            next_tag: self.next_tag,
        }
    }
}

impl MemoryQueue {
    /// An empty queue.
    pub fn new() -> (r: MemoryQueue)
        ensures
            r@.wf(),
            r@.ready.len() == 0,
            r@.unacked.len() == 0,
            r@.next_tag == 1,
    {
        MemoryQueue { ready: Vec::new(), unacked: Vec::new(), next_tag: 1 }
    }

    /// Adds a message behind those that are ready.
    pub fn push(&mut self, body: Vec<u8>)
        requires
            old(self)@.wf(),
        ensures
            final(self)@.wf(),
            final(self)@ == (QueueView { ready: old(self)@.ready.push(body@), ..old(self)@ }),
    {
        let ghost b = body@;
        self.ready.push(body);
        proof {
            assert(self@.ready =~= old(self)@.ready.push(b));
            assert(self@.unacked =~= old(self)@.unacked);
        }
    }

    /// Hands out the first ready message under a fresh delivery tag, and holds
    /// it in flight until it is settled; `None` when no message is ready.
    pub fn deliver(&mut self) -> (r: Option<Delivery>)
        requires
            old(self)@.wf(),
            old(self).next_tag < u64::MAX,
        ensures
            final(self)@.wf(),
            old(self)@.ready.len() == 0 ==> r is None && final(self)@ == old(self)@,
            old(self)@.ready.len() > 0 ==> {
                &&& r matches Some(d)
                &&& d.delivery_tag == old(self)@.next_tag
                &&& d.body@ == old(self)@.ready[0]
                &&& final(self)@ == (QueueView {
                    ready: old(self)@.ready.drop_first(),
                    unacked: old(self)@.unacked.push((d.delivery_tag, d.body@)),
                    next_tag: (old(self)@.next_tag + 1) as u64,
                })
            },
    {
        if self.ready.len() == 0 {
            return None;
        }
        let body = self.ready.remove(0);
        let tag = self.next_tag;
        self.next_tag = tag + 1;
        let copy = body.clone();
        self.unacked.push(Delivery { delivery_tag: tag, body: copy });
        proof {
            assert(self@.ready =~= old(self)@.ready.drop_first());
            assert(self@.unacked =~= old(self)@.unacked.push((tag, body@)));
        }
        Some(Delivery { delivery_tag: tag, body })
    }

    /// Applies a consumer's settlement to the message in flight under its tag.
    /// Returns whether such a message was in flight.
    pub fn apply(&mut self, s: Settlement) -> (r: bool)
        requires
            old(self)@.wf(),
        ensures
            final(self)@.wf(),
            r == in_flight(old(self)@, settlement_tag(s)),
            final(self)@ == apply_spec(old(self)@, s),
    {
        let tag = match s {
            Settlement::Ack { delivery_tag } => delivery_tag,
            Settlement::Nack { delivery_tag, .. } => delivery_tag,
        };
        let ghost q = self@;
        let mut i: usize = 0;
        while i < self.unacked.len()
            invariant
                q == self@,
                q == old(self)@,
                q.wf(),
                tag == settlement_tag(s),
                i <= q.unacked.len(),
                forall|j: int| 0 <= j < i ==> q.unacked[j].0 != tag,
            decreases self.unacked.len() - i,
        {
            assert(q.unacked[i as int] == (self.unacked@[i as int].delivery_tag, self.unacked@[i as int].body@));
            if self.unacked[i].delivery_tag == tag {
                proof {
                    let k = flight_index(q, tag);
                    assert(q.unacked[k].0 == tag);
                    assert(k == i);
                }
                let d = self.unacked.remove(i);
                proof {
                    assert(self@.unacked =~= q.unacked.remove(i as int));
                }
                match s {
                    Settlement::Nack { requeue: true, .. } => {
                        self.ready.insert(0, d.body);
                        proof {
                            assert(self@.ready =~= seq![q.unacked[i as int].1] + q.ready);
                        }
                    },
                    _ => {},
                }
                proof {
                    let u = self@.unacked;
                    assert forall|a: int, b: int| 0 <= a < b < u.len() implies u[a].0 != u[b].0 by {
                        let a0 = if a < i { a } else { a + 1 };
                        let b0 = if b < i { b } else { b + 1 };
                        assert(u[a] == q.unacked[a0]);
                        assert(u[b] == q.unacked[b0]);
                    }
                    assert forall|a: int| 0 <= a < u.len() implies #[trigger] u[a].0 < self@.next_tag by {
                        let a0 = if a < i { a } else { a + 1 };
                        assert(u[a] == q.unacked[a0]);
                    }
                }
                return true;
            }
            i += 1;
        }
        false
    }
}

/// A handler that succeeds has its message dropped for good; one that fails
/// has its message put back at the head of the queue, to be delivered again.
pub proof fn lemma_settle_outcome(q: QueueView, tag: u64, body: Seq<u8>, outcome: Result<(), ConsumerError>)
    requires
        q.wf(),
        q.unacked.contains((tag, body)),
    ensures
        ({
            let s = if outcome is Ok {
                Settlement::Ack { delivery_tag: tag }
            } else {
                Settlement::Nack { delivery_tag: tag, requeue: true }
            };
            let after = apply_spec(q, s);
            &&& !in_flight(after, tag)
            &&& outcome is Ok ==> after.ready == q.ready
            &&& outcome is Err ==> after.ready == seq![body] + q.ready
        }),
{
    let j = choose|j: int| 0 <= j < q.unacked.len() && q.unacked[j] == (tag, body);
    assert(in_flight(q, tag));
    let i = flight_index(q, tag);
    assert(i == j);
    let rest = q.unacked.remove(i);
    assert forall|k: int| 0 <= k < rest.len() implies rest[k].0 != tag by {
        let k0 = if k < i { k } else { k + 1 };
        assert(rest[k] == q.unacked[k0]);
    }
}

} // verus!
