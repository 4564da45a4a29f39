use crate::payload::Payload;
use async_std::channel::{unbounded, Receiver, Sender, TryRecvError, TrySendError};
use vstd::prelude::*;

verus! {

/// The error of `Sender::try_send`, as handed back by the send wrapper.
#[verifier::external_type_specification]
#[verifier::external_body]
#[verifier::reject_recursive_types(T)]
pub struct ExTrySendError<T>(TrySendError<T>);

/// The error of `Receiver::try_recv`, as handed back by the take wrapper.
#[verifier::external_type_specification]
#[verifier::external_body]
pub struct ExTryRecvError(TryRecvError);

/// The transfer channel: an unbounded FIFO queue of payloads, backed by an
/// `async_std` unbounded channel.
///
/// Both ends of the underlying channel live in this one value. They share a
/// single queue, so what a send does can only be stated over a value that owns
/// both. Holding both ends also keeps the channel open for as long as this
/// value lives: it is closed only when every sender or every receiver is
/// dropped, or by `close`, which is never called here.
#[verifier::external_body]
pub struct TransferChannel {
    tx: Sender<Payload>,
    rx: Receiver<Payload>,
}

/// The payloads accepted by the channel and not yet taken, oldest first.
pub uninterp spec fn pending(c: TransferChannel) -> Seq<Payload>;

impl View for TransferChannel {
    type V = Seq<Payload>;

    open spec fn view(&self) -> Seq<Payload> {
        pending(*self)
    }
}

/// What a poll of a channel holding `q` returns: its oldest payload, if any.
pub open spec fn front(q: Seq<Payload>) -> Option<Payload> {
    if q.len() == 0 {
        None
    } else {
        Some(q[0])
    }
}

/// What a channel holding `q` holds after one poll.
pub open spec fn rest(q: Seq<Payload>) -> Seq<Payload> {
    if q.len() == 0 {
        q
    } else {
        q.drop_first()
    }
}

/// What a channel holding `q` holds after the payloads of `s` are sent to it,
/// one at a time and in order.
pub open spec fn sent_all(q: Seq<Payload>, s: Seq<Payload>) -> Seq<Payload>
    decreases s.len(),
{
    if s.len() == 0 {
        q
    } else {
        sent_all(q.push(s[0]), s.drop_first())
    }
}

/// The results of `n` consecutive polls of a channel holding `q`.
pub open spec fn polls(q: Seq<Payload>, n: nat) -> Seq<Option<Payload>>
    decreases n,
{
    if n == 0 {
        Seq::empty()
    } else {
        seq![front(q)] + polls(rest(q), (n - 1) as nat)
    }
}

/// What a channel holding `q` holds after `n` consecutive polls.
pub open spec fn after_polls(q: Seq<Payload>, n: nat) -> Seq<Payload>
    decreases n,
{
    if n == 0 {
        q
    } else {
        after_polls(rest(q), (n - 1) as nat)
    }
}

/// The payloads that `n` consecutive polls of a channel holding `q` observe.
pub open spec fn delivered(q: Seq<Payload>, n: nat) -> Seq<Payload>
    decreases n,
{
    if n == 0 {
        Seq::empty()
    } else {
        match front(q) {
            Some(p) => seq![p] + delivered(rest(q), (n - 1) as nat),
            None => delivered(rest(q), (n - 1) as nat),
        }
    }
}


proof fn lemma_sent_all_appends(q: Seq<Payload>, s: Seq<Payload>)
    ensures
        sent_all(q, s) == q + s,
    decreases s.len(),
{
    if s.len() > 0 {
        lemma_sent_all_appends(q.push(s[0]), s.drop_first());
        assert(q.push(s[0]) + s.drop_first() =~= q + s);
    } else {
        assert(q + s =~= q);
    }
}

/// Polling a channel `k` times, where `k` does not exceed what it holds,
/// returns its `k` oldest payloads in order, one per poll, and leaves the rest.
pub proof fn lemma_drain_one_per_poll(q: Seq<Payload>, k: nat)
    requires
        k <= q.len(),
    ensures
        polls(q, k) == q.take(k as int).map_values(|p: Payload| Some(p)),
        after_polls(q, k) == q.skip(k as int),
    decreases k,
{
    if k > 0 {
        lemma_drain_one_per_poll(q.drop_first(), (k - 1) as nat);
        assert(seq![Some(q[0])] + q.drop_first().take(k - 1).map_values(|p: Payload| Some(p))
            =~= q.take(k as int).map_values(|p: Payload| Some(p)));
        assert(q.drop_first().skip(k - 1) =~= q.skip(k as int));
    } else {
        assert(q.take(0).map_values(|p: Payload| Some(p)) =~= Seq::<Option<Payload>>::empty());
        assert(q.skip(0) =~= q);
    }
}

pub(crate) proof fn lemma_delivered_all(q: Seq<Payload>, n: nat)
    requires
        n >= q.len(),
    ensures
        delivered(q, n) == q,
        after_polls(q, n) == Seq::<Payload>::empty(),
    decreases n,
{
    if n > 0 {
        lemma_delivered_all(rest(q), (n - 1) as nat);
        if q.len() > 0 {
            assert(seq![q[0]] + q.drop_first() =~= q);
        }
    } else {
        assert(q =~= Seq::<Payload>::empty());
    }
}

/// First in, first out: after the payloads of `s` are sent, one at a time,
/// to a new channel, as many polls return them in the order they were sent,
/// and leave the channel empty.
pub proof fn lemma_fifo(s: Seq<Payload>)
    ensures
        polls(sent_all(Seq::empty(), s), s.len()) == s.map_values(|p: Payload| Some(p)),
        after_polls(sent_all(Seq::empty(), s), s.len()) == Seq::<Payload>::empty(),
{
    lemma_sent_all_appends(Seq::empty(), s);
    let q = sent_all(Seq::empty(), s);
    assert(q =~= s);
    lemma_drain_one_per_poll(q, s.len());
    assert(s.take(s.len() as int) =~= s);
    assert(s.skip(s.len() as int) =~= Seq::<Payload>::empty());
}

/// Nothing lost, nothing duplicated: after the payloads of `s` are sent to a
/// new channel, any number of polls not smaller than `s.len()` observes each of
/// them exactly once, as many values as were sent.
pub proof fn lemma_no_loss_no_duplication(s: Seq<Payload>, n: nat)
    requires
        n >= s.len(),
    ensures
        delivered(sent_all(Seq::empty(), s), n) == s,
        delivered(sent_all(Seq::empty(), s), n).len() == s.len(),
        delivered(sent_all(Seq::empty(), s), n).to_multiset() == s.to_multiset(),
{
    lemma_sent_all_appends(Seq::empty(), s);
    assert(sent_all(Seq::empty(), s) =~= s);
    lemma_delivered_all(s, n);
}

impl TransferChannel {
    /// Relies on `async_std::channel::unbounded`: a new channel holds nothing.
    #[verifier::external_body]
    fn open() -> (r: TransferChannel)
        ensures
            pending(r) == Seq::<Payload>::empty(),
    {
        let (tx, rx) = unbounded();
        TransferChannel { tx, rx }
    }

    /// A new, empty channel.
    pub fn new() -> (r: TransferChannel)
        ensures
            r@ == Seq::<Payload>::empty(),
    {
        TransferChannel::open()
    }

    /// Relies on `Sender::try_send`: it pushes onto the channel's queue, which
    /// for an unbounded channel is never full, and fails otherwise only on a
    /// closed channel, which this one is not (see the type).
    #[verifier::external_body]
    fn push_back(&mut self, v: Payload) -> (r: Result<(), TrySendError<Payload>>)
        ensures
            r is Ok,
            pending(*final(self)) == pending(*old(self)).push(v),
    {
        self.tx.try_send(v)
    }

    /// Relies on `Receiver::try_recv`: it pops the oldest message of the
    /// queue, and returns an error, taking nothing, when the queue is empty.
    #[verifier::external_body]
    fn pop_front(&mut self) -> (r: Result<Payload, TryRecvError>)
        ensures
            pending(*old(self)).len() == 0 ==> r is Err && pending(*final(self)) == pending(
                *old(self),
            ),
            pending(*old(self)).len() > 0 ==> r == Ok::<Payload, TryRecvError>(
                pending(*old(self))[0],
            ) && pending(*final(self)) == pending(*old(self)).drop_first(),
    {
        self.rx.try_recv()
    }

    /// Appends `v` at the back of the channel. The channel is unbounded and
    /// stays open while it exists, so a send always succeeds.
    pub fn send(&mut self, v: Payload)
        ensures
            final(self)@ == old(self)@.push(v),
    {
        let _sent = self.push_back(v);
    }

    /// Takes the oldest payload, without waiting: `None` at once when the
    /// channel is empty, which then stays as it was.
    pub fn try_take(&mut self) -> (r: Option<Payload>)
        ensures
            r == front(old(self)@),
            final(self)@ == rest(old(self)@),
            old(self)@.len() == 0 ==> r is None && final(self)@ == old(self)@,
    {
        match self.pop_front() {
            Ok(p) => Some(p),
            Err(_) => None,
        }
    }
}

} // verus!
