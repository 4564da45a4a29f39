use crate::channel::{front, rest, TransferChannel};
use crate::payload::Payload;
use vstd::prelude::*;

verus! {

/// One engine tick's drain step: takes at most one payload, never waits, and
/// never fails. Payloads that queue up between ticks come out one per tick,
/// oldest first.
pub fn poll_tick(chan: &mut TransferChannel) -> (r: Option<Payload>)
    ensures
        r == front(old(chan)@),
        final(chan)@ == rest(old(chan)@),
        old(chan)@.len() == 0 ==> r is None && final(chan)@ == old(chan)@,
{
    chan.try_take()
}

} // verus!
