use crate::channel::{delivered, TransferChannel};
use crate::payload::Payload;
use vstd::prelude::*;

verus! {

/// What an upload event yielded by the time its file was read and decoded.
#[derive(Clone, Copy, Debug, PartialEq, Eq)]
pub enum Upload {
    /// No file was selected.
    NoSelection,
    /// The file was read, and its text decoded into this payload.
    Decoded(Payload),
    /// The file was read, but its text is not a payload.
    Malformed,
    /// Reading the file failed.
    ReadFailed,
}

/// How an upload that did not fail was handled.
#[derive(Clone, Copy, Debug, PartialEq, Eq)]
pub enum Ingested {
    /// The payload was sent into the channel.
    Sent,
    /// There was nothing to send.
    NothingSelected,
}

/// Why an upload sent nothing.
#[derive(Clone, Copy, Debug, PartialEq, Eq)]
pub enum IngestError {
    /// The file's text did not decode into a payload.
    DecodeFailure,
    /// The file could not be read.
    ReadFailure,
}

/// Which of `selected` files an upload reads: the first, if there is one.
pub open spec fn first_file(selected: u32) -> Option<u32> {
    if selected == 0 {
        None
    } else {
        Some(0u32)
    }
}

/// What a channel holding `q` holds after handling `u`.
pub open spec fn ingested(q: Seq<Payload>, u: Upload) -> Seq<Payload> {
    match u {
        Upload::Decoded(p) => q.push(p),
        _ => q,
    }
}

/// What handling `u` reports.
pub open spec fn ingest_result(u: Upload) -> Result<Ingested, IngestError> {
    match u {
        Upload::NoSelection => Ok(Ingested::NothingSelected),
        Upload::Decoded(_) => Ok(Ingested::Sent),
        Upload::Malformed => Err(IngestError::DecodeFailure),
        Upload::ReadFailed => Err(IngestError::ReadFailure),
    }
}

/// The index of the file that an upload event with `selected` files reads:
/// none when nothing is selected, else the first.
pub fn file_to_read(selected: u32) -> (r: Option<u32>)
    ensures
        r == first_file(selected),
{
    if selected == 0 {
        None
    } else {
        Some(0)
    }
}

/// Finishes an upload: a decoded payload is sent, exactly once; anything else
/// leaves the channel as it was.
pub fn ingest(chan: &mut TransferChannel, upload: Upload) -> (r: Result<Ingested, IngestError>)
    ensures
        final(chan)@ == ingested(old(chan)@, upload),
        r == ingest_result(upload),
{
    match upload {
        Upload::NoSelection => Ok(Ingested::NothingSelected),
        Upload::Decoded(p) => {
            chan.send(p);
            Ok(Ingested::Sent)
        },
        Upload::Malformed => Err(IngestError::DecodeFailure),
        Upload::ReadFailed => Err(IngestError::ReadFailure),
    }
}


/// A malformed upload sends nothing and is reported, not raised; a valid
/// upload after it is still sent.
pub proof fn lemma_decode_failure_isolation(q: Seq<Payload>, p: Payload)
    ensures
        ingested(q, Upload::Malformed) == q,
        ingest_result(Upload::Malformed) == Err::<Ingested, IngestError>(
            IngestError::DecodeFailure,
        ),
        ingested(ingested(q, Upload::Malformed), Upload::Decoded(p)) == q.push(p),
        ingest_result(Upload::Decoded(p)) == Ok::<Ingested, IngestError>(Ingested::Sent),
{
}

/// An event with no file selected reads nothing, sends nothing and reports
/// no error.
pub proof fn lemma_empty_selection_noop(q: Seq<Payload>)
    ensures
        first_file(0) is None,
        ingested(q, Upload::NoSelection) == q,
        ingest_result(Upload::NoSelection) == Ok::<Ingested, IngestError>(
            Ingested::NothingSelected,
        ),
{
}

/// Two overlapping uploads whose reads complete `a` first, then `b`, each put
/// their payload into the channel once, in that order: polling it until it is
/// empty observes what it held, then `a`, then `b`.
pub proof fn lemma_overlapping_uploads(q: Seq<Payload>, a: Payload, b: Payload)
    ensures
        ingested(ingested(q, Upload::Decoded(a)), Upload::Decoded(b)) == q.push(a).push(b),
        delivered(
            ingested(ingested(q, Upload::Decoded(a)), Upload::Decoded(b)),
            q.len() + 2,
        ) == q + seq![a, b],
{
    crate::channel::lemma_delivered_all(q.push(a).push(b), q.len() + 2);
    assert(q.push(a).push(b) =~= q + seq![a, b]);
}

} // verus!
