use file_bridge::{file_to_read, ingest, poll_tick, IngestError, Ingested, Payload, TransferChannel, Upload};
use std::collections::HashMap;

fn payload_of(values: [f32; 4]) -> Payload {
    Payload::new([values[0].to_bits(), values[1].to_bits(), values[2].to_bits(), values[3].to_bits()])
}

/// Decodes upload text the way the browser side does: a JSON object whose
/// `field1` holds four numbers.
fn decode(text: &str) -> Upload {
    match serde_json::from_str::<HashMap<String, [f32; 4]>>(text) {
        Ok(fields) => match fields.get("field1") {
            Some(v) => Upload::Decoded(payload_of(*v)),
            None => Upload::Malformed,
        },
        Err(_) => Upload::Malformed,
    }
}

fn p(n: u32) -> Payload {
    Payload::new([n, n + 1, n + 2, n + 3])
}

#[test]
fn new_channel_polls_empty() {
    let mut c = TransferChannel::new();
    assert_eq!(c.try_take(), None);
    assert_eq!(poll_tick(&mut c), None);
    assert_eq!(poll_tick(&mut c), None);
}

#[test]
fn sends_come_out_in_order() {
    let mut c = TransferChannel::new();
    let sent = vec![p(10), p(20), p(30), p(40)];
    for v in &sent {
        c.send(*v);
    }
    let mut got = Vec::new();
    for _ in 0..sent.len() {
        got.push(c.try_take().unwrap());
    }
    assert_eq!(got, sent);
    assert_eq!(c.try_take(), None);
}

#[test]
fn every_send_observed_exactly_once() {
    let mut c = TransferChannel::new();
    for i in 0..25u32 {
        c.send(p(i * 7));
    }
    let mut seen = Vec::new();
    for _ in 0..40 {
        if let Some(v) = poll_tick(&mut c) {
            seen.push(v);
        }
    }
    assert_eq!(seen.len(), 25);
    let expected: Vec<Payload> = (0..25u32).map(|i| p(i * 7)).collect();
    assert_eq!(seen, expected);
}

#[test]
fn poll_on_drained_channel_is_empty_each_time() {
    let mut c = TransferChannel::new();
    c.send(p(1));
    assert_eq!(poll_tick(&mut c), Some(p(1)));
    for _ in 0..5 {
        assert_eq!(poll_tick(&mut c), None);
    }
    c.send(p(2));
    assert_eq!(poll_tick(&mut c), Some(p(2)));
    assert_eq!(poll_tick(&mut c), None);
}

#[test]
fn burst_drains_one_per_tick() {
    let mut c = TransferChannel::new();
    c.send(p(1));
    c.send(p(2));
    c.send(p(3));
    assert_eq!(poll_tick(&mut c), Some(p(1)));
    c.send(p(4));
    assert_eq!(poll_tick(&mut c), Some(p(2)));
    assert_eq!(poll_tick(&mut c), Some(p(3)));
    assert_eq!(poll_tick(&mut c), Some(p(4)));
    assert_eq!(poll_tick(&mut c), None);
}

#[test]
fn malformed_upload_sends_nothing_and_later_upload_succeeds() {
    let mut c = TransferChannel::new();
    assert_eq!(ingest(&mut c, decode("not json at all")), Err(IngestError::DecodeFailure));
    assert_eq!(ingest(&mut c, decode("{\"field1\":[1,2,3]}")), Err(IngestError::DecodeFailure));
    assert_eq!(poll_tick(&mut c), None);
    assert_eq!(ingest(&mut c, decode("{\"field1\":[5,6,7,8]}")), Ok(Ingested::Sent));
    assert_eq!(poll_tick(&mut c), Some(payload_of([5.0, 6.0, 7.0, 8.0])));
    assert_eq!(poll_tick(&mut c), None);
}

#[test]
fn empty_selection_is_a_no_op() {
    let mut c = TransferChannel::new();
    assert_eq!(file_to_read(0), None);
    assert_eq!(ingest(&mut c, Upload::NoSelection), Ok(Ingested::NothingSelected));
    assert_eq!(poll_tick(&mut c), None);
}

#[test]
fn first_selected_file_is_read() {
    assert_eq!(file_to_read(1), Some(0));
    assert_eq!(file_to_read(3), Some(0));
    assert_eq!(file_to_read(u32::MAX), Some(0));
}

#[test]
fn read_failure_sends_nothing() {
    let mut c = TransferChannel::new();
    c.send(p(9));
    assert_eq!(ingest(&mut c, Upload::ReadFailed), Err(IngestError::ReadFailure));
    assert_eq!(poll_tick(&mut c), Some(p(9)));
    assert_eq!(poll_tick(&mut c), None);
}

#[test]
fn overlapping_uploads_arrive_in_completion_order() {
    let mut c = TransferChannel::new();
    // the second upload's read completes first
    assert_eq!(ingest(&mut c, Upload::Decoded(p(200))), Ok(Ingested::Sent));
    assert_eq!(ingest(&mut c, Upload::Decoded(p(100))), Ok(Ingested::Sent));
    assert_eq!(poll_tick(&mut c), Some(p(200)));
    assert_eq!(poll_tick(&mut c), Some(p(100)));
    assert_eq!(poll_tick(&mut c), None);
}

#[test]
fn valid_upload_is_polled_once() {
    let mut c = TransferChannel::new();
    let upload = decode("{\"field1\":[1,2,3,4]}");
    assert_eq!(ingest(&mut c, upload), Ok(Ingested::Sent));
    let got = poll_tick(&mut c).unwrap();
    assert_eq!(got, payload_of([1.0, 2.0, 3.0, 4.0]));
    assert_eq!(got.field1, [0x3f80_0000, 0x4000_0000, 0x4040_0000, 0x4080_0000]);
    assert_eq!(poll_tick(&mut c), None);
}

#[test]
fn wrong_element_type_leaves_channel_empty() {
    let mut c = TransferChannel::new();
    let upload = decode("{\"field1\":\"bad\"}");
    assert_eq!(ingest(&mut c, upload), Err(IngestError::DecodeFailure));
    assert_eq!(poll_tick(&mut c), None);
}

#[test]
fn default_payload_is_zero() {
    assert_eq!(Payload::default().field1, [0, 0, 0, 0]);
    assert_eq!(Payload::default(), payload_of([0.0, 0.0, 0.0, 0.0]));
}
