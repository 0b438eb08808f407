use http_pipe::channel::{Channel, ChannelPush};
use http_pipe::packet::Packet;
use http_pipe::queue::GetPoll;
use http_pipe::server::{
    classify_get, classify_put, respond_get, GetDecision, PutDecision, RequestError, Status,
};
use http_pipe::{QUEUE_CAPACITY, WORKER_NUM};

fn pkt(index: usize, data: &[u8]) -> Packet {
    Packet { index, data: data.to_vec() }
}

fn hdr(s: &str) -> Vec<u8> {
    s.as_bytes().to_vec()
}

#[test]
fn sequencer_pushes_expected_packet_and_advances() {
    let mut c = Channel::new(WORKER_NUM, QUEUE_CAPACITY);
    assert!(matches!(c.on_packet(pkt(0, b"one")), ChannelPush::Pushed));
    assert_eq!(c.sequencer.expected, 1);
    assert_eq!(c.sequencer.cursor, 1);
    assert!(!c.sequencer.done);
    assert!(matches!(c.on_packet(pkt(1, b"two")), ChannelPush::Pushed));
    assert_eq!(c.sequencer.expected, 2);
    assert_eq!(c.sequencer.cursor, 2);
}

#[test]
fn sequencer_drops_duplicate_put() {
    let mut c = Channel::new(WORKER_NUM, QUEUE_CAPACITY);
    assert!(matches!(c.on_packet(pkt(0, b"payload")), ChannelPush::Pushed));
    // A client retry re-delivers index 0: dropped, nothing moves.
    assert!(matches!(c.on_packet(pkt(0, b"payload")), ChannelPush::Duplicate));
    assert_eq!(c.sequencer.expected, 1);
    assert_eq!(c.sequencer.cursor, 1);
    // The queue still serves index 0 once, and index 1 is still awaited.
    assert!(matches!(c.queue.poll_get(0), GetPoll::Ready(_)));
    assert!(matches!(c.queue.poll_get(1), GetPoll::Pending));
}

#[test]
fn sequencer_exits_on_eof_packet() {
    let mut c = Channel::new(WORKER_NUM, QUEUE_CAPACITY);
    assert!(matches!(c.on_packet(pkt(0, b"data")), ChannelPush::Pushed));
    assert!(matches!(c.on_packet(pkt(1, b"")), ChannelPush::Pushed));
    assert!(c.sequencer.done);
}

#[test]
fn full_queue_suspends_the_sequencer() {
    let mut c = Channel::new(WORKER_NUM, 2);
    assert!(matches!(c.on_packet(pkt(0, b"a")), ChannelPush::Pushed));
    assert!(matches!(c.on_packet(pkt(1, b"b")), ChannelPush::Pushed));
    assert!(matches!(c.on_packet(pkt(2, b"c")), ChannelPush::Full));
    assert_eq!(c.sequencer.expected, 2);
    // An acknowledgement frees the head; the re-delivery now lands.
    assert!(c.ack(0));
    assert!(matches!(c.on_packet(pkt(2, b"c")), ChannelPush::Pushed));
    assert_eq!(c.sequencer.expected, 3);
}

#[test]
fn put_with_worker_num_header_resets() {
    let w = hdr("4");
    match classify_put(Some(&w), None, None, None) {
        PutDecision::Reset { worker_num } => assert_eq!(worker_num, 4),
        _ => panic!("expected a reset"),
    }
}

#[test]
fn put_with_bad_worker_num_is_rejected() {
    let w = hdr("4x");
    match classify_put(Some(&w), None, None, None) {
        PutDecision::Reject(e) => assert_eq!(e.status().code(), 400),
        _ => panic!("expected a rejection"),
    }
}

#[test]
fn put_without_required_headers_is_bad_request() {
    let w = hdr("1");
    match classify_put(None, Some(&w), None, Some(4)) {
        PutDecision::Reject(e) => assert_eq!(e.status().code(), 400),
        _ => panic!("expected a rejection"),
    }
    match classify_put(None, None, None, Some(4)) {
        PutDecision::Reject(e) => assert_eq!(e.status().code(), 400),
        _ => panic!("expected a rejection"),
    }
}

#[test]
fn put_without_channel_is_precondition_failed() {
    let w = hdr("0");
    let i = hdr("3");
    match classify_put(None, Some(&w), Some(&i), None) {
        PutDecision::Reject(RequestError::NoChannel) => {},
        _ => panic!("expected the channel to be missing"),
    }
    assert_eq!(RequestError::NoChannel.status().code(), 412);
}

#[test]
fn put_delivers_to_the_named_worker() {
    let w = hdr("2");
    let i = hdr("10");
    match classify_put(None, Some(&w), Some(&i), Some(4)) {
        PutDecision::Deliver { worker, index } => {
            assert_eq!(worker, 2);
            assert_eq!(index, 10);
        },
        _ => panic!("expected a delivery"),
    }
}

#[test]
fn put_with_worker_out_of_range_is_rejected() {
    let w = hdr("4");
    let i = hdr("0");
    match classify_put(None, Some(&w), Some(&i), Some(4)) {
        PutDecision::Reject(e) => assert_eq!(e.status().code(), 400),
        _ => panic!("expected a rejection"),
    }
}

#[test]
fn get_with_reset_header_tears_down() {
    let r = hdr("0");
    assert!(matches!(classify_get(Some(&r), None, None, false), GetDecision::Reset));
    assert!(matches!(classify_get(Some(&r), None, None, true), GetDecision::Reset));
}

#[test]
fn get_without_channel_is_precondition_failed() {
    let i = hdr("0");
    match classify_get(None, Some(&i), None, false) {
        GetDecision::Reject(RequestError::NoChannel) => {},
        _ => panic!("expected the channel to be missing"),
    }
}

#[test]
fn get_parses_index_and_optional_ack() {
    let i = hdr("12");
    let a = hdr("8");
    match classify_get(None, Some(&i), Some(&a), true) {
        GetDecision::Serve { index, ack } => {
            assert_eq!(index, 12);
            assert_eq!(ack, Some(8));
        },
        _ => panic!("expected a serve"),
    }
    match classify_get(None, Some(&i), None, true) {
        GetDecision::Serve { index, ack } => {
            assert_eq!(index, 12);
            assert_eq!(ack, None);
        },
        _ => panic!("expected a serve"),
    }
}

#[test]
fn get_with_bad_ack_or_missing_index_is_bad_request() {
    let i = hdr("12");
    let bad = hdr("");
    match classify_get(None, Some(&i), Some(&bad), true) {
        GetDecision::Reject(e) => assert_eq!(e.status().code(), 400),
        _ => panic!("expected a rejection"),
    }
    match classify_get(None, None, None, true) {
        GetDecision::Reject(e) => assert_eq!(e.status().code(), 400),
        _ => panic!("expected a rejection"),
    }
}

#[test]
fn status_codes_match_the_wire() {
    assert_eq!(Status::Okay.code(), 200);
    assert_eq!(Status::BadRequest.code(), 400);
    assert_eq!(Status::Gone.code(), 410);
    assert_eq!(Status::PreconditionFailed.code(), 412);
    assert_eq!(Status::InternalError.code(), 500);
    assert_eq!(RequestError::MissingField.status().code(), 400);
    assert_eq!(RequestError::BadInteger.status().code(), 400);
    assert_eq!(RequestError::Internal.status().code(), 500);
}

#[test]
fn resolved_get_maps_to_ok_or_gone() {
    let (s, body) = respond_get(GetPoll::Ready(pkt(3, b"bytes")));
    assert_eq!(s.code(), 200);
    assert_eq!(body, b"bytes".to_vec());
    let (s, body) = respond_get(GetPoll::Gone);
    assert_eq!(s.code(), 410);
    assert!(body.is_empty());
}
