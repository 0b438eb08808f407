use http_pipe::channel::{Channel, ChannelPush};
use http_pipe::headers::parse_decimal;
use http_pipe::queue::GetPoll;
use http_pipe::receiver::{RecvDriver, RecvWorker};
use http_pipe::sender::{SendStep, SendWorker, SenderDriver};
use http_pipe::{detect_role, Role, BUFFER_SIZE, PACKET_SIZE, QUEUE_CAPACITY, WORKER_NUM};

#[test]
fn parse_decimal_accepts_digit_strings() {
    assert_eq!(parse_decimal(b"0"), Some(0));
    assert_eq!(parse_decimal(b"7"), Some(7));
    assert_eq!(parse_decimal(b"123456"), Some(123456));
    assert_eq!(parse_decimal(b"0008"), Some(8));
}

#[test]
fn parse_decimal_rejects_everything_else() {
    assert_eq!(parse_decimal(b""), None);
    assert_eq!(parse_decimal(b"12a"), None);
    assert_eq!(parse_decimal(b"-4"), None);
    assert_eq!(parse_decimal(b" 4"), None);
    assert_eq!(parse_decimal(b"99999999999999999999999999999"), None);
}

#[test]
fn parse_decimal_accepts_the_largest_word() {
    let max = format!("{}", usize::MAX);
    assert_eq!(parse_decimal(max.as_bytes()), Some(usize::MAX));
    let over = format!("{}0", usize::MAX);
    assert_eq!(parse_decimal(over.as_bytes()), None);
}

#[test]
fn role_comes_from_the_standard_streams() {
    assert!(matches!(detect_role(false, true), Some(Role::Sender)));
    assert!(matches!(detect_role(true, true), Some(Role::Receiver)));
    assert!(matches!(detect_role(true, false), Some(Role::Receiver)));
    assert!(detect_role(false, false).is_none());
}

#[test]
fn empty_stream_sends_one_empty_marker_on_worker_zero() {
    let mut d = SenderDriver::new(WORKER_NUM);
    assert_eq!(d.target_worker(), 0);
    let (tail, marker) = d.finish();
    assert!(tail.is_none());
    assert_eq!(marker.index, 0);
    assert!(marker.data.is_empty());
}

#[test]
fn small_stream_sends_one_packet_then_the_marker() {
    let mut d = SenderDriver::new(WORKER_NUM);
    let input: Vec<u8> = (0..100u8).collect();
    assert_eq!(d.target_worker(), 0);
    assert!(d.feed(&input).is_none());
    let (tail, marker) = d.finish();
    let tail = tail.expect("the accumulated bytes go out");
    assert_eq!(tail.index, 0);
    assert_eq!(tail.data, input);
    assert_eq!(marker.index, 1);
    assert!(marker.data.is_empty());
}

#[test]
fn one_full_packet_then_the_marker() {
    let mut d = SenderDriver::new(WORKER_NUM);
    let chunk = vec![7u8; BUFFER_SIZE];
    let mut packet = None;
    let mut fed = 0;
    while fed < PACKET_SIZE {
        assert_eq!(d.target_worker(), 0);
        let out = d.feed(&chunk);
        fed += chunk.len();
        if fed < PACKET_SIZE {
            assert!(out.is_none());
        } else {
            packet = out;
        }
    }
    let p = packet.expect("a full packet is emitted at the threshold");
    assert_eq!(p.index, 0);
    assert_eq!(p.data.len(), PACKET_SIZE);
    // The marker follows on the next worker in the rotation.
    assert_eq!(d.target_worker(), 1);
    let (tail, marker) = d.finish();
    assert!(tail.is_none());
    assert_eq!(marker.index, 1);
    assert!(marker.data.is_empty());
}

#[test]
fn eight_packets_rotate_over_four_workers() {
    let mut d = SenderDriver::new(WORKER_NUM);
    let chunk = vec![3u8; BUFFER_SIZE];
    let mut emitted = Vec::new();
    for _ in 0..8 {
        let worker = d.target_worker();
        let mut out = None;
        for _ in 0..(PACKET_SIZE / BUFFER_SIZE) {
            out = d.feed(&chunk);
        }
        emitted.push((worker, out.expect("one packet per megabyte")));
    }
    for (i, (worker, p)) in emitted.iter().enumerate() {
        assert_eq!(p.index, i);
        assert_eq!(*worker, i % WORKER_NUM);
        assert_eq!(p.data.len(), PACKET_SIZE);
    }
    // The ninth packet is the marker, back on worker 8 mod 4 = 0.
    assert_eq!(d.target_worker(), 0);
    let (tail, marker) = d.finish();
    assert!(tail.is_none());
    assert_eq!(marker.index, 8);
    assert!(marker.data.is_empty());
}

#[test]
fn send_worker_retries_the_same_packet_until_accepted() {
    let mut w = SendWorker::new(2);
    w.take(http_pipe::packet::Packet { index: 9, data: b"payload".to_vec() });
    assert!(matches!(w.on_result(false), SendStep::Retry));
    let p = w.pending.as_ref().expect("the packet stays pending");
    assert_eq!(p.index, 9);
    assert_eq!(p.data, b"payload".to_vec());
    assert!(matches!(w.on_result(true), SendStep::Accepted));
    assert!(w.pending.is_none());
}

#[test]
fn recv_worker_walks_its_residue_class_and_acks_behind() {
    let mut w = RecvWorker::new(1, WORKER_NUM);
    assert_eq!(w.request(), (1, None));
    let out = w.on_response(b"abc".to_vec());
    assert_eq!(out, Some(b"abc".to_vec()));
    assert_eq!(w.request(), (5, Some(1)));
    let out = w.on_response(b"def".to_vec());
    assert_eq!(out, Some(b"def".to_vec()));
    assert_eq!(w.request(), (9, Some(5)));
}

#[test]
fn recv_worker_error_changes_nothing() {
    let mut w = RecvWorker::new(3, WORKER_NUM);
    let _ = w.on_response(b"abc".to_vec());
    let (index, ack) = w.request();
    w.on_error();
    assert_eq!(w.request(), (index, ack));
}

#[test]
fn recv_worker_exits_on_empty_body() {
    let mut w = RecvWorker::new(0, WORKER_NUM);
    assert!(!w.done);
    let out = w.on_response(Vec::new());
    assert!(out.is_none());
    assert!(w.done);
    assert_eq!(w.request(), (0, None));
}

#[test]
fn recv_driver_rotates_over_the_workers() {
    let mut d = RecvDriver::new(WORKER_NUM);
    assert_eq!(d.next_worker(), 0);
    d.on_chunk(&b"a".to_vec());
    assert_eq!(d.next_worker(), 1);
    d.on_chunk(&b"b".to_vec());
    d.on_chunk(&b"c".to_vec());
    d.on_chunk(&b"d".to_vec());
    assert_eq!(d.next_worker(), 0);
    d.on_closed();
    assert!(d.finished);
}

#[test]
fn eight_megabytes_ride_the_relay_in_rotation() {
    let input: Vec<u8> = (0..8 * PACKET_SIZE).map(|i| (i % 251) as u8).collect();

    let mut sd = SenderDriver::new(WORKER_NUM);
    let mut puts = Vec::new();
    for chunk in input.chunks(BUFFER_SIZE) {
        if let Some(p) = sd.feed(chunk) {
            puts.push(p);
        }
    }
    let (tail, marker) = sd.finish();
    assert!(tail.is_none());
    puts.push(marker);
    assert_eq!(puts.len(), 9);

    let mut c = Channel::new(WORKER_NUM, QUEUE_CAPACITY);
    for p in puts {
        assert!(matches!(c.on_packet(p), ChannelPush::Pushed));
    }

    let mut workers: Vec<RecvWorker> =
        (0..WORKER_NUM).map(|i| RecvWorker::new(i, WORKER_NUM)).collect();
    let mut rd = RecvDriver::new(WORKER_NUM);
    let mut output: Vec<u8> = Vec::new();
    'driver: loop {
        let wi = rd.next_worker();
        let (index, ack) = workers[wi].request();
        if let Some(a) = ack {
            c.ack(a);
        }
        match c.queue.poll_get(index) {
            GetPoll::Ready(p) => match workers[wi].on_response(p.data) {
                Some(bytes) => {
                    output.extend_from_slice(&bytes);
                    rd.on_chunk(&bytes);
                },
                None => {
                    rd.on_closed();
                    break 'driver;
                },
            },
            _ => panic!("the relay has the whole stream"),
        }
    }

    assert_eq!(output.len(), input.len());
    assert_eq!(output, input);
}

#[test]
fn stream_rides_the_relay_end_to_end() {
    // 100 ASCII bytes through the whole model: driver, relay, workers,
    // output rotation.
    let input: Vec<u8> = (0..100u8).map(|b| b % 128).collect();

    // Sender side: partition the input.
    let mut sd = SenderDriver::new(WORKER_NUM);
    let mut puts: Vec<(usize, http_pipe::packet::Packet)> = Vec::new();
    let worker = sd.target_worker();
    if let Some(p) = sd.feed(&input) {
        puts.push((worker, p));
    }
    let tail_worker = sd.target_worker();
    let (tail, marker) = sd.finish();
    if let Some(t) = tail {
        puts.push((tail_worker, t));
    }
    puts.push(((marker.index) % WORKER_NUM, marker));

    // Relay: the sequencer drains the workers in rotation; with one stream
    // of consecutive indices the arrival order here is already the rotation.
    let mut c = Channel::new(WORKER_NUM, QUEUE_CAPACITY);
    for (_, p) in puts.iter() {
        let copy = http_pipe::packet::Packet { index: p.index, data: p.data.clone() };
        assert!(matches!(c.on_packet(copy), ChannelPush::Pushed));
    }

    // Receiver side: four workers fetch their residue classes.
    let mut workers: Vec<RecvWorker> =
        (0..WORKER_NUM).map(|i| RecvWorker::new(i, WORKER_NUM)).collect();
    let mut rd = RecvDriver::new(WORKER_NUM);
    let mut output: Vec<u8> = Vec::new();
    'driver: loop {
        let wi = rd.next_worker();
        loop {
            let (index, ack) = workers[wi].request();
            if let Some(a) = ack {
                c.ack(a);
            }
            match c.queue.poll_get(index) {
                GetPoll::Ready(p) => match workers[wi].on_response(p.data) {
                    Some(bytes) => {
                        output.extend_from_slice(&bytes);
                        rd.on_chunk(&bytes);
                        break;
                    },
                    None => {
                        rd.on_closed();
                        break 'driver;
                    },
                },
                GetPoll::Gone => panic!("the stream advanced past a worker"),
                GetPoll::Pending => panic!("the relay has the whole stream"),
            }
        }
    }

    assert_eq!(output, input);
}
