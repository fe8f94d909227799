use stackring::delivery::{
    buffer_updated, next_event, worker_step, DeliveryHub, UpdateOutcome, WorkerAction, WorkerEvent,
};
use stackring::frame::{read_frame, read_frame_text, write_frame, FrameError};
use stackring::ring::SharedRegion;

fn region_with_frame(capacity: usize, pos: usize, payload: &[u8]) -> SharedRegion {
    let mut region = SharedRegion::new(capacity);
    write_frame(&mut region, pos, &payload.to_vec());
    region.set_read_pos(pos as u32);
    region
}

#[test]
fn round_trip_at_start() {
    let mut region = region_with_frame(16, 0, b"hello");
    let text = read_frame_text(&mut region).unwrap();
    assert_eq!(text, "hello");
    assert_eq!(region.read_pos(), 7);
}

#[test]
fn round_trip_empty_payload() {
    let mut region = region_with_frame(16, 5, b"");
    let text = read_frame_text(&mut region).unwrap();
    assert_eq!(text, "");
    assert_eq!(region.read_pos(), 7);
}

#[test]
fn header_split_across_boundary() {
    // The length header itself wraps: its high byte sits in the last cell,
    // its low byte at offset zero, the payload right after it.
    let mut region = region_with_frame(10, 9, b"abc");
    let text = read_frame_text(&mut region).unwrap();
    assert_eq!(text, "abc");
    assert_eq!(region.read_pos(), 4);
}

#[test]
fn header_exactly_at_boundary() {
    // The header fills the last two cells; the payload starts fully
    // wrapped at offset zero.
    let mut region = region_with_frame(10, 8, b"abc");
    let text = read_frame_text(&mut region).unwrap();
    assert_eq!(text, "abc");
    assert_eq!(region.read_pos(), 3);
}

#[test]
fn end_to_end_scenario_last_cell() {
    // Capacity such that offset 8 is the last cell: the header occupies
    // offset 8, wraps to offset 0, and the payload follows at 1..=3, so
    // the cursor ends at 4.
    let mut region = region_with_frame(9, 8, b"abc");
    let text = read_frame_text(&mut region).unwrap();
    assert_eq!(text, "abc");
    assert_eq!(region.read_pos(), 4);
}

#[test]
fn wrapped_payload_tail_then_head() {
    // Payload split by the boundary: the tail span up to the end comes
    // first, then the head span from offset zero.
    let mut region = region_with_frame(10, 4, b"abcdef");
    let text = read_frame_text(&mut region).unwrap();
    assert_eq!(text, "abcdef");
    assert_eq!(region.read_pos(), 2);
}

#[test]
fn frame_ending_exactly_at_capacity() {
    let mut region = region_with_frame(10, 4, b"abcd");
    let text = read_frame_text(&mut region).unwrap();
    assert_eq!(text, "abcd");
    assert_eq!(region.read_pos(), 10);
    // The cursor equal to the capacity is normalized on the next read.
    write_frame(&mut region, 0, &b"xy".to_vec());
    let text = read_frame_text(&mut region).unwrap();
    assert_eq!(text, "xy");
    assert_eq!(region.read_pos(), 4);
}

#[test]
fn cursor_out_of_bounds_is_rejected() {
    let mut region = SharedRegion::new(10);
    region.set_read_pos(11);
    let err = read_frame_text(&mut region).unwrap_err();
    assert_eq!(err, FrameError::CursorOutOfBounds);
    assert_eq!(region.read_pos(), 11);
}

#[test]
fn oversized_frame_is_rejected() {
    let mut region = SharedRegion::new(10);
    // A header announcing 9 payload bytes cannot fit a 10-byte ring.
    region.put_u8(0, 0);
    region.put_u8(1, 9);
    region.set_read_pos(0);
    let err = read_frame_text(&mut region).unwrap_err();
    assert_eq!(err, FrameError::Oversized);
    assert_eq!(region.read_pos(), 0);
}

#[test]
fn invalid_utf8_is_consumed_and_reported() {
    let mut region = region_with_frame(16, 0, &[0xFF, 0xFE]);
    let err = read_frame_text(&mut region).unwrap_err();
    assert_eq!(err, FrameError::InvalidUtf8);
    // The broken frame was consumed: the cursor moved past it.
    assert_eq!(region.read_pos(), 4);
}

#[test]
fn raw_bytes_come_back_even_when_not_text() {
    let mut region = region_with_frame(16, 0, &[0xFF, 0x00, 0x7F]);
    let bytes = read_frame(&mut region).unwrap();
    assert_eq!(bytes, vec![0xFF, 0x00, 0x7F]);
}

#[test]
fn accessors_round_trip_big_endian() {
    let mut region = SharedRegion::new(16);
    region.put_u32(0, 0x0102_0304);
    assert_eq!(region.get_u8(0), 1);
    assert_eq!(region.get_u8(1), 2);
    assert_eq!(region.get_u8(2), 3);
    assert_eq!(region.get_u8(3), 4);
    assert_eq!(region.get_u16(0), 0x0102);
    assert_eq!(region.get_u32(0), 0x0102_0304);
}

#[test]
fn cursors_live_after_the_data_area() {
    let mut region = SharedRegion::new(16);
    region.set_read_pos(7);
    region.set_write_pos(12);
    assert_eq!(region.read_pos(), 7);
    assert_eq!(region.write_pos(), 12);
    assert!(region.has_data());
    region.set_write_pos(7);
    assert!(!region.has_data());
    // The data area is untouched by cursor writes.
    for i in 0..16 {
        assert_eq!(region.get_u8(i), 0);
    }
}

#[test]
fn backpressure_drops_excess_within_timeout() {
    let hub = DeliveryHub::new(2);
    let a = hub.push_frame(String::from("one"), 50);
    let b = hub.push_frame(String::from("two"), 50);
    let c = hub.push_frame(String::from("three"), 50);
    assert!(matches!(a, stackring::channel::PushOutcome::Enqueued));
    assert!(matches!(b, stackring::channel::PushOutcome::Enqueued));
    assert!(matches!(c, stackring::channel::PushOutcome::DroppedFull));
    // The caller survives the overflow and can keep using the hub.
    let d = hub.push_frame(String::from("four"), 50);
    assert!(matches!(d, stackring::channel::PushOutcome::DroppedFull));
}

#[test]
fn worker_end_claimed_exactly_once() {
    let mut hub = DeliveryHub::new(4);
    let first = hub.claim_worker();
    let second = hub.claim_worker();
    assert!(first.is_some());
    assert!(second.is_none());
}

#[test]
fn push_after_worker_gone_reports_disconnected() {
    let mut hub = DeliveryHub::new(4);
    let receiver = hub.claim_worker().unwrap();
    drop(receiver);
    let outcome = hub.push_frame(String::from("late"), 50);
    assert!(matches!(outcome, stackring::channel::PushOutcome::Disconnected));
}

#[test]
fn worker_sees_frames_in_decode_order() {
    let mut hub = DeliveryHub::new(8);
    let receiver = hub.claim_worker().unwrap();
    hub.push_frame(String::from("first"), 50);
    hub.push_frame(String::from("second"), 50);
    match next_event(&receiver) {
        WorkerEvent::Frame(text) => assert_eq!(text, "first"),
        WorkerEvent::Closed => panic!("channel closed early"),
    }
    match next_event(&receiver) {
        WorkerEvent::Frame(text) => assert_eq!(text, "second"),
        WorkerEvent::Closed => panic!("channel closed early"),
    }
}

#[test]
fn worker_stops_when_channel_closes() {
    let mut hub = DeliveryHub::new(4);
    let receiver = hub.claim_worker().unwrap();
    drop(hub);
    let ev = next_event(&receiver);
    assert!(matches!(ev, WorkerEvent::Closed));
    let act = worker_step(ev);
    assert!(matches!(act, WorkerAction::Stop));
}

#[test]
fn worker_posts_each_frame() {
    let act = worker_step(WorkerEvent::Frame(String::from("payload")));
    match act {
        WorkerAction::Post(text) => assert_eq!(text, "payload"),
        WorkerAction::Stop => panic!("worker stopped instead of posting"),
    }
}

#[test]
fn notification_decodes_and_enqueues_one_frame() {
    let mut region = region_with_frame(10, 8, b"abc");
    let mut hub = DeliveryHub::new(4);
    let receiver = hub.claim_worker().unwrap();
    let outcome = buffer_updated(&mut region, &hub, 50);
    assert!(matches!(outcome, UpdateOutcome::Enqueued));
    assert_eq!(region.read_pos(), 3);
    match next_event(&receiver) {
        WorkerEvent::Frame(text) => assert_eq!(text, "abc"),
        WorkerEvent::Closed => panic!("channel closed early"),
    }
}

#[test]
fn notification_with_bad_cursor_is_skipped() {
    let mut region = SharedRegion::new(10);
    region.set_read_pos(12);
    let hub = DeliveryHub::new(4);
    let outcome = buffer_updated(&mut region, &hub, 50);
    assert!(matches!(outcome, UpdateOutcome::Skipped(FrameError::CursorOutOfBounds)));
    assert_eq!(region.read_pos(), 12);
}
