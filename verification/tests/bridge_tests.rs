use werson::backoff::{Backoff, DEFAULT_BACKOFF_BASE_MS, DEFAULT_BACKOFF_CAP_MS};
use werson::bridge::{Action, Bridge, Event};
use werson::frame::{Frame, FrameError};
use werson::registry::{Limits, Registry};
use werson::relay::{handle_message, Handled};
use werson::session::{Message, SendError, SessionState};

fn connected(id: u64, capacity: usize) -> Bridge {
    let mut b = Bridge::new(id, String::from("ws://127.0.0.1:15325"), 1500, capacity, 15_000, Backoff::default(), 0);
    assert_eq!(b.step(Event::Connected, 0, 0), Action::Nothing);
    assert_eq!(b.state(), SessionState::Active);
    b
}

fn ethernet(destination: [u8; 6], source: [u8; 6], body: &[u8]) -> Vec<u8> {
    let mut bytes = Vec::new();
    bytes.extend_from_slice(&destination);
    bytes.extend_from_slice(&source);
    bytes.extend_from_slice(&[0x08, 0x00]);
    bytes.extend_from_slice(body);
    bytes
}

#[test]
fn backoff_defaults() {
    assert_eq!(DEFAULT_BACKOFF_BASE_MS, 1_000);
    assert_eq!(DEFAULT_BACKOFF_CAP_MS, 30_000);
    assert_eq!(Backoff::default(), Backoff { base: 1_000, cap: 30_000 });
}

#[test]
fn backoff_doubles_up_to_the_cap() {
    let b = Backoff::default();
    assert_eq!(b.delay(0), 1_000);
    assert_eq!(b.delay(1), 2_000);
    assert_eq!(b.delay(2), 4_000);
    assert_eq!(b.delay(3), 8_000);
    assert_eq!(b.delay(4), 16_000);
    assert_eq!(b.delay(5), 30_000);
    assert_eq!(b.delay(6), 30_000);
    assert_eq!(b.delay(u32::MAX), 30_000);
}

#[test]
fn backoff_with_odd_settings() {
    assert_eq!(Backoff { base: 0, cap: 30_000 }.delay(1_000_000), 0);
    assert_eq!(Backoff { base: 50_000, cap: 30_000 }.delay(0), 30_000);
    assert_eq!(Backoff { base: 3, cap: 10 }.delay(1), 6);
    assert_eq!(Backoff { base: 3, cap: 10 }.delay(2), 10);
    assert_eq!(Backoff { base: 1, cap: u64::MAX }.delay(63), 1u64 << 63);
    assert_eq!(Backoff { base: 1, cap: u64::MAX }.delay(64), u64::MAX);
}

#[test]
fn jitter_takes_at_most_half_away() {
    let b = Backoff::default();
    assert_eq!(b.jittered_delay(0, 0), 1_000);
    assert_eq!(b.jittered_delay(0, 500), 500);
    assert_eq!(b.jittered_delay(0, 501), 1_000);
    assert_eq!(b.jittered_delay(0, 750), 751);
    assert_eq!(b.jittered_delay(5, 15_000), 15_000);
    assert_eq!(b.jittered_delay(5, 1), 29_999);
    for entropy in 0..5_000u64 {
        let d = b.jittered_delay(3, entropy * 7919);
        assert!(d >= 4_000 && d <= 8_000);
    }
}

#[test]
fn bridge_starts_connecting() {
    let b = Bridge::new(1, String::from("ws://127.0.0.1:15325"), 1500, 256, 15_000, Backoff::default(), 0);
    assert_eq!(b.state(), SessionState::Connecting);
    assert_eq!(b.attempt(), 0);
    assert!(!b.has_failed());
    assert!(!b.wants_frame());
}

#[test]
fn frame_read_before_the_handshake_is_lost_and_said_so() {
    let mut b = Bridge::new(1, String::from("ws://127.0.0.1:15325"), 1500, 256, 15_000, Backoff::default(), 0);
    assert_eq!(b.step(Event::FrameRead(vec![1; 20]), 0, 0), Action::Lost(SendError::NotActive));
}

#[test]
fn uplink_queues_the_frame_unchanged() {
    let mut b = connected(1, 4);
    assert!(b.wants_frame());
    let bytes: Vec<u8> = (0..60u8).collect();
    assert_eq!(b.step(Event::FrameRead(bytes.clone()), 1, 0), Action::Queued);
    assert_eq!(b.next_outbound(2), Some(Message::Data(bytes)));
    assert_eq!(b.next_outbound(3), None);
}

#[test]
fn uplink_drops_frames_out_of_bounds_and_goes_on() {
    let mut b = connected(1, 4);
    assert_eq!(
        b.step(Event::FrameRead(Vec::new()), 1, 0),
        Action::DropFrame(FrameError::MalformedFrame)
    );
    assert_eq!(
        b.step(Event::FrameRead(vec![0; 1501]), 1, 0),
        Action::DropFrame(FrameError::FrameTooLarge)
    );
    assert_eq!(b.next_outbound(2), None);
    assert_eq!(b.step(Event::FrameRead(vec![0; 1500]), 1, 0), Action::Queued);
    assert_eq!(b.next_outbound(2), Some(Message::Data(vec![0; 1500])));
}

#[test]
fn full_queue_asks_the_owner_to_wait() {
    let mut b = connected(1, 1);
    assert_eq!(b.step(Event::FrameRead(vec![1]), 1, 0), Action::Queued);
    assert!(!b.wants_frame());
    assert_eq!(b.step(Event::FrameRead(vec![2]), 1, 0), Action::Lost(SendError::QueueSaturated));
    assert_eq!(b.next_outbound(2), Some(Message::Data(vec![1])));
    assert!(b.wants_frame());
}

#[test]
fn downlink_writes_the_frame_unchanged() {
    let mut b = connected(1, 4);
    let bytes: Vec<u8> = (0..90u8).collect();
    assert_eq!(
        b.step(Event::MessageReceived(Message::Data(bytes.clone())), 1, 0),
        Action::WriteFrame(Frame::new(bytes, 1500, 1).unwrap())
    );
    assert_eq!(
        b.step(Event::MessageReceived(Message::Data(vec![0; 1501])), 1, 0),
        Action::DropFrame(FrameError::FrameTooLarge)
    );
    assert_eq!(
        b.step(Event::MessageReceived(Message::Data(Vec::new())), 1, 0),
        Action::DropFrame(FrameError::MalformedFrame)
    );
}

#[test]
fn downlink_answers_ping_and_shuts_down_on_close() {
    let mut b = connected(1, 4);
    assert_eq!(b.step(Event::MessageReceived(Message::Ping), 1, 0), Action::Send(Message::Pong));
    assert_eq!(b.step(Event::MessageReceived(Message::Pong), 1, 0), Action::Nothing);
    assert_eq!(b.step(Event::MessageReceived(Message::Close), 1, 0), Action::Shutdown);
    assert_eq!(b.state(), SessionState::Draining);
}

#[test]
fn keepalive_pings_and_times_out() {
    let mut b = connected(1, 4);
    assert_eq!(b.step(Event::KeepaliveDue, 14_999, 0), Action::Nothing);
    assert_eq!(b.step(Event::KeepaliveDue, 15_000, 0), Action::Send(Message::Ping));
    assert_eq!(b.step(Event::KeepaliveDue, 44_999, 0), Action::Nothing);
    assert_eq!(b.step(Event::KeepaliveDue, 45_000, 0), Action::Shutdown);
    assert_eq!(b.state(), SessionState::Draining);
}

#[test]
fn device_failure_ends_the_bridge() {
    let mut b = connected(1, 4);
    assert_eq!(b.step(Event::FrameRead(vec![1]), 1, 0), Action::Queued);
    assert_eq!(b.step(Event::DeviceFailed, 2, 0), Action::Terminate);
    assert!(b.has_failed());
    assert_eq!(b.state(), SessionState::Closed);
    assert!(!b.wants_frame());
    assert_eq!(b.next_outbound(3), None);
    assert_eq!(b.step(Event::RetryDue, 3, 0), Action::Nothing);
    assert_eq!(b.step(Event::Connected, 3, 0), Action::Nothing);
    assert_eq!(b.step(Event::FrameRead(vec![1]), 3, 0), Action::Nothing);
    assert_eq!(b.state(), SessionState::Closed);
}

#[test]
fn dropped_connection_is_made_again() {
    let mut b = connected(1, 4);
    assert_eq!(b.step(Event::FrameRead(vec![1; 20]), 1, 0), Action::Queued);
    assert_eq!(b.step(Event::TransportClosed, 2, 0), Action::ReconnectAfter(1_000));
    assert_eq!(b.state(), SessionState::Closed);
    assert_eq!(b.attempt(), 1);
    assert_eq!(b.next_outbound(3), None);
    assert_eq!(b.step(Event::FrameRead(vec![2; 20]), 3, 0), Action::Lost(SendError::NotActive));
    assert_eq!(b.step(Event::RetryDue, 1_002, 0), Action::Connect);
    assert_eq!(b.state(), SessionState::Connecting);
    assert_eq!(b.step(Event::TransportClosed, 1_003, 0), Action::ReconnectAfter(2_000));
    assert_eq!(b.step(Event::RetryDue, 3_003, 0), Action::Connect);
    assert_eq!(b.step(Event::TransportClosed, 3_004, 0), Action::ReconnectAfter(4_000));
    assert_eq!(b.attempt(), 3);
    assert_eq!(b.step(Event::RetryDue, 7_004, 0), Action::Connect);
    assert_eq!(b.step(Event::Connected, 7_100, 0), Action::Nothing);
    assert_eq!(b.state(), SessionState::Active);
    assert_eq!(b.attempt(), 0);
    assert_eq!(b.step(Event::FrameRead(vec![3; 20]), 7_101, 0), Action::Queued);
    assert_eq!(b.next_outbound(7_102), Some(Message::Data(vec![3; 20])));
    assert_eq!(b.step(Event::TransportClosed, 8_000, 0), Action::ReconnectAfter(1_000));
}

#[test]
fn wait_between_attempts_never_exceeds_the_cap() {
    let mut b = connected(1, 4);
    for round in 0..40u64 {
        match b.step(Event::TransportClosed, round, round * 104_729) {
            Action::ReconnectAfter(ms) => assert!(ms <= 30_000),
            other => panic!("unexpected action {:?}", other),
        }
        assert_eq!(b.step(Event::RetryDue, round, 0), Action::Connect);
    }
    assert_eq!(b.attempt(), 40);
}

#[test]
fn retry_is_ignored_while_connected() {
    let mut b = connected(1, 4);
    assert_eq!(b.step(Event::RetryDue, 1, 0), Action::Nothing);
    assert_eq!(b.state(), SessionState::Active);
}

#[test]
fn user_shutdown_closes_and_does_not_reconnect() {
    let mut b = connected(1, 4);
    assert_eq!(b.step(Event::FrameRead(vec![1]), 1, 0), Action::Queued);
    assert_eq!(b.step(Event::ShutdownRequested, 2, 0), Action::Send(Message::Close));
    assert_eq!(b.state(), SessionState::Draining);
    assert_eq!(b.step(Event::FrameRead(vec![2]), 3, 0), Action::Lost(SendError::NotActive));
    assert_eq!(b.next_outbound(3), Some(Message::Data(vec![1])));
    assert_eq!(b.step(Event::TransportClosed, 4, 0), Action::Terminate);
    assert_eq!(b.step(Event::RetryDue, 5, 0), Action::Nothing);
    assert_eq!(b.state(), SessionState::Closed);
}

#[test]
fn frames_cross_two_bridges_and_the_relay_unchanged_and_in_order() {
    let a = [0x02, 0, 0, 0, 0, 0x0a];
    let b = [0x02, 0, 0, 0, 0, 0x0b];
    let mut left = connected(100, 64);
    let mut right = connected(200, 64);
    let mut relay = Registry::new(Limits::default());
    assert!(relay.join(1, String::from("192.0.2.1:40000"), 0));
    assert!(relay.join(2, String::from("192.0.2.2:40000"), 0));
    let mut frames = Vec::new();
    for i in 0..10u8 {
        let body: Vec<u8> = (0..(20 + i)).map(|x| x.wrapping_mul(i + 1)).collect();
        frames.push(ethernet(b, a, &body));
    }
    for frame in frames.iter() {
        assert_eq!(left.step(Event::FrameRead(frame.clone()), 1, 0), Action::Queued);
    }
    while let Some(message) = left.next_outbound(2) {
        assert_eq!(handle_message(&mut relay, 1, message, 3), Handled::Forwarded(Vec::new()));
    }
    let mut written = Vec::new();
    while let Some(message) = relay.next_outbound(2, 4) {
        match right.step(Event::MessageReceived(message), 5, 0) {
            Action::WriteFrame(frame) => {
                assert_eq!(frame.received_at(), 5);
                written.push(frame.into_bytes())
            }
            other => panic!("unexpected action {:?}", other),
        }
    }
    assert_eq!(written, frames);
    assert_eq!(relay.next_outbound(1, 4), None);
}
