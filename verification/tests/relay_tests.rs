use werson::frame::FrameError;
use werson::registry::{Limits, Registry, Route};
use werson::relay::{choose_route, forward, handle_message, Handled, Rejection};
use werson::session::Message;

const A: [u8; 6] = [0x02, 0, 0, 0, 0, 0x0a];
const B: [u8; 6] = [0x02, 0, 0, 0, 0, 0x0b];
const C: [u8; 6] = [0x02, 0, 0, 0, 0, 0x0c];
const BROADCAST: [u8; 6] = [0xff; 6];
const ADDRESS_A: u64 = 0x0200_0000_000a;
const ADDRESS_B: u64 = 0x0200_0000_000b;

fn ethernet(destination: [u8; 6], source: [u8; 6], body: &[u8]) -> Vec<u8> {
    let mut bytes = Vec::new();
    bytes.extend_from_slice(&destination);
    bytes.extend_from_slice(&source);
    bytes.extend_from_slice(&[0x08, 0x00]);
    bytes.extend_from_slice(body);
    bytes
}

fn relay_of_three(queue_capacity: usize) -> Registry {
    let limits = Limits { queue_capacity, ..Limits::default() };
    let mut r = Registry::new(limits);
    assert!(r.join(1, String::from("192.0.2.1:40000"), 0));
    assert!(r.join(2, String::from("192.0.2.2:40000"), 0));
    assert!(r.join(3, String::from("192.0.2.3:40000"), 0));
    r
}

fn drain(r: &mut Registry, id: u64) -> Vec<Message> {
    let mut out = Vec::new();
    while let Some(m) = r.next_outbound(id, 0) {
        out.push(m);
    }
    out
}

#[test]
fn unknown_destination_is_flooded_to_all_but_the_sender() {
    let mut r = relay_of_three(8);
    let frame = ethernet(B, A, &[1, 2, 3]);
    assert_eq!(forward(&mut r, 1, frame.clone(), 10), Ok(Vec::new()));
    assert_eq!(drain(&mut r, 1), Vec::<Message>::new());
    assert_eq!(drain(&mut r, 2), vec![Message::Data(frame.clone())]);
    assert_eq!(drain(&mut r, 3), vec![Message::Data(frame)]);
}

#[test]
fn source_address_is_learned_from_traffic() {
    let mut r = relay_of_three(8);
    assert_eq!(r.lookup(ADDRESS_A, 10), None);
    assert!(forward(&mut r, 1, ethernet(B, A, &[]), 10).is_ok());
    assert_eq!(r.lookup(ADDRESS_A, 10), Some(1));
    assert_eq!(r.lookup(ADDRESS_B, 10), None);
}

#[test]
fn learned_destination_is_served_alone() {
    let mut r = relay_of_three(8);
    assert!(forward(&mut r, 1, ethernet(BROADCAST, A, &[0]), 10).is_ok());
    drain(&mut r, 2);
    drain(&mut r, 3);
    let reply = ethernet(A, B, &[7, 7]);
    assert_eq!(forward(&mut r, 2, reply.clone(), 20), Ok(Vec::new()));
    assert_eq!(drain(&mut r, 1), vec![Message::Data(reply)]);
    assert_eq!(drain(&mut r, 2), Vec::<Message>::new());
    assert_eq!(drain(&mut r, 3), Vec::<Message>::new());
    let third = ethernet(A, C, &[8]);
    assert_eq!(forward(&mut r, 3, third.clone(), 30), Ok(Vec::new()));
    assert_eq!(drain(&mut r, 1), vec![Message::Data(third)]);
    assert_eq!(drain(&mut r, 2), Vec::<Message>::new());
}

#[test]
fn expired_address_is_flooded_again() {
    let mut r = relay_of_three(8);
    assert!(forward(&mut r, 1, ethernet(BROADCAST, A, &[0]), 0).is_ok());
    drain(&mut r, 2);
    drain(&mut r, 3);
    assert_eq!(choose_route(&r, 2, ADDRESS_A, 299_999), Route::Only(1));
    assert_eq!(choose_route(&r, 2, ADDRESS_A, 300_000), Route::Flood);
    let late = ethernet(A, B, &[1]);
    assert_eq!(forward(&mut r, 2, late.clone(), 300_000), Ok(Vec::new()));
    assert_eq!(drain(&mut r, 1), vec![Message::Data(late.clone())]);
    assert_eq!(drain(&mut r, 3), vec![Message::Data(late)]);
}

#[test]
fn address_moves_to_the_last_session_that_used_it() {
    let mut r = relay_of_three(8);
    assert!(forward(&mut r, 1, ethernet(BROADCAST, A, &[0]), 0).is_ok());
    assert!(forward(&mut r, 3, ethernet(BROADCAST, A, &[0]), 5).is_ok());
    assert_eq!(r.lookup(ADDRESS_A, 5), Some(3));
    assert_eq!(choose_route(&r, 2, ADDRESS_A, 5), Route::Only(3));
}

#[test]
fn broadcast_and_multicast_always_flood() {
    let mut r = relay_of_three(8);
    assert_eq!(choose_route(&r, 1, 0xffff_ffff_ffff, 0), Route::Flood);
    assert_eq!(choose_route(&r, 1, 0x0100_5e00_0001, 0), Route::Flood);
    r.learn(0x0100_5e00_0001, 2, 0);
    assert_eq!(choose_route(&r, 1, 0x0100_5e00_0001, 0), Route::Flood);
}

#[test]
fn frame_to_an_address_of_the_sender_goes_nowhere() {
    let mut r = relay_of_three(8);
    r.learn(ADDRESS_B, 1, 0);
    assert_eq!(choose_route(&r, 1, ADDRESS_B, 0), Route::Nowhere);
    assert_eq!(forward(&mut r, 1, ethernet(B, A, &[1]), 0), Ok(Vec::new()));
    assert_eq!(drain(&mut r, 2), Vec::<Message>::new());
    assert_eq!(drain(&mut r, 3), Vec::<Message>::new());
}

#[test]
fn saturated_session_does_not_hold_up_the_others() {
    let mut r = relay_of_three(2);
    let f1 = ethernet(BROADCAST, A, &[1]);
    let f2 = ethernet(BROADCAST, A, &[2]);
    let f3 = ethernet(BROADCAST, A, &[3]);
    assert_eq!(forward(&mut r, 1, f1.clone(), 0), Ok(Vec::new()));
    assert_eq!(forward(&mut r, 1, f2.clone(), 0), Ok(Vec::new()));
    assert_eq!(drain(&mut r, 3), vec![Message::Data(f1.clone()), Message::Data(f2.clone())]);
    assert_eq!(forward(&mut r, 1, f3.clone(), 0), Ok(vec![2]));
    assert_eq!(drain(&mut r, 3), vec![Message::Data(f3)]);
    assert_eq!(drain(&mut r, 2), vec![Message::Data(f1), Message::Data(f2)]);
}

#[test]
fn frames_out_of_bounds_are_dropped_and_the_relay_goes_on() {
    let mut r = relay_of_three(8);
    assert_eq!(
        forward(&mut r, 1, Vec::new(), 0),
        Err(Rejection::Frame(FrameError::MalformedFrame))
    );
    assert_eq!(
        forward(&mut r, 1, vec![0u8; 1501], 0),
        Err(Rejection::Frame(FrameError::FrameTooLarge))
    );
    assert_eq!(
        forward(&mut r, 1, vec![0u8; 11], 0),
        Err(Rejection::Frame(FrameError::MalformedFrame))
    );
    assert_eq!(r.learned_count(), 0);
    assert_eq!(drain(&mut r, 2), Vec::<Message>::new());
    let good = ethernet(BROADCAST, A, &[1]);
    assert_eq!(forward(&mut r, 1, good.clone(), 0), Ok(Vec::new()));
    assert_eq!(drain(&mut r, 2), vec![Message::Data(good)]);
}

#[test]
fn frame_of_exactly_mtu_is_forwarded_whole() {
    let mut r = relay_of_three(8);
    let frame = ethernet(BROADCAST, A, &vec![0x5au8; 1500 - 14]);
    assert_eq!(frame.len(), 1500);
    assert_eq!(forward(&mut r, 1, frame.clone(), 0), Ok(Vec::new()));
    assert_eq!(drain(&mut r, 2), vec![Message::Data(frame)]);
}

#[test]
fn frame_from_an_absent_session_is_dropped() {
    let mut r = relay_of_three(8);
    assert_eq!(forward(&mut r, 9, ethernet(BROADCAST, A, &[1]), 0), Err(Rejection::UnknownSession));
    assert_eq!(r.learned_count(), 0);
    assert_eq!(drain(&mut r, 1), Vec::<Message>::new());
}

#[test]
fn handle_message_answers_ping_and_forwards_data() {
    let mut r = relay_of_three(8);
    assert_eq!(handle_message(&mut r, 1, Message::Ping, 0), Handled::Reply(Message::Pong));
    assert_eq!(handle_message(&mut r, 1, Message::Pong, 0), Handled::Nothing);
    let frame = ethernet(BROADCAST, A, &[1]);
    assert_eq!(
        handle_message(&mut r, 1, Message::Data(frame.clone()), 0),
        Handled::Forwarded(Vec::new())
    );
    assert_eq!(drain(&mut r, 2), vec![Message::Data(frame)]);
    assert_eq!(
        handle_message(&mut r, 1, Message::Data(Vec::new()), 0),
        Handled::Dropped(Rejection::Frame(FrameError::MalformedFrame))
    );
    assert_eq!(handle_message(&mut r, 1, Message::Close, 0), Handled::Closing);
    assert_eq!(handle_message(&mut r, 9, Message::Ping, 0), Handled::Nothing);
}

#[test]
fn traffic_keeps_a_session_from_eviction() {
    let mut r = relay_of_three(8);
    let frame = ethernet(BROADCAST, A, &[1]);
    assert_eq!(
        handle_message(&mut r, 1, Message::Data(frame), 500_000),
        Handled::Forwarded(Vec::new())
    );
    assert_eq!(r.evict_idle(600_000), vec![2, 3]);
    assert_eq!(r.session_ids(), vec![1]);
    assert_eq!(r.lookup(ADDRESS_A, 600_000), Some(1));
}

#[test]
fn frames_of_one_sender_arrive_in_the_order_sent() {
    let mut r = relay_of_three(64);
    let mut sent = Vec::new();
    for i in 0..20u8 {
        let frame = ethernet(B, A, &[i, i, i]);
        assert_eq!(forward(&mut r, 1, frame.clone(), 0), Ok(Vec::new()));
        sent.push(Message::Data(frame));
    }
    assert_eq!(drain(&mut r, 2), sent);
}
