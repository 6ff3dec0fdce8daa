use dog_button::service::{
    post_pressed, send_multicast_broadcast, BroadcastAction, Broadcaster, RequestAction,
    BROADCAST_INTERVAL_MS,
};

#[test]
fn first_tick_broadcasts() {
    let mut b = Broadcaster::new();
    assert_eq!(b.last(), None);
    assert_eq!(send_multicast_broadcast(&mut b, 0), BroadcastAction::Send);
    assert_eq!(b.last(), Some(0));
}

#[test]
fn broadcasts_at_most_once_per_interval() {
    assert_eq!(BROADCAST_INTERVAL_MS, 1000);
    let mut b = Broadcaster::new();
    assert_eq!(send_multicast_broadcast(&mut b, 5000), BroadcastAction::Send);
    assert_eq!(send_multicast_broadcast(&mut b, 5010), BroadcastAction::Wait);
    assert_eq!(send_multicast_broadcast(&mut b, 5999), BroadcastAction::Wait);
    assert_eq!(b.last(), Some(5000));
    assert_eq!(send_multicast_broadcast(&mut b, 6000), BroadcastAction::Send);
    assert_eq!(b.last(), Some(6000));
}

#[test]
fn clock_behind_last_broadcast_waits() {
    let mut b = Broadcaster::new();
    assert_eq!(send_multicast_broadcast(&mut b, u64::MAX), BroadcastAction::Send);
    assert_eq!(send_multicast_broadcast(&mut b, 3), BroadcastAction::Wait);
    assert_eq!(b.last(), Some(u64::MAX));
}

#[test]
fn post_to_pressed_screams() {
    assert_eq!(post_pressed(true, "pressed"), RequestAction::Scream);
}

#[test]
fn other_requests_continue() {
    assert_eq!(post_pressed(false, "pressed"), RequestAction::Continue);
    assert_eq!(post_pressed(true, "press"), RequestAction::Continue);
    assert_eq!(post_pressed(true, "pressed/"), RequestAction::Continue);
    assert_eq!(post_pressed(true, ""), RequestAction::Continue);
}
