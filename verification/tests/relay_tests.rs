use session_relay::command::{Command, Coord};
use session_relay::handler::{handle_inbound_text, InboundOutcome};
use session_relay::relay::Relay;

fn fresh(capacity: usize) -> Relay {
    Relay::new(
        "https://start.example".to_string(),
        vec![1u8, 2, 3],
        capacity,
        1000,
    )
}

#[test]
fn identical_frame_is_not_republished() {
    let mut relay = fresh(8);
    let up = relay.finish_tick(vec![1u8, 2, 3], "https://start.example".to_string());
    assert!(up.screenshot.is_none());
    assert!(up.url.is_none());
    assert_eq!(relay.bus.publishes, 0);
    assert_eq!(relay.bus.latest().frame, vec![1u8, 2, 3]);
}

#[test]
fn changed_frame_is_published_once() {
    let mut relay = fresh(8);
    let up = relay.finish_tick(vec![9u8, 9], "https://start.example".to_string());
    assert_eq!(up.screenshot.expect("changed frame").0, vec![9u8, 9]);
    assert!(up.url.is_none());
    assert_eq!(relay.bus.publishes, 1);
    assert_eq!(relay.bus.latest().frame, vec![9u8, 9]);
}

#[test]
fn in_page_navigation_is_noticed() {
    let mut relay = fresh(8);
    let up = relay.finish_tick(vec![1u8, 2, 3], "https://elsewhere.example".to_string());
    assert!(up.screenshot.is_none());
    assert_eq!(up.url.expect("changed address").0, "https://elsewhere.example");
    assert_eq!(relay.bus.latest().url, "https://elsewhere.example");
}

#[test]
fn at_most_one_command_per_tick_excess_dropped() {
    let mut relay = fresh(2);
    let a = Command::Key { key: "a".to_string() };
    let b = Command::Key { key: "b".to_string() };
    let c = Command::Key { key: "c".to_string() };
    assert!(relay.enqueue_command(a.clone()));
    assert!(relay.enqueue_command(b.clone()));
    // the queue is full: the third command of the burst is dropped
    assert!(!relay.enqueue_command(c));
    // one tick applies exactly one command, the first
    assert_eq!(relay.begin_tick(), Some(a));
    // the rest of the burst stays queued, in order
    assert_eq!(relay.begin_tick(), Some(b));
    assert_eq!(relay.begin_tick(), None);
}

#[test]
fn empty_queue_is_not_an_error() {
    let mut relay = fresh(4);
    assert_eq!(relay.begin_tick(), None);
    let up = relay.finish_tick(vec![1u8, 2, 3], "https://start.example".to_string());
    assert!(up.screenshot.is_none());
}

#[test]
fn navigate_to_current_url_is_idempotent() {
    let mut relay = fresh(4);
    let nav = Command::Navigate { url: "https://start.example".to_string() };
    assert!(relay.enqueue_command(nav.clone()));
    assert_eq!(relay.begin_tick(), Some(nav));
    // the next capture reports the same address: nothing changes
    let up = relay.finish_tick(vec![1u8, 2, 3], "https://start.example".to_string());
    assert!(up.url.is_none());
    assert_eq!(relay.bus.latest().url, "https://start.example");
}

#[test]
fn new_subscriber_gets_current_state_exactly_once() {
    let mut relay = fresh(4);
    let push = relay.add_viewer(7);
    assert_eq!(push.screenshot.0, vec![1u8, 2, 3]);
    assert_eq!(push.url.0, "https://start.example");
    assert_eq!(relay.viewer_ids().as_slice(), &[7]);
    // no captured frame afterwards: the viewer still has its initial state,
    // and an unchanged tick sends nothing more
    let up = relay.finish_tick(vec![1u8, 2, 3], "https://start.example".to_string());
    assert!(up.screenshot.is_none());
    assert!(up.url.is_none());
}

#[test]
fn click_is_applied_before_capture_and_fanned_out() {
    let mut relay = fresh(4);
    relay.add_viewer(1);
    relay.add_viewer(2);
    let out = handle_inbound_text(&mut relay, "{\"action\":\"click\",\"x\":100,\"y\":50}");
    assert_eq!(out, InboundOutcome::Queued);
    // the session loop takes the click before this tick's capture
    let cmd = relay.begin_tick().expect("queued command");
    assert_eq!(
        cmd,
        Command::Click {
            x: Coord::from_text("100").unwrap(),
            y: Coord::from_text("50").unwrap(),
        }
    );
    // the capture after the click differs: one binary message for everyone
    let up = relay.finish_tick(vec![4u8, 4], "https://start.example".to_string());
    assert_eq!(up.screenshot.expect("changed frame").0, vec![4u8, 4]);
    assert_eq!(relay.viewer_ids().as_slice(), &[1, 2]);
}

#[test]
fn idle_clock_runs_only_while_empty() {
    let mut relay = fresh(4);
    // idle since construction
    let info = relay.connection_info(1010);
    assert_eq!(info.active_connections, 0);
    assert_eq!(info.seconds_inactive, 10);
    assert!(info.listening);

    relay.add_viewer(1);
    relay.add_viewer(2);
    let info = relay.connection_info(2000);
    assert_eq!(info.active_connections, 2);
    assert_eq!(info.seconds_inactive, 0);

    // one viewer leaves; the other keeps the relay busy
    relay.remove_viewer(1, 2000);
    let info = relay.connection_info(2500);
    assert_eq!(info.active_connections, 1);
    assert_eq!(info.seconds_inactive, 0);

    // the last viewer leaves: the clock starts from that moment
    relay.remove_viewer(2, 3000);
    let info = relay.connection_info(3000);
    assert_eq!(info.active_connections, 0);
    assert_eq!(info.seconds_inactive, 0);
    let info = relay.connection_info(3042);
    assert_eq!(info.seconds_inactive, 42);
}

#[test]
fn adding_while_idle_resets_the_clock() {
    let mut relay = fresh(4);
    assert_eq!(relay.connection_info(1100).seconds_inactive, 100);
    relay.add_viewer(5);
    assert_eq!(relay.connection_info(1100).seconds_inactive, 0);
    assert_eq!(relay.connection_info(1100).active_connections, 1);
}

#[test]
fn duplicate_subscriber_is_kept_once() {
    let mut relay = fresh(4);
    relay.add_viewer(3);
    relay.add_viewer(3);
    assert_eq!(relay.connection_info(1000).active_connections, 1);
    relay.remove_viewer(3, 1234);
    assert_eq!(relay.connection_info(1234).active_connections, 0);
    assert_eq!(relay.connection_info(1239).seconds_inactive, 5);
}

#[test]
fn removing_unknown_subscriber_changes_nothing() {
    let mut relay = fresh(4);
    relay.add_viewer(1);
    relay.remove_viewer(99, 5000);
    assert_eq!(relay.connection_info(5000).active_connections, 1);
    assert_eq!(relay.connection_info(5000).seconds_inactive, 0);
}

#[test]
fn malformed_message_is_ignored_and_connection_goes_on() {
    let mut relay = fresh(4);
    relay.add_viewer(1);
    let out = handle_inbound_text(&mut relay, "{\"action\":\"unknown\"}");
    assert_eq!(out, InboundOutcome::Ignored);
    // nothing was queued
    assert_eq!(relay.begin_tick(), None);
    // the connection is still serviced: a later good message works
    let out = handle_inbound_text(&mut relay, "{\"action\":\"key\",\"key\":\"z\"}");
    assert_eq!(out, InboundOutcome::Queued);
    assert_eq!(relay.begin_tick(), Some(Command::Key { key: "z".to_string() }));
}

#[test]
fn full_queue_drops_inbound_commands_silently() {
    let mut relay = fresh(1);
    let first = handle_inbound_text(&mut relay, "{\"action\":\"key\",\"key\":\"a\"}");
    assert_eq!(first, InboundOutcome::Queued);
    let second = handle_inbound_text(&mut relay, "{\"action\":\"key\",\"key\":\"b\"}");
    assert_eq!(second, InboundOutcome::Dropped);
    assert_eq!(relay.begin_tick(), Some(Command::Key { key: "a".to_string() }));
    assert_eq!(relay.begin_tick(), None);
}

#[test]
fn idle_seconds_saturate_at_the_field_limit() {
    let relay = Relay::new("u".to_string(), Vec::new(), 4, 0);
    let info = relay.connection_info(u32::MAX as u64 + 10);
    assert_eq!(info.seconds_inactive, u32::MAX);
}

#[test]
fn clock_going_backwards_reads_zero() {
    let relay = Relay::new("u".to_string(), Vec::new(), 4, 5000);
    let info = relay.connection_info(4000);
    assert_eq!(info.seconds_inactive, 0);
}

#[test]
fn url_and_frame_change_together() {
    let mut relay = fresh(4);
    let up = relay.finish_tick(vec![8u8], "https://two.example".to_string());
    assert_eq!(up.screenshot.expect("frame changed").0, vec![8u8]);
    assert_eq!(up.url.expect("address changed").0, "https://two.example");
    assert_eq!(relay.bus.publishes, 2);
    assert_eq!(relay.bus.latest().url, "https://two.example");
    assert_eq!(relay.bus.latest().frame, vec![8u8]);
}
