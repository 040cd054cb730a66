use llama_bridge::error::FailKind;
use llama_bridge::relay::{Action, Event, Phase, Relay};

/// What a scripted daemon and sink do during one chat call.
struct Script {
    open_error: Option<String>,
    fragments: Vec<String>,
    fault_after: Option<(usize, String)>,
    reject_at: Option<(usize, String)>,
}

/// What one chat call produced: the notifications the sink took, the
/// number of delivery attempts, and the final result.
struct Transcript {
    received: Vec<String>,
    attempts: usize,
    result: Result<(), (FailKind, String)>,
}

fn script(fragments: &[&str]) -> Script {
    Script {
        open_error: None,
        fragments: fragments.iter().map(|s| s.to_string()).collect(),
        fault_after: None,
        reject_at: None,
    }
}

fn drive(s: &Script) -> Transcript {
    let mut relay = Relay::new();
    let mut received = Vec::new();
    let mut attempts = 0;
    let mut pulled = 0;
    let first = match &s.open_error {
        Some(e) => Event::OpenFailed(e.clone()),
        None => Event::Opened,
    };
    assert!(relay.accepts(&first));
    let mut action = relay.step(first);
    loop {
        let event = match action {
            Action::PullNext => match &s.fault_after {
                Some((k, e)) if *k == pulled => Event::PullFailed(e.clone()),
                _ if pulled < s.fragments.len() => {
                    pulled += 1;
                    Event::Fragment(s.fragments[pulled - 1].clone())
                }
                _ => Event::Exhausted,
            },
            Action::Deliver(content) => {
                attempts += 1;
                match &s.reject_at {
                    Some((k, e)) if *k == attempts - 1 => Event::DeliveryRejected(e.clone()),
                    _ => {
                        received.push(content);
                        Event::Delivered
                    }
                }
            }
            Action::Succeed => {
                assert!(relay.is_finished());
                return Transcript { received, attempts, result: Ok(()) };
            }
            Action::Fail(e) => {
                assert!(relay.is_finished());
                return Transcript { received, attempts, result: Err((e.kind, e.reason())) };
            }
        };
        assert!(relay.accepts(&event));
        action = relay.step(event);
    }
}

#[test]
fn every_fragment_is_delivered_in_order_then_success() {
    let t = drive(&script(&["Hel", "lo", ", ", "world"]));
    assert_eq!(t.received, vec!["Hel", "lo", ", ", "world"]);
    assert_eq!(t.attempts, 4);
    assert_eq!(t.result, Ok(()));
}

#[test]
fn empty_stream_succeeds_without_notifications() {
    let t = drive(&script(&[]));
    assert!(t.received.is_empty());
    assert_eq!(t.result, Ok(()));
}

#[test]
fn open_failure_delivers_nothing() {
    let mut s = script(&["never"]);
    s.open_error = Some("connection refused".to_string());
    let t = drive(&s);
    assert!(t.received.is_empty());
    assert_eq!(t.attempts, 0);
    assert_eq!(t.result, Err((FailKind::Connection, "connection refused".to_string())));
}

#[test]
fn fault_before_any_fragment() {
    let mut s = script(&["a", "b"]);
    s.fault_after = Some((0, "eof".to_string()));
    let t = drive(&s);
    assert!(t.received.is_empty());
    assert_eq!(t.result, Err((FailKind::Stream, "Stream error eof".to_string())));
}

#[test]
fn fault_after_one_fragment() {
    let mut s = script(&["a", "b"]);
    s.fault_after = Some((1, "eof".to_string()));
    let t = drive(&s);
    assert_eq!(t.received, vec!["a"]);
    assert_eq!(t.result, Err((FailKind::Stream, "Stream error eof".to_string())));
}

#[test]
fn fault_after_many_fragments() {
    let mut s = script(&["a", "b", "c", "d", "e", "f"]);
    s.fault_after = Some((4, "reset".to_string()));
    let t = drive(&s);
    assert_eq!(t.received, vec!["a", "b", "c", "d"]);
    assert_eq!(t.attempts, 4);
    assert_eq!(t.result, Err((FailKind::Stream, "Stream error reset".to_string())));
}

#[test]
fn sink_rejection_on_second_of_five_stops_delivery() {
    let mut s = script(&["1", "2", "3", "4", "5"]);
    s.reject_at = Some((1, "channel closed".to_string()));
    let t = drive(&s);
    assert_eq!(t.received, vec!["1"]);
    assert_eq!(t.attempts, 2);
    assert_eq!(t.result, Err((FailKind::Delivery, "channel closed".to_string())));
}

#[test]
fn finished_relay_accepts_no_event() {
    let mut relay = Relay::new();
    relay.step(Event::Opened);
    relay.step(Event::Fragment("x".to_string()));
    relay.step(Event::DeliveryRejected("gone".to_string()));
    assert_eq!(relay.phase(), Phase::Failed);
    assert!(!relay.accepts(&Event::Fragment("y".to_string())));
    assert!(!relay.accepts(&Event::Exhausted));
    assert!(!relay.accepts(&Event::Delivered));
}

#[test]
fn relay_accepts_only_answers_to_its_last_action() {
    let mut relay = Relay::new();
    assert_eq!(relay.phase(), Phase::Opening);
    assert!(!relay.accepts(&Event::Delivered));
    assert!(!relay.accepts(&Event::Exhausted));
    relay.step(Event::Opened);
    assert_eq!(relay.phase(), Phase::Pulling);
    assert!(!relay.accepts(&Event::Opened));
    assert!(!relay.accepts(&Event::Delivered));
    relay.step(Event::Fragment("x".to_string()));
    assert_eq!(relay.phase(), Phase::Delivering);
    assert!(!relay.accepts(&Event::Exhausted));
    relay.step(Event::Delivered);
    relay.step(Event::Exhausted);
    assert_eq!(relay.phase(), Phase::Done);
}

#[test]
fn two_identical_calls_give_identical_sequences() {
    let s = script(&["one", " two", " three"]);
    let first = drive(&s);
    let second = drive(&s);
    assert_eq!(first.received, vec!["one", " two", " three"]);
    assert_eq!(first.received, second.received);
    assert_eq!(first.attempts, second.attempts);
    assert_eq!(first.result, second.result);
}
