use trading_terminal::stream::StreamUpdate;
use trading_terminal::supervisor::{
    StreamKind, Supervisor, SupervisorAction, SupervisorEvent, contains_str,
    is_benign_stream_error,
};

#[test]
fn substring_search_finds_and_misses() {
    assert!(contains_str("a Serialization error occurred", "Serialization error"));
    assert!(contains_str("abc", "abc"));
    assert!(contains_str("abc", ""));
    assert!(!contains_str("abc", "abcd"));
    assert!(!contains_str("Serialization", "Serialization error"));
}

#[test]
fn benign_errors_are_recognized() {
    assert!(is_benign_stream_error("Serialization error: unknown tag"));
    assert!(is_benign_stream_error("oops: Unsupported message type q"));
    assert!(!is_benign_stream_error("connection reset by peer"));
}

#[test]
fn trading_stream_connects_and_streams() {
    let mut sup = Supervisor::new(StreamKind::Trading);
    assert_eq!(sup.next_action(), SupervisorAction::Connect);
    let emits = sup.step(SupervisorEvent::ConnectSucceeded);
    assert_eq!(emits.len(), 1);
    assert!(matches!(emits[0], StreamUpdate::Connected));
    assert_eq!(sup.next_action(), SupervisorAction::Receive);
    let emits = sup.step(SupervisorEvent::MessageDecoded(StreamUpdate::Connected));
    assert_eq!(emits.len(), 1);
    let emits = sup.step(SupervisorEvent::BenignSkip);
    assert!(emits.is_empty());
    assert_eq!(sup.next_action(), SupervisorAction::Receive);
}

#[test]
fn initial_connect_failure_stops_with_error() {
    let mut sup = Supervisor::new(StreamKind::Trading);
    let emits = sup.step(SupervisorEvent::ConnectFailed("refused".to_string()));
    assert_eq!(emits.len(), 2);
    match &emits[0] {
        StreamUpdate::Error(m) => assert_eq!(m, "Connection failed: refused"),
        other => panic!("expected an error update, got {:?}", other),
    }
    assert!(matches!(emits[1], StreamUpdate::Disconnected));
    assert_eq!(sup.next_action(), SupervisorAction::Exit);
}

#[test]
fn benign_receive_failure_keeps_streaming() {
    let mut sup = Supervisor::new(StreamKind::Trading);
    sup.step(SupervisorEvent::ConnectSucceeded);
    let emits = sup.step(SupervisorEvent::ReceiveFailed(
        "Serialization error: bad frame".to_string(),
    ));
    assert!(emits.is_empty());
    assert_eq!(sup.next_action(), SupervisorAction::Receive);
}

#[test]
fn transport_failure_backs_off_then_reconnects() {
    let mut sup = Supervisor::new(StreamKind::Trading);
    sup.step(SupervisorEvent::ConnectSucceeded);
    let emits = sup.step(SupervisorEvent::ReceiveFailed("socket closed".to_string()));
    assert_eq!(emits.len(), 1);
    match &emits[0] {
        StreamUpdate::Error(m) => assert_eq!(m, "Stream error: socket closed"),
        other => panic!("expected an error update, got {:?}", other),
    }
    assert_eq!(sup.next_action(), SupervisorAction::SleepThenConnect);
    let emits = sup.step(SupervisorEvent::ConnectSucceeded);
    assert_eq!(emits.len(), 1);
    assert!(matches!(emits[0], StreamUpdate::Connected));
    assert_eq!(sup.next_action(), SupervisorAction::Receive);
}

#[test]
fn failed_reconnect_stops_without_fresh_error() {
    let mut sup = Supervisor::new(StreamKind::Trading);
    sup.step(SupervisorEvent::ConnectSucceeded);
    sup.step(SupervisorEvent::ReceiveFailed("socket closed".to_string()));
    let emits = sup.step(SupervisorEvent::ConnectFailed("still down".to_string()));
    assert_eq!(emits.len(), 1);
    assert!(matches!(emits[0], StreamUpdate::Disconnected));
    assert_eq!(sup.next_action(), SupervisorAction::Exit);
}

#[test]
fn market_data_stream_announces_itself_only_once_subscribed() {
    let mut sup = Supervisor::new(StreamKind::MarketData);
    let emits = sup.step(SupervisorEvent::ConnectSucceeded);
    assert!(emits.is_empty(), "a connect alone is not a live market data stream");
    assert_eq!(sup.next_action(), SupervisorAction::Subscribe);
    let emits = sup.step(SupervisorEvent::SubscribeSucceeded);
    assert_eq!(emits.len(), 1);
    assert!(matches!(emits[0], StreamUpdate::MarketDataConnected));
    assert_eq!(sup.next_action(), SupervisorAction::Receive);
}

#[test]
fn initial_subscribe_failure_stops_with_error() {
    let mut sup = Supervisor::new(StreamKind::MarketData);
    sup.step(SupervisorEvent::ConnectSucceeded);
    let emits = sup.step(SupervisorEvent::SubscribeFailed("denied".to_string()));
    assert_eq!(emits.len(), 2);
    match &emits[0] {
        StreamUpdate::Error(m) => assert_eq!(m, "Failed to subscribe to bars: denied"),
        other => panic!("expected an error update, got {:?}", other),
    }
    assert!(matches!(emits[1], StreamUpdate::MarketDataDisconnected));
    assert_eq!(sup.next_action(), SupervisorAction::Exit);
}

#[test]
fn failed_resubscription_stops_quietly() {
    let mut sup = Supervisor::new(StreamKind::MarketData);
    sup.step(SupervisorEvent::ConnectSucceeded);
    sup.step(SupervisorEvent::SubscribeSucceeded);
    let emits = sup.step(SupervisorEvent::ReceiveFailed("socket closed".to_string()));
    match &emits[0] {
        StreamUpdate::Error(m) => assert_eq!(m, "Market data stream error: socket closed"),
        other => panic!("expected an error update, got {:?}", other),
    }
    let emits = sup.step(SupervisorEvent::ConnectSucceeded);
    assert!(emits.is_empty(), "no connected update before the re-subscription stands");
    assert_eq!(sup.next_action(), SupervisorAction::Subscribe);
    let emits = sup.step(SupervisorEvent::SubscribeFailed("denied".to_string()));
    assert_eq!(emits.len(), 1);
    assert!(matches!(emits[0], StreamUpdate::MarketDataDisconnected));
    assert_eq!(sup.next_action(), SupervisorAction::Exit);
}

#[test]
fn market_data_initial_connect_failure_names_the_stream() {
    let mut sup = Supervisor::new(StreamKind::MarketData);
    let emits = sup.step(SupervisorEvent::ConnectFailed("refused".to_string()));
    assert_eq!(emits.len(), 2);
    match &emits[0] {
        StreamUpdate::Error(m) => assert_eq!(m, "Market Data connection failed: refused"),
        other => panic!("expected an error update, got {:?}", other),
    }
    assert!(matches!(emits[1], StreamUpdate::MarketDataDisconnected));
}

#[test]
fn shutdown_stops_any_phase() {
    let mut sup = Supervisor::new(StreamKind::Trading);
    sup.step(SupervisorEvent::ConnectSucceeded);
    let emits = sup.step(SupervisorEvent::ShutdownRequested);
    assert!(emits.is_empty());
    assert_eq!(sup.next_action(), SupervisorAction::Exit);
}

#[test]
fn retrying_supervisor_backs_off_again_after_failed_reconnect() {
    let mut sup = Supervisor::new_retrying(StreamKind::Trading);
    sup.step(SupervisorEvent::ConnectSucceeded);
    sup.step(SupervisorEvent::ReceiveFailed("socket closed".to_string()));
    assert_eq!(sup.next_action(), SupervisorAction::SleepThenConnect);
    let emits = sup.step(SupervisorEvent::ConnectFailed("still down".to_string()));
    assert!(emits.is_empty(), "no disconnect is published while retrying");
    assert_eq!(sup.next_action(), SupervisorAction::SleepThenConnect);
    let emits = sup.step(SupervisorEvent::ConnectSucceeded);
    assert!(matches!(emits[0], StreamUpdate::Connected));
    assert_eq!(sup.next_action(), SupervisorAction::Receive);
}

#[test]
fn retrying_market_data_supervisor_retries_failed_resubscription() {
    let mut sup = Supervisor::new_retrying(StreamKind::MarketData);
    sup.step(SupervisorEvent::ConnectSucceeded);
    sup.step(SupervisorEvent::SubscribeSucceeded);
    sup.step(SupervisorEvent::ReceiveFailed("socket closed".to_string()));
    sup.step(SupervisorEvent::ConnectSucceeded);
    let emits = sup.step(SupervisorEvent::SubscribeFailed("denied".to_string()));
    assert!(emits.is_empty());
    assert_eq!(sup.next_action(), SupervisorAction::SleepThenConnect);
}
