use chat_relay::error::Error;
use chat_relay::reassembler::Reassembler;
use chat_relay::stream::{relay, step, Step, StreamEvent};

fn chunk(text: &str) -> StreamEvent {
    StreamEvent::Chunk(text.as_bytes().to_vec())
}

fn responses(records: &[chat_relay::record::GenerationResponseChunk]) -> Vec<String> {
    records.iter().map(|record| record.response.clone()).collect()
}

#[test]
fn chunk_that_completes_nothing_waits() {
    match step(Reassembler::new(), chunk("{\"respon")) {
        Step::Waiting(next) => assert_eq!(next.buffered(), "{\"respon"),
        other => panic!("unexpected step: {:?}", other),
    }
}

#[test]
fn chunk_that_completes_a_record_emits_it() {
    let mut reassembler = Reassembler::new();
    reassembler.append("{\"respon");
    match step(reassembler, chunk("se\":\"hi\"}")) {
        Step::Emitted(next, record) => {
            assert_eq!(next.buffered(), "");
            assert_eq!(record.response, "hi");
        }
        other => panic!("unexpected step: {:?}", other),
    }
}

#[test]
fn close_completes_whatever_the_buffer_holds() {
    assert!(matches!(step(Reassembler::new(), StreamEvent::Closed), Step::Completed));
    let mut reassembler = Reassembler::new();
    reassembler.append("{\"response\":\"never fin");
    assert!(matches!(step(reassembler, StreamEvent::Closed), Step::Completed));
}

#[test]
fn read_failure_becomes_a_request_error() {
    let mut reassembler = Reassembler::new();
    reassembler.append("{\"respon");
    match step(reassembler, StreamEvent::ReadFailed("connection reset".to_string())) {
        Step::Failed(Error::Request(report)) => assert_eq!(report, "connection reset"),
        other => panic!("unexpected step: {:?}", other),
    }
}

#[test]
fn relay_collects_records_until_the_close() {
    let relayed = relay(vec![
        chunk("{\"response\":\"a\"}"),
        chunk("{\"respon"),
        chunk("se\":\"b\"}"),
        StreamEvent::Closed,
    ]);
    assert_eq!(responses(&relayed.records), vec!["a".to_string(), "b".to_string()]);
    assert!(relayed.failure.is_none());
    let records = relayed.into_result().expect("no failure");
    assert_eq!(responses(&records), vec!["a".to_string(), "b".to_string()]);
}

#[test]
fn running_out_of_events_counts_as_a_close() {
    let relayed = relay(vec![chunk("{\"response\":\"a\"}")]);
    assert_eq!(responses(&relayed.records), vec!["a".to_string()]);
    assert!(relayed.failure.is_none());
    let nothing = relay(Vec::new());
    assert!(nothing.records.is_empty());
    assert!(nothing.failure.is_none());
}

#[test]
fn residue_at_the_close_raises_no_error() {
    let relayed = relay(vec![
        chunk("{\"response\":\"a\"}"),
        chunk("{\"response\":\"never fin"),
        StreamEvent::Closed,
    ]);
    assert_eq!(responses(&relayed.records), vec!["a".to_string()]);
    assert!(relayed.failure.is_none());
    assert!(relayed.into_result().is_ok());
}

#[test]
fn read_failure_keeps_the_records_produced_before_it() {
    let relayed = relay(vec![
        chunk("{\"response\":\"a\"}"),
        chunk("{\"response\":\"b\"}"),
        chunk("{\"respon"),
        StreamEvent::ReadFailed("connection reset".to_string()),
    ]);
    assert_eq!(responses(&relayed.records), vec!["a".to_string(), "b".to_string()]);
    match &relayed.failure {
        Some(Error::Request(report)) => assert_eq!(report, "connection reset"),
        other => panic!("unexpected failure: {:?}", other),
    }
}

#[test]
fn read_failure_fails_the_response_as_a_whole() {
    let relayed = relay(vec![
        chunk("{\"response\":\"a\"}"),
        StreamEvent::ReadFailed("connection reset".to_string()),
    ]);
    match relayed.into_result() {
        Err(Error::Request(report)) => assert_eq!(report, "connection reset"),
        other => panic!("unexpected result: {:?}", other),
    }
}

#[test]
fn nothing_is_produced_after_a_read_failure() {
    let relayed = relay(vec![
        chunk("{\"response\":\"a\"}"),
        StreamEvent::ReadFailed("first".to_string()),
        chunk("{\"response\":\"b\"}"),
        StreamEvent::ReadFailed("second".to_string()),
        StreamEvent::Closed,
    ]);
    assert_eq!(responses(&relayed.records), vec!["a".to_string()]);
    match &relayed.failure {
        Some(Error::Request(report)) => assert_eq!(report, "first"),
        other => panic!("unexpected failure: {:?}", other),
    }
}

#[test]
fn nothing_is_produced_after_the_close() {
    let relayed = relay(vec![
        chunk("{\"response\":\"a\"}"),
        StreamEvent::Closed,
        chunk("{\"response\":\"b\"}"),
        StreamEvent::ReadFailed("late".to_string()),
    ]);
    assert_eq!(responses(&relayed.records), vec!["a".to_string()]);
    assert!(relayed.failure.is_none());
}

#[test]
fn read_failure_before_any_record_yields_none() {
    let relayed = relay(vec![StreamEvent::ReadFailed("refused".to_string())]);
    assert!(relayed.records.is_empty());
    assert!(matches!(relayed.failure, Some(Error::Request(_))));
}
