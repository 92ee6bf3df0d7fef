use json_command_server::framer::{FrameError, FrameStep, ReadEvent};
use json_command_server::scan::{FrameScanState, ScanStatus};

fn received(bytes: &[u8]) -> ReadEvent {
    ReadEvent::Received(bytes.to_vec())
}

fn message(text: &str) -> FrameStep {
    FrameStep::Message(text.to_string())
}

/// Feeds the chunks one read at a time and returns the first step that is
/// not `ReadMore`, with the number of chunks that were used.
fn frame(state: &mut FrameScanState, chunks: &[&[u8]]) -> (FrameStep, usize) {
    for (used, chunk) in chunks.iter().enumerate() {
        let step = state.on_read(&received(chunk));
        if step != FrameStep::ReadMore {
            return (step, used + 1);
        }
    }
    (FrameStep::ReadMore, chunks.len())
}

#[test]
fn single_write_is_forwarded_whole() {
    let mut state = FrameScanState::new(1024);
    let step = state.on_read(&received(b"{\"cmd\":1}"));
    assert_eq!(step, message("{\"cmd\":1}"));
    assert_eq!(state.accumulated(), b"{\"cmd\":1}");
    assert_eq!(state.status(), ScanStatus::Complete);
    assert_eq!(state.offset(), 9);
    assert_eq!(state.open_braces(), 1);
    assert_eq!(state.close_braces(), 1);
}

#[test]
fn nested_braces_end_at_the_outer_brace() {
    let mut state = FrameScanState::new(1024);
    let step = state.on_read(&received(b"{\"a\":{\"b\":{}}}"));
    assert_eq!(step, message("{\"a\":{\"b\":{}}}"));
    assert_eq!(state.open_braces(), 3);
    assert_eq!(state.close_braces(), 3);
}

#[test]
fn chunked_writes_give_the_same_message() {
    let whole: &[u8] = b"{\"cmd\":{\"n\":1}}";
    let mut one = FrameScanState::new(1024);
    let expected = one.on_read(&received(whole));
    assert_eq!(expected, message("{\"cmd\":{\"n\":1}}"));

    for cut in 1..whole.len() {
        let mut state = FrameScanState::new(1024);
        assert_eq!(state.on_read(&received(&whole[..cut])), FrameStep::ReadMore);
        assert_eq!(state.status(), ScanStatus::Pending);
        assert_eq!(state.on_read(&received(&whole[cut..])), expected);
        assert_eq!(state.accumulated(), whole);
    }
}

#[test]
fn byte_by_byte_gives_the_same_message() {
    let whole: &[u8] = b"{\"cmd\":1}";
    let mut state = FrameScanState::new(1024);
    for (i, b) in whole.iter().enumerate() {
        let step = state.on_read(&received(&[*b]));
        if i + 1 < whole.len() {
            assert_eq!(step, FrameStep::ReadMore);
        } else {
            assert_eq!(step, message("{\"cmd\":1}"));
        }
    }
}

#[test]
fn trailing_bytes_are_dropped() {
    let mut state = FrameScanState::new(1024);
    let step = state.on_read(&received(b"{\"cmd\":1}{\"cmd\":2}"));
    assert_eq!(step, message("{\"cmd\":1}"));
    assert_eq!(state.offset(), 9);
}

#[test]
fn trailing_bytes_are_dropped_across_chunks() {
    let mut state = FrameScanState::new(1024);
    let (step, used) = frame(&mut state, &[b"{\"cm", b"d\":1}{\"cmd", b"\":2}"]);
    assert_eq!(step, message("{\"cmd\":1}"));
    assert_eq!(used, 2);
}

#[test]
fn bytes_before_the_first_brace_belong_to_the_message() {
    let mut state = FrameScanState::new(1024);
    let step = state.on_read(&received(b"xy{\"cmd\":1} z"));
    assert_eq!(step, message("xy{\"cmd\":1}"));
}

#[test]
fn braces_inside_quotes_are_counted() {
    let mut state = FrameScanState::new(1024);
    let step = state.on_read(&received(b"{\"text\":\"}\",\"n\":1}"));
    assert_eq!(step, message("{\"text\":\"}"));
}

#[test]
fn balance_is_by_count() {
    let mut state = FrameScanState::new(1024);
    assert_eq!(state.on_read(&received(b"}")), FrameStep::ReadMore);
    assert_eq!(state.on_read(&received(b"{")), message("}{"));
}

#[test]
fn no_braces_is_no_message() {
    let mut state = FrameScanState::new(1024);
    assert_eq!(state.on_read(&received(b"hello")), FrameStep::ReadMore);
    assert_eq!(state.status(), ScanStatus::Pending);
    assert_eq!(state.offset(), 5);
    assert_eq!(state.open_braces(), 0);
}

#[test]
fn unbalanced_payload_waits_for_more() {
    let mut state = FrameScanState::new(1024);
    assert_eq!(state.on_read(&received(b"{\"cmd\":1")), FrameStep::ReadMore);
    assert_eq!(
        state.on_read(&ReadEvent::Failed),
        FrameStep::Rejected(FrameError::IncompleteOrTimedOut)
    );
    assert_eq!(state.accumulated(), b"{\"cmd\":1");
}

#[test]
fn silent_client_times_out_without_a_message() {
    let mut state = FrameScanState::new(1024);
    assert_eq!(
        state.on_read(&ReadEvent::Failed),
        FrameStep::Rejected(FrameError::IncompleteOrTimedOut)
    );
    assert_eq!(state.offset(), 0);
    state.reset();
    assert_eq!(state.on_read(&received(b"{\"cmd\":2}")), message("{\"cmd\":2}"));
}

#[test]
fn peer_that_closes_at_once_gives_no_message() {
    let mut state = FrameScanState::new(1024);
    assert_eq!(state.on_read(&received(b"")), FrameStep::PeerClosed);
    assert_eq!(state.status(), ScanStatus::Pending);
}

#[test]
fn peer_that_closes_midway_gives_no_message() {
    let mut state = FrameScanState::new(1024);
    let (step, used) = frame(&mut state, &[b"{\"cmd\"", b""]);
    assert_eq!(step, FrameStep::PeerClosed);
    assert_eq!(used, 2);
}

#[test]
fn message_of_exactly_the_capacity_is_taken() {
    let mut state = FrameScanState::new(9);
    assert_eq!(state.capacity(), 9);
    assert_eq!(state.on_read(&received(b"{\"cmd\":1}")), message("{\"cmd\":1}"));
}

#[test]
fn message_one_byte_over_the_capacity_is_too_long() {
    let mut state = FrameScanState::new(8);
    assert_eq!(
        state.on_read(&received(b"{\"cmd\":1}")),
        FrameStep::Rejected(FrameError::MessageTooLong)
    );
    assert_eq!(state.status(), ScanStatus::TooLong);
    assert_eq!(state.accumulated(), b"{\"cmd\":1");
}

#[test]
fn full_buffer_is_too_long_only_when_another_byte_comes() {
    let mut state = FrameScanState::new(4);
    assert_eq!(state.on_read(&received(b"{abc")), FrameStep::ReadMore);
    assert_eq!(state.status(), ScanStatus::Pending);
    assert_eq!(
        state.on_read(&received(b"}")),
        FrameStep::Rejected(FrameError::MessageTooLong)
    );
}

#[test]
fn oversized_payload_in_small_writes_is_too_long() {
    let mut state = FrameScanState::new(16);
    let (step, used) = frame(
        &mut state,
        &[b"{\"k\":\"", b"aaaaaaaa", b"aaaaaaaa", b"\"}"],
    );
    assert_eq!(step, FrameStep::Rejected(FrameError::MessageTooLong));
    assert_eq!(used, 3);
    assert_eq!(state.offset(), 16);
}

#[test]
fn oversized_payload_in_one_write_is_too_long() {
    let mut payload = vec![b'{'];
    payload.extend(std::iter::repeat(b'a').take(2000));
    payload.push(b'}');
    let mut state = FrameScanState::new(1024);
    assert_eq!(
        state.on_read(&ReadEvent::Received(payload)),
        FrameStep::Rejected(FrameError::MessageTooLong)
    );
    assert_eq!(state.offset(), 1024);
}

#[test]
fn zero_capacity_takes_nothing() {
    let mut state = FrameScanState::new(0);
    assert_eq!(
        state.on_read(&received(b"{}")),
        FrameStep::Rejected(FrameError::MessageTooLong)
    );
    assert_eq!(state.offset(), 0);
}

#[test]
fn a_finished_scan_takes_nothing_more() {
    let mut state = FrameScanState::new(1024);
    assert_eq!(state.scan(b"{}"), ScanStatus::Complete);
    assert_eq!(state.scan(b"{{{"), ScanStatus::Complete);
    assert_eq!(state.accumulated(), b"{}");

    let mut full = FrameScanState::new(2);
    assert_eq!(full.scan(b"{{{"), ScanStatus::TooLong);
    assert_eq!(full.scan(b"}}"), ScanStatus::TooLong);
    assert_eq!(full.accumulated(), b"{{");
    assert_eq!(full.scan(b""), ScanStatus::TooLong);
}

#[test]
fn empty_chunk_changes_nothing() {
    let mut state = FrameScanState::new(1024);
    assert_eq!(state.scan(b"{a"), ScanStatus::Pending);
    assert_eq!(state.scan(b""), ScanStatus::Pending);
    assert_eq!(state.accumulated(), b"{a");
}

#[test]
fn reset_starts_from_nothing() {
    let mut state = FrameScanState::new(32);
    assert_eq!(state.scan(b"{{{{"), ScanStatus::Pending);
    state.reset();
    assert_eq!(state.capacity(), 32);
    assert_eq!(state.offset(), 0);
    assert_eq!(state.open_braces(), 0);
    assert_eq!(state.close_braces(), 0);
    assert_eq!(state.status(), ScanStatus::Pending);
    assert_eq!(state.accumulated(), b"");
    assert_eq!(state.scan(b"{}"), ScanStatus::Complete);

    let mut full = FrameScanState::new(1);
    assert_eq!(full.scan(b"ab"), ScanStatus::TooLong);
    full.reset();
    assert_eq!(full.status(), ScanStatus::Pending);
}

#[test]
fn invalid_utf8_is_replaced() {
    let mut state = FrameScanState::new(1024);
    let step = state.on_read(&received(&[b'{', 0xff, b'a', 0xc3, b'}']));
    assert_eq!(step, message("{\u{fffd}a\u{fffd}}"));
    assert_eq!(state.offset(), 5);
}

#[test]
fn multibyte_text_is_decoded() {
    let mut state = FrameScanState::new(1024);
    let text = "{\"name\":\"Zoë ☃\"}";
    let step = state.on_read(&received(text.as_bytes()));
    assert_eq!(step, message(text));
}

#[test]
fn two_connections_are_forwarded_in_order() {
    let (tx, rx) = std::sync::mpsc::channel::<String>();
    let mut state = FrameScanState::new(1024);
    for payload in [&b"{\"cmd\":1}"[..], &b"{\"cmd\":2}"[..]] {
        state.reset();
        if let FrameStep::Message(text) = state.on_read(&received(payload)) {
            tx.send(text).unwrap();
        }
    }
    assert_eq!(rx.try_recv().unwrap(), "{\"cmd\":1}");
    assert_eq!(rx.try_recv().unwrap(), "{\"cmd\":2}");
    assert!(rx.try_recv().is_err());
}

#[test]
fn a_rejected_connection_does_not_disturb_the_next() {
    let mut state = FrameScanState::new(8);
    let mut forwarded: Vec<String> = Vec::new();
    let connections: [&[&[u8]]; 4] = [
        &[b"{\"a\":1}"],
        &[b"{\"too\":", b"\"long\"}"],
        &[b"{\"b\"", b""],
        &[b"{\"c\":", b"3}"],
    ];
    for chunks in connections {
        state.reset();
        if let (FrameStep::Message(text), _) = frame(&mut state, chunks) {
            forwarded.push(text);
        }
    }
    assert_eq!(forwarded, vec!["{\"a\":1}".to_string(), "{\"c\":3}".to_string()]);
}
