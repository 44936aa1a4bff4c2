use minidsp::packet;
use minidsp_devtools::bulk::{dump, SkipSink};
use minidsp_devtools::session::{read_session, RecordedMessage};
use minidsp_devtools::transcript::decode;

fn bulk(payload: &[u8]) -> RecordedMessage {
    let mut packet_bytes = vec![0x12];
    packet_bytes.extend_from_slice(payload);
    RecordedMessage::Sent(packet::frame(packet_bytes).to_vec())
}

fn read_floats() -> Vec<u8> {
    vec![0x05, 0x14, 0x00, 0x46, 0x04, 0x63]
}

#[test]
fn bulk_payloads_are_joined_and_the_front_is_skipped() {
    let session = vec![
        bulk(&[0x01, 0x02]),
        RecordedMessage::Received(vec![0x05, 0x14, 0x00, 0x46, 0x00, 0x00, 0x00]),
        bulk(&[0x03, 0x04]),
    ];
    assert_eq!(dump(Some(1), &session), vec![0x02, 0x03, 0x04]);
}

#[test]
fn a_session_without_bulk_transfers_dumps_nothing() {
    let session = vec![
        RecordedMessage::Sent(read_floats()),
        RecordedMessage::Received(vec![0x05, 0x14, 0x00, 0x46, 0x00, 0x00, 0x00]),
        RecordedMessage::Sent(packet::frame(vec![0x06, 0x01, 0x02]).to_vec()),
    ];
    assert_eq!(dump(None, &session), Vec::<u8>::new());
    assert_eq!(dump(Some(0), &session), Vec::<u8>::new());
    assert_eq!(dump(Some(3), &session), Vec::<u8>::new());
    let numbers: Vec<u64> = decode(&session).iter().map(|label| label.number).collect();
    assert_eq!(numbers, vec![1, 1, 2]);
}

#[test]
fn without_a_skip_count_the_whole_stream_is_dumped() {
    let session = vec![bulk(&[1, 2, 3]), bulk(&[]), bulk(&[4]), bulk(&[5, 6])];
    assert_eq!(dump(None, &session), vec![1, 2, 3, 4, 5, 6]);
    assert_eq!(dump(Some(0), &session), vec![1, 2, 3, 4, 5, 6]);
}

#[test]
fn the_skip_count_runs_across_payloads() {
    let session = vec![bulk(&[1, 2, 3]), bulk(&[4]), bulk(&[5, 6])];
    assert_eq!(dump(Some(2), &session), vec![3, 4, 5, 6]);
    assert_eq!(dump(Some(3), &session), vec![4, 5, 6]);
    assert_eq!(dump(Some(4), &session), vec![5, 6]);
    assert_eq!(dump(Some(5), &session), vec![6]);
}

#[test]
fn skipping_the_whole_stream_or_more_leaves_nothing() {
    let session = vec![bulk(&[1, 2, 3]), bulk(&[4])];
    assert_eq!(dump(Some(4), &session), Vec::<u8>::new());
    assert_eq!(dump(Some(5), &session), Vec::<u8>::new());
    assert_eq!(dump(Some(usize::MAX), &session), Vec::<u8>::new());
}

#[test]
fn an_empty_session_dumps_nothing() {
    assert_eq!(dump(None, &[]), Vec::<u8>::new());
    assert_eq!(dump(Some(7), &[]), Vec::<u8>::new());
}

#[test]
fn received_bulk_transfers_are_not_part_of_the_stream() {
    let received = match bulk(&[9, 9]) {
        RecordedMessage::Sent(bytes) => RecordedMessage::Received(bytes),
        other => other,
    };
    let session = vec![bulk(&[1]), received, bulk(&[2])];
    assert_eq!(dump(None, &session), vec![1, 2]);
}

#[test]
fn messages_that_do_not_decode_are_passed_over() {
    let session = vec![
        RecordedMessage::Sent(vec![]),
        bulk(&[1]),
        RecordedMessage::Sent(vec![0x09, 0x12, 0x01]),
        RecordedMessage::Sent(vec![0x06, 0x30, 0, 0, 0, 0, 0]),
        bulk(&[2]),
    ];
    assert_eq!(dump(None, &session), vec![1, 2]);
}

#[test]
fn a_session_read_from_text_is_dumped() {
    let text: Vec<String> = ["Sent: 0412010219", "not a message", "Recv: 0412ffff", "Sent: 0412030420"]
        .iter()
        .map(|line| line.to_string())
        .collect();
    assert_eq!(dump(Some(1), &read_session(&text)), vec![0x02, 0x03, 0x04]);
}

#[test]
fn a_sink_drops_its_count_and_lets_the_rest_through() {
    let mut sink = SkipSink::new(Some(3));
    assert_eq!(sink.left(), 3);
    assert_eq!(sink.forward(&[1, 2]), &[] as &[u8]);
    assert_eq!(sink.left(), 1);
    assert_eq!(sink.forward(&[]), &[] as &[u8]);
    assert_eq!(sink.left(), 1);
    assert_eq!(sink.forward(&[3, 4, 5]), &[4, 5]);
    assert_eq!(sink.left(), 0);
    assert_eq!(sink.forward(&[6]), &[6]);
    assert_eq!(sink.left(), 0);
}

#[test]
fn a_sink_without_a_count_lets_everything_through() {
    let mut sink = SkipSink::new(None);
    assert_eq!(sink.left(), 0);
    assert_eq!(sink.forward(&[1, 2, 3]), &[1, 2, 3]);
    let mut zero = SkipSink::new(Some(0));
    assert_eq!(zero.forward(&[1]), &[1]);
}

#[test]
fn feeding_payloads_through_a_sink_matches_the_dump() {
    let payloads: [&[u8]; 4] = [&[1, 2], &[], &[3, 4, 5], &[6]];
    let session: Vec<RecordedMessage> = payloads.iter().map(|payload| bulk(payload)).collect();
    for skip in 0..8usize {
        let mut sink = SkipSink::new(Some(skip));
        let mut streamed = Vec::new();
        for payload in payloads {
            streamed.extend_from_slice(sink.forward(payload));
        }
        assert_eq!(streamed, dump(Some(skip), &session));
    }
}
