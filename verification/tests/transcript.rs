use minidsp_devtools::session::{Direction, RecordedMessage};
use minidsp_devtools::transcript::{decimal, decode, Counters, Label};

#[test]
fn sent_and_received_messages_are_numbered_apart() {
    let session = vec![
        RecordedMessage::Sent(vec![1]),
        RecordedMessage::Received(vec![2]),
        RecordedMessage::Sent(vec![3]),
    ];
    assert_eq!(
        decode(&session),
        vec![
            Label { direction: Direction::Sent, number: 1 },
            Label { direction: Direction::Received, number: 1 },
            Label { direction: Direction::Sent, number: 2 },
        ]
    );
}

#[test]
fn each_direction_counts_up_by_one_from_one() {
    let mut session = Vec::new();
    for i in 0..50u8 {
        if i % 3 == 0 {
            session.push(RecordedMessage::Received(vec![i]));
        } else {
            session.push(RecordedMessage::Sent(vec![i]));
        }
    }
    let labels = decode(&session);
    assert_eq!(labels.len(), session.len());
    let mut sent = 0;
    let mut received = 0;
    for (label, message) in labels.iter().zip(session.iter()) {
        assert_eq!(label.direction, message.direction());
        match label.direction {
            Direction::Sent => {
                sent += 1;
                assert_eq!(label.number, sent);
            }
            Direction::Received => {
                received += 1;
                assert_eq!(label.number, received);
            }
        }
    }
    assert_eq!(sent, 33);
    assert_eq!(received, 17);
}

#[test]
fn messages_that_do_not_decode_are_numbered_too() {
    let session = vec![
        RecordedMessage::Sent(vec![]),
        RecordedMessage::Sent(vec![0x09, 0x12]),
        RecordedMessage::Received(vec![]),
        RecordedMessage::Sent(vec![0x06, 0x30, 0, 0, 0, 0, 0]),
    ];
    let numbers: Vec<u64> = decode(&session).iter().map(|label| label.number).collect();
    assert_eq!(numbers, vec![1, 2, 1, 3]);
}

#[test]
fn an_empty_session_has_no_labels() {
    assert_eq!(decode(&[]), vec![]);
}

#[test]
fn a_session_of_one_direction_counts_straight_up() {
    let session: Vec<RecordedMessage> =
        (0..12u8).map(|i| RecordedMessage::Received(vec![i])).collect();
    let numbers: Vec<u64> = decode(&session).iter().map(|label| label.number).collect();
    assert_eq!(numbers, (1..=12u64).collect::<Vec<u64>>());
}

#[test]
fn counters_start_at_nothing_and_move_alone() {
    let mut counters = Counters::new();
    assert_eq!(counters.counted(Direction::Sent), 0);
    assert_eq!(counters.counted(Direction::Received), 0);
    assert_eq!(counters.feed(Direction::Received), Label { direction: Direction::Received, number: 1 });
    assert_eq!(counters.counted(Direction::Sent), 0);
    assert_eq!(counters.counted(Direction::Received), 1);
    assert_eq!(counters.feed(Direction::Received).number, 2);
    assert_eq!(counters.feed(Direction::Sent).number, 1);
    assert_eq!(counters.counted(Direction::Sent), 1);
    assert_eq!(counters.counted(Direction::Received), 2);
}

#[test]
fn a_label_opens_its_line_with_number_and_colon() {
    assert_eq!(Label { direction: Direction::Sent, number: 1 }.prefix(), "1:");
    assert_eq!(Label { direction: Direction::Received, number: 27 }.prefix(), "27:");
    assert_eq!(Label { direction: Direction::Sent, number: 1000 }.prefix(), "1000:");
    assert_eq!(
        Label { direction: Direction::Sent, number: u64::MAX }.prefix(),
        "18446744073709551615:"
    );
}

#[test]
fn numbers_are_written_in_decimal() {
    assert_eq!(decimal(0), "0");
    assert_eq!(decimal(7), "7");
    assert_eq!(decimal(9), "9");
    assert_eq!(decimal(10), "10");
    assert_eq!(decimal(109), "109");
    assert_eq!(decimal(1234567890), "1234567890");
    assert_eq!(decimal(u64::MAX), "18446744073709551615");
    for number in 0..2000u64 {
        assert_eq!(decimal(number), number.to_string());
    }
}
