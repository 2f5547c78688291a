use spi_console::channel::SPIChannel;
use spi_console::clock::Timestamp;
use spi_console::command::SPICommand;
use spi_console::messages::{MessageLevel, Messages};
use spi_console::reception::{answer_waits, spans_text, Reception};
use spi_console::transmit::{Transmitter, TxAction, TxEvent};
use spi_console::wire::RxHeader;

fn at(secs: i64, nanos: u32) -> Timestamp {
    Timestamp { secs, nanos }
}

fn ids(rows: Vec<(bool, Vec<String>)>) -> Vec<String> {
    rows.into_iter().map(|row| row.1[2].clone()).collect()
}

#[test]
fn a_fresh_channel_is_empty() {
    let channel = SPIChannel::new();
    assert!(channel.rows().is_empty());
    assert!(channel.completed_rows().is_empty());
    assert!(channel.tx_queue().try_recv().is_err());
}

#[test]
fn sending_queues_the_frame_and_claims_the_writing() {
    let mut channel = SPIChannel::new();
    let queue = channel.tx_queue();
    assert!(channel.send_command(SPICommand::new_at(1, 2, vec![3], at(10, 0))));
    assert!(!channel.send_command(SPICommand::new_at(2, 2, vec![], at(11, 0))));
    assert_eq!(ids(channel.rows()), vec!["1", "2"]);
    assert_eq!(queue.try_recv(), Ok(vec![1, 0, 2, 0, 3]));
    assert_eq!(queue.try_recv(), Ok(vec![2, 0, 2, 0]));
    assert!(queue.try_recv().is_err());
}

#[test]
fn only_one_writer_at_a_time() {
    let mut channel = SPIChannel::new();
    assert!(channel.process_tx());
    assert!(!channel.process_tx());
    channel.finish_tx();
    assert!(channel.process_tx());
}

#[test]
fn an_answer_completes_its_command() {
    let mut channel = SPIChannel::new();
    channel.send_command(SPICommand::new_at(7, 0xFFFF, vec![1, 2], at(100, 250_000_000)));
    channel.receive_response_at(7, vec![1, 2, 0xC3], at(100, 500_000_000));
    assert!(channel.rows().is_empty());
    assert_eq!(
        channel.completed_rows(),
        vec![(
            true,
            vec![
                "00:01:40.250000000".to_string(),
                "2".to_string(),
                "7".to_string(),
                "65535".to_string(),
                "01 02".to_string(),
                "".to_string(),
                "00:01:40.500000000".to_string(),
                "PT0.25S".to_string(),
                "01 02 c3".to_string(),
            ]
        )]
    );
}

#[test]
fn an_empty_answer_completes_too() {
    let mut channel = SPIChannel::new();
    channel.send_command(SPICommand::new_at(7, 1, vec![], at(100, 0)));
    channel.receive_response_at(7, vec![], at(100, 0));
    let rows = channel.completed_rows();
    assert!(rows[0].0);
    assert_eq!(rows[0].1[6], "00:01:40.000000000");
    assert_eq!(rows[0].1[7], "P0D");
    assert_eq!(rows[0].1[8], "");
}

#[test]
fn a_stray_answer_changes_nothing() {
    let mut channel = SPIChannel::new();
    channel.send_command(SPICommand::new_at(7, 1, vec![], at(100, 0)));
    let before = channel.rows();
    channel.receive_response_at(8, vec![1], at(101, 0));
    assert_eq!(channel.rows(), before);
    assert!(channel.completed_rows().is_empty());
}

#[test]
fn the_first_in_line_takes_the_answer() {
    let mut channel = SPIChannel::new();
    channel.send_command(SPICommand::new_at(1, 10, vec![], at(1, 0)));
    channel.send_command(SPICommand::new_at(5, 11, vec![], at(2, 0)));
    channel.send_command(SPICommand::new_at(2, 12, vec![], at(3, 0)));
    channel.send_command(SPICommand::new_at(5, 13, vec![], at(4, 0)));
    channel.receive_response_at(5, vec![9], at(5, 0));
    assert_eq!(ids(channel.rows()), vec!["1", "2", "5"]);
    assert_eq!(channel.completed_rows()[0].1[3], "11");
    channel.receive_response_at(5, vec![8], at(6, 0));
    assert_eq!(ids(channel.rows()), vec!["1", "2"]);
    assert_eq!(channel.completed_rows()[1].1[3], "13");
    channel.receive_response_at(5, vec![7], at(7, 0));
    assert_eq!(ids(channel.rows()), vec!["1", "2"]);
    assert_eq!(channel.completed_rows().len(), 2);
}

#[test]
fn answers_in_either_order_leave_the_same_commands() {
    let make = || {
        let mut channel = SPIChannel::new();
        for id in 1..5u16 {
            channel.send_command(SPICommand::new_at(id, 1, vec![], at(1, 0)));
        }
        channel
    };
    let mut one = make();
    one.receive_response_at(2, vec![], at(2, 0));
    one.receive_response_at(4, vec![], at(2, 0));
    let mut other = make();
    other.receive_response_at(4, vec![], at(2, 0));
    other.receive_response_at(2, vec![], at(2, 0));
    assert_eq!(one.rows(), other.rows());
    assert_eq!(ids(one.rows()), vec!["1", "3"]);
    assert_eq!(ids(one.completed_rows()), vec!["2", "4"]);
    assert_eq!(ids(other.completed_rows()), vec!["4", "2"]);
    let mut swapped = other.completed_rows();
    swapped.swap(0, 1);
    assert_eq!(one.completed_rows(), swapped);
}

#[test]
fn an_answer_is_timed_by_the_clock() {
    let mut channel = SPIChannel::new();
    channel.send_command(SPICommand::new(3, 1, vec![1]));
    channel.receive_response(3, vec![4]);
    let rows = channel.completed_rows();
    assert_eq!(rows.len(), 1);
    assert_eq!(rows[0].1[6].len(), 18);
    assert!(rows[0].1[7].contains('P'));
    assert_eq!(rows[0].1[8], "04");
}

#[test]
fn as_many_frames_as_commands() {
    let mut channel = SPIChannel::new();
    let queue = channel.tx_queue();
    for id in 0..6u16 {
        channel.send_command(SPICommand::new_at(id, 1, vec![id as u8], at(1, 0)));
    }
    channel.receive_response_at(3, vec![], at(2, 0));
    assert_eq!(channel.rows().len() + channel.completed_rows().len(), 6);
    for id in 0..6u8 {
        assert_eq!(queue.try_recv(), Ok(vec![id, 0, 1, 0, id]));
    }
    assert!(queue.try_recv().is_err());
}

#[test]
fn the_writer_waits_for_the_device() {
    let (state, action) = Transmitter::new().step(TxEvent::Fetched(Some(vec![1, 2])));
    assert!(matches!(action, TxAction::ReadBusy));
    let (state, action) = state.step(TxEvent::Busy(1));
    match action {
        TxAction::Wait { level, message, pause_micros } => {
            assert_eq!(level, MessageLevel::INFO);
            assert_eq!(message, "Waiting");
            assert_eq!(pause_micros, 10_000);
        }
        _ => panic!("the device is busy"),
    }
    let (state, action) = state.step(TxEvent::Busy(0));
    match action {
        TxAction::Write { frame, pause_micros } => {
            assert_eq!(frame, vec![1, 2]);
            assert_eq!(pause_micros, 100);
        }
        _ => panic!("the device is free"),
    }
    let (state, action) = state.step(TxEvent::Fetched(None));
    assert!(matches!(action, TxAction::Stop));
    assert!(matches!(state, Transmitter::Finished));
}

#[test]
fn the_writer_empties_the_queue_in_order() {
    let mut channel = SPIChannel::new();
    for id in 1..4u16 {
        channel.send_command(SPICommand::new_at(id, 0, vec![], at(1, 0)));
    }
    let mut queue = channel.tx_queue();
    let mut written: Vec<Vec<u8>> = Vec::new();
    let mut next = Transmitter::new().fetch(&mut queue, &channel);
    loop {
        next = match next {
            (state, TxAction::ReadBusy) => state.step(TxEvent::Busy(0)),
            (state, TxAction::Wait { .. }) => state.step(TxEvent::Busy(0)),
            (state, TxAction::Write { frame, .. }) => {
                written.push(frame);
                state.fetch(&mut queue, &channel)
            }
            (_, TxAction::Stop) => break,
        };
    }
    assert_eq!(written, vec![vec![1, 0, 0, 0], vec![2, 0, 0, 0], vec![3, 0, 0, 0]]);
}

#[test]
fn headers_of_answers() {
    let header = RxHeader::parse(&[0x34, 0x12, 3, 0]);
    assert_eq!(header, RxHeader { message_id: 0x1234, message_size: 3 });
    assert_eq!(header.buffer(), vec![0, 0, 0]);
    assert_eq!(RxHeader::parse(&[0, 0, 0, 1]).buffer().len(), 256);
    assert!(RxHeader::parse(&[9, 9, 0, 0]).buffer().is_empty());
}

#[test]
fn taking_an_answer() {
    let (reception, room) = Reception::begin(&[5, 0, 2, 0], at(10, 0), at(10, 1_000));
    assert_eq!(reception.header, RxHeader { message_id: 5, message_size: 2 });
    assert_eq!(room, vec![0, 0]);
    let line = reception.line(at(20, 0), at(21, 0));
    assert!(line.starts_with("PT0.000001S : "));
    assert!(line.ends_with(" : PT1S"));
    let mut channel = SPIChannel::new();
    channel.send_command(SPICommand::new_at(5, 1, vec![], at(1, 0)));
    channel.receive_response_at(reception.header.message_id, room, at(21, 0));
    assert_eq!(channel.completed_rows()[0].1[8], "00 00");
}

#[test]
fn the_order_of_answers_shows_only_in_the_times() {
    let answers = |first: u16, second: u16| {
        let mut channel = SPIChannel::new();
        channel.send_command(SPICommand::new_at(1, 1, vec![], at(1, 0)));
        channel.send_command(SPICommand::new_at(2, 1, vec![], at(1, 0)));
        channel.receive_response_at(first, vec![first as u8], at(2, 0));
        channel.receive_response_at(second, vec![second as u8], at(3, 0));
        let mut rows = channel.completed_rows();
        rows.sort();
        for row in rows.iter_mut() {
            row.1[6] = String::new();
            row.1[7] = String::new();
        }
        rows.sort();
        rows
    };
    assert_eq!(answers(1, 2), answers(2, 1));
}

#[test]
fn an_answer_is_handed_over() {
    let header = RxHeader { message_id: 6, message_size: 2 };
    let reception = Reception::timed(header, at(1, 0), at(2, 0), at(2, 0), at(2, 500_000_000));
    assert_eq!(reception.header, header);
    let mut log = Messages::new();
    let mut channel = SPIChannel::new();
    channel.send_command(SPICommand::new_at(5, 1, vec![], at(1, 0)));
    channel.send_command(SPICommand::new_at(6, 1, vec![], at(1, 0)));
    reception.deliver(vec![7, 8], at(10, 0), at(13, 0), &mut log, &mut channel);
    assert_eq!(log.len(), 1);
    assert_eq!(log.get(0).level(), MessageLevel::INFO);
    assert!(log.get(0).line().ends_with(" INFO: PT1S : PT0.5S : PT3S"));
    assert_eq!(ids(channel.rows()), vec!["5"]);
    assert_eq!(ids(channel.completed_rows()), vec!["6"]);
    assert_eq!(channel.completed_rows()[0].1[8], "07 08");
}

#[test]
fn fetching_gives_what_was_put_in() {
    let mut channel = SPIChannel::new();
    let mut queue = channel.tx_queue();
    channel.send_command(SPICommand::new_at(3, 4, vec![5], at(1, 0)));
    let (state, action) = Transmitter::new().fetch(&mut queue, &channel);
    assert!(matches!(action, TxAction::ReadBusy));
    match state {
        Transmitter::Holding(frame) => assert_eq!(frame, vec![3, 0, 4, 0, 5]),
        _ => panic!("a frame was put in"),
    }
    let (_, action) = Transmitter::new().fetch(&mut queue, &channel);
    assert!(matches!(action, TxAction::Stop));
}

#[test]
fn two_ends_share_the_frames_in_order() {
    let mut channel = SPIChannel::new();
    let mut one = channel.tx_queue();
    let mut other = channel.tx_queue();
    for id in 1..5u16 {
        channel.send_command(SPICommand::new_at(id, 0, vec![], at(1, 0)));
    }
    assert_eq!(channel.take_frame(&mut one), Some(vec![1, 0, 0, 0]));
    assert_eq!(channel.take_frame(&mut other), Some(vec![2, 0, 0, 0]));
    assert_eq!(channel.take_frame(&mut other), Some(vec![3, 0, 0, 0]));
    assert_eq!(channel.take_frame(&mut one), Some(vec![4, 0, 0, 0]));
    assert_eq!(channel.take_frame(&mut one), None);
    assert_eq!(channel.take_frame(&mut other), None);
}

#[test]
fn three_times_in_a_line() {
    let first = spi_console::clock::Span { secs: 0, nanos: 0 };
    let second = spi_console::clock::Span { secs: 1, nanos: 0 };
    let third = spi_console::clock::Span { secs: -1, nanos: 999_000_000 };
    assert_eq!(spans_text(&first, &second, &third), "P0D : PT1S : -PT0.001S");
}

#[test]
fn an_edge_announces_an_answer() {
    assert!(answer_waits(Some(1)));
    assert!(answer_waits(Some(0)));
    assert!(!answer_waits(None));
}
