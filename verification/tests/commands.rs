use spi_console::clock::Timestamp;
use spi_console::command::SPICommand;


#[test]
fn new_command_shows_its_row() {
    let now = Timestamp { secs: 1_588_334_403, nanos: 7_000 };
    let command = SPICommand::new_at(513, 0xFFFF, vec![0, 1, 2, 3, 0xAB, 0xFF], now);
    assert_eq!(
        command.get_row_vector(),
        vec!["12:00:03.000007000", "6", "513", "65535", "00 01 02 03 ab ff", "", "", "", ""]
    );
    assert!(!command.is_completed());
    assert_eq!(command.id(), 513);
}

#[test]
fn command_without_data_has_an_empty_dump() {
    let now = Timestamp { secs: 0, nanos: 0 };
    let command = SPICommand::new_at(0, 1, vec![], now);
    assert_eq!(
        command.get_row_vector(),
        vec!["00:00:00.000000000", "0", "0", "1", "", "", "", "", ""]
    );
}

#[test]
fn moment_before_1970_is_written() {
    let now = Timestamp { secs: -1, nanos: 999_999_999 };
    let command = SPICommand::new_at(9, 1, vec![16], now);
    assert_eq!(command.get_row_vector()[0], "23:59:59.999999999");
    assert_eq!(command.get_row_vector()[4], "10");
}

#[test]
fn serialize_puts_low_bytes_first() {
    let command = SPICommand::new(0x0102, 0x0304, vec![5, 6, 7]);
    assert_eq!(command.serialize(), vec![0x02, 0x01, 0x04, 0x03, 5, 6, 7]);
}

#[test]
fn serialize_without_data_is_a_header() {
    let command = SPICommand::new(0xFFFF, 0, vec![]);
    assert_eq!(command.serialize(), vec![0xFF, 0xFF, 0, 0]);
}

#[test]
fn frame_header_can_be_read_back() {
    let command = SPICommand::new(40_000, 257, vec![9, 9]);
    let frame = command.serialize();
    let header = spi_console::wire::RxHeader::parse(&[frame[0], frame[1], frame[2], frame[3]]);
    assert_eq!(header.message_id, 40_000);
    assert_eq!(header.message_size, 257);
    assert_eq!(frame[4..].to_vec(), vec![9, 9]);
}

#[test]
fn different_commands_have_different_frames_and_rows() {
    let now = Timestamp { secs: 5, nanos: 5 };
    let a = SPICommand::new_at(1, 2, vec![3], now);
    let b = SPICommand::new_at(1, 2, vec![3, 0], now);
    let c = SPICommand::new_at(2, 2, vec![3], now);
    assert_ne!(a.serialize(), b.serialize());
    assert_ne!(a.serialize(), c.serialize());
    assert_ne!(a.get_row_vector(), b.get_row_vector());
    assert_ne!(a.get_row_vector(), c.get_row_vector());
}

#[test]
fn writing_the_row_anew_changes_nothing() {
    let now = Timestamp { secs: 5, nanos: 5 };
    let mut command = SPICommand::new_at(1, 2, vec![3, 4], now);
    let before = command.get_row_vector();
    command.update_row_vector();
    assert_eq!(command.get_row_vector(), before);
}

#[test]
fn new_command_is_made_now() {
    let before = Timestamp::now();
    let command = SPICommand::new(1, 1, vec![]);
    let after = Timestamp::now();
    assert!(before.secs > 1_500_000_000);
    assert!(after.secs >= before.secs);
    let row = command.get_row_vector();
    assert_eq!(row.len(), 9);
    assert_eq!(row[0].len(), 18);
    assert!(row[0] >= before.to_text() || after.to_text() < before.to_text());
}
