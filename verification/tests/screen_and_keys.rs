use spi_console::channel::SPIChannel;
use spi_console::clock::Timestamp;
use spi_console::console::{Console, GeneratorStep, KeyAction};
use spi_console::messages::{MessageLevel, Messages};
use spi_console::random::{random_burst, random_bytes, random_data, random_pieces};
use spi_console::screen::{
    column_titles, completed_title, hotkeys_text, level_tint, row_tint, unanswered_title, Tint,
};

#[test]
fn keys() {
    assert_eq!(KeyAction::from_key('q'), KeyAction::Quit);
    assert_eq!(KeyAction::from_key('r'), KeyAction::RandomEchoes);
    assert_eq!(KeyAction::from_key('s'), KeyAction::PresetEcho);
    assert_eq!(KeyAction::from_key('e'), KeyAction::SingleEvent);
    assert_eq!(KeyAction::from_key('t'), KeyAction::ToggleEvents);
    assert_eq!(KeyAction::from_key('x'), KeyAction::Ignore);
    assert_eq!(KeyAction::from_key('Q'), KeyAction::Ignore);
}

#[test]
fn the_preset_echo() {
    let mut console = Console::new();
    let mut channel = SPIChannel::new();
    let queue = channel.tx_queue();
    let action = KeyAction::PresetEcho;
    let outcome = console.press(action, action.payloads(), &mut channel);
    assert!(!outcome.quit);
    assert!(outcome.start);
    assert_eq!(console.last_command_id, 1);
    assert_eq!(queue.try_recv(), Ok(vec![1, 0, 0xFF, 0xFF, 0, 1, 2, 3, 4, 5]));
}

#[test]
fn the_single_event() {
    let mut console = Console { last_command_id: 300, random_events: true };
    let mut channel = SPIChannel::new();
    let queue = channel.tx_queue();
    channel.process_tx();
    let action = KeyAction::SingleEvent;
    let outcome = console.press(action, action.payloads(), &mut channel);
    assert!(!outcome.start);
    assert!(console.random_events);
    assert_eq!(queue.try_recv(), Ok(vec![45, 1, 1, 0, 1]));
}

#[test]
fn the_random_echoes() {
    for _ in 0..50 {
        let mut console = Console::new();
        let mut channel = SPIChannel::new();
        let queue = channel.tx_queue();
        let action = KeyAction::RandomEchoes;
        let payloads = action.payloads();
        let count = payloads.len();
        assert!(1 <= count && count <= 9);
        let expected: Vec<Vec<u8>> = payloads
            .iter()
            .enumerate()
            .map(|(i, data)| {
                let mut frame = vec![i as u8 + 1, 0, 0xFF, 0xFF];
                frame.extend(data.iter());
                frame
            })
            .collect();
        assert!(console.press(action, payloads, &mut channel).start);
        assert_eq!(console.last_command_id as usize, count);
        assert_eq!(channel.rows().len(), count);
        for frame in expected {
            assert_eq!(queue.try_recv(), Ok(frame));
        }
        assert!(queue.try_recv().is_err());
    }
}

#[test]
fn toggling_twice_is_nothing() {
    let mut console = Console::new();
    let mut channel = SPIChannel::new();
    let action = KeyAction::ToggleEvents;
    let outcome = console.press(action, action.payloads(), &mut channel);
    assert!(!outcome.quit && !outcome.start);
    assert!(console.random_events);
    console.press(action, action.payloads(), &mut channel);
    assert_eq!(console, Console::new());
    assert!(channel.rows().is_empty());
}

#[test]
fn random_events_are_sent_only_when_wanted() {
    let idle = Console { last_command_id: 4, random_events: false };
    let running = Console { last_command_id: 4, random_events: true };
    assert_eq!(idle.generator_step(), GeneratorStep::Pause(100));
    assert_eq!(running.generator_step(), GeneratorStep::Send);
}

#[test]
fn quitting_and_other_keys_send_nothing() {
    let mut console = Console::new();
    let mut channel = SPIChannel::new();
    let outcome = console.press(KeyAction::Quit, KeyAction::Quit.payloads(), &mut channel);
    assert!(outcome.quit && !outcome.start);
    let outcome = console.press(KeyAction::Ignore, KeyAction::Ignore.payloads(), &mut channel);
    assert!(!outcome.quit && !outcome.start);
    assert!(channel.rows().is_empty());
    assert_eq!(console, Console::new());
}

#[test]
fn numbers_run_on_until_there_are_none() {
    let mut console = Console { last_command_id: 65_533, random_events: false };
    assert!(console.has_ids(2));
    assert!(!console.has_ids(3));
    assert_eq!(console.next_command_id(), 65_534);
    let mut channel = SPIChannel::new();
    assert!(console.issue(1, vec![], &mut channel));
    assert_eq!(channel.rows()[0].1[2], "65535");
    assert!(console.has_ids(0));
    assert!(!console.has_ids(1));
}

#[test]
fn several_commands_at_once() {
    let mut console = Console::new();
    let mut channel = SPIChannel::new();
    assert!(!console.issue_all(1, vec![], &mut channel));
    assert!(console.issue_all(1, vec![vec![9], vec![]], &mut channel));
    assert!(!console.issue_all(2, vec![vec![8]], &mut channel));
    let rows = channel.rows();
    assert_eq!(rows.len(), 3);
    assert_eq!((rows[0].1[2].as_str(), rows[0].1[4].as_str()), ("1", "09"));
    assert_eq!((rows[1].1[2].as_str(), rows[1].1[4].as_str()), ("2", ""));
    assert_eq!((rows[2].1[2].as_str(), rows[2].1[3].as_str()), ("3", "2"));
}

#[test]
fn random_data_keep_their_limits() {
    let mut longest = 0;
    for _ in 0..2000 {
        let data = random_data(10);
        assert!(data.len() < 10);
        assert!(data.iter().all(|b| *b < 255));
        longest = longest.max(data.len());
    }
    assert_eq!(longest, 9);
    assert!(random_data(1).is_empty());
    for _ in 0..200 {
        let burst = random_burst(5);
        assert!(1 <= burst.len() && burst.len() <= 9);
        assert!(burst.iter().all(|data| data.len() < 5));
    }
}

#[test]
fn random_data_of_a_given_size() {
    assert!(random_bytes(0).is_empty());
    let data = random_bytes(200);
    assert_eq!(data.len(), 200);
    assert!(data.iter().all(|b| *b < 255));
    assert_ne!(data, random_bytes(200));
    assert!(random_pieces(0, 5).is_empty());
    let pieces = random_pieces(9, 5);
    assert_eq!(pieces.len(), 9);
    assert!(pieces.iter().all(|piece| piece.len() < 5));
}

#[test]
fn the_log_selects_its_last_message() {
    let mut messages = Messages::new();
    assert_eq!(messages.len(), 0);
    assert_eq!(messages.selected(), None);
    messages.push_at(MessageLevel::INFO, "one".to_string(), Timestamp { secs: 1, nanos: 2 });
    assert_eq!(messages.selected(), Some(0));
    messages.push(MessageLevel::CRITICAL, "two".to_string());
    assert_eq!(messages.selected(), Some(1));
    assert_eq!(messages.len(), 2);
    assert_eq!(messages.get(0).line(), "00:00:01.000000002 INFO: one");
    assert_eq!(messages.get(1).level(), MessageLevel::CRITICAL);
    assert!(messages.get(1).line().ends_with(" CRITICAL: two"));
}

#[test]
fn level_names() {
    assert_eq!(MessageLevel::INFO.to_text(), "INFO");
    assert_eq!(MessageLevel::ERROR.to_text(), "ERROR");
    assert_eq!(MessageLevel::CRITICAL.to_text(), "CRITICAL");
    let levels = [MessageLevel::INFO, MessageLevel::ERROR, MessageLevel::CRITICAL];
    for a in levels {
        for b in levels {
            assert_eq!(a == b, a.to_text() == b.to_text());
        }
    }
}

#[test]
fn colours() {
    assert_eq!(row_tint(true), Tint::Green);
    assert_eq!(row_tint(false), Tint::Red);
    assert_eq!(level_tint(MessageLevel::INFO), Tint::White);
    assert_eq!(level_tint(MessageLevel::ERROR), Tint::Magenta);
    assert_eq!(level_tint(MessageLevel::CRITICAL), Tint::Red);
}

#[test]
fn titles() {
    assert_eq!(unanswered_title(0), "Unanswered Commands [0]");
    assert_eq!(completed_title(12), "Completed Commands [12]");
    assert_eq!(
        hotkeys_text(true),
        "s: Single preformatted echo command          r: Single Shot of Random number of random echo commands        t: Toggle Random Event Generation Running"
    );
    assert!(hotkeys_text(false).ends_with(" Not Running"));
    assert_eq!(
        column_titles(),
        vec!["Tx Time", "Size", "ID", "Command", "Data", "", "Rx Time", "Delta Time", "Response"]
    );
}
