//! End-to-end behavior of the device core: counting, dispatch, recovery
//! from garbage on the line, and edge generation.

use rfb::counter::EventCounter;
use rfb::dispatcher::Dispatcher;
use rfb::edge::Monitor;
use rfb::generator::GeneratorState;
use rfb::{arguments, interface};

#[test]
fn counter_counts_and_resets() {
    let mut counter = EventCounter::new();
    counter.increment();
    counter.increment();
    counter.increment();
    assert_eq!(counter.read_and_reset(), 3);
    assert_eq!(counter.read_and_reset(), 0);
}

#[test]
fn empty_window_reads_zero_twice() {
    let mut counter = EventCounter::new();
    assert_eq!(counter.read_and_reset(), 0);
    assert_eq!(counter.read_and_reset(), 0);
}

#[test]
fn get_count_scenario() {
    let mut device = Dispatcher::new(b"dev".to_vec());
    // Counter at zero.
    let replies = device.service(&[0x00]);
    assert_eq!(replies, vec![vec![0x00, 0x00, 0x00, 0x00, 0x00]]);
    // Three edges, then a query: three, little-endian.
    device.on_edge();
    device.on_edge();
    device.on_edge();
    let replies = device.service(&[0x00]);
    assert_eq!(replies, vec![vec![0x00, 0x03, 0x00, 0x00, 0x00]]);
    // The query reset the counter: asking again reads zero.
    let replies = device.service(&[0x00]);
    assert_eq!(replies, vec![vec![0x00, 0x00, 0x00, 0x00, 0x00]]);
}

#[test]
fn resync_after_unknown_discriminant() {
    let mut device = Dispatcher::new(Vec::new());
    device.on_edge();
    // One garbage byte, then a valid count query: exactly one reply.
    let replies = device.service(&[0xff, 0x00]);
    assert_eq!(replies, vec![vec![0x00, 0x01, 0x00, 0x00, 0x00]]);
}

#[test]
fn who_are_you_reports_identity() {
    let mut device = Dispatcher::new(b"dev".to_vec());
    let replies = device.service(&[0x01]);
    assert_eq!(replies.len(), 1);
    let frame = &replies[0];
    assert_eq!(frame.len(), 21);
    match interface::identity_from_reply(frame) {
        Some(id) => assert_eq!(id, b"dev".to_vec()),
        None => panic!("identity reply expected"),
    }
}

#[test]
fn generation_scenario() {
    let mut device = Dispatcher::new(Vec::new());
    // Generate(edge_count=5, period=2) while idle: accepted at once.
    let command = [0x02, 5, 0, 0, 0, 2, 0, 0, 0, 0, 0, 0, 0];
    let replies = device.service(&command);
    assert_eq!(replies, vec![vec![0x00]]);
    assert_eq!(
        device.generation_status(),
        GeneratorState::Running {
            remaining_edges: 5,
            period_picos: 2
        }
    );
    // A second command while running is refused; the first keeps running.
    let replies = device.service(&command);
    assert_eq!(replies, vec![vec![0x01]]);
    assert_eq!(
        device.generation_status(),
        GeneratorState::Running {
            remaining_edges: 5,
            period_picos: 2
        }
    );
    // Nothing to report until the last edge is driven.
    assert_eq!(device.take_generation_report(), None);
    for _ in 0..4 {
        device.generation_edge();
        assert_eq!(device.take_generation_report(), None);
    }
    device.generation_edge();
    assert_eq!(device.generation_status(), GeneratorState::Finished);
    // Exactly one finish report comes out.
    assert_eq!(device.take_generation_report(), Some(vec![0x02]));
    assert_eq!(device.take_generation_report(), None);
    // Finished, the generator accepts a new command.
    let replies = device.service(&command);
    assert_eq!(replies, vec![vec![0x00]]);
}

#[test]
fn drive_fault_reports_failure() {
    let mut device = Dispatcher::new(Vec::new());
    let command = [0x02, 3, 0, 0, 0, 9, 0, 0, 0, 0, 0, 0, 0];
    let replies = device.service(&command);
    assert_eq!(replies, vec![vec![0x00]]);
    device.generation_edge();
    device.generation_fault();
    assert_eq!(device.generation_status(), GeneratorState::Failed);
    assert_eq!(device.take_generation_report(), Some(vec![0x01]));
    assert_eq!(device.take_generation_report(), None);
}

#[test]
fn zero_edges_finish_immediately() {
    let mut device = Dispatcher::new(Vec::new());
    let command = [0x02, 0, 0, 0, 0, 1, 0, 0, 0, 0, 0, 0, 0];
    let replies = device.service(&command);
    assert_eq!(replies, vec![vec![0x00]]);
    assert_eq!(device.generation_status(), GeneratorState::Finished);
    assert_eq!(device.take_generation_report(), Some(vec![0x02]));
}

#[test]
fn edges_during_generation_still_count() {
    let mut device = Dispatcher::new(Vec::new());
    let command = [0x02, 1, 0, 0, 0, 1, 0, 0, 0, 0, 0, 0, 0];
    device.service(&command);
    device.on_edge();
    device.generation_edge();
    device.on_edge();
    let replies = device.service(&[0x00]);
    assert_eq!(replies, vec![vec![0x00, 0x02, 0x00, 0x00, 0x00]]);
}

#[test]
fn partial_command_is_assembled_byte_by_byte() {
    let mut device = Dispatcher::new(Vec::new());
    let command = [0x02, 2, 0, 0, 0, 7, 0, 0, 0, 0, 0, 0, 0];
    for &byte in &command[..12] {
        assert_eq!(device.on_byte(byte), None);
    }
    assert_eq!(device.on_byte(command[12]), Some(vec![0x00]));
    assert_eq!(
        device.generation_status(),
        GeneratorState::Running {
            remaining_edges: 2,
            period_picos: 7
        }
    );
}

#[test]
fn monitor_latches_low_periods() {
    // Line high at construction; each high-to-low transition is one edge,
    // however long the line then stays low.
    let mut monitor = Monitor::from_level(true);
    let levels = [true, false, false, true, false];
    let mut edges = 0;
    for &high in &levels {
        if monitor.sample(high) {
            edges += 1;
        }
    }
    assert_eq!(edges, 2);
    // A line already low at construction reports its first low sample.
    let mut monitor = Monitor::from_level(false);
    assert!(monitor.sample(false));
    assert!(!monitor.sample(false));
}

#[test]
fn client_actions_encode_their_requests() {
    let action = interface::Action::GetCount;
    assert_eq!(action.request_frame(), vec![0x00]);
    let action = interface::Action::GetDeviceId;
    assert_eq!(action.request_frame(), vec![0x01]);
    let action = interface::Action::Generate {
        rising_edges: 5,
        period_picos: 2,
    };
    assert_eq!(
        action.request_frame(),
        vec![0x02, 5, 0, 0, 0, 2, 0, 0, 0, 0, 0, 0, 0]
    );

    let action = arguments::Action::GetCount {
        port: vec!["p0".to_string(), "p1".to_string()],
    };
    assert_eq!(action.request_frame(), vec![0x00]);
    let action = arguments::Action::Generate {
        port: "p0".to_string(),
        rising_edges: 5,
        period_picos: 2,
    };
    assert_eq!(
        action.request_frame(),
        vec![0x02, 5, 0, 0, 0, 2, 0, 0, 0, 0, 0, 0, 0]
    );
}

#[test]
fn client_reads_replies() {
    assert_eq!(interface::count_from_reply(&[0x00, 7, 0, 0, 0]), Some(7));
    assert_eq!(interface::count_from_reply(&[0x00, 7, 0, 0]), None);
    let mut identity_frame = vec![0x01, 2, b'h', b'i'];
    identity_frame.resize(21, 0);
    assert_eq!(interface::count_from_reply(&identity_frame), None);
    assert_eq!(
        interface::identity_from_reply(&identity_frame),
        Some(b"hi".to_vec())
    );
    assert_eq!(interface::identity_from_reply(&[0x00, 7, 0, 0, 0]), None);
}

#[test]
fn legacy_device_serves_message_request() {
    let mut counter = EventCounter::new();
    for _ in 0..84 {
        counter.increment();
    }
    // A byte that is no request leaves the counter alone.
    assert_eq!(rfb::dispatcher::service_message_byte(&mut counter, 0x07), None);
    let reply = rfb::dispatcher::service_message_byte(&mut counter, 0x00).unwrap();
    assert_eq!(reply, vec![0x01, 84, 0x00, 0x00, 0x00, 0x00, 0x00, 0x00, 0x00]);
    // The request reset the counter.
    let reply = rfb::dispatcher::service_message_byte(&mut counter, 0x00).unwrap();
    assert_eq!(reply, vec![0x01, 0x00, 0x00, 0x00, 0x00, 0x00, 0x00, 0x00, 0x00]);
}

#[test]
fn counter_answers_low_word_on_wire() {
    let mut device = Dispatcher::new(Vec::new());
    for _ in 0..0x1_0001u64 {
        device.on_edge();
    }
    let replies = device.service(&[0x00]);
    assert_eq!(replies, vec![vec![0x00, 0x01, 0x00, 0x01, 0x00]]);
}
