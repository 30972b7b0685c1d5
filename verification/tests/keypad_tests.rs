//! Behavior of the keypad frame decoder and the two-line merge state
//! machine on concrete frames.

use cerberus::StatusLevel;
use cerberus::framer::BUFFER_CAP;
use cerberus::keypad::{decode_keypad_message, keypad_status, KeypadEventOutcome, KeypadMonitorState};
use cerberus::napco::NapcoMonitorCore;

/// A 27-byte keypad display frame with a valid checksum: marker byte,
/// line marker, the two status bytes and 16 bytes of display text.
fn keypad_frame(line_marker: u8, status1: u8, status2: u8, text: &str) -> Vec<u8> {
    assert!(text.len() <= 16);
    let mut frame = vec![0u8; 27];
    frame[1] = 27 & 0x1F; // declared length 27 (0x1B)
    frame[4] = 0x01; // keypad display frame marker
    frame[5] = line_marker;
    frame[8] = status1;
    frame[9] = status2;
    let mut padded = text.as_bytes().to_vec();
    padded.resize(16, b' ');
    frame[10..26].copy_from_slice(&padded);
    let mut sum = 0u8;
    for i in 0..26 {
        sum = sum.wrapping_add(frame[i]);
    }
    frame[26] = sum;
    frame
}

#[test]
fn known_status_pairs_map_to_labels() {
    assert_eq!(keypad_status(0x02, 0x00), "Ready");
    assert_eq!(keypad_status(0x41, 0x81), "ALARM");
    assert_eq!(keypad_status(0x45, 0x81), "ALARM, Bypass");
    assert_eq!(keypad_status(0xC5, 0xC0), "Disarm, Bypass");
    assert_eq!(keypad_status(0x01, 0x90), "Armed, Instant");
}

#[test]
fn unknown_status_pair_gets_hex_fallback() {
    assert_eq!(keypad_status(0x0A, 0x0B), "Unknown (0A,0B)");
    assert_eq!(keypad_status(0xFF, 0x00), "Unknown (FF,00)");
}

#[test]
fn decode_recognizes_both_lines() {
    let f0 = keypad_frame(0x20, 0x02, 0x00, "READY");
    let (status, line, text) = decode_keypad_message(&f0).expect("line-0 frame decodes");
    assert_eq!(status, "Ready");
    assert_eq!(line, 0);
    assert_eq!(text, "READY           ");

    let f1 = keypad_frame(0x60, 0x02, 0x00, "SYSTEM ARMED");
    let (_, line, text) = decode_keypad_message(&f1).expect("line-1 frame decodes");
    assert_eq!(line, 1);
    assert_eq!(text, "SYSTEM ARMED    ");
}

#[test]
fn decode_ignores_other_frames() {
    // Wrong length.
    assert_eq!(decode_keypad_message(&[0x00, 0x04, 0x00, 0x04]), None);
    // Right length, wrong marker byte.
    let mut f = keypad_frame(0x20, 0x02, 0x00, "READY");
    f[4] = 0x02;
    assert_eq!(decode_keypad_message(&f), None);
    // Right marker, unrecognized line marker.
    let mut f = keypad_frame(0x20, 0x02, 0x00, "READY");
    f[5] = 0x21;
    assert_eq!(decode_keypad_message(&f), None);
}

#[test]
fn invalid_text_bytes_become_replacement_characters() {
    let mut f = keypad_frame(0x20, 0x02, 0x00, "OK");
    // 0xFF is never valid UTF-8: it must come out as U+FFFD, not raw.
    f[12] = 0xFF;
    let mut sum = 0u8;
    for i in 0..26 {
        sum = sum.wrapping_add(f[i]);
    }
    f[26] = sum;
    let (_, _, text) = decode_keypad_message(&f).expect("frame still decodes");
    assert_eq!(text, "OK\u{FFFD}             ");
}

#[test]
fn two_lines_merge_into_one_message() {
    let mut state = KeypadMonitorState::new();
    let r = state.handle_line_event("Armed".to_string(), 0, "READY ".to_string());
    assert_eq!(r, KeypadEventOutcome::StoredLine0);
    let r = state.handle_line_event("Armed".to_string(), 1, "SYSTEM ARMED".to_string());
    match r {
        KeypadEventOutcome::Publish(message, level) => {
            assert_eq!(message, "Armed \"READY SYSTEM ARMED\"");
            assert_eq!(level, StatusLevel::Status);
        },
        other => panic!("expected a publication, got {:?}", other),
    }
}

#[test]
fn repeated_message_is_published_once() {
    let mut state = KeypadMonitorState::new();
    state.handle_line_event("Armed".to_string(), 0, "READY ".to_string());
    let first = state.handle_line_event("Armed".to_string(), 1, "SYSTEM ARMED".to_string());
    assert!(matches!(first, KeypadEventOutcome::Publish(_, _)));

    state.handle_line_event("Armed".to_string(), 0, "READY ".to_string());
    let second = state.handle_line_event("Armed".to_string(), 1, "SYSTEM ARMED".to_string());
    assert_eq!(second, KeypadEventOutcome::DuplicateSuppressed);
}

#[test]
fn alarm_text_publishes_at_alarm_level() {
    let mut state = KeypadMonitorState::new();
    state.handle_line_event("ALARM".to_string(), 0, "ZONE 3".to_string());
    let r = state.handle_line_event("ALARM".to_string(), 1, "BURGLARY".to_string());
    match r {
        KeypadEventOutcome::Publish(message, level) => {
            assert_eq!(message, "ALARM \"ZONE 3 BURGLARY\"");
            assert_eq!(level, StatusLevel::Alarm);
        },
        other => panic!("expected a publication, got {:?}", other),
    }
}

#[test]
fn line_one_without_line_zero_is_an_anomaly() {
    let mut state = KeypadMonitorState::new();
    let r = state.handle_line_event("Ready".to_string(), 1, "SYSTEM READY".to_string());
    assert_eq!(r, KeypadEventOutcome::MissingLine0);
    // The state is still awaiting line 0: a complete pair afterwards
    // works normally.
    state.handle_line_event("Ready".to_string(), 0, "READY".to_string());
    let r = state.handle_line_event("Ready".to_string(), 1, "TO ARM".to_string());
    assert!(matches!(r, KeypadEventOutcome::Publish(_, _)));
}

#[test]
fn poll_step_runs_frames_through_the_whole_pipeline() {
    let mut core = NapcoMonitorCore::new();

    // Nothing buffered: nothing to do, and the whole buffer is free.
    assert_eq!(core.poll_step(&[]), None);
    assert_eq!(core.free_capacity(), BUFFER_CAP);

    // A line-0 frame, fed byte-dribbled across two polls. The partial
    // frame stays buffered and the free capacity shrinks by its size.
    let f0 = keypad_frame(0x20, 0x02, 0x00, "READY");
    assert_eq!(core.poll_step(&f0[..10]), None);
    assert_eq!(core.free_capacity(), BUFFER_CAP - 10);
    assert_eq!(core.poll_step(&f0[10..]), Some(KeypadEventOutcome::StoredLine0));
    assert_eq!(core.free_capacity(), BUFFER_CAP);

    // The line-1 frame completes and publishes the merged message.
    let f1 = keypad_frame(0x60, 0x02, 0x00, "TO ARM");
    match core.poll_step(&f1) {
        Some(KeypadEventOutcome::Publish(message, level)) => {
            assert_eq!(message, "Ready \"READY TO ARM\"");
            assert_eq!(level, StatusLevel::Status);
        },
        other => panic!("expected a publication, got {:?}", other),
    }

    // The same pair again is de-duplicated.
    assert_eq!(core.poll_step(&f0), Some(KeypadEventOutcome::StoredLine0));
    assert_eq!(core.poll_step(&f1), Some(KeypadEventOutcome::DuplicateSuppressed));
}
