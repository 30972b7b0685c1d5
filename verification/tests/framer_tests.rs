//! Behavior of the serial frame extractor on concrete byte streams.

use cerberus::framer::{SerialFrameBuffer, BUFFER_CAP};

/// A frame whose declared length matches `body.len() + 1` and whose
/// last byte is the truncating sum of the rest.
fn with_checksum(body: &[u8]) -> Vec<u8> {
    let mut frame = body.to_vec();
    let mut sum = 0u8;
    for &b in body {
        sum = sum.wrapping_add(b);
    }
    frame.push(sum);
    frame
}

#[test]
fn valid_frame_extracted_once_complete() {
    // Declared length 5 (byte 1 low five bits), checksum over the first 4 bytes.
    let frame = with_checksum(&[0xA0, 0x05, 0x11, 0x22]);
    assert_eq!(frame.len(), 5);

    let mut framer = SerialFrameBuffer::new();
    let accepted = framer.push_bytes(&frame);
    assert_eq!(accepted, 5);

    let got = framer.read_message_vec();
    assert_eq!(got, Some(frame));
    assert_eq!(framer.error_count(), 0);
    assert_eq!(framer.len(), 0);
}

#[test]
fn three_byte_frame_needs_a_fourth_byte() {
    // Minimum-length frame: declared length 3.
    let frame = with_checksum(&[0x40, 0x03]);
    assert_eq!(frame.len(), 3);

    let mut framer = SerialFrameBuffer::new();
    framer.push_bytes(&frame);
    // Only 3 bytes buffered: the candidate is not looked at yet.
    assert_eq!(framer.read_message_vec(), None);
    assert_eq!(framer.error_count(), 0);
    assert_eq!(framer.len(), 3);

    framer.push_bytes(&[0x00]);
    assert_eq!(framer.read_message_vec(), Some(frame));
    assert_eq!(framer.error_count(), 0);
    assert_eq!(framer.len(), 1);
}

#[test]
fn leading_garbage_counted_and_frame_still_extracted() {
    // Three zero bytes: each makes a candidate with declared length 0.
    // The frame starts with 0x00 too, so the last garbage byte is also
    // rejected by the length check, never by luck.
    let frame = with_checksum(&[0x00, 0x04, 0x07]);
    let mut stream = vec![0x00, 0x00, 0x00];
    stream.extend_from_slice(&frame);

    let mut framer = SerialFrameBuffer::new();
    framer.push_bytes(&stream);
    let got = framer.read_message_vec();
    assert_eq!(got, Some(frame));
    assert_eq!(framer.error_count(), 3);
    assert_eq!(framer.len(), 0);
}

#[test]
fn checksum_mismatch_discards_one_byte_at_a_time() {
    // Declared length 4 but a wrong checksum byte.
    let mut framer = SerialFrameBuffer::new();
    framer.push_bytes(&[0x10, 0x04, 0x20, 0xFF]);
    assert_eq!(framer.read_message_vec(), None);
    // Exactly 0x10 was discarded; the remaining 3 bytes wait for more.
    assert_eq!(framer.error_count(), 1);
    assert_eq!(framer.len(), 3);
}

#[test]
fn poll_without_frame_is_idempotent() {
    let mut framer = SerialFrameBuffer::new();
    assert_eq!(framer.read_message_vec(), None);
    assert_eq!(framer.error_count(), 0);
    assert_eq!(framer.len(), 0);

    // A partial frame: declared length 6, only 4 bytes buffered.
    framer.push_bytes(&[0x01, 0x06, 0x02, 0x03]);
    assert_eq!(framer.read_message_vec(), None);
    let errors = framer.error_count();
    let len = framer.len();
    // Polling again with no new bytes changes nothing.
    assert_eq!(framer.read_message_vec(), None);
    assert_eq!(framer.error_count(), errors);
    assert_eq!(framer.len(), len);
}

#[test]
fn discarding_zero_bytes_is_a_noop() {
    let mut framer = SerialFrameBuffer::new();
    framer.push_bytes(&[0x09, 0x06, 0x02]);
    framer.discard_buffer(0, true);
    assert_eq!(framer.len(), 3);
    assert_eq!(framer.error_count(), 0);
}

#[test]
fn push_is_bounded_by_capacity() {
    let mut framer = SerialFrameBuffer::new();
    let big = vec![0u8; BUFFER_CAP + 500];
    let accepted = framer.push_bytes(&big);
    assert_eq!(accepted, BUFFER_CAP);
    assert_eq!(framer.len(), BUFFER_CAP);
    let accepted_more = framer.push_bytes(&[1, 2, 3]);
    assert_eq!(accepted_more, 0);
}

#[test]
fn longest_declarable_frame_completes_when_bytes_arrive() {
    // The length field is five bits, so 31 is the largest declarable
    // frame; it always fits the buffer, so a partial frame only ever
    // waits for bytes that can still arrive.
    let mut body = vec![0u8; 30];
    body[1] = 31;
    let frame = with_checksum(&body);
    assert_eq!(frame.len(), 31);

    let mut framer = SerialFrameBuffer::new();
    framer.push_bytes(&frame[..20]);
    assert_eq!(framer.read_message_vec(), None);
    assert_eq!(framer.error_count(), 0);
    framer.push_bytes(&frame[20..]);
    assert_eq!(framer.read_message_vec(), Some(frame));
    assert_eq!(framer.error_count(), 0);
}

#[test]
fn two_frames_in_one_buffer_come_out_in_order() {
    let first = with_checksum(&[0x55, 0x04, 0x01]);
    let second = with_checksum(&[0x66, 0x05, 0x02, 0x03]);
    let mut stream = first.clone();
    stream.extend_from_slice(&second);

    let mut framer = SerialFrameBuffer::new();
    framer.push_bytes(&stream);
    assert_eq!(framer.read_message_vec(), Some(first));
    assert_eq!(framer.read_message_vec(), Some(second));
    assert_eq!(framer.error_count(), 0);
}
