//! The per-poll step of the Napco Gemini panel monitor: feed freshly
//! read serial bytes to the framer, extract at most one frame, decode
//! it as a keypad line event, and drive the two-line merge state
//! machine with it.
//!
//! The caller's loop does only what cannot be done here: read the
//! port, publish what a step asks it to publish, log the anomaly a
//! step reports, yield to the scheduler, and check for cancellation.

use vstd::prelude::*;

use crate::framer::BUFFER_CAP;
use crate::framer::SerialFrameBuffer;
use crate::framer::poll_spec;
use crate::keypad::KeypadEventOutcome;
use crate::keypad::KeypadMonitorState;
use crate::keypad::decode_keypad_message;
use crate::keypad::keypad_line_spec;
use crate::keypad::keypad_status_spec;
use crate::keypad::lossy_of;
use crate::keypad::merged_message;
use crate::keypad::message_level;

verus! {

/// Baud rate of the Napco Gemini serial communication bus.
pub const NAPCO_GEMINI_BAUD: u32 = 5200;

/// Per-call read timeout on the serial port, in milliseconds; reads
/// return promptly with whatever bytes are available.
pub const PORT_TIMEOUT_MS: u64 = 10;

/// How many of `incoming.len()` bytes the framer accepts on top of
/// `buffered` bytes already held: all of them, up to the remaining
/// capacity.
pub open spec fn accepted_len(buffered: int, incoming: int) -> int {
    if incoming <= BUFFER_CAP - buffered {
        incoming
    } else {
        BUFFER_CAP - buffered
    }
}

/// Framing and decoding state of one Napco Gemini monitor.
pub struct NapcoMonitorCore {
    framer: SerialFrameBuffer,
    state: KeypadMonitorState,
}

impl NapcoMonitorCore {
    /// The bytes currently buffered by the framer.
    pub closed spec fn buffered(&self) -> Seq<u8> {
        self.framer.bytes()
    }

    /// Bytes the framer has discarded as errors so far.
    pub closed spec fn errors(&self) -> u64 {
        self.framer.errors()
    }

    /// The pending line-0 text of the merge state machine.
    pub closed spec fn pending(&self) -> Option<Seq<char>> {
        self.state.pending()
    }

    /// The last message published, used for de-duplication.
    pub closed spec fn last(&self) -> Seq<char> {
        self.state.last()
    }

    /// Structural invariant of the framer.
    pub closed spec fn wf(&self) -> bool {
        self.framer.wf()
    }

    /// A fresh monitor core: empty buffer, no errors, awaiting line 0.
    pub fn new() -> (r: Self)
        ensures
            r.wf(),
            r.buffered() == Seq::<u8>::empty(),
            r.errors() == 0,
            r.pending() is None,
            r.last() == Seq::<char>::empty(),
    {
        NapcoMonitorCore { framer: SerialFrameBuffer::new(), state: KeypadMonitorState::new() }
    }

    /// Free space in the framer's buffer. A poll accepts no more
    /// incoming bytes than this, so callers size each port read by it
    /// and leave the rest queued at the port, never losing stream
    /// bytes to a full buffer.
    pub fn free_capacity(&self) -> (n: usize)
        requires
            self.wf(),
        ensures
            n == BUFFER_CAP - self.buffered().len(),
    {
        proof {
            self.framer.lemma_bytes_bounded();
        }
        BUFFER_CAP - self.framer.len()
    }

    /// Bytes discarded as errors so far; a persistently climbing count
    /// with no frames extracted signals a degraded link. Callers also
    /// test it against the counter's ceiling before polling.
    pub fn error_count(&self) -> (n: u64)
        ensures
            n == self.errors(),
    {
        self.framer.error_count()
    }

    /// One poll iteration of the monitor loop.
    ///
    /// Buffers `incoming` up to the framer's capacity, extracts at most
    /// one frame, and feeds a decoded keypad line event through the
    /// merge state machine. Returns `None` when no frame completed or
    /// the frame was not a keypad display frame; otherwise what the
    /// event asks the caller to do.
    pub fn poll_step(&mut self, incoming: &[u8]) -> (r: Option<KeypadEventOutcome>)
        requires
            old(self).wf(),
            old(self).errors() + BUFFER_CAP <= u64::MAX,
        ensures
            final(self).wf(),
            ({
                let c = old(self).buffered() + incoming@.subrange(
                    0,
                    accepted_len(old(self).buffered().len() as int, incoming@.len() as int),
                );
                let d = poll_spec(c).0;
                &&& final(self).errors() == old(self).errors() + d
                &&& match poll_spec(c).1 {
                    None => {
                        &&& r is None
                        &&& final(self).buffered() == c.skip(d)
                        &&& final(self).pending() == old(self).pending()
                        &&& final(self).last() == old(self).last()
                    },
                    Some(frame) => {
                        &&& final(self).buffered() == c.skip(d + frame.len())
                        &&& match keypad_line_spec(frame) {
                            None => {
                                &&& r is None
                                &&& final(self).pending() == old(self).pending()
                                &&& final(self).last() == old(self).last()
                            },
                            Some(line) => {
                                let status = keypad_status_spec(frame[8], frame[9]);
                                let text = lossy_of(frame.subrange(10, 26));
                                &&& r is Some
                                &&& line == 0 ==> {
                                    &&& r == Some(KeypadEventOutcome::StoredLine0)
                                    &&& final(self).pending() == Some(text)
                                    &&& final(self).last() == old(self).last()
                                }
                                &&& line == 1 ==> final(self).pending() is None
                                &&& line == 1 && old(self).pending() is None ==> {
                                    &&& r == Some(KeypadEventOutcome::MissingLine0)
                                    &&& final(self).last() == old(self).last()
                                }
                                &&& line == 1 && old(self).pending() is Some ==> {
                                    let m = merged_message(
                                        status,
                                        old(self).pending().unwrap(),
                                        text,
                                    );
                                    if m != old(self).last() {
                                        &&& r matches Some(KeypadEventOutcome::Publish(msg, lvl))
                                            && msg@ == m && lvl == message_level(m)
                                        &&& final(self).last() == m
                                    } else {
                                        &&& r == Some(KeypadEventOutcome::DuplicateSuppressed)
                                        &&& final(self).last() == old(self).last()
                                    }
                                }
                            },
                        }
                    },
                }
            }),
    {
        proof {
            self.framer.lemma_bytes_bounded();
        }
        self.framer.push_bytes(incoming);
        let frame = self.framer.read_message_vec();
        match frame {
            None => None,
            Some(frame) => {
                match decode_keypad_message(frame.as_slice()) {
                    None => None,
                    Some((status, line, text)) => {
                        Some(self.state.handle_line_event(status, line, text))
                    },
                }
            },
        }
    }
}

} // verus!
