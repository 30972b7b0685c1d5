//! Extraction of length-prefixed, checksummed frames from a rolling
//! byte buffer fed by a serial bus.
//!
//! A frame candidate starts at the head of the buffer: byte 1 carries
//! the declared length in its low five bits, and the last byte of the
//! frame is the truncating 8-bit sum of all bytes before it. Candidates
//! with an impossible length or a wrong checksum cost exactly one
//! discarded byte each, so a valid frame that starts one byte later is
//! never skipped.

use vstd::prelude::*;

verus! {

/// Capacity of the rolling buffer, in bytes.
pub const BUFFER_CAP: usize = 1024;

/// Sum of a byte sequence, as an unbounded integer.
pub open spec fn sum_bytes(s: Seq<u8>) -> int
    decreases s.len(),
{
    if s.len() == 0 {
        0
    } else {
        sum_bytes(s.drop_last()) + s.last()
    }
}

/// Truncating 8-bit checksum of a byte sequence.
pub open spec fn checksum_spec(s: Seq<u8>) -> int {
    sum_bytes(s) % 256
}

/// The frame length declared in the low five bits of byte 1.
pub open spec fn declared_len(s: Seq<u8>) -> int
    recommends
        s.len() >= 2,
{
    (s[1] & 0x1F) as int
}

/// A well-formed frame: its declared length is its actual length, at
/// least 3, and its last byte is the checksum of the bytes before it.
pub open spec fn valid_frame(f: Seq<u8>) -> bool {
    &&& f.len() >= 3
    &&& declared_len(f) == f.len()
    &&& f[f.len() - 1] == checksum_spec(f.subrange(0, f.len() - 1))
}

/// What one poll of the framer does to a buffer holding `c`: the number
/// of bytes discarded as errors, and the extracted frame, if any.
///
/// A candidate needs at least 4 buffered bytes to be looked at. A
/// declared length under 3 or a failed checksum discards one byte and
/// retries; a candidate whose declared length exceeds the buffered
/// bytes waits for more data.
pub open spec fn poll_spec(c: Seq<u8>) -> (int, Option<Seq<u8>>)
    decreases c.len(),
{
    if c.len() < 4 {
        (0, None::<Seq<u8>>)
    } else {
        let l = declared_len(c);
        if l < 3 {
            let r = poll_spec(c.skip(1));
            (r.0 + 1, r.1)
        } else if c.len() < l {
            (0, None::<Seq<u8>>)
        } else if checksum_spec(c.subrange(0, l - 1)) == c[l - 1] {
            (0, Some(c.subrange(0, l)))
        } else {
            let r = poll_spec(c.skip(1));
            (r.0 + 1, r.1)
        }
    }
}

/// Rolling buffer over a serial byte stream, from which checksummed
/// frames are extracted as they complete.
pub struct SerialFrameBuffer {
    /// Backing storage; always `BUFFER_CAP` bytes long.
    buffer: Vec<u8>,
    /// Bytes currently valid at the front of `buffer`. Bytes beyond
    /// this are stale and never interpreted.
    buffer_len: usize,
    /// Bytes discarded so far because they did not belong to a valid
    /// frame; monotonic.
    error_count: u64,
}

impl SerialFrameBuffer {
    /// The valid bytes currently buffered.
    pub closed spec fn bytes(&self) -> Seq<u8> {
        self.buffer@.subrange(0, self.buffer_len as int)
    }

    /// The number of bytes discarded as errors so far.
    pub closed spec fn errors(&self) -> u64 {
        self.error_count
    }

    /// Structural invariant: the backing storage has the fixed
    /// capacity and the valid length lies within it.
    pub closed spec fn wf(&self) -> bool {
        &&& self.buffer@.len() == BUFFER_CAP
        &&& self.buffer_len <= BUFFER_CAP
    }

    /// The buffered bytes always fit the capacity.
    pub proof fn lemma_bytes_bounded(&self)
        requires
            self.wf(),
        ensures
            self.bytes().len() <= BUFFER_CAP,
    {
    }

    /// An empty framer with no errors counted.
    pub fn new() -> (r: Self)
        ensures
            r.wf(),
            r.bytes() == Seq::<u8>::empty(),
            r.errors() == 0,
    {
        let mut buffer: Vec<u8> = Vec::new();
        while buffer.len() < BUFFER_CAP
            invariant
                buffer@.len() <= BUFFER_CAP,
            decreases BUFFER_CAP - buffer@.len(),
        {
            buffer.push(0);
        }
        let r = SerialFrameBuffer { buffer, buffer_len: 0, error_count: 0 };
        proof {
            assert(r.bytes() =~= Seq::<u8>::empty());
        }
        r
    }

    /// Number of valid bytes currently buffered.
    pub fn len(&self) -> (n: usize)
        requires
            self.wf(),
        ensures
            n == self.bytes().len(),
    {
        self.buffer_len
    }

    /// Number of bytes discarded as errors so far.
    pub fn error_count(&self) -> (n: u64)
        ensures
            n == self.errors(),
    {
        self.error_count
    }

    /// Append incoming bytes to the tail of the buffer, up to the
    /// remaining capacity; returns how many were accepted.
    pub fn push_bytes(&mut self, data: &[u8]) -> (n: usize)
        requires
            old(self).wf(),
        ensures
            final(self).wf(),
            n as int == if data@.len() <= BUFFER_CAP - old(self).bytes().len() {
                data@.len() as int
            } else {
                BUFFER_CAP - old(self).bytes().len()
            },
            final(self).bytes() == old(self).bytes() + data@.subrange(0, n as int),
            final(self).errors() == old(self).errors(),
    {
        let avail: usize = BUFFER_CAP - self.buffer_len;
        let take: usize = if data.len() <= avail {
            data.len()
        } else {
            avail
        };
        let start: usize = self.buffer_len;
        let mut i: usize = 0;
        while i < take
            invariant
                self.wf(),
                self.buffer_len == start,
                take <= data@.len(),
                start + take <= BUFFER_CAP,
                i <= take,
                self.error_count == old(self).error_count,
                forall|k: int| 0 <= k < start ==> self.buffer@[k] == old(self).buffer@[k],
                forall|k: int| 0 <= k < i ==> self.buffer@[start + k] == data@[k],
            decreases take - i,
        {
            self.buffer[start + i] = data[i];
            i = i + 1;
        }
        self.buffer_len = start + take;
        proof {
            assert(self.bytes() =~= old(self).bytes() + data@.subrange(0, take as int));
        }
        take
    }

    /// Discard the first `n` buffered bytes, shifting the rest to the
    /// front; when `is_error` holds they are added to the error count.
    /// Discarding 0 bytes changes nothing.
    pub fn discard_buffer(&mut self, n: usize, is_error: bool)
        requires
            old(self).wf(),
            n <= old(self).bytes().len(),
            old(self).errors() + n <= u64::MAX,
        ensures
            final(self).wf(),
            final(self).bytes() == old(self).bytes().skip(n as int),
            final(self).errors() == if is_error {
                (old(self).errors() + n) as u64
            } else {
                old(self).errors()
            },
            n == 0 ==> final(self).bytes() == old(self).bytes()
                && final(self).errors() == old(self).errors(),
    {
        let mut i: usize = n;
        while i < self.buffer_len
            invariant
                self.wf(),
                n <= old(self).buffer_len,
                n <= i <= self.buffer_len,
                self.buffer_len == old(self).buffer_len,
                self.error_count == old(self).error_count,
                forall|k: int| 0 <= k < i - n ==> self.buffer@[k] == old(self).buffer@[k + n],
                forall|k: int| i - n <= k < BUFFER_CAP ==> self.buffer@[k] == old(self).buffer@[k],
            decreases self.buffer_len - i,
        {
            let b: u8 = self.buffer[i];
            self.buffer[i - n] = b;
            i = i + 1;
        }
        self.buffer_len = self.buffer_len - n;
        if is_error {
            self.error_count = self.error_count + n as u64;
        }
        proof {
            assert(self.bytes() =~= old(self).bytes().skip(n as int));
            if n == 0 {
                assert(old(self).bytes().skip(0) =~= old(self).bytes());
            }
        }
    }

    /// Extract the next complete, checksum-valid frame from the
    /// buffer, if one is there.
    ///
    /// Invalid candidates at the head of the buffer are discarded one
    /// byte at a time and counted as errors, exactly as `poll_spec`
    /// says; the bytes of an extracted frame are consumed but not
    /// counted. Returns `None`, leaving the rest buffered, when no
    /// complete frame can be decided yet.
    pub fn read_message_vec(&mut self) -> (r: Option<Vec<u8>>)
        requires
            old(self).wf(),
            old(self).errors() + old(self).bytes().len() <= u64::MAX,
        ensures
            final(self).wf(),
            final(self).errors() == old(self).errors() + poll_spec(old(self).bytes()).0,
            match r {
                Some(v) => {
                    &&& poll_spec(old(self).bytes()).1 == Some(v@)
                    &&& final(self).bytes() == old(self).bytes().skip(
                        poll_spec(old(self).bytes()).0 + v@.len(),
                    )
                },
                None => {
                    &&& poll_spec(old(self).bytes()).1 is None
                    &&& final(self).bytes() == old(self).bytes().skip(poll_spec(old(self).bytes()).0)
                    &&& poll_spec(final(self).bytes()) == (0int, None::<Seq<u8>>)
                },
            },
    {
        while self.buffer_len >= 4
            invariant
                self.wf(),
                old(self).errors() + old(self).bytes().len() <= u64::MAX,
                old(self).errors() <= self.errors(),
                self.errors() + self.bytes().len() == old(self).errors() + old(self).bytes().len(),
                self.bytes() == old(self).bytes().skip(self.errors() - old(self).errors()),
                poll_spec(old(self).bytes()).0 == (self.errors() - old(self).errors())
                    + poll_spec(self.bytes()).0,
                poll_spec(old(self).bytes()).1 == poll_spec(self.bytes()).1,
            decreases self.buffer_len,
        {
            let ghost pre = self.bytes();
            let length_byte: u8 = self.buffer[1];
            let message_length: usize = (length_byte & 0x1F) as usize;
            assert(message_length <= 31) by (bit_vector)
                requires message_length == (length_byte & 0x1F) as usize;
            proof {
                assert(declared_len(pre) == message_length);
            }
            if message_length < 3 {
                self.discard_buffer(1, true);
                proof {
                    lemma_skip_skip(old(self).bytes(), self.errors() - old(self).errors() - 1, 1);
                }
            } else if self.buffer_len < message_length {
                proof {
                    assert(poll_spec(self.bytes()) == (0int, None::<Seq<u8>>));
                }
                return None;
            } else {
                let mut sum: u16 = 0;
                let mut i: usize = 0;
                while i < message_length - 1
                    invariant
                        self.wf(),
                        3 <= message_length <= self.buffer_len,
                        message_length <= 31,
                        i <= message_length - 1,
                        sum as int == sum_bytes(self.bytes().subrange(0, i as int)),
                        sum <= i * 255,
                    decreases message_length - i,
                {
                    proof {
                        assert(self.bytes().subrange(0, i + 1).drop_last() =~= self.bytes()
                            .subrange(0, i as int));
                        assert(self.bytes().subrange(0, i + 1).last() == self.bytes()[i as int]);
                    }
                    sum = sum + self.buffer[i] as u16;
                    i = i + 1;
                }
                let received_checksum: u8 = (sum % 256) as u8;
                let message_checksum: u8 = self.buffer[message_length - 1];
                proof {
                    lemma_sum_bytes_nonneg(pre.subrange(0, message_length - 1));
                    assert(received_checksum as int == checksum_spec(
                        pre.subrange(0, message_length - 1),
                    ));
                }
                if message_checksum != received_checksum {
                    self.discard_buffer(1, true);
                    proof {
                        lemma_skip_skip(
                            old(self).bytes(),
                            self.errors() - old(self).errors() - 1,
                            1,
                        );
                    }
                } else {
                    let mut message: Vec<u8> = Vec::new();
                    let mut j: usize = 0;
                    while j < message_length
                        invariant
                            self.wf(),
                            message_length <= self.buffer_len,
                            j <= message_length,
                            message@.len() == j,
                            message@ == self.bytes().subrange(0, j as int),
                        decreases message_length - j,
                    {
                        let b: u8 = self.buffer[j];
                        message.push(b);
                        proof {
                            assert(message@ =~= self.bytes().subrange(0, j + 1));
                        }
                        j = j + 1;
                    }
                    proof {
                        assert(poll_spec(pre).1 == Some(message@));
                        assert(poll_spec(pre).0 == 0);
                    }
                    let ghost discarded: int = self.errors() - old(self).errors();
                    self.discard_buffer(message_length, false);
                    proof {
                        lemma_skip_skip(old(self).bytes(), discarded, message_length as int);
                    }
                    return Some(message);
                }
            }
        }
        proof {
            assert(poll_spec(self.bytes()) == (0int, None::<Seq<u8>>));
        }
        None
    }
}

/// A declared frame length fits in five bits, so it never exceeds 31.
/// Since the buffer holds far more than that, a candidate told to wait
/// for more data can always complete once the link delivers it: waiting
/// never turns into an unfillable demand.
pub proof fn lemma_declared_len_bounded(s: Seq<u8>)
    requires
        s.len() >= 2,
    ensures
        declared_len(s) <= 31 < BUFFER_CAP,
{
    let b = s[1];
    assert((b & 0x1F) <= 31) by (bit_vector);
}

/// A candidate at offset `i` of `c` that the poll loop rejects with the
/// bytes at hand: at least 4 bytes follow, and the candidate has either
/// an impossible declared length or a complete body whose checksum does
/// not match. Rejecting it costs exactly one discarded byte.
pub open spec fn discarded_candidate_at(c: Seq<u8>, i: int) -> bool {
    let s = c.skip(i);
    &&& 0 <= i
    &&& s.len() >= 4
    &&& {
        let l = declared_len(s);
        l < 3 || (s.len() >= l && checksum_spec(s.subrange(0, l - 1)) != s[l - 1])
    }
}

/// One poll never discards a negative number of bytes, nor more than
/// are buffered, the extracted frame included.
pub proof fn lemma_poll_bounds(c: Seq<u8>)
    ensures
        0 <= poll_spec(c).0,
        poll_spec(c).0 + match poll_spec(c).1 {
            Some(f) => f.len() as int,
            None => 0int,
        } <= c.len(),
    decreases c.len(),
{
    if c.len() >= 4 {
        let l = declared_len(c);
        if l < 3 || (c.len() >= l && checksum_spec(c.subrange(0, l - 1)) != c[l - 1]) {
            lemma_poll_bounds(c.skip(1));
        }
    }
}

/// Every frame a poll extracts is a valid frame.
pub proof fn lemma_poll_yields_valid_frame(c: Seq<u8>, f: Seq<u8>)
    requires
        poll_spec(c).1 == Some(f),
    ensures
        valid_frame(f),
    decreases c.len(),
{
    if c.len() >= 4 {
        let l = declared_len(c);
        if l >= 3 && c.len() >= l && checksum_spec(c.subrange(0, l - 1)) == c[l - 1] {
            assert(f =~= c.subrange(0, l));
            assert(f.subrange(0, l - 1) =~= c.subrange(0, l - 1));
        } else if l < 3 || checksum_spec(c.subrange(0, l - 1)) != c[l - 1] {
            lemma_poll_yields_valid_frame(c.skip(1), f);
        }
    }
}

/// A buffer that begins with a complete valid frame, with at least 4
/// bytes buffered, yields exactly that frame and discards nothing.
pub proof fn lemma_poll_extracts_leading_frame(c: Seq<u8>, f: Seq<u8>)
    requires
        valid_frame(f),
        c.len() >= 4,
        f.len() <= c.len(),
        c.subrange(0, f.len() as int) == f,
    ensures
        poll_spec(c) == (0int, Some(f)),
{
    let l = declared_len(c);
    assert(c[1] == f[1]);
    assert(l == f.len());
    assert(c.subrange(0, l - 1) =~= f.subrange(0, f.len() - 1));
    assert(c[l - 1] == f[f.len() - 1]);
    assert(c.subrange(0, l) =~= f);
}

/// Rejected candidates at the head of the buffer each cost exactly one
/// discarded byte, and what the poll then does is what it does on the
/// buffer without them.
pub proof fn lemma_poll_skips_garbage(c: Seq<u8>, n: int)
    requires
        0 <= n <= c.len(),
        forall|i: int| 0 <= i < n ==> discarded_candidate_at(c, i),
    ensures
        poll_spec(c).0 == n + poll_spec(c.skip(n)).0,
        poll_spec(c).1 == poll_spec(c.skip(n)).1,
    decreases n,
{
    if n > 0 {
        assert(discarded_candidate_at(c, 0));
        assert(c.skip(0) =~= c);
        assert forall|i: int| 0 <= i < n - 1 implies discarded_candidate_at(c.skip(1), i) by {
            assert(discarded_candidate_at(c, i + 1));
            assert(c.skip(1).skip(i) =~= c.skip(i + 1));
        }
        lemma_poll_skips_garbage(c.skip(1), n - 1);
        assert(c.skip(1).skip(n - 1) =~= c.skip(n));
    } else {
        assert(c.skip(0) =~= c);
    }
}

/// A buffer of rejected candidates followed by one complete valid frame
/// costs exactly one error per garbage byte, and the frame is still
/// extracted whole.
pub proof fn lemma_poll_garbage_then_frame(c: Seq<u8>, n: int, f: Seq<u8>)
    requires
        0 <= n,
        n + f.len() <= c.len(),
        c.len() - n >= 4,
        valid_frame(f),
        forall|i: int| 0 <= i < n ==> discarded_candidate_at(c, i),
        c.subrange(n, n + f.len() as int) == f,
    ensures
        poll_spec(c) == (n, Some(f)),
{
    lemma_poll_skips_garbage(c, n);
    assert(c.skip(n).subrange(0, f.len() as int) =~= c.subrange(n, n + f.len() as int));
    lemma_poll_extracts_leading_frame(c.skip(n), f);
}

/// Once a poll reports no frame, the buffer it leaves behind is stable:
/// polling it again without new bytes discards nothing and still
/// reports no frame.
pub proof fn lemma_poll_none_stable(c: Seq<u8>)
    requires
        poll_spec(c).1 is None,
    ensures
        poll_spec(c.skip(poll_spec(c).0)) == (0int, None::<Seq<u8>>),
    decreases c.len(),
{
    lemma_poll_bounds(c);
    if c.len() < 4 {
        assert(c.skip(0) =~= c);
    } else {
        let l = declared_len(c);
        if l < 3 || (c.len() >= l && checksum_spec(c.subrange(0, l - 1)) != c[l - 1]) {
            lemma_poll_none_stable(c.skip(1));
            lemma_poll_bounds(c.skip(1));
            assert(c.skip(1).skip(poll_spec(c.skip(1)).0) =~= c.skip(poll_spec(c).0));
        } else {
            assert(c.skip(0) =~= c);
        }
    }
}

/// The byte sum is never negative.
pub proof fn lemma_sum_bytes_nonneg(s: Seq<u8>)
    ensures
        sum_bytes(s) >= 0,
    decreases s.len(),
{
    if s.len() > 0 {
        lemma_sum_bytes_nonneg(s.drop_last());
    }
}

/// Skipping `a` bytes and then `b` more skips `a + b` bytes.
proof fn lemma_skip_skip(s: Seq<u8>, a: int, b: int)
    requires
        0 <= a,
        0 <= b,
        a + b <= s.len(),
    ensures
        s.skip(a).skip(b) == s.skip(a + b),
{
    assert(s.skip(a).skip(b) =~= s.skip(a + b));
}

} // verus!
