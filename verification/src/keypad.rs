//! Decoding of keypad display frames and reassembly of two-line keypad
//! messages into single status strings.
//!
//! A keypad display update arrives as two separate frames, one per
//! display line. `decode_keypad_message` turns one frame into a line
//! event; `KeypadMonitorState` pairs a line-0 event with the following
//! line-1 event, merges the texts, prefixes the decoded status label,
//! and suppresses repeats of the message it published last.

use vstd::prelude::*;

use crate::StatusLevel;

verus! {

/// The Unicode whitespace characters, as `str::trim` removes them.
pub open spec fn is_ws(c: char) -> bool {
    ||| c == '\u{0009}'
    ||| c == '\u{000A}'
    ||| c == '\u{000B}'
    ||| c == '\u{000C}'
    ||| c == '\u{000D}'
    ||| c == ' '
    ||| c == '\u{0085}'
    ||| c == '\u{00A0}'
    ||| c == '\u{1680}'
    ||| c == '\u{2000}'
    ||| c == '\u{2001}'
    ||| c == '\u{2002}'
    ||| c == '\u{2003}'
    ||| c == '\u{2004}'
    ||| c == '\u{2005}'
    ||| c == '\u{2006}'
    ||| c == '\u{2007}'
    ||| c == '\u{2008}'
    ||| c == '\u{2009}'
    ||| c == '\u{200A}'
    ||| c == '\u{2028}'
    ||| c == '\u{2029}'
    ||| c == '\u{202F}'
    ||| c == '\u{205F}'
    ||| c == '\u{3000}'
}

fn is_whitespace_char(c: char) -> (r: bool)
    ensures
        r == is_ws(c),
{
    c == '\u{0009}' || c == '\u{000A}' || c == '\u{000B}' || c == '\u{000C}' || c == '\u{000D}'
        || c == ' ' || c == '\u{0085}' || c == '\u{00A0}' || c == '\u{1680}' || c == '\u{2000}'
        || c == '\u{2001}' || c == '\u{2002}' || c == '\u{2003}' || c == '\u{2004}'
        || c == '\u{2005}' || c == '\u{2006}' || c == '\u{2007}' || c == '\u{2008}'
        || c == '\u{2009}' || c == '\u{200A}' || c == '\u{2028}' || c == '\u{2029}'
        || c == '\u{202F}' || c == '\u{205F}' || c == '\u{3000}'
}

/// `s` without its leading whitespace.
pub open spec fn trim_start_spec(s: Seq<char>) -> Seq<char>
    decreases s.len(),
{
    if s.len() > 0 && is_ws(s[0]) {
        trim_start_spec(s.skip(1))
    } else {
        s
    }
}

/// `s` without its trailing whitespace.
pub open spec fn trim_end_spec(s: Seq<char>) -> Seq<char>
    decreases s.len(),
{
    if s.len() > 0 && is_ws(s.last()) {
        trim_end_spec(s.drop_last())
    } else {
        s
    }
}

/// `s` without leading and trailing whitespace.
pub open spec fn trim_spec(s: Seq<char>) -> Seq<char> {
    trim_end_spec(trim_start_spec(s))
}

proof fn lemma_trim_start_skip(s: Seq<char>, i: int)
    requires
        0 <= i <= s.len(),
        forall|k: int| 0 <= k < i ==> is_ws(s[k]),
        i == s.len() || !is_ws(s[i]),
    ensures
        trim_start_spec(s) == s.skip(i),
    decreases i,
{
    if i == 0 {
        assert(s.skip(0) =~= s);
    } else {
        assert forall|k: int| 0 <= k < i - 1 implies is_ws(s.skip(1)[k]) by {
            assert(s.skip(1)[k] == s[k + 1]);
        }
        lemma_trim_start_skip(s.skip(1), i - 1);
        assert(s.skip(1).skip(i - 1) =~= s.skip(i));
    }
}

proof fn lemma_trim_end_take(s: Seq<char>, j: int)
    requires
        0 <= j <= s.len(),
        forall|k: int| j <= k < s.len() ==> is_ws(s[k]),
        j == 0 || !is_ws(s[j - 1]),
    ensures
        trim_end_spec(s) == s.take(j),
    decreases s.len(),
{
    if j == s.len() {
        assert(s.take(j) =~= s);
    } else {
        assert(is_ws(s.last()));
        assert(s.drop_last() =~= s.take(s.len() - 1));
        lemma_trim_end_take(s.take(s.len() - 1), j);
        assert(s.take(s.len() - 1).take(j) =~= s.take(j));
    }
}

/// Copy of `v` with leading and trailing whitespace removed.
pub fn trim_chars(v: &Vec<char>) -> (r: Vec<char>)
    ensures
        r@ == trim_spec(v@),
{
    let mut start: usize = 0;
    while start < v.len() && is_whitespace_char(v[start])
        invariant
            start <= v@.len(),
            forall|k: int| 0 <= k < start ==> is_ws(v@[k]),
        decreases v@.len() - start,
    {
        start = start + 1;
    }
    proof {
        lemma_trim_start_skip(v@, start as int);
    }
    let mut end: usize = v.len();
    while end > start && is_whitespace_char(v[end - 1])
        invariant
            start <= end <= v@.len(),
            forall|k: int| end <= k < v@.len() ==> is_ws(v@[k]),
        decreases end,
    {
        end = end - 1;
    }
    proof {
        let t = v@.skip(start as int);
        assert forall|k: int| end - start <= k < t.len() implies is_ws(t[k]) by {
            assert(t[k] == v@[k + start]);
        }
        if end > start {
            assert(t[end - start - 1] == v@[end - 1]);
        }
        lemma_trim_end_take(t, end - start);
    }
    let mut r: Vec<char> = Vec::new();
    let mut i: usize = start;
    while i < end
        invariant
            start <= i <= end <= v@.len(),
            r@ == v@.subrange(start as int, i as int),
        decreases end - i,
    {
        r.push(v[i]);
        proof {
            assert(r@ =~= v@.subrange(start as int, i + 1));
        }
        i = i + 1;
    }
    proof {
        assert(v@.skip(start as int).take(end - start) =~= v@.subrange(start as int, end as int));
        assert(r@ =~= trim_spec(v@));
    }
    r
}

/// Append every character of `src` to `dst`.
fn push_all(dst: &mut Vec<char>, src: &Vec<char>)
    ensures
        final(dst)@ == old(dst)@ + src@,
{
    let mut i: usize = 0;
    while i < src.len()
        invariant
            i <= src@.len(),
            dst@ == old(dst)@ + src@.subrange(0, i as int),
        decreases src@.len() - i,
    {
        dst.push(src[i]);
        proof {
            assert(dst@ =~= old(dst)@ + src@.subrange(0, i + 1));
        }
        i = i + 1;
    }
    proof {
        assert(dst@ =~= old(dst)@ + src@);
    }
}

/// The characters of `s`, one by one.
fn str_to_chars(s: &str) -> (r: Vec<char>)
    ensures
        r@ == s@,
{
    let n = s.unicode_len();
    let mut r: Vec<char> = Vec::new();
    let mut i: usize = 0;
    while i < n
        invariant
            n == s@.len(),
            i <= n,
            r@ == s@.subrange(0, i as int),
        decreases n - i,
    {
        r.push(s.get_char(i));
        proof {
            assert(r@ =~= s@.subrange(0, i + 1));
        }
        i = i + 1;
    }
    proof {
        assert(r@ =~= s@);
    }
    r
}

/// Whether `n` occurs in `h` as a contiguous run.
pub open spec fn contains_seq(h: Seq<char>, n: Seq<char>) -> bool {
    exists|i: int| 0 <= i <= h.len() - n.len() && #[trigger] h.subrange(i, i + n.len()) == n
}

/// Substring search: whether `n` occurs contiguously in `h`.
fn str_contains(h: &str, n: &str) -> (r: bool)
    ensures
        r == contains_seq(h@, n@),
{
    let hl = h.unicode_len();
    let nl = n.unicode_len();
    if nl > hl {
        return false;
    }
    let mut i: usize = 0;
    while i <= hl - nl
        invariant
            hl == h@.len(),
            nl == n@.len(),
            nl <= hl,
            i <= hl,
            forall|j: int| 0 <= j < i ==> #[trigger] h@.subrange(j, j + nl) != n@,
        decreases hl - i,
    {
        let mut k: usize = 0;
        while k < nl && h.get_char(i + k) == n.get_char(k)
            invariant
                hl == h@.len(),
                nl == n@.len(),
                i + nl <= hl,
                k <= nl,
                forall|m: int| 0 <= m < k ==> h@[i + m] == n@[m],
            decreases nl - k,
        {
            k = k + 1;
        }
        if k == nl {
            proof {
                assert(h@.subrange(i as int, i + nl) =~= n@);
            }
            return true;
        }
        proof {
            assert(h@.subrange(i as int, i + nl)[k as int] != n@[k as int]);
        }
        i = i + 1;
    }
    false
}

/// What `str::to_lowercase` returns: a function of the characters
/// alone.
pub uninterp spec fn lower_of(s: Seq<char>) -> Seq<char>;

/// Relies on str::to_lowercase: the result depends on the characters of
/// the input alone.
#[verifier::external_body]
fn to_lowercase_string(s: &str) -> (r: String)
    ensures
        r@ == lower_of(s@),
{
    s.to_lowercase()
}

/// What `String::from_utf8_lossy` returns: a function of the bytes
/// alone.
pub uninterp spec fn lossy_of(b: Seq<u8>) -> Seq<char>;

/// Relies on String::from_utf8_lossy: decodes the bytes as UTF-8 with
/// replacement characters for invalid sequences; a function of the
/// bytes alone.
#[verifier::external_body]
fn utf8_lossy(bytes: &Vec<u8>) -> (r: String)
    ensures
        r@ == lossy_of(bytes@),
{
    String::from_utf8_lossy(bytes).to_string()
}

/// Relies on String's FromIterator<char>: collecting characters yields
/// the string of exactly those characters in order.
#[verifier::external_body]
fn chars_to_string(v: &Vec<char>) -> (r: String)
    ensures
        r@ == v@,
{
    v.iter().collect()
}

/// Uppercase hexadecimal digit for a value below 16.
pub open spec fn hex_digit(n: int) -> char {
    if n == 0 { '0' }
    else if n == 1 { '1' }
    else if n == 2 { '2' }
    else if n == 3 { '3' }
    else if n == 4 { '4' }
    else if n == 5 { '5' }
    else if n == 6 { '6' }
    else if n == 7 { '7' }
    else if n == 8 { '8' }
    else if n == 9 { '9' }
    else if n == 10 { 'A' }
    else if n == 11 { 'B' }
    else if n == 12 { 'C' }
    else if n == 13 { 'D' }
    else if n == 14 { 'E' }
    else { 'F' }
}

fn hex_char(n: u8) -> (c: char)
    requires
        n < 16,
    ensures
        c == hex_digit(n as int),
{
    match n {
        0 => '0',
        1 => '1',
        2 => '2',
        3 => '3',
        4 => '4',
        5 => '5',
        6 => '6',
        7 => '7',
        8 => '8',
        9 => '9',
        10 => 'A',
        11 => 'B',
        12 => 'C',
        13 => 'D',
        14 => 'E',
        _ => 'F',
    }
}

/// The two hexadecimal digits of a byte, most significant first.
pub open spec fn byte_hex(b: u8) -> Seq<char> {
    seq![hex_digit(b as int / 16), hex_digit(b as int % 16)]
}

/// The fallback label for a status byte pair outside the known table.
pub open spec fn unknown_status_label(s1: u8, s2: u8) -> Seq<char> {
    "Unknown ("@ + byte_hex(s1) + ","@ + byte_hex(s2) + ")"@
}

/// The status label for a pair of keypad status bytes: the closed table
/// of known pairs, or the fallback label. The table is the product of
/// partial reverse-engineering; unknown pairs stay observable through
/// the fallback rather than being dropped.
pub open spec fn keypad_status_spec(s1: u8, s2: u8) -> Seq<char> {
    if s1 == 0x02 && s2 == 0x00 { "Ready"@ }
    else if s1 == 0x06 && s2 == 0x00 { "Ready, Bypass"@ }
    else if s1 == 0x00 && s2 == 0x00 { "Zone Fault"@ }
    else if s1 == 0x04 && s2 == 0x00 { "Zone Fault, Bypass"@ }
    else if s1 == 0x85 && s2 == 0x80 { "Arming, Bypass"@ }
    else if s1 == 0x05 && s2 == 0x80 { "Armed, Bypass"@ }
    else if s1 == 0xC5 && s2 == 0x80 { "Disarm, Bypass"@ }
    else if s1 == 0xC5 && s2 == 0xC0 { "Disarm, Bypass"@ }
    else if s1 == 0x45 && s2 == 0x81 { "ALARM, Bypass"@ }
    else if s1 == 0x81 && s2 == 0x80 { "Arming"@ }
    else if s1 == 0x01 && s2 == 0x80 { "Armed"@ }
    else if s1 == 0xC1 && s2 == 0x80 { "Disarm"@ }
    else if s1 == 0xC1 && s2 == 0xC0 { "Disarm"@ }
    else if s1 == 0x41 && s2 == 0x81 { "ALARM"@ }
    else if s1 == 0x85 && s2 == 0x90 { "Arming, Instant, Bypass"@ }
    else if s1 == 0x05 && s2 == 0x90 { "Armed, Instant, Bypass"@ }
    else if s1 == 0x81 && s2 == 0x90 { "Arming, Instant"@ }
    else if s1 == 0x01 && s2 == 0x90 { "Armed, Instant"@ }
    else { unknown_status_label(s1, s2) }
}

/// Human-readable label for a pair of keypad status bytes.
pub fn keypad_status(status1: u8, status2: u8) -> (r: String)
    ensures
        r@ == keypad_status_spec(status1, status2),
{
    if status1 == 0x02 && status2 == 0x00 { "Ready".to_owned() }
    else if status1 == 0x06 && status2 == 0x00 { "Ready, Bypass".to_owned() }
    else if status1 == 0x00 && status2 == 0x00 { "Zone Fault".to_owned() }
    else if status1 == 0x04 && status2 == 0x00 { "Zone Fault, Bypass".to_owned() }
    else if status1 == 0x85 && status2 == 0x80 { "Arming, Bypass".to_owned() }
    else if status1 == 0x05 && status2 == 0x80 { "Armed, Bypass".to_owned() }
    else if status1 == 0xC5 && status2 == 0x80 { "Disarm, Bypass".to_owned() }
    else if status1 == 0xC5 && status2 == 0xC0 { "Disarm, Bypass".to_owned() }
    else if status1 == 0x45 && status2 == 0x81 { "ALARM, Bypass".to_owned() }
    else if status1 == 0x81 && status2 == 0x80 { "Arming".to_owned() }
    else if status1 == 0x01 && status2 == 0x80 { "Armed".to_owned() }
    else if status1 == 0xC1 && status2 == 0x80 { "Disarm".to_owned() }
    else if status1 == 0xC1 && status2 == 0xC0 { "Disarm".to_owned() }
    else if status1 == 0x41 && status2 == 0x81 { "ALARM".to_owned() }
    else if status1 == 0x85 && status2 == 0x90 { "Arming, Instant, Bypass".to_owned() }
    else if status1 == 0x05 && status2 == 0x90 { "Armed, Instant, Bypass".to_owned() }
    else if status1 == 0x81 && status2 == 0x90 { "Arming, Instant".to_owned() }
    else if status1 == 0x01 && status2 == 0x90 { "Armed, Instant".to_owned() }
    else {
        let mut v: Vec<char> = Vec::new();
        v.push('U');
        v.push('n');
        v.push('k');
        v.push('n');
        v.push('o');
        v.push('w');
        v.push('n');
        v.push(' ');
        v.push('(');
        v.push(hex_char(status1 / 16));
        v.push(hex_char(status1 % 16));
        v.push(',');
        v.push(hex_char(status2 / 16));
        v.push(hex_char(status2 % 16));
        v.push(')');
        proof {
            reveal_strlit("Unknown (");
            reveal_strlit(",");
            reveal_strlit(")");
            assert(v@ =~= unknown_status_label(status1, status2));
        }
        chars_to_string(&v)
    }
}

/// Which display line a frame addresses: 0 or 1 for the two recognized
/// marker values of a 27-byte keypad frame, `None` for anything else.
pub open spec fn keypad_line_spec(m: Seq<u8>) -> Option<int> {
    if m.len() == 27 && m[4] == 0x01 {
        if m[5] == 0x20 {
            Some(0int)
        } else if m[5] == 0x60 {
            Some(1int)
        } else {
            None
        }
    } else {
        None
    }
}

/// Decode a frame sent from the panel to the keypad. For a keypad
/// display frame, returns the status label, the display line (0 or 1)
/// and the 16 characters of display text; returns `None` for any other
/// frame, which callers ignore.
pub fn decode_keypad_message(message: &[u8]) -> (r: Option<(String, i8, String)>)
    ensures
        match r {
            Some(d) => {
                &&& keypad_line_spec(message@) == Some(d.1 as int)
                &&& d.0@ == keypad_status_spec(message@[8], message@[9])
                &&& d.2@ == lossy_of(message@.subrange(10, 26))
            },
            None => keypad_line_spec(message@) is None,
        },
{
    if message.len() == 27 && message[4] == 0x01 {
        let line: i8 = if message[5] == 0x20 {
            0
        } else if message[5] == 0x60 {
            1
        } else {
            -1
        };
        if line >= 0 {
            let status = keypad_status(message[8], message[9]);
            let mut text_bytes: Vec<u8> = Vec::new();
            let mut i: usize = 10;
            while i < 26
                invariant
                    message@.len() == 27,
                    10 <= i <= 26,
                    text_bytes@ == message@.subrange(10, i as int),
                decreases 26 - i,
            {
                text_bytes.push(message[i]);
                proof {
                    assert(text_bytes@ =~= message@.subrange(10, i + 1));
                }
                i = i + 1;
            }
            let text = utf8_lossy(&text_bytes);
            Some((status, line, text))
        } else {
            None
        }
    } else {
        None
    }
}

/// The merged display text of a two-line update: each line trimmed,
/// joined by one space, and the join trimmed again.
pub open spec fn merged_text(line0: Seq<char>, line1: Seq<char>) -> Seq<char> {
    trim_spec(trim_spec(line0) + seq![' '] + trim_spec(line1))
}

/// The full published message: the status label, then the merged
/// display text in double quotes.
pub open spec fn merged_message(status: Seq<char>, line0: Seq<char>, line1: Seq<char>) -> Seq<char> {
    status + seq![' ', '"'] + merged_text(line0, line1) + seq!['"']
}

/// Severity of a published keypad message: an alarm when the lowercased
/// message contains "alarm", a routine status update otherwise.
pub open spec fn message_level(m: Seq<char>) -> StatusLevel {
    if contains_seq(lower_of(m), "alarm"@) {
        StatusLevel::Alarm
    } else {
        StatusLevel::Status
    }
}

/// What handling one keypad line event asks the caller to do.
#[derive(Debug, PartialEq)]
pub enum KeypadEventOutcome {
    /// A line-0 text was stored; nothing to publish yet.
    StoredLine0,
    /// A complete, new message: publish it at the given level.
    Publish(String, StatusLevel),
    /// The merged message equals the last published one; stay silent.
    DuplicateSuppressed,
    /// A line-1 event arrived with no line 0 pending: a protocol
    /// anomaly worth a warning; nothing is published.
    MissingLine0,
}

/// Reassembly state of one keypad's two-line messages.
pub struct KeypadMonitorState {
    /// The most recent line-0 text, awaiting its line-1 partner.
    pending_line0: Option<String>,
    /// The last message published, for de-duplication.
    last_message: String,
}

impl KeypadMonitorState {
    /// The pending line-0 text, if one is stored.
    pub closed spec fn pending(&self) -> Option<Seq<char>> {
        match self.pending_line0 {
            Some(s) => Some(s@),
            None => None,
        }
    }

    /// The last published message.
    pub closed spec fn last(&self) -> Seq<char> {
        self.last_message@
    }

    /// A fresh state: awaiting line 0, nothing published yet.
    pub fn new() -> (r: Self)
        ensures
            r.pending() is None,
            r.last() == Seq::<char>::empty(),
    {
        let r = KeypadMonitorState { pending_line0: None, last_message: String::new() };
        r
    }

    /// Feed one decoded keypad line event through the merge state
    /// machine.
    ///
    /// A line-0 event stores its text. A line-1 event completes the
    /// pending line-0, and the merged message is published unless it
    /// repeats the last published one; a line-1 event with no pending
    /// line-0 is an anomaly and publishes nothing. Either way line 1
    /// returns the state to awaiting line 0.
    pub fn handle_line_event(&mut self, status: String, line: i8, text: String) -> (r: KeypadEventOutcome)
        requires
            line == 0 || line == 1,
        ensures
            line == 0 ==> {
                &&& r is StoredLine0
                &&& final(self).pending() == Some(text@)
                &&& final(self).last() == old(self).last()
            },
            line == 1 ==> final(self).pending() is None,
            line == 1 && old(self).pending() is None ==> {
                &&& r is MissingLine0
                &&& final(self).last() == old(self).last()
            },
            line == 1 && old(self).pending() is Some ==> {
                let m = merged_message(status@, old(self).pending().unwrap(), text@);
                if m != old(self).last() {
                    &&& r matches KeypadEventOutcome::Publish(msg, lvl) && msg@ == m && lvl
                        == message_level(m)
                    &&& final(self).last() == m
                } else {
                    &&& r is DuplicateSuppressed
                    &&& final(self).last() == old(self).last()
                }
            },
    {
        if line == 0 {
            self.pending_line0 = Some(text);
            KeypadEventOutcome::StoredLine0
        } else {
            let pending = self.pending_line0.take();
            match pending {
                None => KeypadEventOutcome::MissingLine0,
                Some(line0) => {
                    let l0 = str_to_chars(line0.as_str());
                    let l1 = str_to_chars(text.as_str());
                    let st = str_to_chars(status.as_str());
                    let t0 = trim_chars(&l0);
                    let t1 = trim_chars(&l1);
                    let mut joined: Vec<char> = Vec::new();
                    push_all(&mut joined, &t0);
                    joined.push(' ');
                    push_all(&mut joined, &t1);
                    proof {
                        assert(joined@ =~= trim_spec(line0@) + seq![' '] + trim_spec(text@));
                    }
                    let body = trim_chars(&joined);
                    let mut mchars: Vec<char> = Vec::new();
                    push_all(&mut mchars, &st);
                    mchars.push(' ');
                    mchars.push('"');
                    push_all(&mut mchars, &body);
                    mchars.push('"');
                    proof {
                        assert(mchars@ =~= merged_message(status@, line0@, text@));
                    }
                    let message = chars_to_string(&mchars);
                    if !message.eq(&self.last_message) {
                        let low = to_lowercase_string(message.as_str());
                        let is_alarm = str_contains(low.as_str(), "alarm");
                        let level = if is_alarm {
                            StatusLevel::Alarm
                        } else {
                            StatusLevel::Status
                        };
                        self.last_message = message.clone();
                        KeypadEventOutcome::Publish(message, level)
                    } else {
                        KeypadEventOutcome::DuplicateSuppressed
                    }
                },
            }
        }
    }
}

} // verus!
