//! What the JSON parser can be handed.
//!
//! The parser that reads documents for this library stops the process on some
//! texts instead of reporting an error. It keeps the keys of the objects it is
//! inside of in one buffer that it indexes with 16 bits; it counts the items of
//! an array in 32 bits; it adds up the digits of an exponent without a check;
//! it calls itself once for each level of nesting; and after a comma directly
//! before the `}` of a nested object it loses track of where it is. The scan of
//! this module reads a text once, byte by byte, and says whether the text is
//! free of all of these.
//!
//! The scan knows strings from what is between them, so a brace or an `e`
//! inside a string never counts. It follows the text as the parser does up to
//! the first error of syntax; what it says of a text is decided by the first
//! place that passes a limit or holds the comma.

use vstd::prelude::*;
use vstd::string::*;

verus! {

/// The deepest nesting of arrays and objects that the parser is handed.
pub const MAX_DEPTH: usize = 128;

/// The most bytes of keys that the parser is made to hold at once: the keys of
/// the objects around one place of the text, added up. A key is counted as it
/// is written between its quotes, which is never less than what the parser
/// holds for it.
pub const MAX_KEY_BYTES: usize = 65535;

/// The most digits of an exponent, not counting leading zeros, that the parser
/// is handed.
pub const MAX_EXPONENT_DIGITS: usize = 9;

/// The longest text, in bytes, that the parser is handed.
pub const MAX_TEXT_BYTES: u64 = 0xffff_ffff;

/// What the scan says of a text.
#[derive(Clone, Copy, PartialEq, Eq, Debug, Structural)]
pub enum Verdict {
    /// The parser can be handed the text.
    Fine,
    /// The text holds a comma directly before a `}`: it is no JSON.
    NotJson,
    /// The text passes one of the limits.
    BeyondLimits,
}

/// Where the scan is in a number that may have an exponent.
#[derive(Clone, Copy, PartialEq, Eq, Debug, Structural)]
pub enum Phase {
    /// Not in an exponent.
    Off,
    /// Right after the `e` or `E`.
    Mark,
    /// Right after the sign of the exponent.
    Sign,
    /// In the digits of the exponent.
    Digits,
}

/// The model of what the scan knows after some bytes of a text.
///
/// `frames` has one entry for each array or object that is open, the
/// outermost first: whether it is an object, and how many bytes of keys the
/// parser holds for it and for all that is around it.
pub struct ScanView {
    pub verdict: Verdict,
    pub in_string: bool,
    pub escaped: bool,
    pub string_len: nat,
    pub last_string: nat,
    pub frames: Seq<(bool, nat)>,
    pub comma: bool,
    pub phase: Phase,
    pub digits: nat,
}

/// What the scan knows before the first byte.
pub open spec fn start() -> ScanView {
    ScanView {
        verdict: Verdict::Fine,
        in_string: false,
        escaped: false,
        string_len: 0,
        last_string: 0,
        frames: Seq::empty(),
        comma: false,
        phase: Phase::Off,
        digits: 0,
    }
}

/// The bytes of keys that the parser holds around the innermost open array or
/// object.
pub open spec fn held_outside(frames: Seq<(bool, nat)>) -> nat {
    if frames.len() >= 2 {
        frames[frames.len() - 2].1
    } else {
        0
    }
}

/// The bytes of keys that the parser holds inside the innermost open array or
/// object.
pub open spec fn held_inside(frames: Seq<(bool, nat)>) -> nat {
    if frames.len() >= 1 {
        frames.last().1
    } else {
        0
    }
}

/// What the scan knows after one more byte inside a string.
pub open spec fn step_in_string(s: ScanView, b: u8) -> ScanView {
    if s.escaped {
        ScanView { escaped: false, string_len: s.string_len + 1, ..s }
    } else if b == 92 {
        ScanView { escaped: true, string_len: s.string_len + 1, ..s }
    } else if b == 34 {
        ScanView { in_string: false, last_string: s.string_len, ..s }
    } else {
        ScanView { string_len: s.string_len + 1, ..s }
    }
}

/// What the scan knows after one more byte outside a string.
pub open spec fn step_outside(s: ScanView, b: u8) -> ScanView {
    let plain = ScanView { comma: false, phase: Phase::Off, digits: 0, ..s };
    if b == 32 || b == 10 || b == 9 || b == 13 {
        ScanView { phase: Phase::Off, digits: 0, ..s }
    } else if b == 34 {
        ScanView { in_string: true, escaped: false, string_len: 0, ..plain }
    } else if b == 123 || b == 91 {
        if s.frames.len() >= MAX_DEPTH {
            ScanView { verdict: Verdict::BeyondLimits, ..s }
        } else {
            ScanView { frames: s.frames.push((b == 123, held_inside(s.frames))), ..plain }
        }
    } else if b == 125 && s.comma {
        ScanView { verdict: Verdict::NotJson, ..s }
    } else if b == 125 || b == 93 {
        if s.frames.len() >= 1 {
            ScanView { frames: s.frames.drop_last(), ..plain }
        } else {
            plain
        }
    } else if b == 44 {
        ScanView { comma: true, ..plain }
    } else if b == 58 {
        if s.frames.len() >= 1 && s.frames.last().0 {
            if held_outside(s.frames) + s.last_string > MAX_KEY_BYTES {
                ScanView { verdict: Verdict::BeyondLimits, ..s }
            } else {
                ScanView {
                    frames: s.frames.update(
                        s.frames.len() - 1,
                        (true, held_outside(s.frames) + s.last_string),
                    ),
                    ..plain
                }
            }
        } else {
            plain
        }
    } else if b == 101 || b == 69 {
        ScanView { phase: Phase::Mark, ..plain }
    } else if (b == 43 || b == 45) && s.phase == Phase::Mark {
        ScanView { phase: Phase::Sign, ..plain }
    } else if 48 <= b <= 57 && s.phase != Phase::Off {
        if b == 48 && s.digits == 0 {
            ScanView { phase: Phase::Digits, ..plain }
        } else if s.digits >= MAX_EXPONENT_DIGITS {
            ScanView { verdict: Verdict::BeyondLimits, ..s }
        } else {
            ScanView { phase: Phase::Digits, digits: s.digits + 1, comma: false, ..s }
        }
    } else {
        plain
    }
}

/// What the scan knows after one more byte. Once the scan has said that a text
/// is no JSON or beyond the limits, nothing changes any more.
pub open spec fn step(s: ScanView, b: u8) -> ScanView {
    if s.verdict != Verdict::Fine {
        s
    } else if s.in_string {
        step_in_string(s, b)
    } else {
        step_outside(s, b)
    }
}

/// What the scan knows after the first `n` bytes of a text.
pub open spec fn scan(bytes: Seq<u8>, n: nat) -> ScanView
    decreases n,
{
    if n == 0 {
        start()
    } else {
        step(scan(bytes, (n - 1) as nat), bytes[n - 1])
    }
}

/// What the scan says of a whole text.
pub open spec fn verdict(bytes: Seq<u8>) -> Verdict {
    if bytes.len() > MAX_TEXT_BYTES {
        Verdict::BeyondLimits
    } else {
        scan(bytes, bytes.len()).verdict
    }
}

/// What the scan knows, as it is kept while a text is read.
struct Scan {
    verdict: Verdict,
    in_string: bool,
    escaped: bool,
    string_len: usize,
    last_string: usize,
    frames: Vec<(bool, usize)>,
    comma: bool,
    phase: Phase,
    digits: usize,
}

/// The models of the open arrays and objects.
spec fn frame_views(frames: Seq<(bool, usize)>) -> Seq<(bool, nat)> {
    Seq::new(frames.len(), |i: int| (frames[i].0, frames[i].1 as nat))
}

impl View for Scan {
    type V = ScanView;

    closed spec fn view(&self) -> ScanView {
        ScanView {
            verdict: self.verdict,
            in_string: self.in_string,
            escaped: self.escaped,
            string_len: self.string_len as nat,
            last_string: self.last_string as nat,
            frames: frame_views(self.frames@),
            comma: self.comma,
            phase: self.phase,
            digits: self.digits as nat,
        }
    }
}

impl Scan {
    /// Whether the counters are as small as `n` bytes of text make them.
    spec fn bounded(&self, n: nat) -> bool {
        &&& self.string_len <= n
        &&& self.last_string <= n
        &&& self.digits <= MAX_EXPONENT_DIGITS
        &&& self.frames@.len() <= MAX_DEPTH
        &&& forall|i: int| 0 <= i < self.frames@.len() ==> (#[trigger] self.frames@[i]).1 <= MAX_KEY_BYTES
    }

    fn new() -> (s: Scan)
        ensures
            s@ == start(),
            s.bounded(0),
    {
        let s = Scan {
            verdict: Verdict::Fine,
            in_string: false,
            escaped: false,
            string_len: 0,
            last_string: 0,
            frames: Vec::new(),
            comma: false,
            phase: Phase::Off,
            digits: 0,
        };
        assert(s@.frames =~= Seq::empty());
        s
    }

    fn end_value(&mut self)
        ensures
            final(self)@ == (ScanView { comma: false, phase: Phase::Off, digits: 0, ..old(self)@ }),
            final(self).frames == old(self).frames,
            final(self).string_len == old(self).string_len,
            final(self).last_string == old(self).last_string,
            final(self).digits == 0,
    {
        self.comma = false;
        self.phase = Phase::Off;
        self.digits = 0;
    }

    fn step_in_string(&mut self, b: u8, Ghost(n): Ghost<nat>)
        requires
            old(self).bounded(n),
            n < usize::MAX,
            old(self).verdict == Verdict::Fine,
            old(self).in_string,
        ensures
            final(self)@ == step_in_string(old(self)@, b),
            final(self).bounded(n + 1),
    {
        if self.escaped {
            self.escaped = false;
            self.string_len = self.string_len + 1;
        } else if b == 92 {
            self.escaped = true;
            self.string_len = self.string_len + 1;
        } else if b == 34 {
            self.in_string = false;
            self.last_string = self.string_len;
        } else {
            self.string_len = self.string_len + 1;
        }
    }

    fn step_outside(&mut self, b: u8, Ghost(n): Ghost<nat>)
        requires
            old(self).bounded(n),
            n < usize::MAX,
            old(self).verdict == Verdict::Fine,
            !old(self).in_string,
        ensures
            final(self)@ == step_outside(old(self)@, b),
            final(self).bounded(n + 1),
    {
        let ghost before = self@;
        if b == 32 || b == 10 || b == 9 || b == 13 {
            self.phase = Phase::Off;
            self.digits = 0;
        } else if b == 34 {
            self.end_value();
            self.in_string = true;
            self.escaped = false;
            self.string_len = 0;
        } else if b == 123 || b == 91 {
            if self.frames.len() >= MAX_DEPTH {
                self.verdict = Verdict::BeyondLimits;
            } else {
                let inside: usize = if self.frames.len() >= 1 {
                    self.frames[self.frames.len() - 1].1
                } else {
                    0
                };
                self.end_value();
                self.frames.push((b == 123, inside));
                assert(self@.frames =~= before.frames.push((b == 123, held_inside(before.frames))));
            }
        } else if b == 125 && self.comma {
            self.verdict = Verdict::NotJson;
        } else if b == 125 || b == 93 {
            self.end_value();
            if self.frames.len() >= 1 {
                self.frames.pop();
                assert(self@.frames =~= before.frames.drop_last());
            }
        } else if b == 44 {
            self.end_value();
            self.comma = true;
        } else if b == 58 {
            let depth = self.frames.len();
            if depth >= 1 && self.frames[depth - 1].0 {
                let outside: usize = if depth >= 2 {
                    self.frames[depth - 2].1
                } else {
                    0
                };
                assert(outside == held_outside(before.frames));
                if self.last_string > MAX_KEY_BYTES - outside {
                    self.verdict = Verdict::BeyondLimits;
                } else {
                    self.end_value();
                    self.frames.set(depth - 1, (true, outside + self.last_string));
                    assert(self@.frames =~= before.frames.update(
                        depth - 1,
                        (true, held_outside(before.frames) + before.last_string),
                    ));
                }
            } else {
                self.end_value();
            }
        } else if b == 101 || b == 69 {
            self.end_value();
            self.phase = Phase::Mark;
        } else if (b == 43 || b == 45) && self.phase == Phase::Mark {
            self.end_value();
            self.phase = Phase::Sign;
        } else if 48 <= b && b <= 57 && self.phase != Phase::Off {
            if b == 48 && self.digits == 0 {
                self.end_value();
                self.phase = Phase::Digits;
            } else if self.digits >= MAX_EXPONENT_DIGITS {
                self.verdict = Verdict::BeyondLimits;
            } else {
                self.phase = Phase::Digits;
                self.digits = self.digits + 1;
                self.comma = false;
            }
        } else {
            self.end_value();
        }
    }
}

/// Scans a text and says whether the parser can be handed it.
pub fn scan_text(text: &str) -> (v: Verdict)
    ensures
        v == verdict(text.spec_bytes()),
{
    let bytes = text.as_bytes();
    if bytes.len() as u64 > MAX_TEXT_BYTES {
        return Verdict::BeyondLimits;
    }
    let mut state = Scan::new();
    let mut i: usize = 0;
    while i < bytes.len()
        invariant
            i <= bytes@.len(),
            bytes@.len() <= MAX_TEXT_BYTES,
            bytes@ == text.spec_bytes(),
            state@ == scan(bytes@, i as nat),
            state.bounded(i as nat),
        decreases bytes@.len() - i,
    {
        let b = bytes[i];
        assert(scan(bytes@, (i + 1) as nat) == step(scan(bytes@, i as nat), bytes@[i as int]));
        if state.verdict == Verdict::Fine {
            if state.in_string {
                state.step_in_string(b, Ghost(i as nat));
            } else {
                state.step_outside(b, Ghost(i as nat));
            }
        }
        i = i + 1;
    }
    state.verdict
}

} // verus!
