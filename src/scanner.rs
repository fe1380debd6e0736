use vstd::prelude::*;

use crate::segment::{empty_segment, segments_view, terminator_segment, SegmentModel, TextSegment};
use crate::strings::push_char;

verus! {

/// The escape character that opens an SGR sequence.
pub const ESC: char = '\u{1b}';

/// Where the scanner stands between two characters.
#[derive(Clone, Copy, Debug, PartialEq, Eq, Structural)]
pub enum ScanMode {
    /// Plain text.
    Plain,
    /// Inside an escape sequence, reading its numeric code.
    Escape,
    /// Plain text, right after a newline: a second newline ends the block.
    AfterNewline,
}

/// The scanner's state, as mathematical values.
pub struct ScanState {
    pub mode: ScanMode,
    /// The code of the escape sequence being read; 0 outside one.
    pub code: u32,
    /// The segment under construction.
    pub cur: SegmentModel,
    /// The segments closed so far.
    pub out: Seq<SegmentModel>,
}

pub open spec fn is_digit(c: char) -> bool {
    '0' <= c && c <= '9'
}

/// The code after one more decimal digit, held at `u32::MAX` once it is that large.
pub open spec fn push_digit(code: u32, d: u32) -> u32 {
    if code * 10 + d <= u32::MAX {
        (code * 10 + d) as u32
    } else {
        u32::MAX
    }
}

pub open spec fn initial_state() -> ScanState {
    ScanState { mode: ScanMode::Plain, code: 0, cur: empty_segment(None, false), out: Seq::empty() }
}

/// The closed segments, with the current one added when it holds text.
pub open spec fn closed_out(st: ScanState) -> Seq<SegmentModel> {
    if st.cur.text.len() > 0 {
        st.out.push(st.cur)
    } else {
        st.out
    }
}

/// `c` appended to the current segment, in mode `mode`.
pub open spec fn append_char(st: ScanState, c: char, mode: ScanMode) -> ScanState {
    ScanState {
        mode,
        code: st.code,
        cur: SegmentModel {
            text: st.cur.text.push(c),
            color: st.cur.color,
            bold: st.cur.bold,
            is_block_terminator: false,
        },
        out: st.out,
    }
}

/// The text that follows takes the given style. A current segment with text
/// in another style is closed first.
pub open spec fn restyle(st: ScanState, color: Option<u32>, bold: bool) -> ScanState {
    if st.cur.text.len() > 0 && (st.cur.color != color || st.cur.bold != bold) {
        ScanState {
            mode: ScanMode::Plain,
            code: 0,
            cur: empty_segment(color, bold),
            out: st.out.push(st.cur),
        }
    } else {
        ScanState {
            mode: ScanMode::Plain,
            code: 0,
            cur: SegmentModel {
                text: st.cur.text,
                color,
                bold,
                is_block_terminator: false,
            },
            out: st.out,
        }
    }
}

/// The effect of the terminator `m` on the code read: 0 resets the style and
/// closes the current segment, 1 selects bold, any other code a color.
pub open spec fn apply_code(st: ScanState) -> ScanState {
    if st.code == 0 {
        ScanState {
            mode: ScanMode::Plain,
            code: 0,
            cur: empty_segment(None, false),
            out: closed_out(st),
        }
    } else if st.code == 1 {
        restyle(st, st.cur.color, true)
    } else {
        restyle(st, Some(st.code), st.cur.bold)
    }
}

/// One character of input.
pub open spec fn scan_step(st: ScanState, c: char) -> ScanState {
    match st.mode {
        ScanMode::Plain => {
            if c == ESC {
                ScanState { mode: ScanMode::Escape, ..st }
            } else if c == '\n' {
                append_char(st, c, ScanMode::AfterNewline)
            } else {
                append_char(st, c, ScanMode::Plain)
            }
        },
        ScanMode::AfterNewline => {
            if c == ESC {
                ScanState { mode: ScanMode::Escape, ..st }
            } else if c == '\n' {
                ScanState {
                    mode: ScanMode::Plain,
                    code: st.code,
                    cur: empty_segment(None, false),
                    out: closed_out(st).push(terminator_segment()),
                }
            } else {
                append_char(st, c, ScanMode::Plain)
            }
        },
        ScanMode::Escape => {
            if c == '[' {
                st
            } else if is_digit(c) {
                ScanState { code: push_digit(st.code, (c as u32 - '0' as u32) as u32), ..st }
            } else if c == 'm' {
                apply_code(st)
            } else {
                // not an SGR sequence after all: the character is kept as text
                ScanState { code: 0, ..append_char(st, c, ScanMode::Plain) }
            }
        },
    }
}

/// The state after scanning all of `s`.
pub open spec fn scan_run(s: Seq<char>) -> ScanState
    decreases s.len(),
{
    if s.len() == 0 {
        initial_state()
    } else {
        scan_step(scan_run(s.drop_last()), s.last())
    }
}

/// The segments of `s`, block terminators included.
pub open spec fn scan_model(s: Seq<char>) -> Seq<SegmentModel> {
    closed_out(scan_run(s))
}

/// A state machine that reads text one character at a time.
pub struct Scanner {
    mode: ScanMode,
    code: u32,
    cur: TextSegment,
    out: Vec<TextSegment>,
}

impl View for Scanner {
    type V = ScanState;

    closed spec fn view(&self) -> ScanState {
        ScanState { mode: self.mode, code: self.code, cur: self.cur@, out: segments_view(self.out@) }
    }
}

proof fn lemma_segments_view_push(v: Seq<TextSegment>, s: TextSegment)
    ensures
        segments_view(v.push(s)) == segments_view(v).push(s@),
{
    assert(segments_view(v.push(s)) =~= segments_view(v).push(s@));
}

impl Scanner {
    pub fn new() -> (r: Scanner)
        ensures
            r@ == initial_state(),
    {
        let r = Scanner {
            mode: ScanMode::Plain,
            code: 0,
            cur: TextSegment::empty(None, false),
            out: Vec::new(),
        };
        assert(segments_view(r.out@) =~= Seq::empty());
        r
    }

    /// Closes the current segment, if it holds text, and starts an empty one
    /// in the given style.
    fn close_current(&mut self, color: Option<u32>, bold: bool)
        ensures
            final(self)@ == (ScanState {
                mode: old(self)@.mode,
                code: old(self)@.code,
                cur: empty_segment(color, bold),
                out: closed_out(old(self)@),
            }),
    {
        let mut done = TextSegment::empty(color, bold);
        std::mem::swap(&mut done, &mut self.cur);
        if done.has_text() {
            proof {
                lemma_segments_view_push(self.out@, done);
            }
            self.out.push(done);
        }
    }

    fn push_text(&mut self, c: char)
        ensures
            final(self)@ == append_char(old(self)@, c, old(self)@.mode),
    {
        push_char(&mut self.cur.text, c);
        self.cur.is_block_terminator = false;
    }

    fn apply_code(&mut self)
        requires
            old(self)@.mode == ScanMode::Escape,
        ensures
            final(self)@ == apply_code(old(self)@),
    {
        if self.code == 0 {
            self.close_current(None, false);
        } else {
            let (color, bold) = if self.code == 1 {
                (self.cur.color, true)
            } else {
                (Some(self.code), self.cur.bold)
            };
            if self.cur.has_text() && (self.cur.color != color || self.cur.bold != bold) {
                self.close_current(color, bold);
            } else {
                self.cur.color = color;
                self.cur.bold = bold;
                self.cur.is_block_terminator = false;
            }
        }
        self.code = 0;
        self.mode = ScanMode::Plain;
    }

    /// Reads one character.
    pub fn step(&mut self, c: char)
        ensures
            final(self)@ == scan_step(old(self)@, c),
    {
        match self.mode {
            ScanMode::Plain => {
                if c == ESC {
                    self.mode = ScanMode::Escape;
                } else {
                    self.push_text(c);
                    if c == '\n' {
                        self.mode = ScanMode::AfterNewline;
                    }
                }
            },
            ScanMode::AfterNewline => {
                if c == ESC {
                    self.mode = ScanMode::Escape;
                } else if c == '\n' {
                    self.close_current(None, false);
                    let ghost before = self.out@;
                    let t = TextSegment::terminator();
                    proof {
                        lemma_segments_view_push(before, t);
                    }
                    self.out.push(t);
                    self.mode = ScanMode::Plain;
                } else {
                    self.push_text(c);
                    self.mode = ScanMode::Plain;
                }
            },
            ScanMode::Escape => {
                if c == '[' {
                } else if '0' <= c && c <= '9' {
                    let d: u32 = (c as u32) - ('0' as u32);
                    let v: u64 = (self.code as u64) * 10 + d as u64;
                    self.code = if v <= u32::MAX as u64 {
                        v as u32
                    } else {
                        u32::MAX
                    };
                } else if c == 'm' {
                    self.apply_code();
                } else {
                    self.push_text(c);
                    self.mode = ScanMode::Plain;
                    self.code = 0;
                }
            },
        }
    }

    /// Ends the input: the current segment is kept if it holds text.
    pub fn finish(self) -> (r: Vec<TextSegment>)
        ensures
            segments_view(r@) == closed_out(self@),
    {
        let mut s = self;
        s.close_current(None, false);
        s.out
    }
}

/// Splits `text` into styled segments, with a terminator segment at each
/// blank line.
pub fn scan_segments(text: &str) -> (r: Vec<TextSegment>)
    ensures
        segments_view(r@) == scan_model(text@),
{
    let mut scanner = Scanner::new();
    let ghost chars = text@;
    proof {
        assert(chars.take(0) =~= Seq::<char>::empty());
    }
    for c in it: text.chars()
        invariant
            it.seq() == chars,
            scanner@ == scan_run(chars.take(it.index() as int)),
    {
        proof {
            let prefix = chars.take(it.index() as int + 1);
            assert(prefix.drop_last() =~= chars.take(it.index() as int));
        }
        scanner.step(c);
    }
    proof {
        assert(chars.take(chars.len() as int) =~= chars);
    }
    scanner.finish()
}

} // verus!
