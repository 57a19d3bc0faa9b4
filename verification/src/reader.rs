//! Code-point reader over a pattern source.
//!
//! The source text is held as a sequence of UTF-16 code units.  The cursor
//! (`index`) and the `end` bound are code-unit offsets.  In Unicode mode a
//! lead surrogate immediately followed by a trail surrogate decodes as one
//! combined code point of width 2; otherwise every code unit is its own code
//! point of width 1.  This single boolean decides how many logical characters
//! the pattern has and where the cursor lands after each `advance`.

use vstd::prelude::*;

verus! {

pub open spec fn spec_is_lead_surrogate(cp: u32) -> bool {
    0xD800 <= cp <= 0xDBFF
}

pub open spec fn spec_is_trail_surrogate(cp: u32) -> bool {
    0xDC00 <= cp <= 0xDFFF
}

/// The code point denoted by a surrogate pair.
pub open spec fn spec_combine_surrogate_pair(lead: u32, trail: u32) -> u32 {
    ((lead - 0xD800) * 0x400 + (trail - 0xDC00) + 0x10000) as u32
}

/// The UTF-16 encoding of one character: itself, or a surrogate pair.
pub open spec fn spec_char_utf16(c: char) -> Seq<u32> {
    if c as u32 <= 0xFFFF {
        seq![c as u32]
    } else {
        seq![
            (0xD800 + (c as u32 - 0x10000) / 0x400) as u32,
            (0xDC00 + (c as u32 - 0x10000) % 0x400) as u32,
        ]
    }
}

/// The UTF-16 encoding of a text.
pub open spec fn spec_utf16(text: Seq<char>) -> Seq<u32>
    decreases text.len(),
{
    if text.len() == 0 {
        Seq::empty()
    } else {
        spec_utf16(text.drop_last()) + spec_char_utf16(text.last())
    }
}

/// The raw code unit at offset `i`, bounded by `end` and by the text itself.
pub open spec fn spec_unit_at(units: Seq<u32>, end: int, i: int) -> Option<u32> {
    if 0 <= i < end && i < units.len() {
        Some(units[i])
    } else {
        None
    }
}

/// The code point at code-unit offset `i` together with its width.
///
/// In Unicode mode a lead surrogate followed (within bounds) by a trail
/// surrogate decodes as the combined code point with width 2; in every other
/// case the code unit itself is the code point, with width 1.
pub open spec fn spec_decode(units: Seq<u32>, end: int, uni: bool, i: int) -> Option<(u32, int)> {
    match spec_unit_at(units, end, i) {
        None => None,
        Some(c) => {
            if uni && spec_is_lead_surrogate(c) && spec_unit_at(units, end, i + 1) is Some
                && spec_is_trail_surrogate(spec_unit_at(units, end, i + 1)->Some_0) {
                Some(
                    (spec_combine_surrogate_pair(c, spec_unit_at(units, end, i + 1)->Some_0), 2),
                )
            } else {
                Some((c, 1))
            }
        },
    }
}

/// Where the cursor lands after advancing once from offset `i`.
pub open spec fn spec_advance_index(units: Seq<u32>, end: int, uni: bool, i: int) -> int {
    match spec_decode(units, end, uni, i) {
        Some(p) => i + p.1,
        None => i,
    }
}

/// The code point `offset` positions ahead of code-unit offset `i`.
pub open spec fn spec_peek_at(units: Seq<u32>, end: int, uni: bool, i: int, offset: nat) -> Option<
    u32,
>
    decreases offset,
{
    match spec_decode(units, end, uni, i) {
        None => None,
        Some(p) => {
            if offset == 0 {
                Some(p.0)
            } else {
                spec_peek_at(units, end, uni, i + p.1, (offset - 1) as nat)
            }
        },
    }
}

/// Mathematical model of a [`Reader`]: the original text, its UTF-16 code
/// units, the cursor and end bound (code-unit offsets), and the decoding mode.
pub ghost struct ReaderModel {
    pub text: Seq<char>,
    pub units: Seq<u32>,
    pub index: int,
    pub end: int,
    pub unicode: bool,
}

/// The code point `offset` positions ahead of the cursor.
pub open spec fn spec_peek(m: ReaderModel, offset: nat) -> Option<u32> {
    spec_peek_at(m.units, m.end, m.unicode, m.index, offset)
}

/// The model after one `advance`: a no-op at the end of input.
pub open spec fn spec_advance(m: ReaderModel) -> ReaderModel {
    ReaderModel { index: spec_advance_index(m.units, m.end, m.unicode, m.index), ..m }
}

/// The lookahead window slides consistently: after an `advance`, peeking
/// `offset` code points ahead sees exactly what peeking `offset + 1` saw
/// before.  Re-deriving the window from the new cursor (as `rewind` does)
/// therefore reproduces what incremental advancing produces.
pub proof fn lemma_advance_peek_consistent(m: ReaderModel, offset: nat)
    ensures
        spec_peek(spec_advance(m), offset) == spec_peek(m, offset + 1),
{
    if spec_decode(m.units, m.end, m.unicode, m.index) is None {
        assert(spec_advance(m).index == m.index);
    }
}

/// The decoding rule on a surrogate pair, in both modes: with `uni` set the
/// pair is one combined code point of width 2; without it the lead surrogate
/// stands alone with width 1.
pub proof fn lemma_surrogate_pair_decode(units: Seq<u32>, end: int, i: int)
    requires
        spec_unit_at(units, end, i) is Some,
        spec_is_lead_surrogate(spec_unit_at(units, end, i)->Some_0),
        spec_unit_at(units, end, i + 1) is Some,
        spec_is_trail_surrogate(spec_unit_at(units, end, i + 1)->Some_0),
    ensures
        spec_decode(units, end, true, i) == Some(
            (
                spec_combine_surrogate_pair(
                    spec_unit_at(units, end, i)->Some_0,
                    spec_unit_at(units, end, i + 1)->Some_0,
                ),
                2int,
            ),
        ),
        spec_decode(units, end, false, i) == Some((spec_unit_at(units, end, i)->Some_0, 1int)),
{
}

/// Converts a text to its UTF-16 code units.
pub(crate) fn utf16_units(s: &str) -> (r: Vec<u32>)
    ensures
        r@ == spec_utf16(s@),
{
    let n = s.unicode_len();
    let mut v: Vec<u32> = Vec::new();
    let mut i: usize = 0;
    while i < n
        invariant
            i <= n,
            n == s@.len(),
            v@ == spec_utf16(s@.take(i as int)),
        decreases n - i,
    {
        let c = s.get_char(i);
        proof {
            assert(s@.take(i + 1 as int).drop_last() =~= s@.take(i as int));
            assert(s@.take(i + 1 as int).last() == s@[i as int]);
        }
        let cu = c as u32;
        if cu <= 0xFFFF {
            v.push(cu);
        } else {
            v.push(0xD800 + (cu - 0x10000) / 0x400);
            v.push(0xDC00 + (cu - 0x10000) % 0x400);
        }
        proof {
            assert(v@ =~= spec_utf16(s@.take(i + 1 as int)));
        }
        i = i + 1;
    }
    proof {
        assert(s@.take(n as int) =~= s@);
    }
    v
}

/// Owns the source text and a moving cursor over its code units, and decodes
/// code points under the mode set by the last `reset`.
pub struct Reader {
    unicode: bool,
    src: String,
    units: Vec<u32>,
    index: usize,
    end: usize,
}

impl View for Reader {
    type V = ReaderModel;

    closed spec fn view(&self) -> ReaderModel {
        ReaderModel {
            text: self.src@,
            units: self.units@,
            index: self.index as int,
            end: self.end as int,
            unicode: self.unicode,
        }
    }
}

impl Reader {
    /// An empty reader: no text, cursor and bound at zero, legacy mode.
    pub fn new() -> (r: Self)
        ensures
            r@ == (ReaderModel {
                text: Seq::empty(),
                units: Seq::empty(),
                index: 0,
                end: 0,
                unicode: false,
            }),
    {
        Reader { unicode: false, src: String::new(), units: Vec::new(), index: 0, end: 0 }
    }

    /// The text bound by the last `reset`.
    pub fn source(&self) -> (r: &str)
        ensures
            r@ == self@.text,
    {
        self.src.as_str()
    }

    /// The current cursor, as a code-unit offset.
    pub fn index(&self) -> (r: usize)
        ensures
            r as int == self@.index,
    {
        self.index
    }

    /// The raw code unit at offset `i`, or `None` at or past `end`.
    fn at(&self, i: usize) -> (r: Option<u32>)
        ensures
            r == spec_unit_at(self@.units, self@.end, i as int),
    {
        if i < self.end && i < self.units.len() {
            Some(self.units[i])
        } else {
            None
        }
    }

    /// The code-unit width of a decoded code point under the current mode.
    #[allow(dead_code)]
    fn width(&self, cp: u32) -> (r: usize)
        ensures
            r == (if self@.unicode && cp > 0xFFFF {
                2int
            } else {
                1int
            }),
    {
        if self.unicode && cp > 0xFFFF {
            2
        } else {
            1
        }
    }

    /// The code point at offset `i` with its code-unit width.
    fn decode_at(&self, i: usize) -> (r: Option<(u32, usize)>)
        ensures
            ({
                let s = spec_decode(self@.units, self@.end, self@.unicode, i as int);
                match r {
                    None => s is None,
                    Some(p) => s == Some((p.0, p.1 as int)),
                }
            }),
    {
        match self.at(i) {
            None => None,
            Some(c) => {
                if self.unicode && 0xD800 <= c && c <= 0xDBFF && i < usize::MAX {
                    match self.at(i + 1) {
                        Some(t) => {
                            if 0xDC00 <= t && t <= 0xDFFF {
                                Some(((c - 0xD800) * 0x400 + (t - 0xDC00) + 0x10000, 2))
                            } else {
                                Some((c, 1))
                            }
                        },
                        None => Some((c, 1)),
                    }
                } else {
                    Some((c, 1))
                }
            },
        }
    }

    /// The code point `offset` positions ahead of the cursor, or `None` past
    /// `end`.  The lookahead window holds four code points: offsets past 3
    /// report `None`.
    pub fn code_point_with_offset(&self, offset: usize) -> (r: Option<u32>)
        ensures
            r == (if offset <= 3 {
                spec_peek(self@, offset as nat)
            } else {
                None::<u32>
            }),
    {
        if offset > 3 {
            return None;
        }
        let mut i = self.index;
        let mut k: usize = 0;
        while k < offset
            invariant
                k <= offset,
                spec_peek(self@, offset as nat) == spec_peek_at(
                    self@.units,
                    self@.end,
                    self@.unicode,
                    i as int,
                    (offset - k) as nat,
                ),
            decreases offset - k,
        {
            match self.decode_at(i) {
                None => {
                    return None;
                },
                Some(p) => {
                    i = i + p.1;
                },
            }
            k = k + 1;
        }
        match self.decode_at(i) {
            None => None,
            Some(p) => Some(p.0),
        }
    }

    /// Binds a new source and decoding mode and places the cursor at `start`;
    /// scanning is bounded by `end` (exclusive, in code units).
    pub fn reset(&mut self, source: &str, start: usize, end: usize, u_flag: bool)
        ensures
            final(self)@ == (ReaderModel {
                text: source@,
                units: spec_utf16(source@),
                index: start as int,
                end: end as int,
                unicode: u_flag,
            }),
    {
        self.unicode = u_flag;
        self.src = source.to_owned();
        self.units = utf16_units(source);
        self.end = end;
        self.index = start;
    }

    /// Moves the cursor back (or forward) to a code-unit offset; the
    /// lookahead is re-derived from scratch there.
    pub fn rewind(&mut self, index: usize)
        ensures
            final(self)@ == (ReaderModel { index: index as int, ..old(self)@ }),
    {
        self.index = index;
    }

    /// Moves the cursor past the current code point; a no-op at `end`.
    pub fn advance(&mut self)
        ensures
            final(self)@ == spec_advance(old(self)@),
    {
        match self.decode_at(self.index) {
            Some(p) => {
                self.index = self.index + p.1;
            },
            None => {},
        }
    }

    /// Consumes the next code point if it equals `cp`.
    pub fn eat(&mut self, cp: char) -> (r: bool)
        ensures
            ({
                let m = old(self)@;
                if spec_peek(m, 0) == Some(cp as u32) {
                    r && final(self)@ == spec_advance(m)
                } else {
                    !r && final(self)@ == m
                }
            }),
            ({
                let m = old(self)@;
                spec_peek(m, 0) == Some(cp as u32) ==> m.index < final(self)@.index <= m.end
            }),
    {
        match self.code_point_with_offset(0) {
            Some(c) => {
                if c == cp as u32 {
                    self.advance();
                    true
                } else {
                    false
                }
            },
            None => false,
        }
    }

    /// Consumes the next two code points if they equal `cp1, cp2`.
    pub fn eat2(&mut self, cp1: char, cp2: char) -> (r: bool)
        ensures
            ({
                let m = old(self)@;
                if spec_peek(m, 0) == Some(cp1 as u32) && spec_peek(m, 1) == Some(cp2 as u32) {
                    r && final(self)@ == spec_advance(spec_advance(m))
                } else {
                    !r && final(self)@ == m
                }
            }),
            r ==> old(self)@.index < final(self)@.index <= old(self)@.end,
    {
        let c0 = self.code_point_with_offset(0);
        let c1 = self.code_point_with_offset(1);
        match (c0, c1) {
            (Some(a), Some(b)) => {
                if a == cp1 as u32 && b == cp2 as u32 {
                    proof {
                        lemma_advance_peek_consistent(self@, 0);
                    }
                    self.advance();
                    self.advance();
                    true
                } else {
                    false
                }
            },
            _ => false,
        }
    }

    /// Consumes the next three code points if they equal `cp1, cp2, cp3`.
    pub fn eat3(&mut self, cp1: char, cp2: char, cp3: char) -> (r: bool)
        ensures
            ({
                let m = old(self)@;
                if spec_peek(m, 0) == Some(cp1 as u32) && spec_peek(m, 1) == Some(cp2 as u32)
                    && spec_peek(m, 2) == Some(cp3 as u32) {
                    r && final(self)@ == spec_advance(spec_advance(spec_advance(m)))
                } else {
                    !r && final(self)@ == m
                }
            }),
            r ==> old(self)@.index < final(self)@.index <= old(self)@.end,
    {
        let c0 = self.code_point_with_offset(0);
        let c1 = self.code_point_with_offset(1);
        let c2 = self.code_point_with_offset(2);
        match (c0, c1, c2) {
            (Some(a), Some(b), Some(c)) => {
                if a == cp1 as u32 && b == cp2 as u32 && c == cp3 as u32 {
                    proof {
                        lemma_advance_peek_consistent(self@, 0);
                        lemma_advance_peek_consistent(self@, 1);
                        lemma_advance_peek_consistent(spec_advance(self@), 0);
                    }
                    self.advance();
                    self.advance();
                    self.advance();
                    true
                } else {
                    false
                }
            },
            _ => false,
        }
    }
}

} // verus!
