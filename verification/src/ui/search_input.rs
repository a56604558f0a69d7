//! The text model of the search field: its text, selection and the text an input
//! method is composing, with the conversions between character positions, UTF-8
//! byte offsets and the UTF-16 offsets that input methods use.
use vstd::prelude::*;

use crate::assets::utf8_width;
use crate::text::{chars_of, string_of};
use vstd::utf8::{char_is_scalar, encode_scalar, encode_utf8};

verus! {

/// The number of UTF-16 code units of a character.
pub open spec fn utf16_width(c: char) -> int {
    if (c as u32) < 0x10000 {
        1
    } else {
        2
    }
}

/// The UTF-8 length of a text, in bytes.
pub open spec fn utf8_len(s: Seq<char>) -> int {
    encode_utf8(s).len() as int
}

/// The UTF-16 length of a text, in code units.
pub open spec fn utf16_len(s: Seq<char>) -> int
    decreases s.len(),
{
    if s.len() == 0 {
        0
    } else {
        utf16_len(s.drop_last()) + utf16_width(s.last())
    }
}

/// The first character position from `k` on whose UTF-16 offset reaches `offset`,
/// or the end of the text.
pub open spec fn utf16_ceil_from(s: Seq<char>, offset: int, k: int) -> int
    decreases s.len() - k,
{
    if k >= s.len() || utf16_len(s.take(k)) >= offset {
        k
    } else {
        utf16_ceil_from(s, offset, k + 1)
    }
}

/// The character position at a UTF-16 offset: the first whose offset reaches it.
pub open spec fn char_at_utf16(s: Seq<char>, offset: int) -> int {
    utf16_ceil_from(s, offset, 0)
}

/// The first character position from `k` on that reaches `offset` or whose
/// character ends beyond it, or the end of the text.
pub open spec fn utf16_floor_from(s: Seq<char>, offset: int, k: int) -> int
    decreases s.len() - k,
{
    if k >= s.len() || utf16_len(s.take(k)) >= offset || utf16_len(s.take(k + 1)) > offset {
        k
    } else {
        utf16_floor_from(s, offset, k + 1)
    }
}

/// The character position of a UTF-16 offset inside a text, rounded down to a
/// whole character.
pub open spec fn char_within_utf16(s: Seq<char>, offset: int) -> int {
    utf16_floor_from(s, offset, 0)
}

/// The UTF-8 byte offset of a character position.
pub open spec fn byte_offset(s: Seq<char>, k: int) -> int {
    utf8_len(s.take(k))
}

/// The UTF-16 offset of a character position.
pub open spec fn utf16_offset(s: Seq<char>, k: int) -> int {
    utf16_len(s.take(k))
}

/// The UTF-8 encoding of a character is `utf8_width` bytes long.
proof fn lemma_scalar_width(c: char)
    ensures
        encode_scalar(c as u32).len() == utf8_width(c),
{
    broadcast use char_is_scalar;
    assert(vstd::utf8::is_scalar(c as u32));
}

/// Encoding a text with one more character adds that character's bytes.
proof fn lemma_encode_push(s: Seq<char>, c: char)
    ensures
        encode_utf8(s.push(c)) == encode_utf8(s) + encode_scalar(c as u32),
    decreases s.len(),
{
    if s.len() == 0 {
        assert(s.push(c).drop_first() =~= Seq::<char>::empty());
        assert(encode_utf8(Seq::<char>::empty()) =~= Seq::<u8>::empty());
        assert(encode_utf8(s.push(c)) =~= encode_scalar(c as u32));
    } else {
        lemma_encode_push(s.drop_first(), c);
        assert(s.push(c).drop_first() =~= s.drop_first().push(c));
        assert(encode_utf8(s.push(c)) =~= encode_scalar(s[0] as u32) + encode_utf8(s.drop_first().push(c)));
    }
}

/// The byte and UTF-16 lengths of the prefix one character longer.
proof fn lemma_prefix_step(s: Seq<char>, k: int)
    requires
        0 <= k < s.len(),
    ensures
        utf8_len(s.take(k + 1)) == utf8_len(s.take(k)) + utf8_width(s[k]),
        utf16_len(s.take(k + 1)) == utf16_len(s.take(k)) + utf16_width(s[k]),
{
    assert(s.take(k + 1) =~= s.take(k).push(s[k]));
    lemma_encode_push(s.take(k), s[k]);
    lemma_scalar_width(s[k]);
    assert(s.take(k + 1).drop_last() =~= s.take(k));
}

/// Prefix lengths grow with the prefix, UTF-16 strictly, and the UTF-16 length never
/// exceeds the UTF-8 length.
proof fn lemma_prefix_monotone(s: Seq<char>, i: int, j: int)
    requires
        0 <= i <= j <= s.len(),
    ensures
        utf8_len(s.take(i)) <= utf8_len(s.take(j)),
        utf16_len(s.take(i)) + (j - i) <= utf16_len(s.take(j)),
        utf16_len(s.take(j)) - utf16_len(s.take(i)) <= utf8_len(s.take(j)) - utf8_len(s.take(i)),
    decreases j - i,
{
    if i < j {
        lemma_prefix_monotone(s, i, j - 1);
        lemma_prefix_step(s, j - 1);
    }
}

/// Facts about the whole text's lengths.
proof fn lemma_whole(s: Seq<char>)
    ensures
        s.take(s.len() as int) == s,
        utf16_len(s.take(0)) == 0,
        utf8_len(s.take(0)) == 0,
        0 <= utf16_len(s) <= utf8_len(s),
{
    assert(s.take(s.len() as int) =~= s);
    assert(s.take(0) =~= Seq::<char>::empty());
    assert(encode_utf8(Seq::<char>::empty()) =~= Seq::<u8>::empty());
    lemma_prefix_monotone(s, 0, s.len() as int);
}

/// A prefix is no longer than the text, and its UTF-16 length is at most its UTF-8
/// length.
proof fn lemma_prefix_bounds(s: Seq<char>, k: int)
    requires
        0 <= k <= s.len(),
    ensures
        0 <= utf16_len(s.take(k)) <= utf8_len(s.take(k)) <= utf8_len(s),
        utf16_len(s.take(k)) <= utf16_len(s),
{
    lemma_whole(s);
    lemma_prefix_monotone(s, 0, k);
    lemma_prefix_monotone(s, k, s.len() as int);
}

/// `utf16_ceil_from` stays within the text and after `k`.
proof fn lemma_ceil_bounds(s: Seq<char>, offset: int, k: int)
    requires
        0 <= k,
    ensures
        k <= utf16_ceil_from(s, offset, k),
        utf16_ceil_from(s, offset, k) <= if k <= s.len() {
            s.len() as int
        } else {
            k
        },
    decreases s.len() - k,
{
    if !(k >= s.len() || utf16_len(s.take(k)) >= offset) {
        lemma_ceil_bounds(s, offset, k + 1);
    }
}

/// `utf16_floor_from` stays within the text and after `k`.
proof fn lemma_floor_bounds(s: Seq<char>, offset: int, k: int)
    requires
        0 <= k,
    ensures
        k <= utf16_floor_from(s, offset, k),
        utf16_floor_from(s, offset, k) <= if k <= s.len() {
            s.len() as int
        } else {
            k
        },
    decreases s.len() - k,
{
    if !(k >= s.len() || utf16_len(s.take(k)) >= offset || utf16_len(s.take(k + 1)) > offset) {
        lemma_floor_bounds(s, offset, k + 1);
    }
}

/// A larger offset lands no earlier.
proof fn lemma_ceil_monotone(s: Seq<char>, a: int, b: int, k: int)
    requires
        a <= b,
        0 <= k <= s.len(),
    ensures
        utf16_ceil_from(s, a, k) <= utf16_ceil_from(s, b, k),
    decreases s.len() - k,
{
    if k < s.len() && utf16_len(s.take(k)) < a {
        lemma_ceil_monotone(s, a, b, k + 1);
    } else {
        lemma_ceil_bounds(s, b, k);
    }
}

/// A larger offset lands no earlier.
proof fn lemma_floor_monotone(s: Seq<char>, a: int, b: int, k: int)
    requires
        a <= b,
        0 <= k <= s.len(),
    ensures
        utf16_floor_from(s, a, k) <= utf16_floor_from(s, b, k),
    decreases s.len() - k,
{
    if k < s.len() && utf16_len(s.take(k)) < a && utf16_len(s.take(k + 1)) <= a {
        lemma_floor_monotone(s, a, b, k + 1);
    } else {
        lemma_floor_bounds(s, b, k);
    }
}

/// Scanning from `j` up to `k` for the UTF-16 offset of position `k` stops at `k`.
proof fn lemma_scan_to(s: Seq<char>, k: int, j: int)
    requires
        0 <= j <= k <= s.len(),
    ensures
        utf16_ceil_from(s, utf16_offset(s, k), j) == k,
        utf16_floor_from(s, utf16_offset(s, k), j) == k,
    decreases k - j,
{
    if j < k {
        lemma_prefix_monotone(s, j, k);
        lemma_prefix_monotone(s, j + 1, k);
        lemma_scan_to(s, k, j + 1);
    }
}

/// An input method's offsets and the field's positions agree: converting a character
/// position to its UTF-16 offset and back, rounding either way, gives the same
/// position.
pub proof fn law_utf16_round_trip(s: Seq<char>, k: int)
    requires
        0 <= k <= s.len(),
    ensures
        char_at_utf16(s, utf16_offset(s, k)) == k,
        char_within_utf16(s, utf16_offset(s, k)) == k,
{
    lemma_scan_to(s, k, 0);
}

/// The character position at a UTF-16 offset, and its UTF-8 byte offset.
fn utf16_position(cs: &Vec<char>, offset: usize) -> (res: (usize, usize))
    requires
        utf8_len(cs@) <= usize::MAX,
    ensures
        res.0 == char_at_utf16(cs@, offset as int),
        res.1 == byte_offset(cs@, res.0 as int),
{
    let ghost s = cs@;
    proof {
        lemma_whole(s);
    }
    let mut units: usize = 0;
    let mut bytes: usize = 0;
    let mut k: usize = 0;
    while k < cs.len()
        invariant
            s == cs@,
            utf8_len(s) <= usize::MAX,
            k <= cs.len(),
            units == utf16_len(s.take(k as int)),
            bytes == utf8_len(s.take(k as int)),
            utf16_ceil_from(s, offset as int, 0) == utf16_ceil_from(s, offset as int, k as int),
        decreases cs.len() - k,
    {
        if units >= offset {
            return (k, bytes);
        }
        let c = cs[k];
        proof {
            lemma_prefix_step(s, k as int);
            lemma_prefix_bounds(s, k + 1);
        }
        let w16: usize = if (c as u32) < 0x10000 { 1 } else { 2 };
        let w8: usize = if (c as u32) < 0x80 {
            1
        } else if (c as u32) < 0x800 {
            2
        } else if (c as u32) < 0x10000 {
            3
        } else {
            4
        };
        units = units + w16;
        bytes = bytes + w8;
        k += 1;
    }
    (k, bytes)
}

/// The character position inside a text at a UTF-16 offset rounded down, and its
/// UTF-8 byte offset.
fn utf16_position_within(cs: &Vec<char>, offset: usize) -> (res: (usize, usize))
    requires
        utf8_len(cs@) <= usize::MAX,
    ensures
        res.0 == char_within_utf16(cs@, offset as int),
        res.1 == byte_offset(cs@, res.0 as int),
{
    let ghost s = cs@;
    proof {
        lemma_whole(s);
    }
    let mut units: usize = 0;
    let mut bytes: usize = 0;
    let mut k: usize = 0;
    while k < cs.len()
        invariant
            s == cs@,
            utf8_len(s) <= usize::MAX,
            k <= cs.len(),
            units == utf16_len(s.take(k as int)),
            bytes == utf8_len(s.take(k as int)),
            utf16_floor_from(s, offset as int, 0) == utf16_floor_from(s, offset as int, k as int),
        decreases cs.len() - k,
    {
        let c = cs[k];
        proof {
            lemma_prefix_step(s, k as int);
            lemma_prefix_bounds(s, k + 1);
        }
        let w16: usize = if (c as u32) < 0x10000 { 1 } else { 2 };
        let w8: usize = if (c as u32) < 0x80 {
            1
        } else if (c as u32) < 0x800 {
            2
        } else if (c as u32) < 0x10000 {
            3
        } else {
            4
        };
        if units >= offset || units + w16 > offset {
            return (k, bytes);
        }
        units = units + w16;
        bytes = bytes + w8;
        k += 1;
    }
    (k, bytes)
}

/// The UTF-8 byte offset of a character position.
fn byte_offset_of(cs: &Vec<char>, k: usize) -> (res: usize)
    requires
        k <= cs.len(),
        utf8_len(cs@) <= usize::MAX,
    ensures
        res == byte_offset(cs@, k as int),
{
    let ghost s = cs@;
    proof {
        lemma_whole(s);
    }
    let mut bytes: usize = 0;
    let mut i: usize = 0;
    while i < k
        invariant
            s == cs@,
            utf8_len(s) <= usize::MAX,
            i <= k <= cs.len(),
            bytes == utf8_len(s.take(i as int)),
        decreases k - i,
    {
        let c = cs[i];
        proof {
            lemma_prefix_step(s, i as int);
            lemma_prefix_bounds(s, i + 1);
        }
        let w8: usize = if (c as u32) < 0x80 {
            1
        } else if (c as u32) < 0x800 {
            2
        } else if (c as u32) < 0x10000 {
            3
        } else {
            4
        };
        bytes = bytes + w8;
        i += 1;
    }
    bytes
}

/// The UTF-16 offset of a character position.
fn utf16_offset_of(cs: &Vec<char>, k: usize) -> (res: usize)
    requires
        k <= cs.len(),
        utf8_len(cs@) <= usize::MAX,
    ensures
        res == utf16_offset(cs@, k as int),
{
    let ghost s = cs@;
    proof {
        lemma_whole(s);
    }
    let mut units: usize = 0;
    let mut i: usize = 0;
    while i < k
        invariant
            s == cs@,
            utf8_len(s) <= usize::MAX,
            i <= k <= cs.len(),
            units == utf16_len(s.take(i as int)),
            units <= utf8_len(s.take(i as int)),
        decreases k - i,
    {
        let c = cs[i];
        proof {
            lemma_prefix_step(s, i as int);
            lemma_prefix_bounds(s, i + 1);
        }
        let w16: usize = if (c as u32) < 0x10000 { 1 } else { 2 };
        units = units + w16;
        i += 1;
    }
    units
}

/// The search field's text model.
#[derive(Debug)]
pub struct SearchInput {
    value: String,
    selection: (usize, usize),
    marked: Option<(usize, usize)>,
}

/// Whether a range of character positions lies in order within a text of `len`
/// characters.
pub open spec fn range_ok(r: (usize, usize), len: nat) -> bool {
    r.0 <= r.1 <= len
}

/// A text with the characters from `a` to `b` replaced.
pub open spec fn replaced(s: Seq<char>, a: int, b: int, text: Seq<char>) -> Seq<char> {
    s.take(a) + text + s.skip(b)
}

impl SearchInput {
    #[verifier::type_invariant]
    spec fn inv(self) -> bool {
        &&& range_ok(self.selection, self.value@.len())
        &&& match self.marked {
            Some(m) => range_ok(m, self.value@.len()),
            None => true,
        }
    }

    /// The text.
    pub closed spec fn text(&self) -> Seq<char> {
        self.value@
    }

    /// The selection, as character positions; the cursor when empty.
    pub closed spec fn sel(&self) -> (int, int) {
        (self.selection.0 as int, self.selection.1 as int)
    }

    /// The text being composed by an input method, as character positions.
    pub closed spec fn composing(&self) -> Option<(int, int)> {
        match self.marked {
            Some(m) => Some((m.0 as int, m.1 as int)),
            None => None,
        }
    }

    /// Whether the text's UTF-8 length fits in a `usize`, as every text in memory does.
    pub open spec fn fits(&self) -> bool {
        utf8_len(self.text()) <= usize::MAX
    }

    /// An empty field.
    pub fn new() -> (f: SearchInput)
        ensures
            f.text() == Seq::<char>::empty(),
            f.sel() == (0int, 0int),
            f.composing() is None,
    {
        SearchInput { value: String::new(), selection: (0, 0), marked: None }
    }

    /// The text.
    pub fn value(&self) -> (v: &str)
        ensures
            v@ == self.text(),
    {
        self.value.as_str()
    }

    /// The UTF-8 byte offset of the character position at UTF-16 offset `offset`
    /// inside `text`, rounded down to a whole character.
    pub fn utf16_prefix_bytes(text: &str, offset: usize) -> (res: usize)
        requires
            utf8_len(text@) <= usize::MAX,
        ensures
            res == byte_offset(text@, char_within_utf16(text@, offset as int)),
    {
        let cs = chars_of(text);
        utf16_position_within(&cs, offset).1
    }

    /// The UTF-8 byte offset of the character position at a UTF-16 offset.
    pub fn utf16_to_utf8(&self, offset: usize) -> (res: usize)
        requires
            self.fits(),
        ensures
            res == byte_offset(self.text(), char_at_utf16(self.text(), offset as int)),
    {
        let cs = chars_of(self.value.as_str());
        utf16_position(&cs, offset).1
    }

    /// The UTF-16 offset of a UTF-8 byte offset, which must fall between characters.
    pub fn utf8_to_utf16(&self, offset: usize) -> (res: usize)
        requires
            self.fits(),
            exists|k: int| 0 <= k <= self.text().len() && byte_offset(self.text(), k) == offset,
        ensures
            forall|k: int|
                0 <= k <= self.text().len() && byte_offset(self.text(), k) == offset ==> res
                    == utf16_offset(self.text(), k),
    {
        let cs = chars_of(self.value.as_str());
        let ghost s = cs@;
        proof {
            lemma_whole(s);
        }
        let mut bytes: usize = 0;
        let mut units: usize = 0;
        let mut i: usize = 0;
        while i < cs.len() && bytes < offset
            invariant
                s == cs@,
                s == self.text(),
                utf8_len(s) <= usize::MAX,
                i <= cs.len(),
                bytes == utf8_len(s.take(i as int)),
                units == utf16_len(s.take(i as int)),
                units <= bytes,
                exists|k: int| i <= k <= s.len() && byte_offset(s, k) == offset,
            decreases cs.len() - i,
        {
            let c = cs[i];
            proof {
                lemma_prefix_step(s, i as int);
                lemma_prefix_bounds(s, i + 1);
                let k = choose|k: int| i <= k <= s.len() && byte_offset(s, k) == offset;
                if k == i {
                    assert(false);
                }
            }
            let w8: usize = if (c as u32) < 0x80 {
                1
            } else if (c as u32) < 0x800 {
                2
            } else if (c as u32) < 0x10000 {
                3
            } else {
                4
            };
            let w16: usize = if (c as u32) < 0x10000 { 1 } else { 2 };
            bytes = bytes + w8;
            units = units + w16;
            i += 1;
        }
        proof {
            let k = choose|k: int| i <= k <= s.len() && byte_offset(s, k) == offset;
            if k > i {
                lemma_prefix_monotone(s, i as int, k - 1);
                lemma_prefix_step(s, k - 1);
                lemma_scalar_width(s[k - 1]);
            }
            assert(k == i);
            assert forall|j: int| 0 <= j <= s.len() && byte_offset(s, j) == offset implies units
                == utf16_offset(s, j) by {
                if j < i {
                    lemma_prefix_monotone(s, j, i as int - 1);
                    lemma_prefix_step(s, i as int - 1);
                    lemma_scalar_width(s[i - 1]);
                } else if j > i {
                    lemma_prefix_monotone(s, i as int, j - 1);
                    lemma_prefix_step(s, j - 1);
                    lemma_scalar_width(s[j - 1]);
                }
            }
        }
        units
    }

    /// The UTF-16 length of the text.
    pub fn text_length_utf16(&self) -> (res: usize)
        requires
            self.fits(),
        ensures
            res == utf16_len(self.text()),
    {
        let cs = chars_of(self.value.as_str());
        proof {
            lemma_whole(cs@);
        }
        utf16_offset_of(&cs, cs.len())
    }

    /// The selection as UTF-8 byte offsets, for drawing.
    pub fn selection_bytes(&self) -> (res: (usize, usize))
        requires
            self.fits(),
        ensures
            res.0 == byte_offset(self.text(), self.sel().0),
            res.1 == byte_offset(self.text(), self.sel().1),
    {
        proof {
            use_type_invariant(self);
        }
        let cs = chars_of(self.value.as_str());
        (byte_offset_of(&cs, self.selection.0), byte_offset_of(&cs, self.selection.1))
    }

    /// The selection as UTF-16 offsets.
    pub fn selected_text_range(&self) -> (res: (usize, usize))
        requires
            self.fits(),
        ensures
            res.0 == utf16_offset(self.text(), self.sel().0),
            res.1 == utf16_offset(self.text(), self.sel().1),
    {
        proof {
            use_type_invariant(self);
        }
        let cs = chars_of(self.value.as_str());
        (utf16_offset_of(&cs, self.selection.0), utf16_offset_of(&cs, self.selection.1))
    }

    /// The text being composed, as UTF-16 offsets.
    pub fn marked_text_range(&self) -> (res: Option<(usize, usize)>)
        requires
            self.fits(),
        ensures
            match self.composing() {
                Some(m) => res matches Some(r) && r.0 == utf16_offset(self.text(), m.0) && r.1
                    == utf16_offset(self.text(), m.1),
                None => res is None,
            },
    {
        proof {
            use_type_invariant(self);
        }
        match self.marked {
            Some(m) => {
                let cs = chars_of(self.value.as_str());
                Some((utf16_offset_of(&cs, m.0), utf16_offset_of(&cs, m.1)))
            },
            None => None,
        }
    }

    /// The text between two UTF-16 offsets, with the offsets of the whole characters
    /// it covers; no text when the offsets are out of order.
    pub fn text_for_range(&self, start: usize, end: usize) -> (res: (Option<String>, (usize, usize)))
        requires
            self.fits(),
        ensures
            ({
                let s = self.text();
                let a = char_at_utf16(s, start as int);
                let b = char_at_utf16(s, end as int);
                &&& res.1 == (utf16_offset(s, a) as usize, utf16_offset(s, b) as usize)
                &&& match res.0 {
                    Some(t) => a <= b && t@ == s.subrange(a, b),
                    None => a > b,
                }
            }),
    {
        let cs = chars_of(self.value.as_str());
        let ghost s = cs@;
        let (a, _) = utf16_position(&cs, start);
        let (b, _) = utf16_position(&cs, end);
        proof {
            lemma_ceil_bounds(s, start as int, 0);
            lemma_ceil_bounds(s, end as int, 0);
        }
        let adjusted = (utf16_offset_of(&cs, a), utf16_offset_of(&cs, b));
        if a > b {
            return (None, adjusted);
        }
        let mut out: Vec<char> = Vec::new();
        let mut i: usize = a;
        while i < b
            invariant
                s == cs@,
                a <= i <= b <= cs.len(),
                out@ == s.subrange(a as int, i as int),
            decreases b - i,
        {
            out.push(cs[i]);
            assert(out@ =~= s.subrange(a as int, i + 1));
            i += 1;
        }
        (Some(string_of(&out)), adjusted)
    }

    /// Replaces the characters from `a` to `b` with `text`, and puts the cursor after
    /// it; nothing is being composed afterwards.
    fn replace_chars(&mut self, a: usize, b: usize, text: &str)
        requires
            a <= b <= old(self).text().len(),
        ensures
            final(self).text() == replaced(old(self).text(), a as int, b as int, text@),
            final(self).sel() == (a + text@.len(), a + text@.len()),
            final(self).composing() is None,
    {
        let cs = chars_of(self.value.as_str());
        let ins = chars_of(text);
        let mut out: Vec<char> = Vec::new();
        let mut i: usize = 0;
        while i < a
            invariant
                i <= a <= b <= cs.len(),
                out@ == cs@.take(i as int),
            decreases a - i,
        {
            out.push(cs[i]);
            assert(out@ =~= cs@.take(i + 1));
            i += 1;
        }
        let mut j: usize = 0;
        while j < ins.len()
            invariant
                i == a,
                j <= ins.len(),
                out@ == cs@.take(a as int) + ins@.take(j as int),
            decreases ins.len() - j,
        {
            out.push(ins[j]);
            assert(out@ =~= cs@.take(a as int) + ins@.take(j + 1));
            j += 1;
        }
        let cursor = out.len();
        let mut k: usize = b;
        while k < cs.len()
            invariant
                a <= b <= k <= cs.len(),
                cursor == a + ins@.len(),
                out@ == cs@.take(a as int) + ins@ + cs@.subrange(b as int, k as int),
            decreases cs.len() - k,
        {
            out.push(cs[k]);
            assert(out@ =~= cs@.take(a as int) + ins@ + cs@.subrange(b as int, k + 1));
            k += 1;
        }
        assert(ins@.take(ins@.len() as int) =~= ins@);
        assert(cs@.subrange(b as int, cs@.len() as int) =~= cs@.skip(b as int));
        *self = SearchInput { value: string_of(&out), selection: (cursor, cursor), marked: None };
    }

    /// The character range that an input method's replacement applies to: the given
    /// UTF-16 range, else the text being composed, else the selection.
    pub open spec fn target(&self, range: Option<(usize, usize)>) -> (int, int) {
        match range {
            Some(r) => (char_at_utf16(self.text(), r.0 as int), char_at_utf16(self.text(), r.1 as int)),
            None => match self.composing() {
                Some(m) => m,
                None => self.sel(),
            },
        }
    }

    /// The character range that a replacement applies to.
    fn target_range(&self, range: Option<(usize, usize)>) -> (res: (usize, usize))
        requires
            self.fits(),
            range matches Some(r) ==> r.0 <= r.1,
        ensures
            res.0 == self.target(range).0,
            res.1 == self.target(range).1,
            res.0 <= res.1 <= self.text().len(),
    {
        proof {
            use_type_invariant(self);
        }
        match range {
            Some(r) => {
                let cs = chars_of(self.value.as_str());
                proof {
                    lemma_ceil_monotone(cs@, r.0 as int, r.1 as int, 0);
                    lemma_ceil_bounds(cs@, r.1 as int, 0);
                }
                (utf16_position(&cs, r.0).0, utf16_position(&cs, r.1).0)
            },
            None => match self.marked {
                Some(m) => m,
                None => self.selection,
            },
        }
    }

    /// Replaces text as an input method asks: the given UTF-16 range (or what is being
    /// composed, or the selection) becomes `text`, and the cursor follows it.
    pub fn replace_text_in_range(&mut self, range: Option<(usize, usize)>, text: &str)
        requires
            old(self).fits(),
            range matches Some(r) ==> r.0 <= r.1,
        ensures
            ({
                let (a, b) = old(self).target(range);
                &&& final(self).text() == replaced(old(self).text(), a, b, text@)
                &&& final(self).sel() == (a + text@.len(), a + text@.len())
                &&& final(self).composing() is None
            }),
    {
        let (a, b) = self.target_range(range);
        self.replace_chars(a, b, text);
    }

    /// Replaces text as an input method composing it asks: like
    /// `replace_text_in_range`, and the new text is marked as being composed (unless it
    /// is empty); the selection becomes `new_selection`, UTF-16 offsets inside the new
    /// text, when given.
    pub fn replace_and_mark_text_in_range(
        &mut self,
        range: Option<(usize, usize)>,
        text: &str,
        new_selection: Option<(usize, usize)>,
    )
        requires
            old(self).fits(),
            utf8_len(text@) <= usize::MAX,
            range matches Some(r) ==> r.0 <= r.1,
            new_selection matches Some(r) ==> r.0 <= r.1,
        ensures
            ({
                let (a, b) = old(self).target(range);
                let n = text@.len();
                &&& final(self).text() == replaced(old(self).text(), a, b, text@)
                &&& final(self).composing() == if n > 0 {
                    Some((a, a + n))
                } else {
                    None
                }
                &&& final(self).sel() == match new_selection {
                    Some(r) => (
                        a + char_within_utf16(text@, r.0 as int),
                        a + char_within_utf16(text@, r.1 as int),
                    ),
                    None => (a + n, a + n),
                }
            }),
    {
        let (a, b) = self.target_range(range);
        self.replace_chars(a, b, text);
        proof {
            use_type_invariant(&*self);
        }
        let ins = chars_of(text);
        let n = ins.len();
        if n > 0 {
            self.marked = Some((a, a + n));
        }
        match new_selection {
            Some(r) => {
                let begin = utf16_position_within(&ins, r.0).0;
                let end = utf16_position_within(&ins, r.1).0;
                proof {
                    lemma_floor_monotone(ins@, r.0 as int, r.1 as int, 0);
                    lemma_floor_bounds(ins@, r.1 as int, 0);
                }
                self.selection = (a + begin, a + end);
            },
            None => {},
        }
    }

    /// Ends composition, keeping the text.
    pub fn unmark_text(&mut self)
        ensures
            final(self).text() == old(self).text(),
            final(self).sel() == old(self).sel(),
            final(self).composing() is None,
    {
        proof {
            use_type_invariant(&*self);
        }
        self.marked = None;
    }

    /// Selects the characters between two UTF-16 offsets.
    pub fn set_selected_text_range(&mut self, start: usize, end: usize)
        requires
            old(self).fits(),
            start <= end,
        ensures
            final(self).text() == old(self).text(),
            final(self).sel() == (char_at_utf16(old(self).text(), start as int), char_at_utf16(
                old(self).text(),
                end as int,
            )),
            final(self).composing() == old(self).composing(),
    {
        proof {
            use_type_invariant(&*self);
        }
        let cs = chars_of(self.value.as_str());
        proof {
            lemma_ceil_monotone(cs@, start as int, end as int, 0);
            lemma_ceil_bounds(cs@, end as int, 0);
        }
        let a = utf16_position(&cs, start).0;
        let b = utf16_position(&cs, end).0;
        self.selection = (a, b);
    }

    /// Selects the whole text.
    pub fn select_all(&mut self)
        ensures
            final(self).text() == old(self).text(),
            final(self).sel() == (0int, old(self).text().len() as int),
            final(self).composing() == old(self).composing(),
    {
        proof {
            use_type_invariant(&*self);
        }
        let n = chars_of(self.value.as_str()).len();
        self.selection = (0, n);
    }

    /// Pastes text over the selection (or what is being composed), with its line breaks
    /// turned into spaces.
    pub fn paste(&mut self, text: &str)
        ensures
            ({
                let (a, b) = match old(self).composing() {
                    Some(m) => m,
                    None => old(self).sel(),
                };
                let flat = text@.map_values(|c: char| if c == '\n' { ' ' } else { c });
                &&& final(self).text() == replaced(old(self).text(), a, b, flat)
                &&& final(self).sel() == (a + flat.len(), a + flat.len())
                &&& final(self).composing() is None
            }),
    {
        proof {
            use_type_invariant(&*self);
        }
        let cs = chars_of(text);
        let ghost flat = text@.map_values(|c: char| if c == '\n' { ' ' } else { c });
        let mut out: Vec<char> = Vec::new();
        let mut i: usize = 0;
        while i < cs.len()
            invariant
                cs@ == text@,
                flat == text@.map_values(|c: char| if c == '\n' { ' ' } else { c }),
                i <= cs.len(),
                out@ == flat.take(i as int),
            decreases cs.len() - i,
        {
            let c = cs[i];
            out.push(if c == '\n' { ' ' } else { c });
            assert(out@ =~= flat.take(i + 1));
            i += 1;
        }
        assert(flat.take(cs.len() as int) =~= flat);
        let flat_text = string_of(&out);
        let (a, b) = match self.marked {
            Some(m) => m,
            None => self.selection,
        };
        self.replace_chars(a, b, flat_text.as_str());
    }

    /// Deletes backwards: the selection when there is one, else the character before
    /// the cursor; nothing is being composed afterwards.
    pub fn backspace(&mut self)
        ensures
            ({
                let (s, e) = old(self).sel();
                let start = if s == e {
                    if s > 0 {
                        s - 1
                    } else {
                        0
                    }
                } else {
                    s
                };
                &&& final(self).text() == replaced(old(self).text(), start, e, Seq::empty())
                &&& final(self).sel() == (start, start)
                &&& final(self).composing() is None
            }),
    {
        proof {
            use_type_invariant(&*self);
        }
        let (s, e) = self.selection;
        let start = if s == e {
            if s > 0 {
                s - 1
            } else {
                0
            }
        } else {
            s
        };
        self.replace_chars(start, e, "");
        proof {
            reveal_strlit("");
        }
    }

    /// Moves the cursor one character left of the selection's start.
    pub fn move_left(&mut self)
        ensures
            final(self).text() == old(self).text(),
            final(self).composing() == old(self).composing(),
            final(self).sel() == (if old(self).sel().0 > 0 {
                (old(self).sel().0 - 1, old(self).sel().0 - 1)
            } else {
                (0int, 0int)
            }),
    {
        proof {
            use_type_invariant(&*self);
        }
        let s = self.selection.0;
        let c = if s > 0 {
            s - 1
        } else {
            0
        };
        self.selection = (c, c);
    }

    /// Moves the cursor one character right of the selection's end.
    pub fn move_right(&mut self)
        ensures
            final(self).text() == old(self).text(),
            final(self).composing() == old(self).composing(),
            final(self).sel() == (if old(self).sel().1 < old(self).text().len() {
                (old(self).sel().1 + 1, old(self).sel().1 + 1)
            } else {
                (old(self).text().len() as int, old(self).text().len() as int)
            }),
    {
        proof {
            use_type_invariant(&*self);
        }
        let n = chars_of(self.value.as_str()).len();
        let e = self.selection.1;
        let c = if e < n {
            e + 1
        } else {
            n
        };
        self.selection = (c, c);
    }

    /// Puts the cursor at a clicked UTF-8 byte offset, moved back to the start of the
    /// character it falls in (or to the end of the text).
    pub fn click_at(&mut self, offset: usize)
        requires
            old(self).fits(),
        ensures
            final(self).text() == old(self).text(),
            final(self).composing() == old(self).composing(),
            final(self).sel().0 == final(self).sel().1,
            ({
                let s = old(self).text();
                let k = final(self).sel().0;
                &&& 0 <= k <= s.len()
                &&& byte_offset(s, k) <= offset
                &&& k < s.len() ==> byte_offset(s, k + 1) > offset
            }),
    {
        proof {
            use_type_invariant(&*self);
        }
        let cs = chars_of(self.value.as_str());
        let ghost s = cs@;
        proof {
            lemma_whole(s);
        }
        let mut bytes: usize = 0;
        let mut k: usize = 0;
        while k < cs.len()
            invariant
                s == cs@,
                utf8_len(s) <= usize::MAX,
                k <= cs.len(),
                bytes == utf8_len(s.take(k as int)),
                bytes <= offset,
            ensures
                k <= cs.len(),
                bytes == utf8_len(s.take(k as int)),
                bytes <= offset,
                k < s.len() ==> utf8_len(s.take(k + 1)) > offset,
            decreases cs.len() - k,
        {
            let c = cs[k];
            proof {
                lemma_prefix_step(s, k as int);
                lemma_prefix_bounds(s, k + 1);
            }
            let w8: usize = if (c as u32) < 0x80 {
                1
            } else if (c as u32) < 0x800 {
                2
            } else if (c as u32) < 0x10000 {
                3
            } else {
                4
            };
            if bytes + w8 > offset {
                break;
            }
            bytes = bytes + w8;
            k += 1;
        }
        self.selection = (k, k);
    }
}

} // verus!
