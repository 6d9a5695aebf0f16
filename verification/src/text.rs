//! Bytes of a commit message: the byte classes of the grammar, scanning of
//! runs, and slicing of a string at byte offsets.

use vstd::prelude::*;
use vstd::string::*;
use vstd::utf8::*;

verus! {

/// The line feed, the grammar's line break.
pub const LINE_FEED: u8 = 0x0a;

/// `(`, which opens a scope.
pub const PAREN_OPEN: u8 = 0x28;

/// `)`, which closes a scope.
pub const PAREN_CLOSE: u8 = 0x29;

/// `:`, which ends the type.
pub const COLON: u8 = 0x3a;

/// `!`, the breaking-change marker.
pub const BANG: u8 = 0x21;

/// The space that follows the colon.
pub const SPACE: u8 = 0x20;

/// Whitespace is one of the ASCII characters space, tab, line feed and
/// carriage return.
pub open spec fn is_space(b: u8) -> bool {
    b == 0x20 || b == 0x09 || b == 0x0a || b == 0x0d
}

/// Tells whether a byte is whitespace.
pub fn byte_is_space(b: u8) -> (r: bool)
    ensures
        r == is_space(b),
{
    b == 0x20 || b == 0x09 || b == 0x0a || b == 0x0d
}

/// The classes of bytes that the grammar reads in runs.
#[derive(Clone, Copy, Debug)]
pub enum ByteClass {
    /// What a type is made of: anything but whitespace, `(` and `:`.
    TypeText,
    /// What a scope is made of: anything but `)` and a line break.
    ScopeText,
    /// What a line is made of: anything but a line break.
    LineText,
}

impl ByteClass {
    /// Whether the class holds the byte.
    pub open spec fn has(self, b: u8) -> bool {
        match self {
            ByteClass::TypeText => !is_space(b) && b != PAREN_OPEN && b != COLON,
            ByteClass::ScopeText => b != PAREN_CLOSE && b != LINE_FEED,
            ByteClass::LineText => b != LINE_FEED,
        }
    }

    /// Tells whether the class holds the byte.
    pub fn holds(&self, b: u8) -> (r: bool)
        ensures
            r == self.has(b),
    {
        match self {
            ByteClass::TypeText => !byte_is_space(b) && b != PAREN_OPEN && b != COLON,
            ByteClass::ScopeText => b != PAREN_CLOSE && b != LINE_FEED,
            ByteClass::LineText => b != LINE_FEED,
        }
    }
}

/// Where the longest run of bytes of `class` that starts at `from` ends: the
/// first index at or after `from` whose byte is outside the class, or the
/// length of `s` where there is none.
pub open spec fn run_end(s: Seq<u8>, from: int, class: ByteClass) -> int
    decreases s.len() - from,
{
    if 0 <= from < s.len() && class.has(s[from]) {
        run_end(s, from + 1, class)
    } else {
        from
    }
}

/// A run ends inside the text, holds only bytes of its class, and stops at
/// the end of the text or at a byte outside the class.
pub proof fn lemma_run_end(s: Seq<u8>, from: int, class: ByteClass)
    requires
        0 <= from <= s.len(),
    ensures
        from <= run_end(s, from, class) <= s.len(),
        forall|j: int| from <= j < run_end(s, from, class) ==> class.has(#[trigger] s[j]),
        run_end(s, from, class) < s.len() ==> !class.has(s[run_end(s, from, class)]),
    decreases s.len() - from,
{
    if from < s.len() && class.has(s[from]) {
        lemma_run_end(s, from + 1, class);
    }
}

/// The end of a run is the only index that a run of the class reaches and
/// cannot pass.
pub proof fn lemma_run_end_unique(s: Seq<u8>, from: int, class: ByteClass, end: int)
    requires
        0 <= from <= end <= s.len(),
        forall|j: int| from <= j < end ==> class.has(#[trigger] s[j]),
        end < s.len() ==> !class.has(s[end]),
    ensures
        run_end(s, from, class) == end,
    decreases end - from,
{
    if from < end {
        lemma_run_end_unique(s, from + 1, class, end);
    }
}

/// Scans the longest run of bytes of `class` that starts at `from`.
pub fn scan_run(s: &[u8], from: usize, class: ByteClass) -> (end: usize)
    ensures
        end == run_end(s@, from as int, class),
        from <= end,
        from <= s@.len() ==> end <= s@.len(),
{
    let mut i: usize = from;
    while i < s.len() && class.holds(s[i])
        invariant
            from <= i,
            from <= s@.len() ==> i <= s@.len(),
            run_end(s@, from as int, class) == run_end(s@, i as int, class),
        decreases s@.len() - i,
    {
        i = i + 1;
    }
    i
}

/// Where a text between `from` and `to` ends once the whitespace at its end
/// is taken off.
pub open spec fn trimmed_end(s: Seq<u8>, from: int, to: int) -> int
    decreases to - from,
{
    if from < to && 0 < to <= s.len() && is_space(s[to - 1]) {
        trimmed_end(s, from, to - 1)
    } else {
        to
    }
}

/// Trimming takes off whitespace only, and all of it: what is left is empty
/// or ends in a byte that is no whitespace.
pub proof fn lemma_trimmed_end(s: Seq<u8>, from: int, to: int)
    requires
        0 <= from <= to <= s.len(),
    ensures
        from <= trimmed_end(s, from, to) <= to,
        forall|j: int| trimmed_end(s, from, to) <= j < to ==> is_space(#[trigger] s[j]),
        from < trimmed_end(s, from, to) ==> !is_space(s[trimmed_end(s, from, to) - 1]),
    decreases to - from,
{
    if from < to && is_space(s[to - 1]) {
        lemma_trimmed_end(s, from, to - 1);
    }
}

/// Finds where the text between `from` and `to` ends without the whitespace
/// at its end.
pub fn trim_end(s: &[u8], from: usize, to: usize) -> (end: usize)
    ensures
        end == trimmed_end(s@, from as int, to as int),
        end <= to,
        from <= to ==> from <= end,
{
    let mut e: usize = to;
    while from < e && e <= s.len() && byte_is_space(s[e - 1])
        invariant
            e <= to,
            from <= to ==> from <= e,
            trimmed_end(s@, from as int, to as int) == trimmed_end(s@, from as int, e as int),
        decreases e,
    {
        e = e - 1;
    }
    e
}

/// Where the paragraph that starts at `from` ends: at the first line break
/// that is the last byte of the text or stands before another line break, or
/// at the end of the text.
pub open spec fn paragraph_end(s: Seq<u8>, from: int) -> int
    decreases s.len() - from,
{
    if 0 <= from < s.len() && !ends_paragraph(s, from) {
        paragraph_end(s, from + 1)
    } else {
        from
    }
}

/// Whether the byte at `at` is a line break that ends a paragraph: the last
/// byte of the text, or one before another line break.
pub open spec fn ends_paragraph(s: Seq<u8>, at: int) -> bool {
    &&& 0 <= at < s.len()
    &&& s[at] == LINE_FEED
    &&& (at + 1 == s.len() || s[at + 1] == LINE_FEED)
}

/// A paragraph ends inside the text, holds no line break that would end it,
/// and stops at the end of the text or at such a line break.
pub proof fn lemma_paragraph_end(s: Seq<u8>, from: int)
    requires
        0 <= from <= s.len(),
    ensures
        from <= paragraph_end(s, from) <= s.len(),
        forall|j: int| from <= j < paragraph_end(s, from) ==> !ends_paragraph(s, j),
        paragraph_end(s, from) < s.len() ==> ends_paragraph(s, paragraph_end(s, from)),
    decreases s.len() - from,
{
    if from < s.len() && !ends_paragraph(s, from) {
        lemma_paragraph_end(s, from + 1);
    }
}

/// The end of a paragraph is the only index that the paragraph reaches and
/// cannot pass.
pub proof fn lemma_paragraph_end_unique(s: Seq<u8>, from: int, end: int)
    requires
        0 <= from <= end <= s.len(),
        forall|j: int| from <= j < end ==> !ends_paragraph(s, j),
        end < s.len() ==> ends_paragraph(s, end),
    ensures
        paragraph_end(s, from) == end,
    decreases end - from,
{
    if from < end {
        lemma_paragraph_end_unique(s, from + 1, end);
    }
}

/// Scans the paragraph that starts at `from`.
pub fn scan_paragraph(s: &[u8], from: usize) -> (end: usize)
    ensures
        end == paragraph_end(s@, from as int),
        from <= end,
        from <= s@.len() ==> end <= s@.len(),
{
    let n: usize = s.len();
    let mut i: usize = from;
    while i < n
        invariant
            n == s@.len(),
            from <= i,
            from <= n ==> i <= n,
            paragraph_end(s@, from as int) == paragraph_end(s@, i as int),
        decreases n - i,
    {
        if s[i] == LINE_FEED && (i + 1 == n || s[i + 1] == LINE_FEED) {
            return i;
        }
        i = i + 1;
    }
    i
}

/// In valid UTF-8 a character starts at every ASCII byte.
pub proof fn lemma_boundary_at_ascii(bytes: Seq<u8>, i: int)
    requires
        valid_utf8(bytes),
        0 <= i < bytes.len(),
        bytes[i] < 0x80,
    ensures
        is_char_boundary(bytes, i),
{
    is_char_boundary_iff_not_is_continuation_byte(bytes, i);
}

/// In valid UTF-8 a character ends with every ASCII byte: the index after one
/// is a character boundary.
pub proof fn lemma_boundary_after_ascii(bytes: Seq<u8>, i: int)
    requires
        valid_utf8(bytes),
        0 < i <= bytes.len(),
        bytes[i - 1] < 0x80,
    ensures
        is_char_boundary(bytes, i),
    decreases bytes.len(),
{
    let first = length_of_first_scalar(bytes);
    let rest = pop_first_scalar(bytes);
    assert(1 <= first <= bytes.len());
    if i <= first {
        // The ASCII byte lies in the first character, which is then one byte long.
        assert(first == 1);
        assert(i == 1);
        assert(is_char_boundary(rest, 0));
    } else {
        assert(rest[i - first - 1] == bytes[i - 1]);
        lemma_boundary_after_ascii(rest, i - first);
    }
}

/// The part of a string between two byte offsets that are character
/// boundaries.
pub fn slice_str<'a>(s: &'a str, start: usize, end: usize) -> (r: &'a str)
    requires
        start <= end <= s.spec_bytes().len(),
        is_char_boundary(s.spec_bytes(), start as int),
        is_char_boundary(s.spec_bytes(), end as int),
    ensures
        r.spec_bytes() == s.spec_bytes().subrange(start as int, end as int),
{
    proof {
        encode_utf8_valid_utf8(s@);
        valid_utf8_split(s.spec_bytes(), end as int);
    }
    let (head, _) = s.split_at(end);
    proof {
        let whole = s.spec_bytes();
        let front = head.spec_bytes();
        assert(front =~= whole.subrange(0, end as int));
        assert(valid_utf8(front));
        if start == end {
            is_char_boundary_start_end_of_seq(front);
        } else {
            is_char_boundary_iff_not_is_continuation_byte(whole, start as int);
            is_char_boundary_iff_not_is_continuation_byte(front, start as int);
        }
    }
    let (_, part) = head.split_at(start);
    proof {
        assert(part.spec_bytes() =~= s.spec_bytes().subrange(start as int, end as int));
    }
    part
}

} // verus!
