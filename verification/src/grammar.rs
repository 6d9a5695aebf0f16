//! The grammar of a commit message, as a function from its bytes to the
//! places of its fields.
//!
//! ```text
//! commit  = header [ blank body [ blank footer ] ] [ line-break ]
//! header  = type [ "(" scope ")" ] [ "!" ] ":" " " subject { whitespace }
//! blank   = line-break line-break
//! ```
//!
//! A type is the longest run of bytes that are neither whitespace nor `(` nor
//! `:`; a `!` directly in front of the colon is the breaking-change marker and
//! no part of the type. A scope is what stands between `(` and the next `)` of
//! the line. The subject is the rest of the line without the whitespace at its
//! end. A body is a paragraph: lines up to the first blank line or the end of
//! the text. The footer is all that follows the blank line after the body. One
//! line break at the very end of the text belongs to no field. A line break is
//! a line feed.

use vstd::prelude::*;
use vstd::utf8::{is_char_boundary, valid_utf8};
use crate::text::{
    ends_paragraph, is_space, lemma_boundary_after_ascii, lemma_boundary_at_ascii,
    lemma_paragraph_end, lemma_run_end, lemma_trimmed_end, paragraph_end, run_end, scan_paragraph,
    scan_run, trim_end, trimmed_end, ByteClass, BANG, COLON, LINE_FEED, PAREN_CLOSE, PAREN_OPEN,
    SPACE,
};

verus! {

/// A range of byte offsets, from `start` up to `end`.
pub struct Extent {
    pub start: int,
    pub end: int,
}

/// Where the fields of a commit message stand in its text.
pub struct Fields {
    /// The first line.
    pub header: Extent,
    pub commit_type: Extent,
    pub scope: Option<Extent>,
    pub subject: Extent,
    pub body: Option<Extent>,
    pub footer: Option<Extent>,
}

/// The fields of the first line.
pub struct HeaderFields {
    /// The whole line, up to its line break.
    pub line: Extent,
    pub commit_type: Extent,
    pub scope: Option<Extent>,
    pub subject: Extent,
}

/// What the grammar found missing.
#[derive(Clone, Copy, Debug, PartialEq, Eq, Structural)]
pub enum ParseErrorKind {
    /// The text does not start with a type.
    MissingType,
    /// A scope was opened and not closed on the first line.
    UnclosedScope,
    /// No `:` follows the type, the scope or the breaking-change marker.
    MissingColon,
    /// No space follows the colon.
    MissingSpace,
    /// Nothing but whitespace follows the colon and the space.
    MissingSubject,
    /// Text follows a line after one line break only.
    MissingBlankLine,
    /// A blank line is followed by another line break or by nothing.
    EmptySection,
}

/// A failure of the grammar: what was missing, and the offset at which it was
/// expected.
pub struct Failure {
    pub kind: ParseErrorKind,
    pub offset: int,
}

/// Where the run of type bytes at the start of the text ends.
pub open spec fn type_run(s: Seq<u8>) -> int {
    run_end(s, 0, ByteClass::TypeText)
}

/// Whether the run of type bytes ends in the breaking-change marker: in a `!`
/// directly in front of the colon.
pub open spec fn marker_ends_type_run(s: Seq<u8>) -> bool {
    let r = type_run(s);
    0 < r < s.len() && s[r] == COLON && s[r - 1] == BANG
}

/// Where the type ends.
pub open spec fn type_end(s: Seq<u8>) -> int {
    if marker_ends_type_run(s) {
        type_run(s) - 1
    } else {
        type_run(s)
    }
}

/// The scope, where a `(` follows the type.
pub open spec fn scope_of(s: Seq<u8>) -> Result<Option<Extent>, Failure> {
    let open = type_run(s);
    if 0 <= open < s.len() && s[open] == PAREN_OPEN {
        let close = run_end(s, open + 1, ByteClass::ScopeText);
        if 0 <= close < s.len() && s[close] == PAREN_CLOSE {
            Ok(Some(Extent { start: open + 1, end: close }))
        } else {
            Err(Failure { kind: ParseErrorKind::UnclosedScope, offset: close })
        }
    } else {
        Ok(None)
    }
}

/// Where the colon must stand: after the type, or after the scope and the
/// breaking-change marker that may follow it.
pub open spec fn colon_place(s: Seq<u8>, scope: Option<Extent>) -> int {
    match scope {
        Some(e) => if 0 <= e.end + 1 < s.len() && s[e.end + 1] == BANG {
            e.end + 2
        } else {
            e.end + 1
        },
        None => type_run(s),
    }
}

/// The fields of the first line, or what it lacks.
pub open spec fn header_of(s: Seq<u8>) -> Result<HeaderFields, Failure> {
    if type_end(s) <= 0 {
        Err(Failure { kind: ParseErrorKind::MissingType, offset: 0 })
    } else {
        match scope_of(s) {
            Err(f) => Err(f),
            Ok(scope) => {
                let colon = colon_place(s, scope);
                let start = colon + 2;
                let line_end = run_end(s, start, ByteClass::LineText);
                let subject_end = trimmed_end(s, start, line_end);
                if !(0 <= colon < s.len() && s[colon] == COLON) {
                    Err(Failure { kind: ParseErrorKind::MissingColon, offset: colon })
                } else if !(colon + 1 < s.len() && s[colon + 1] == SPACE) {
                    Err(Failure { kind: ParseErrorKind::MissingSpace, offset: colon + 1 })
                } else if subject_end <= start {
                    Err(Failure { kind: ParseErrorKind::MissingSubject, offset: start })
                } else {
                    Ok(
                        HeaderFields {
                            line: Extent { start: 0, end: line_end },
                            commit_type: Extent { start: 0, end: type_end(s) },
                            scope,
                            subject: Extent { start, end: subject_end },
                        },
                    )
                }
            },
        }
    }
}

/// Whether the text ends where a field ends at `at`: nothing follows, or one
/// last line break.
pub open spec fn text_ends(s: Seq<u8>, at: int) -> bool {
    at >= s.len() || (at + 1 == s.len() && s[at] == LINE_FEED)
}

/// Where the section starts that follows a field ending at `at`: behind one
/// blank line, at a byte that is no line break.
pub open spec fn next_section(s: Seq<u8>, at: int) -> Result<int, Failure> {
    if !(at + 1 < s.len() && s[at + 1] == LINE_FEED) {
        Err(Failure { kind: ParseErrorKind::MissingBlankLine, offset: at + 1 })
    } else if !(at + 2 < s.len() && s[at + 2] != LINE_FEED) {
        Err(Failure { kind: ParseErrorKind::EmptySection, offset: at + 2 })
    } else {
        Ok(at + 2)
    }
}

/// Where the footer ends: at the end of the text, without its last line
/// break.
pub open spec fn footer_end(s: Seq<u8>) -> int {
    if s.len() > 0 && s[s.len() - 1] == LINE_FEED {
        s.len() - 1
    } else {
        s.len() as int
    }
}

/// The body and the footer that follow a first line ending at `at`.
pub open spec fn sections_of(s: Seq<u8>, at: int) -> Result<
    (Option<Extent>, Option<Extent>),
    Failure,
> {
    if text_ends(s, at) {
        Ok((None, None))
    } else {
        match next_section(s, at) {
            Err(f) => Err(f),
            Ok(body_start) => {
                let body_end = paragraph_end(s, body_start);
                let body = Some(Extent { start: body_start, end: body_end });
                if text_ends(s, body_end) {
                    Ok((body, None))
                } else {
                    match next_section(s, body_end) {
                        Err(f) => Err(f),
                        Ok(footer_start) => Ok(
                            (body, Some(Extent { start: footer_start, end: footer_end(s) })),
                        ),
                    }
                }
            },
        }
    }
}

/// The grammar: the places of the fields of the commit message `s`, or the
/// first thing that it lacks.
pub open spec fn parse(s: Seq<u8>) -> Result<Fields, Failure> {
    match header_of(s) {
        Err(f) => Err(f),
        Ok(h) => match sections_of(s, h.line.end) {
            Err(f) => Err(f),
            Ok((body, footer)) => Ok(
                Fields {
                    header: h.line,
                    commit_type: h.commit_type,
                    scope: h.scope,
                    subject: h.subject,
                    body,
                    footer,
                },
            ),
        },
    }
}

/// A range of byte offsets in a text.
#[derive(Clone, Copy, Debug, PartialEq, Eq, Structural)]
pub struct ByteRange {
    pub start: usize,
    pub end: usize,
}

impl View for ByteRange {
    type V = Extent;

    open spec fn view(&self) -> Extent {
        Extent { start: self.start as int, end: self.end as int }
    }
}

/// The range that an optional field has.
pub open spec fn optional_extent(r: Option<ByteRange>) -> Option<Extent> {
    match r {
        Some(r) => Some(r@),
        None => None,
    }
}

/// The byte ranges of the fields of a commit message.
#[derive(Clone, Copy, Debug)]
pub struct Layout {
    pub header: ByteRange,
    pub commit_type: ByteRange,
    pub scope: Option<ByteRange>,
    pub subject: ByteRange,
    pub body: Option<ByteRange>,
    pub footer: Option<ByteRange>,
}

impl View for Layout {
    type V = Fields;

    open spec fn view(&self) -> Fields {
        Fields {
            header: self.header@,
            commit_type: self.commit_type@,
            scope: optional_extent(self.scope),
            subject: self.subject@,
            body: optional_extent(self.body),
            footer: optional_extent(self.footer),
        }
    }
}

/// A structural failure: the text is no commit message.
#[derive(Clone, Copy, Debug, PartialEq, Eq, Structural)]
pub struct ParseError {
    /// What is missing.
    pub kind: ParseErrorKind,
    /// The byte offset at which it was expected.
    pub offset: usize,
}

impl View for ParseError {
    type V = Failure;

    open spec fn view(&self) -> Failure {
        Failure { kind: self.kind, offset: self.offset as int }
    }
}

impl ParseError {
    /// What the grammar expected at the offset of the failure.
    pub fn expected(&self) -> (r: &'static str)
        ensures
            r@ == expectation(self.kind),
    {
        match self.kind {
            ParseErrorKind::MissingType => "a commit type",
            ParseErrorKind::UnclosedScope => "`)`",
            ParseErrorKind::MissingColon => "`:`",
            ParseErrorKind::MissingSpace => "a space",
            ParseErrorKind::MissingSubject => "a subject",
            ParseErrorKind::MissingBlankLine => "a blank line",
            ParseErrorKind::EmptySection => "the text of a body or footer",
        }
    }
}

/// The words for what each kind of failure expected.
pub open spec fn expectation(kind: ParseErrorKind) -> Seq<char> {
    match kind {
        ParseErrorKind::MissingType => "a commit type"@,
        ParseErrorKind::UnclosedScope => "`)`"@,
        ParseErrorKind::MissingColon => "`:`"@,
        ParseErrorKind::MissingSpace => "a space"@,
        ParseErrorKind::MissingSubject => "a subject"@,
        ParseErrorKind::MissingBlankLine => "a blank line"@,
        ParseErrorKind::EmptySection => "the text of a body or footer"@,
    }
}

/// The fields of the first line, as byte ranges.
#[derive(Clone, Copy, Debug)]
pub struct HeaderLayout {
    pub line: ByteRange,
    pub commit_type: ByteRange,
    pub scope: Option<ByteRange>,
    pub subject: ByteRange,
}

impl View for HeaderLayout {
    type V = HeaderFields;

    open spec fn view(&self) -> HeaderFields {
        HeaderFields {
            line: self.line@,
            commit_type: self.commit_type@,
            scope: optional_extent(self.scope),
            subject: self.subject@,
        }
    }
}

/// Scans the first line of a commit message.
pub fn scan_header(s: &[u8]) -> (r: Result<HeaderLayout, ParseError>)
    ensures
        match r {
            Ok(h) => header_of(s@) == Ok::<HeaderFields, Failure>(h@),
            Err(e) => header_of(s@) == Err::<HeaderFields, Failure>(e@),
        },
{
    let n: usize = s.len();
    let run: usize = scan_run(s, 0, ByteClass::TypeText);
    let marked: bool = 0 < run && run < n && s[run] == COLON && s[run - 1] == BANG;
    let type_end: usize = if marked {
        run - 1
    } else {
        run
    };
    if type_end == 0 {
        return Err(ParseError { kind: ParseErrorKind::MissingType, offset: 0 });
    }
    let mut scope: Option<ByteRange> = None;
    let mut colon: usize = run;
    if run < n && s[run] == PAREN_OPEN {
        let close: usize = scan_run(s, run + 1, ByteClass::ScopeText);
        if !(close < n && s[close] == PAREN_CLOSE) {
            return Err(ParseError { kind: ParseErrorKind::UnclosedScope, offset: close });
        }
        scope = Some(ByteRange { start: run + 1, end: close });
        colon = if close + 1 < n && s[close + 1] == BANG {
            close + 2
        } else {
            close + 1
        };
    }
    assert(scope_of(s@) == Ok::<Option<Extent>, Failure>(optional_extent(scope)));
    assert(colon == colon_place(s@, optional_extent(scope)));
    if !(colon < n && s[colon] == COLON) {
        return Err(ParseError { kind: ParseErrorKind::MissingColon, offset: colon });
    }
    if !(colon + 1 < n && s[colon + 1] == SPACE) {
        return Err(ParseError { kind: ParseErrorKind::MissingSpace, offset: colon + 1 });
    }
    let start: usize = colon + 2;
    let line_end: usize = scan_run(s, start, ByteClass::LineText);
    let subject_end: usize = trim_end(s, start, line_end);
    if subject_end <= start {
        return Err(ParseError { kind: ParseErrorKind::MissingSubject, offset: start });
    }
    Ok(
        HeaderLayout {
            line: ByteRange { start: 0, end: line_end },
            commit_type: ByteRange { start: 0, end: type_end },
            scope,
            subject: ByteRange { start, end: subject_end },
        },
    )
}

/// Finds the start of the section that follows a field ending at the index
/// `at` of the text, where the first line break stands.
pub fn scan_separator(s: &[u8], at: usize) -> (r: Result<usize, ParseError>)
    requires
        at < s@.len(),
    ensures
        match r {
            Ok(start) => next_section(s@, at as int) == Ok::<int, Failure>(start as int),
            Err(e) => next_section(s@, at as int) == Err::<int, Failure>(e@),
        },
{
    let n: usize = s.len();
    if !(at + 1 < n && s[at + 1] == LINE_FEED) {
        Err(ParseError { kind: ParseErrorKind::MissingBlankLine, offset: at + 1 })
    } else if !(at + 2 < n && s[at + 2] != LINE_FEED) {
        Err(ParseError { kind: ParseErrorKind::EmptySection, offset: at + 2 })
    } else {
        Ok(at + 2)
    }
}

/// Tells whether the text ends where a field ends at `at`.
pub fn at_text_end(s: &[u8], at: usize) -> (r: bool)
    ensures
        r == text_ends(s@, at as int),
{
    let n: usize = s.len();
    at >= n || (at + 1 == n && s[at] == LINE_FEED)
}

/// Scans a commit message: finds the byte ranges of its fields, or the first
/// thing that the grammar finds missing.
pub fn scan_commit(s: &[u8]) -> (r: Result<Layout, ParseError>)
    ensures
        match r {
            Ok(l) => parse(s@) == Ok::<Fields, Failure>(l@),
            Err(e) => parse(s@) == Err::<Fields, Failure>(e@),
        },
{
    let n: usize = s.len();
    let h = match scan_header(s) {
        Ok(h) => h,
        Err(e) => {
            return Err(e);
        },
    };
    let mut body: Option<ByteRange> = None;
    let mut footer: Option<ByteRange> = None;
    let at: usize = h.line.end;
    if !at_text_end(s, at) {
        let body_start = match scan_separator(s, at) {
            Ok(start) => start,
            Err(e) => {
                return Err(e);
            },
        };
        let body_end: usize = scan_paragraph(s, body_start);
        body = Some(ByteRange { start: body_start, end: body_end });
        if !at_text_end(s, body_end) {
            let footer_start = match scan_separator(s, body_end) {
                Ok(start) => start,
                Err(e) => {
                    return Err(e);
                },
            };
            let end: usize = if s[n - 1] == LINE_FEED {
                n - 1
            } else {
                n
            };
            footer = Some(ByteRange { start: footer_start, end });
        }
    }
    assert(sections_of(s@, at as int) == Ok::<(Option<Extent>, Option<Extent>), Failure>(
        (optional_extent(body), optional_extent(footer)),
    ));
    Ok(
        Layout {
            header: h.line,
            commit_type: h.commit_type,
            scope: h.scope,
            subject: h.subject,
            body,
            footer,
        },
    )
}

/// Whether a range lies inside a text of `len` bytes.
pub open spec fn extent_within(e: Extent, len: nat) -> bool {
    0 <= e.start <= e.end <= len
}

/// Whether the text holds a blank line at `at`: two line breaks.
pub open spec fn blank_line_at(s: Seq<u8>, at: int) -> bool {
    0 <= at && at + 1 < s.len() && s[at] == LINE_FEED && s[at + 1] == LINE_FEED
}

/// Where the last field of a commit message ends.
pub open spec fn last_field_end(f: Fields) -> int {
    match f.footer {
        Some(e) => e.end,
        None => match f.body {
            Some(e) => e.end,
            None => f.header.end,
        },
    }
}

/// How the fields that the grammar finds lie in the text: in order, without
/// overlap, each section one blank line behind the field before it, and the
/// last of them up to the end of the text or to its last line break.
pub open spec fn fields_in_order(s: Seq<u8>, f: Fields) -> bool {
    &&& f.header.start == 0
    &&& f.commit_type.start == 0
    &&& 0 < f.commit_type.end
    &&& f.commit_type.end < f.subject.start
    &&& f.subject.start < f.subject.end <= f.header.end <= s.len()
    &&& match f.scope {
        Some(e) => f.commit_type.end < e.start <= e.end && e.end + 2 < f.subject.start,
        None => true,
    }
    &&& match f.body {
        Some(e) => blank_line_at(s, f.header.end) && e.start == f.header.end + 2 && e.start < e.end
            <= s.len(),
        None => f.footer is None,
    }
    &&& match (f.body, f.footer) {
        (Some(b), Some(e)) => blank_line_at(s, b.end) && e.start == b.end + 2 && e.start < e.end
            <= s.len(),
        _ => true,
    }
    &&& text_ends(s, last_field_end(f))
    &&& last_field_end(f) <= s.len()
}

/// The header line of a successful parse: the fields stand on it in order,
/// between the marks of the grammar.
pub proof fn lemma_header_shape(s: Seq<u8>)
    requires
        header_of(s) is Ok,
    ensures
        ({
            let h = header_of(s)->Ok_0;
            &&& h.line.start == 0
            &&& h.commit_type.start == 0
            &&& 0 < h.commit_type.end <= type_run(s) < h.subject.start
            &&& h.subject.start < h.subject.end <= h.line.end <= s.len()
            &&& h.subject.start >= 2
            &&& s[h.subject.start - 2] == COLON
            &&& s[h.subject.start - 1] == SPACE
            &&& (h.line.end < s.len() ==> s[h.line.end] == LINE_FEED)
            &&& (h.subject.end < h.line.end ==> is_space(s[h.subject.end]))
            &&& !is_space(s[h.subject.end - 1])
            &&& (forall|j: int| 0 <= j < h.line.end ==> s[j] != LINE_FEED)
            &&& (h.commit_type.end < s.len() && (s[h.commit_type.end] == BANG
                || s[h.commit_type.end] == COLON || s[h.commit_type.end] == PAREN_OPEN))
            &&& match h.scope {
                Some(e) => {
                    &&& e.start == type_run(s) + 1
                    &&& h.commit_type.end == type_run(s)
                    &&& s[e.start - 1] == PAREN_OPEN
                    &&& e.start <= e.end < s.len()
                    &&& s[e.end] == PAREN_CLOSE
                    &&& e.end + 2 < h.subject.start
                    &&& (forall|j: int| e.start <= j < e.end ==> s[j] != PAREN_CLOSE)
                },
                None => true,
            }
        }),
{
    let h = header_of(s)->Ok_0;
    let run = type_run(s);
    lemma_run_end(s, 0, ByteClass::TypeText);
    let scope = scope_of(s)->Ok_0;
    let colon = colon_place(s, scope);
    let start = colon + 2;
    match scope {
        Some(e) => {
            lemma_run_end(s, run + 1, ByteClass::ScopeText);
        },
        None => {},
    }
    lemma_run_end(s, start, ByteClass::LineText);
    let line_end = run_end(s, start, ByteClass::LineText);
    lemma_trimmed_end(s, start, line_end);
    assert forall|j: int| 0 <= j < h.line.end implies s[j] != LINE_FEED by {
        if j < run {
            assert(ByteClass::TypeText.has(s[j]));
        } else if j >= start {
            assert(ByteClass::LineText.has(s[j]));
        } else {
            match scope {
                Some(e) => {
                    if e.start <= j < e.end {
                        assert(ByteClass::ScopeText.has(s[j]));
                    }
                },
                None => {},
            }
        }
    }
}

/// The fields that the grammar finds lie in the text in order and without
/// overlap, and nothing of the text lies outside them but the marks of the
/// header line, the blank lines between the sections, the whitespace at the
/// end of the subject and one last line break.
pub proof fn lemma_fields_in_order(s: Seq<u8>)
    requires
        parse(s) is Ok,
    ensures
        fields_in_order(s, parse(s)->Ok_0),
{
    let f = parse(s)->Ok_0;
    let h = header_of(s)->Ok_0;
    lemma_header_shape(s);
    let at = h.line.end;
    if !text_ends(s, at) {
        let body_start = next_section(s, at)->Ok_0;
        lemma_paragraph_end(s, body_start);
        let body_end = paragraph_end(s, body_start);
        assert(!ends_paragraph(s, body_start));
        if !text_ends(s, body_end) {
            assert(ends_paragraph(s, body_end));
        }
    }
}

/// Whether both ends of a range are character boundaries of a text.
pub open spec fn extent_on_boundaries(s: Seq<u8>, e: Extent) -> bool {
    &&& extent_within(e, s.len())
    &&& is_char_boundary(s, e.start)
    &&& is_char_boundary(s, e.end)
}

/// Whether both ends of an optional range are character boundaries.
pub open spec fn optional_on_boundaries(s: Seq<u8>, e: Option<Extent>) -> bool {
    match e {
        Some(e) => extent_on_boundaries(s, e),
        None => true,
    }
}

/// In a text that is valid UTF-8 every field that the grammar finds starts and
/// ends at a character boundary: the grammar cuts at ASCII bytes only.
pub proof fn lemma_fields_on_boundaries(s: Seq<u8>)
    requires
        valid_utf8(s),
        parse(s) is Ok,
    ensures
        ({
            let f = parse(s)->Ok_0;
            &&& extent_on_boundaries(s, f.header)
            &&& extent_on_boundaries(s, f.commit_type)
            &&& optional_on_boundaries(s, f.scope)
            &&& extent_on_boundaries(s, f.subject)
            &&& optional_on_boundaries(s, f.body)
            &&& optional_on_boundaries(s, f.footer)
        }),
{
    let f = parse(s)->Ok_0;
    lemma_header_shape(s);
    lemma_fields_in_order(s);
    assert(is_char_boundary(s, 0));
    lemma_end_on_boundary(s, f.header.end);
    lemma_boundary_at_ascii(s, f.commit_type.end);
    lemma_boundary_after_ascii(s, f.subject.start);
    if f.subject.end < f.header.end {
        lemma_boundary_at_ascii(s, f.subject.end);
    }
    match f.scope {
        Some(e) => {
            lemma_boundary_after_ascii(s, e.start);
            lemma_boundary_at_ascii(s, e.end);
        },
        None => {},
    }
    match f.body {
        Some(e) => {
            lemma_boundary_after_ascii(s, e.start);
            let body_start = next_section(s, f.header.end)->Ok_0;
            lemma_paragraph_end(s, body_start);
            lemma_end_on_boundary(s, e.end);
        },
        None => {},
    }
    match f.footer {
        Some(e) => {
            lemma_boundary_after_ascii(s, e.start);
            lemma_end_on_boundary(s, e.end);
        },
        None => {},
    }
}

/// An index that is the end of the text, or at which a line break stands, is
/// a character boundary.
pub proof fn lemma_end_on_boundary(s: Seq<u8>, at: int)
    requires
        valid_utf8(s),
        0 <= at <= s.len(),
        at < s.len() ==> s[at] == LINE_FEED,
    ensures
        is_char_boundary(s, at),
{
    if at < s.len() {
        lemma_boundary_at_ascii(s, at);
    } else {
        vstd::utf8::is_char_boundary_start_end_of_seq(s);
    }
}

} // verus!
