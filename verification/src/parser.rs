//! The commit model: a commit message split into fields, each with the place
//! in the raw text at which it stands.

use vstd::prelude::*;
use vstd::string::*;
use vstd::utf8::{decode_utf8, encode_utf8, encode_utf8_decode_utf8, encode_utf8_valid_utf8};
use crate::grammar::{
    fields_in_order, lemma_fields_in_order, lemma_fields_on_boundaries, optional_extent, parse,
    scan_commit, ByteRange, Extent, Failure, Fields, ParseError,
};
use crate::text::slice_str;

verus! {

/// What a span is: a text and the byte offsets at which it stands.
pub struct SpanView {
    pub text: Seq<char>,
    pub start: int,
    pub end: int,
}

impl SpanView {
    /// The bytes of the text.
    pub open spec fn bytes(self) -> Seq<u8> {
        encode_utf8(self.text)
    }

    /// The byte offsets.
    pub open spec fn extent(self) -> Extent {
        Extent { start: self.start, end: self.end }
    }

    /// Whether the span is a part of the text `raw`: its offsets lie in `raw`,
    /// in order, and its text is what `raw` holds between them.
    pub open spec fn lies_in(self, raw: Seq<u8>) -> bool {
        &&& 0 <= self.start <= self.end <= raw.len()
        &&& self.bytes() == raw.subrange(self.start, self.end)
    }

    /// The span of the empty text at offset 0.
    pub open spec fn empty() -> SpanView {
        SpanView { text: Seq::empty(), start: 0, end: 0 }
    }
}

/// A span of a part of the commit message
#[derive(Debug, Clone, Copy)]
pub struct CommitSpan<'a> {
    input: &'a str,
    start: usize,
    end: usize,
}

impl<'a> View for CommitSpan<'a> {
    type V = SpanView;

    closed spec fn view(&self) -> SpanView {
        SpanView { text: self.input@, start: self.start as int, end: self.end as int }
    }
}

impl<'a> CommitSpan<'a> {
    /// A span of the text `input` that stands from `start` up to `end`.
    pub fn new(input: &'a str, start: usize, end: usize) -> (r: Self)
        ensures
            r@ == (SpanView { text: input@, start: start as int, end: end as int }),
    {
        CommitSpan { input, start, end }
    }

    /// The byte offset at which the span starts.
    pub fn start(&self) -> (r: usize)
        ensures
            r == self@.start,
    {
        self.start
    }

    /// The byte offset at which the span ends.
    pub fn end(&self) -> (r: usize)
        ensures
            r == self@.end,
    {
        self.end
    }

    /// The text of the span.
    pub fn as_str(&self) -> (r: &'a str)
        ensures
            r@ == self@.text,
    {
        self.input
    }

    /// The text of the span, as a string of its own.
    pub fn to_string(&self) -> (r: String)
        ensures
            r@ == self@.text,
    {
        self.input.to_owned()
    }

    /// The number of characters of the text.
    pub fn char_len(&self) -> (r: usize)
        ensures
            r == self@.text.len(),
    {
        self.input.unicode_len()
    }
}

impl<'a> Default for CommitSpan<'a> {
    /// The span of the empty text at offset 0.
    fn default() -> (r: Self)
        ensures
            r@ == SpanView::empty(),
    {
        proof {
            reveal_strlit("");
            assert(""@ =~= Seq::<char>::empty());
        }
        CommitSpan { input: "", start: 0, end: 0 }
    }
}

/// What a commit is: the spans of its fields and the raw text.
pub struct CommitView {
    pub header: SpanView,
    pub body: Option<SpanView>,
    pub footer: Option<SpanView>,
    pub commit_type: SpanView,
    pub scope: Option<SpanView>,
    pub subject: SpanView,
    pub raw: Seq<char>,
}

/// What an optional span is.
pub open spec fn optional_span(s: Option<CommitSpan<'_>>) -> Option<SpanView> {
    match s {
        Some(s) => Some(s@),
        None => None,
    }
}

/// The byte offsets of an optional span.
pub open spec fn optional_span_extent(s: Option<SpanView>) -> Option<Extent> {
    match s {
        Some(s) => Some(s.extent()),
        None => None,
    }
}

/// Whether an optional span is a part of the text `raw`.
pub open spec fn optional_lies_in(s: Option<SpanView>, raw: Seq<u8>) -> bool {
    match s {
        Some(s) => s.lies_in(raw),
        None => true,
    }
}

impl CommitView {
    /// The bytes of the raw text.
    pub open spec fn raw_bytes(self) -> Seq<u8> {
        encode_utf8(self.raw)
    }

    /// The places of the fields.
    pub open spec fn fields(self) -> Fields {
        Fields {
            header: self.header.extent(),
            commit_type: self.commit_type.extent(),
            scope: optional_span_extent(self.scope),
            subject: self.subject.extent(),
            body: optional_span_extent(self.body),
            footer: optional_span_extent(self.footer),
        }
    }

    /// Whether every span is a part of the raw text.
    pub open spec fn spans_lie_in_raw(self) -> bool {
        &&& self.header.lies_in(self.raw_bytes())
        &&& self.commit_type.lies_in(self.raw_bytes())
        &&& optional_lies_in(self.scope, self.raw_bytes())
        &&& self.subject.lies_in(self.raw_bytes())
        &&& optional_lies_in(self.body, self.raw_bytes())
        &&& optional_lies_in(self.footer, self.raw_bytes())
    }

    /// Whether the commit is what the grammar makes of its raw text: the
    /// fields stand where the grammar finds them, and every span holds the
    /// text that the raw text has at its offsets.
    pub open spec fn well_formed(self) -> bool {
        &&& parse(self.raw_bytes()) == Ok::<Fields, Failure>(self.fields())
        &&& self.spans_lie_in_raw()
    }

    /// The commit without any text.
    pub open spec fn empty() -> CommitView {
        CommitView {
            header: SpanView::empty(),
            body: None,
            footer: None,
            commit_type: SpanView::empty(),
            scope: None,
            subject: SpanView::empty(),
            raw: Seq::empty(),
        }
    }
}

/// The span that stands at a range of the text `raw`.
pub open spec fn span_of(raw: Seq<u8>, e: Extent) -> SpanView {
    SpanView { text: decode_utf8(raw.subrange(e.start, e.end)), start: e.start, end: e.end }
}

/// The span that stands at an optional range of the text `raw`.
pub open spec fn optional_span_of(raw: Seq<u8>, e: Option<Extent>) -> Option<SpanView> {
    match e {
        Some(e) => Some(span_of(raw, e)),
        None => None,
    }
}

/// The commit that a text is, where the grammar accepts the text: each field
/// is the part of the text at the place that the grammar gives it.
pub open spec fn commit_of(raw: Seq<char>) -> CommitView
    recommends
        parse(encode_utf8(raw)) is Ok,
{
    let bytes = encode_utf8(raw);
    let f = parse(bytes)->Ok_0;
    CommitView {
        header: span_of(bytes, f.header),
        body: optional_span_of(bytes, f.body),
        footer: optional_span_of(bytes, f.footer),
        commit_type: span_of(bytes, f.commit_type),
        scope: optional_span_of(bytes, f.scope),
        subject: span_of(bytes, f.subject),
        raw,
    }
}

/// A span that is a part of a text is the span that stands at its range.
pub proof fn lemma_span_unique(s: SpanView, raw: Seq<u8>)
    requires
        s.lies_in(raw),
    ensures
        s == span_of(raw, s.extent()),
{
    encode_utf8_decode_utf8(s.text);
}

/// A text has one commit: a well-formed commit is the commit of its raw text.
pub proof fn lemma_well_formed_unique(c: CommitView)
    requires
        c.well_formed(),
    ensures
        c == commit_of(c.raw),
{
    let raw = c.raw_bytes();
    lemma_span_unique(c.header, raw);
    lemma_span_unique(c.commit_type, raw);
    lemma_span_unique(c.subject, raw);
    if c.scope is Some {
        lemma_span_unique(c.scope->Some_0, raw);
    }
    if c.body is Some {
        lemma_span_unique(c.body->Some_0, raw);
    }
    if c.footer is Some {
        lemma_span_unique(c.footer->Some_0, raw);
    }
}

/// A commit message, split into its fields.
#[derive(Debug, Clone)]
pub struct Commit<'a> {
    /// The complete header of the commit message including the type, scope and subject
    pub header: CommitSpan<'a>,
    /// The body of the commit message
    pub body: Option<CommitSpan<'a>>,
    /// The footer of the commit message
    pub footer: Option<CommitSpan<'a>>,
    /// The type of the commit message (e.g. feat, fix, chore, ...)
    pub commit_type: CommitSpan<'a>,
    /// The scope of the commit message (e.g. backend, frontend, ...)
    pub scope: Option<CommitSpan<'a>>,
    /// The subject of the commit message
    pub subject: CommitSpan<'a>,
    /// The raw commit message
    pub raw: String,
}

impl<'a> View for Commit<'a> {
    type V = CommitView;

    open spec fn view(&self) -> CommitView {
        CommitView {
            header: self.header@,
            body: optional_span(self.body),
            footer: optional_span(self.footer),
            commit_type: self.commit_type@,
            scope: optional_span(self.scope),
            subject: self.subject@,
            raw: self.raw@,
        }
    }
}

impl<'a> Commit<'a> {
    /// The commit without any text: every span empty, no scope, body or
    /// footer.
    pub fn new() -> (r: Self)
        ensures
            r@ == CommitView::empty(),
    {
        Commit {
            header: CommitSpan::default(),
            body: None,
            footer: None,
            commit_type: CommitSpan::default(),
            scope: None,
            subject: CommitSpan::default(),
            raw: String::new(),
        }
    }
}

impl<'a> Default for Commit<'a> {
    fn default() -> (r: Self)
        ensures
            r@ == CommitView::empty(),
    {
        Self::new()
    }
}

/// Cuts the span at `range` out of the text.
fn span_at<'a>(text: &'a str, range: ByteRange) -> (r: CommitSpan<'a>)
    requires
        crate::grammar::extent_on_boundaries(text.spec_bytes(), range@),
    ensures
        r@.extent() == range@,
        r@.lies_in(text.spec_bytes()),
{
    let part = slice_str(text, range.start, range.end);
    CommitSpan { input: part, start: range.start, end: range.end }
}

/// Cuts the span at `range` out of the text, where there is a range.
fn optional_span_at<'a>(text: &'a str, range: Option<ByteRange>) -> (r: Option<CommitSpan<'a>>)
    requires
        crate::grammar::optional_on_boundaries(text.spec_bytes(), optional_extent(range)),
    ensures
        optional_span_extent(optional_span(r)) == optional_extent(range),
        optional_lies_in(optional_span(r), text.spec_bytes()),
{
    match range {
        Some(range) => Some(span_at(text, range)),
        None => None,
    }
}

/// Parses a commit message.
///
/// A text that the grammar accepts gives the commit whose fields stand where
/// the grammar finds them, each with the text that the message has there, and
/// whose raw text is the whole message. Any other text gives the failure of
/// the grammar: what is missing, and at which byte offset.
pub fn parse_commit<'a>(commit_msg: &'a str) -> (r: Result<Commit<'a>, ParseError>)
    ensures
        match r {
            Ok(commit) => {
                &&& parse(commit_msg.spec_bytes()) is Ok
                &&& commit@ == commit_of(commit_msg@)
                &&& commit@.well_formed()
                &&& fields_in_order(commit@.raw_bytes(), commit@.fields())
            },
            Err(e) => parse(commit_msg.spec_bytes()) == Err::<Fields, Failure>(e@),
        },
{
    let bytes = commit_msg.as_bytes();
    let layout = match scan_commit(bytes) {
        Ok(layout) => layout,
        Err(e) => {
            return Err(e);
        },
    };
    proof {
        encode_utf8_valid_utf8(commit_msg@);
        lemma_fields_on_boundaries(commit_msg.spec_bytes());
        lemma_fields_in_order(commit_msg.spec_bytes());
    }
    let commit = Commit {
        header: span_at(commit_msg, layout.header),
        body: optional_span_at(commit_msg, layout.body),
        footer: optional_span_at(commit_msg, layout.footer),
        commit_type: span_at(commit_msg, layout.commit_type),
        scope: optional_span_at(commit_msg, layout.scope),
        subject: span_at(commit_msg, layout.subject),
        raw: commit_msg.to_owned(),
    };
    assert(commit@.fields() == layout@);
    proof {
        lemma_well_formed_unique(commit@);
    }
    Ok(commit)
}

} // verus!
