//! What holds of the grammar for every text.

use vstd::prelude::*;
use crate::grammar::{
    fields_in_order, header_of, lemma_fields_in_order, lemma_header_shape, next_section, parse,
    sections_of, text_ends, Extent, Failure, Fields, ParseErrorKind,
};
use crate::parser::{lemma_well_formed_unique, CommitView};
use crate::text::{
    ends_paragraph, is_space, lemma_paragraph_end_unique, lemma_run_end, lemma_run_end_unique,
    run_end, ByteClass, COLON, LINE_FEED, PAREN_CLOSE, PAREN_OPEN, SPACE,
};

verus! {

/// The texts of the five fields of a complete commit message.
pub struct Parts {
    pub commit_type: Seq<u8>,
    pub scope: Seq<u8>,
    pub subject: Seq<u8>,
    pub body: Seq<u8>,
    pub footer: Seq<u8>,
}

/// A blank line: two line breaks.
pub open spec fn blank_line() -> Seq<u8> {
    seq![LINE_FEED, LINE_FEED]
}

impl Parts {
    /// Whether each text can stand as its field: a type of type bytes, a
    /// scope without `)` and line break, a subject on one line that does not
    /// end in whitespace, a body that neither starts nor ends with a line
    /// break and holds no blank line, and a footer that neither starts nor
    /// ends with a line break; all but the scope not empty.
    pub open spec fn well_formed(self) -> bool {
        &&& self.commit_type.len() > 0
        &&& forall|i: int|
            0 <= i < self.commit_type.len() ==> ByteClass::TypeText.has(
                #[trigger] self.commit_type[i],
            )
        &&& forall|i: int|
            0 <= i < self.scope.len() ==> ByteClass::ScopeText.has(#[trigger] self.scope[i])
        &&& self.subject.len() > 0
        &&& forall|i: int| 0 <= i < self.subject.len() ==> #[trigger] self.subject[i] != LINE_FEED
        &&& !is_space(self.subject[self.subject.len() - 1])
        &&& self.body.len() > 0
        &&& self.body[0] != LINE_FEED
        &&& self.body[self.body.len() - 1] != LINE_FEED
        &&& forall|i: int|
            0 <= i && i + 1 < self.body.len() ==> !(#[trigger] self.body[i] == LINE_FEED
                && self.body[i + 1] == LINE_FEED)
        &&& self.footer.len() > 0
        &&& self.footer[0] != LINE_FEED
        &&& self.footer[self.footer.len() - 1] != LINE_FEED
    }

    /// The header line: `type(scope): subject`.
    pub open spec fn header(self) -> Seq<u8> {
        self.commit_type + seq![PAREN_OPEN] + self.scope + seq![PAREN_CLOSE, COLON, SPACE]
            + self.subject
    }

    /// The message: the header, the body and the footer, with a blank line
    /// between each two of them.
    pub open spec fn message(self) -> Seq<u8> {
        self.header() + blank_line() + self.body + blank_line() + self.footer
    }

    /// Where the fields stand in the message.
    pub open spec fn fields(self) -> Fields {
        let type_end: int = self.commit_type.len() as int;
        let scope_start: int = type_end + 1;
        let scope_end: int = scope_start + self.scope.len();
        let subject_start: int = scope_end + 3;
        let header_end: int = subject_start + self.subject.len();
        let body_start: int = header_end + 2;
        let body_end: int = body_start + self.body.len();
        let footer_start: int = body_end + 2;
        let footer_end: int = footer_start + self.footer.len();
        Fields {
            header: Extent { start: 0, end: header_end },
            commit_type: Extent { start: 0, end: type_end },
            scope: Some(Extent { start: scope_start, end: scope_end }),
            subject: Extent { start: subject_start, end: header_end },
            body: Some(Extent { start: body_start, end: body_end }),
            footer: Some(Extent { start: footer_start, end: footer_end }),
        }
    }
}

/// The part of a text at a range.
pub open spec fn part_at(s: Seq<u8>, e: Extent) -> Seq<u8> {
    s.subrange(e.start, e.end)
}

/// Whether the text `s` holds the parts at the places that `fields` gives
/// them, with the marks of the grammar between them.
pub open spec fn holds_parts(s: Seq<u8>, p: Parts) -> bool {
    let f = p.fields();
    let scope = f.scope->Some_0;
    let body = f.body->Some_0;
    let footer = f.footer->Some_0;
    &&& s.len() == footer.end
    &&& forall|i: int| 0 <= i < f.commit_type.end ==> #[trigger] s[i] == p.commit_type[i]
    &&& s[f.commit_type.end] == PAREN_OPEN
    &&& forall|i: int| scope.start <= i < scope.end ==> #[trigger] s[i] == p.scope[i - scope.start]
    &&& s[scope.end] == PAREN_CLOSE
    &&& s[scope.end + 1] == COLON
    &&& s[scope.end + 2] == SPACE
    &&& forall|i: int|
        f.subject.start <= i < f.subject.end ==> #[trigger] s[i] == p.subject[i - f.subject.start]
    &&& s[f.header.end] == LINE_FEED
    &&& s[f.header.end + 1] == LINE_FEED
    &&& forall|i: int| body.start <= i < body.end ==> #[trigger] s[i] == p.body[i - body.start]
    &&& s[body.end] == LINE_FEED
    &&& s[body.end + 1] == LINE_FEED
    &&& forall|i: int|
        footer.start <= i < footer.end ==> #[trigger] s[i] == p.footer[i - footer.start]
}

/// The message holds its parts.
proof fn lemma_message_holds_parts(p: Parts)
    ensures
        holds_parts(p.message(), p),
{
    let f = p.fields();
    let a = p.commit_type + seq![PAREN_OPEN];
    assert(a.len() == f.scope->Some_0.start);
    let b = a + p.scope;
    assert(b.len() == f.scope->Some_0.end);
    let c = b + seq![PAREN_CLOSE, COLON, SPACE];
    assert(c.len() == f.subject.start);
    let d = c + p.subject;
    assert(d == p.header());
    assert(d.len() == f.header.end);
    let e = d + blank_line();
    assert(e.len() == f.body->Some_0.start);
    let g = e + p.body;
    assert(g.len() == f.body->Some_0.end);
    let h = g + blank_line();
    assert(h.len() == f.footer->Some_0.start);
    let s = h + p.footer;
    assert(s == p.message());
    assert forall|i: int| 0 <= i < d.len() implies #[trigger] s[i] == d[i] by {
        assert(e[i] == d[i]);
        assert(g[i] == e[i]);
        assert(h[i] == g[i]);
    }
    assert forall|i: int| 0 <= i < c.len() implies #[trigger] d[i] == c[i] by {}
    assert forall|i: int| 0 <= i < b.len() implies #[trigger] c[i] == b[i] by {}
    assert forall|i: int| 0 <= i < a.len() implies #[trigger] b[i] == a[i] by {}
    assert forall|i: int| 0 <= i < f.commit_type.end implies #[trigger] s[i]
        == p.commit_type[i] by {
        assert(s[i] == d[i]);
        assert(d[i] == c[i]);
        assert(c[i] == b[i]);
        assert(b[i] == a[i]);
    }
    assert(s[f.commit_type.end] == PAREN_OPEN) by {
        let i = f.commit_type.end;
        assert(s[i] == d[i]);
        assert(d[i] == c[i]);
        assert(c[i] == b[i]);
        assert(b[i] == a[i]);
    }
    assert forall|i: int| f.scope->Some_0.start <= i < f.scope->Some_0.end implies #[trigger] s[i]
        == p.scope[i - f.scope->Some_0.start] by {
        assert(s[i] == d[i]);
        assert(d[i] == c[i]);
        assert(c[i] == b[i]);
    }
    assert forall|k: int| 0 <= k < 3 implies #[trigger] s[f.scope->Some_0.end + k]
        == seq![PAREN_CLOSE, COLON, SPACE][k] by {
        let i = f.scope->Some_0.end + k;
        assert(s[i] == d[i]);
        assert(d[i] == c[i]);
    }
    assert(s[f.scope->Some_0.end + 0] == PAREN_CLOSE);
    assert(s[f.scope->Some_0.end + 1] == COLON);
    assert(s[f.scope->Some_0.end + 2] == SPACE);
    assert forall|i: int| f.subject.start <= i < f.subject.end implies #[trigger] s[i]
        == p.subject[i - f.subject.start] by {
        assert(s[i] == d[i]);
    }
    assert forall|k: int| 0 <= k < 2 implies #[trigger] s[f.header.end + k] == LINE_FEED by {
        let i = f.header.end + k;
        assert(e[i] == blank_line()[k]);
        assert(g[i] == e[i]);
        assert(h[i] == g[i]);
    }
    assert(s[f.header.end + 0] == LINE_FEED);
    assert(s[f.header.end + 1] == LINE_FEED);
    assert forall|i: int| f.body->Some_0.start <= i < f.body->Some_0.end implies #[trigger] s[i]
        == p.body[i - f.body->Some_0.start] by {
        assert(h[i] == g[i]);
    }
    assert forall|k: int| 0 <= k < 2 implies #[trigger] s[f.body->Some_0.end + k]
        == LINE_FEED by {
        let i = f.body->Some_0.end + k;
        assert(h[i] == blank_line()[k]);
    }
    assert(s[f.body->Some_0.end + 0] == LINE_FEED);
    assert(s[f.body->Some_0.end + 1] == LINE_FEED);
}

/// The header line of a text that holds well-formed parts.
proof fn lemma_parts_header(s: Seq<u8>, p: Parts)
    requires
        p.well_formed(),
        holds_parts(s, p),
    ensures
        header_of(s) is Ok,
        header_of(s)->Ok_0.line == p.fields().header,
        header_of(s)->Ok_0.commit_type == p.fields().commit_type,
        header_of(s)->Ok_0.scope == p.fields().scope,
        header_of(s)->Ok_0.subject == p.fields().subject,
{
    let f = p.fields();
    let scope = f.scope->Some_0;
    lemma_run_end_unique(s, 0, ByteClass::TypeText, f.commit_type.end);
    lemma_run_end_unique(s, scope.start, ByteClass::ScopeText, scope.end);
    lemma_run_end_unique(s, f.subject.start, ByteClass::LineText, f.header.end);
    assert(s[f.header.end - 1] == p.subject[p.subject.len() - 1]);
    assert(!is_space(s[f.header.end - 1]));
}

/// The sections of a text that holds well-formed parts.
proof fn lemma_parts_sections(s: Seq<u8>, p: Parts)
    requires
        p.well_formed(),
        holds_parts(s, p),
    ensures
        sections_of(s, p.fields().header.end) == Ok::<(Option<Extent>, Option<Extent>), Failure>(
            (p.fields().body, p.fields().footer),
        ),
{
    let f = p.fields();
    let body = f.body->Some_0;
    let footer = f.footer->Some_0;
    assert(!text_ends(s, f.header.end));
    assert(s[body.start] == p.body[0]);
    assert(next_section(s, f.header.end) == Ok::<int, Failure>(body.start));
    assert forall|j: int| body.start <= j < body.end implies !ends_paragraph(s, j) by {
        assert(s[j] == p.body[j - body.start]);
        if j + 1 < body.end {
            assert(s[j + 1] == p.body[j + 1 - body.start]);
        }
    }
    lemma_paragraph_end_unique(s, body.start, body.end);
    assert(!text_ends(s, body.end));
    assert(s[footer.start] == p.footer[0]);
    assert(next_section(s, body.end) == Ok::<int, Failure>(footer.start));
    assert(s[s.len() - 1] == p.footer[p.footer.len() - 1]);
}

/// A message that is put together from well-formed fields, as
/// `type(scope): subject`, a blank line, the body, a blank line and the
/// footer, parses, each field is found where it was put, and the text at the
/// place of each field is the text that was put there.
pub proof fn lemma_complete_message_parses(p: Parts)
    requires
        p.well_formed(),
    ensures
        parse(p.message()) == Ok::<Fields, Failure>(p.fields()),
        part_at(p.message(), p.fields().header) == p.header(),
        part_at(p.message(), p.fields().commit_type) == p.commit_type,
        part_at(p.message(), p.fields().scope->Some_0) == p.scope,
        part_at(p.message(), p.fields().subject) == p.subject,
        part_at(p.message(), p.fields().body->Some_0) == p.body,
        part_at(p.message(), p.fields().footer->Some_0) == p.footer,
{
    let s = p.message();
    let f = p.fields();
    lemma_message_holds_parts(p);
    lemma_parts_header(s, p);
    lemma_parts_sections(s, p);
    assert(part_at(s, f.commit_type) =~= p.commit_type);
    assert(part_at(s, f.scope->Some_0) =~= p.scope);
    assert(part_at(s, f.subject) =~= p.subject);
    assert(part_at(s, f.body->Some_0) =~= p.body);
    assert(part_at(s, f.footer->Some_0) =~= p.footer);
    assert(part_at(s, f.header) =~= p.header()) by {
        let head = p.header();
        assert(head.len() == f.header.end);
        assert(s =~= head + (blank_line() + p.body + blank_line() + p.footer));
    }
}

/// What is left of a text once its fields are put together again: the header
/// line, and the body and the footer, each behind a blank line.
pub open spec fn rebuilt(s: Seq<u8>, f: Fields) -> Seq<u8> {
    part_at(s, f.header) + (match f.body {
        Some(e) => blank_line() + part_at(s, e),
        None => Seq::empty(),
    }) + (match f.footer {
        Some(e) => blank_line() + part_at(s, e),
        None => Seq::empty(),
    })
}

/// The grammar loses no text and takes none twice: the header line, the body
/// and the footer lie in the text in this order, without overlap, and the
/// text is these three with a blank line between each two of them, with
/// nothing more than one line break at its end.
pub proof fn lemma_parse_accounts_for_all_text(s: Seq<u8>)
    requires
        parse(s) is Ok,
    ensures
        fields_in_order(s, parse(s)->Ok_0),
        s == rebuilt(s, parse(s)->Ok_0) || s == rebuilt(s, parse(s)->Ok_0) + seq![LINE_FEED],
{
    let f = parse(s)->Ok_0;
    lemma_fields_in_order(s);
    let r = rebuilt(s, f);
    if r.len() == s.len() {
        assert(s =~= r);
    } else {
        assert(s =~= r + seq![LINE_FEED]);
    }
}

/// Parsing is a function of the text: two commits that are well formed and
/// have the same raw text are the same commit, span by span.
pub proof fn lemma_parse_is_deterministic(a: CommitView, b: CommitView)
    requires
        a.well_formed(),
        b.well_formed(),
        a.raw == b.raw,
    ensures
        a == b,
{
    lemma_well_formed_unique(a);
    lemma_well_formed_unique(b);
}

/// Where the first line of a text ends: at its first line break, or at the
/// end of the text.
pub open spec fn first_line_end(s: Seq<u8>) -> int {
    run_end(s, 0, ByteClass::LineText)
}

/// The header line of a text that parses is its first line.
pub proof fn lemma_header_is_first_line(s: Seq<u8>)
    requires
        header_of(s) is Ok,
    ensures
        header_of(s)->Ok_0.line.end == first_line_end(s),
{
    lemma_header_shape(s);
    lemma_run_end_unique(s, 0, ByteClass::LineText, header_of(s)->Ok_0.line.end);
}

/// A text whose first line is followed by one line break and then by more
/// text, without a blank line, does not parse. Where the first line itself is
/// a header, what is missing is the blank line, at the offset behind the
/// line break.
pub proof fn lemma_single_line_break_fails(s: Seq<u8>)
    requires
        first_line_end(s) + 1 < s.len(),
        s[first_line_end(s) + 1] != LINE_FEED,
    ensures
        parse(s) is Err,
        header_of(s) is Ok ==> parse(s) == Err::<Fields, Failure>(
            Failure { kind: ParseErrorKind::MissingBlankLine, offset: first_line_end(s) + 1 },
        ),
{
    if header_of(s) is Ok {
        lemma_header_is_first_line(s);
        let at = first_line_end(s);
        assert(!text_ends(s, at));
        assert(sections_of(s, at) is Err);
    }
}

/// A text whose first line holds no colon does not parse: no type ends in
/// it.
pub proof fn lemma_no_colon_fails(s: Seq<u8>)
    requires
        forall|i: int| 0 <= i < first_line_end(s) ==> #[trigger] s[i] != COLON,
    ensures
        parse(s) is Err,
        header_of(s) is Err,
{
    if header_of(s) is Ok {
        lemma_header_is_first_line(s);
        lemma_header_shape(s);
        let h = header_of(s)->Ok_0;
        assert(s[h.subject.start - 2] == COLON);
    }
}

/// The empty text does not parse: it has no type.
pub proof fn lemma_empty_text_fails(s: Seq<u8>)
    requires
        s.len() == 0,
    ensures
        parse(s) == Err::<Fields, Failure>(
            Failure { kind: ParseErrorKind::MissingType, offset: 0 },
        ),
{
    lemma_run_end(s, 0, ByteClass::TypeText);
}

} // verus!
