//! The template parser: consumes the YAML event stream and builds the
//! template tree, splitting every scalar into literal and `${{ ... }}`
//! segments. The stream scanned from a text is pinned by `scan_result`
//! over the named parser outcomes, and the tree built from a stream by
//! the specification-level builder, so a whole parse is a function of
//! the input text.

use vstd::prelude::*;
use crate::ast::{
    DocumentTemplate, FileTemplate, MapEntryTemplate, MapTemplate, NodeTemplate,
    ScalarTemplateValue, ScalerTemplate, SequenceTemplate, SourceLocation, SourceLocationSpan,
    StatementV, spec_node_src_loc, stmt_view,
};
use crate::errors::{ErrV, ErrorKindV, SpanV, TemplError};
use crate::events::{EventKindV, Mark, RawEvent, RawEventV, ScanIssue, ScanIssueV, events_view, issue_view};
use crate::expr_parser::sp_parse_region;

verus! {

broadcast use vstd::seq::group_seq_axioms, vstd::std_specs::vec::group_vec_axioms;

/// The model of a source location.
pub struct LocV {
    pub index: int,
    pub line: int,
    pub col: int,
}

/// The model of a full source span.
pub struct SpanFV {
    pub file: Seq<char>,
    pub start: LocV,
    pub end: LocV,
}

pub open spec fn loc_view(l: SourceLocation) -> LocV {
    LocV { index: l.index as int, line: l.line as int, col: l.col as int }
}

pub open spec fn span_full_view(s: SourceLocationSpan) -> SpanFV {
    SpanFV { file: s.filename@, start: loc_view(s.start), end: loc_view(s.end) }
}

/// The model of one scalar segment.
pub enum SegV {
    Literal(Seq<char>),
    Stmt(StatementV),
}

/// The model of a template node.
pub enum NodeV {
    Sequence(SpanFV, Seq<NodeV>),
    Mapping(SpanFV, Seq<(NodeV, NodeV)>),
    Scalar(SpanFV, Seq<SegV>),
}

pub struct DocV {
    pub span: SpanFV,
    pub node: NodeV,
}

pub struct FileV {
    pub span: SpanFV,
    pub docs: Seq<DocV>,
}

pub open spec fn seg_view(s: ScalarTemplateValue) -> SegV {
    match s {
        ScalarTemplateValue::String(text) => SegV::Literal(text@),
        ScalarTemplateValue::Expr(stmt) => SegV::Stmt(stmt_view(stmt)),
    }
}

pub open spec fn node_view(n: NodeTemplate) -> NodeV
    decreases n,
{
    match n {
        NodeTemplate::Sequence(st) => NodeV::Sequence(
            span_full_view(st.src_loc),
            node_seq_view(st.values@),
        ),
        NodeTemplate::Mapping(mt) => NodeV::Mapping(
            span_full_view(mt.src_loc),
            entries_view(mt.entries@),
        ),
        NodeTemplate::Scaler(st) => NodeV::Scalar(
            span_full_view(st.src_loc),
            Seq::new(st.values@.len(), |i: int| seg_view(st.values@[i])),
        ),
    }
}

pub open spec fn node_seq_view(s: Seq<NodeTemplate>) -> Seq<NodeV>
    decreases s,
{
    if s.len() == 0 {
        Seq::empty()
    } else {
        node_seq_view(s.drop_last()).push(node_view(s.last()))
    }
}

pub open spec fn entries_view(s: Seq<MapEntryTemplate>) -> Seq<(NodeV, NodeV)>
    decreases s,
{
    if s.len() == 0 {
        Seq::empty()
    } else {
        entries_view(s.drop_last()).push(
            (node_view(s.last().key), node_view(s.last().value)),
        )
    }
}

pub open spec fn doc_view(d: DocumentTemplate) -> DocV {
    DocV { span: span_full_view(d.src_loc), node: node_view(d.node) }
}

pub open spec fn docs_view(s: Seq<DocumentTemplate>) -> Seq<DocV> {
    Seq::new(s.len(), |i: int| doc_view(s[i]))
}

pub open spec fn file_view(f: FileTemplate) -> FileV {
    FileV { span: span_full_view(f.src_loc), docs: docs_view(f.docs@) }
}

pub broadcast proof fn lemma_node_seq_view_len(s: Seq<NodeTemplate>)
    ensures
        #[trigger] node_seq_view(s).len() == s.len(),
    decreases s,
{
    if s.len() > 0 {
        lemma_node_seq_view_len(s.drop_last());
    }
}

pub broadcast proof fn lemma_node_seq_view_index(s: Seq<NodeTemplate>, i: int)
    requires
        0 <= i < s.len(),
    ensures
        #[trigger] node_seq_view(s)[i] == node_view(s[i]),
    decreases s,
{
    lemma_node_seq_view_len(s);
    if i < s.len() - 1 {
        lemma_node_seq_view_index(s.drop_last(), i);
    }
}

pub broadcast proof fn lemma_entries_view_len(s: Seq<MapEntryTemplate>)
    ensures
        #[trigger] entries_view(s).len() == s.len(),
    decreases s,
{
    if s.len() > 0 {
        lemma_entries_view_len(s.drop_last());
    }
}

pub broadcast proof fn lemma_entries_view_index(s: Seq<MapEntryTemplate>, i: int)
    requires
        0 <= i < s.len(),
    ensures
        #[trigger] entries_view(s)[i] == (node_view(s[i].key), node_view(s[i].value)),
    decreases s,
{
    lemma_entries_view_len(s);
    if i < s.len() - 1 {
        lemma_entries_view_index(s.drop_last(), i);
    }
}

pub broadcast group group_template_view_lemmas {
    lemma_node_seq_view_len,
    lemma_node_seq_view_index,
    lemma_entries_view_len,
    lemma_entries_view_index,
}

/// The span of a node model.
pub open spec fn node_v_span(n: NodeV) -> SpanFV {
    match n {
        NodeV::Sequence(sp, _) => sp,
        NodeV::Mapping(sp, _) => sp,
        NodeV::Scalar(sp, _) => sp,
    }
}

/// Whether a span runs forward: its start is not past its end.
pub open spec fn span_fwd(s: SpanFV) -> bool {
    s.start.index <= s.end.index
}

/// Whether a span covers another.
pub open spec fn covers(p: SpanFV, c: SpanFV) -> bool {
    p.start.index <= c.start.index && c.end.index <= p.end.index
}

/// The span invariant of a built tree: every span runs forward and every
/// parent's span covers its children's.
pub open spec fn spans_wf(n: NodeV) -> bool
    decreases n,
{
    match n {
        NodeV::Scalar(sp, _) => span_fwd(sp),
        NodeV::Sequence(sp, items) => span_fwd(sp) && forall|i: int|
            0 <= i < items.len() ==> covers(sp, node_v_span(#[trigger] items[i])) && spans_wf(
                items[i],
            ),
        NodeV::Mapping(sp, es) => span_fwd(sp) && forall|i: int|
            0 <= i < es.len() ==> covers(sp, node_v_span((#[trigger] es[i]).0)) && covers(
                sp,
                node_v_span(es[i].1),
            ) && spans_wf(es[i].0) && spans_wf(es[i].1),
    }
}

/// The span invariant of a built file: documents and the file span cover
/// their contents.
pub open spec fn file_spans_wf(f: FileV) -> bool {
    span_fwd(f.span) && forall|i: int|
        0 <= i < f.docs.len() ==> covers(f.span, (#[trigger] f.docs[i]).span) && span_fwd(
            f.docs[i].span,
        ) && covers(f.docs[i].span, node_v_span(f.docs[i].node)) && spans_wf(f.docs[i].node)
}

/// A span clamped to run forward: an end before the start becomes the
/// start itself.
pub open spec fn clamp_span(s: SpanFV) -> SpanFV {
    if s.end.index < s.start.index {
        SpanFV { file: s.file, start: s.start, end: s.start }
    } else {
        s
    }
}

/// The smaller of two locations by offset.
pub open spec fn min_loc(a: LocV, b: LocV) -> LocV {
    if b.index < a.index {
        b
    } else {
        a
    }
}

/// The larger of two locations by offset.
pub open spec fn max_loc(a: LocV, b: LocV) -> LocV {
    if b.index > a.index {
        b
    } else {
        a
    }
}

/// A span widened to cover another.
pub open spec fn widen(p: SpanFV, c: SpanFV) -> SpanFV {
    SpanFV { file: p.file, start: min_loc(p.start, c.start), end: max_loc(p.end, c.end) }
}

/// A span widened to cover every node of a sequence from position `k`.
pub open spec fn widen_items(sp: SpanFV, items: Seq<NodeV>, k: int) -> SpanFV
    decreases items.len() - k,
{
    if k < 0 || k >= items.len() {
        sp
    } else {
        widen_items(widen(sp, node_v_span(items[k])), items, k + 1)
    }
}

/// A span widened to cover every key and value of map entries from
/// position `k`.
pub open spec fn widen_entries(sp: SpanFV, es: Seq<(NodeV, NodeV)>, k: int) -> SpanFV
    decreases es.len() - k,
{
    if k < 0 || k >= es.len() {
        sp
    } else {
        widen_entries(widen(widen(sp, node_v_span(es[k].0)), node_v_span(es[k].1)), es, k + 1)
    }
}

/// A span widened to cover every document from position `k`.
pub open spec fn widen_docs(sp: SpanFV, docs: Seq<DocV>, k: int) -> SpanFV
    decreases docs.len() - k,
{
    if k < 0 || k >= docs.len() {
        sp
    } else {
        widen_docs(widen(sp, docs[k].span), docs, k + 1)
    }
}

/// The diagnostic span of an event: its line, and its column shifted to
/// 1-based.
pub open spec fn ev_err_span(file: Seq<char>, e: RawEventV) -> SpanV {
    SpanV { file, line: e.line, col: inc_col(e.col) }
}

/// A column shifted to 1-based; the unreachable top of the range is left
/// alone so the shift stays within the machine's word.
pub open spec fn inc_col(c: int) -> int {
    if c < usize::MAX {
        c + 1
    } else {
        c
    }
}

/// The location of an event, with a 1-based column.
pub open spec fn ev_loc(e: RawEventV) -> LocV {
    LocV { index: e.index, line: e.line, col: inc_col(e.col) }
}

/// The span between two events' positions.
pub open spec fn mk_span(file: Seq<char>, a: RawEventV, b: RawEventV) -> SpanFV {
    SpanFV { file, start: ev_loc(a), end: ev_loc(b) }
}

/// The first position of the sentinel `${{` at or after `i`, or -1.
pub open spec fn find_expr(s: Seq<char>, i: int) -> int
    decreases s.len() - i,
{
    if i < 0 || i + 3 > s.len() {
        -1
    } else if s[i] == '$' && s[i + 1] == '{' && s[i + 2] == '{' {
        i
    } else {
        find_expr(s, i + 1)
    }
}

/// Splits a scalar's text into literal and expression segments from
/// position `i`; a malformed expression region fails. A whole scalar
/// splits to at least one segment: empty text is one empty literal.
pub open spec fn sp_split(s: Seq<char>, i: int) -> Option<Seq<SegV>>
    decreases s.len() - i,
{
    if i < 0 || i > s.len() {
        None
    } else {
        let j = find_expr(s, i);
        if j < i {
            if i < s.len() {
                Some(seq![SegV::Literal(s.subrange(i, s.len() as int))])
            } else if i == 0 {
                Some(seq![SegV::Literal(Seq::empty())])
            } else {
                Some(Seq::empty())
            }
        } else {
            let pre: Seq<SegV> = if j > i {
                seq![SegV::Literal(s.subrange(i, j))]
            } else {
                Seq::empty()
            };
            match sp_parse_region(s.subrange(j, s.len() as int)) {
                None => None,
                Some((st, consumed)) => if 0 < consumed <= s.len() - j {
                    match sp_split(s, j + consumed) {
                        None => None,
                        Some(rest) => Some(pre + seq![SegV::Stmt(st)] + rest),
                    }
                } else {
                    None
                },
            }
        }
    }
}

/// A whole scalar's split is never empty.
pub proof fn lemma_split_nonempty(s: Seq<char>)
    ensures
        sp_split(s, 0) matches Some(segs) ==> segs.len() >= 1,
{
}

/// Builds a scalar node from a scalar event: a plain scalar with a tag is
/// rejected; the text splits into segments; the node's span ends at the
/// position of the event after it.
pub open spec fn sp_b_scalar(evs: Seq<RawEventV>, i: int, file: Seq<char>) -> Result<
    (NodeV, int),
    ErrV,
> {
    let e = evs[i];
    match e.kind {
        EventKindV::Scalar(text, plain, tagged) => if plain && tagged {
            Err(ErrV { span: ev_err_span(file, e), kind: ErrorKindV::TagNotSupported })
        } else if i + 1 < evs.len() {
            match sp_split(text, 0) {
                None => Err(
                    ErrV { span: ev_err_span(file, e), kind: ErrorKindV::ExprMalformed },
                ),
                Some(segs) => Ok(
                (NodeV::Scalar(clamp_span(mk_span(file, e, evs[i + 1])), segs), i + 1),
            ),
            }
        } else {
            Err(ErrV { span: ev_err_span(file, e), kind: ErrorKindV::UnexpectedEvent })
        },
        _ => Err(ErrV { span: ev_err_span(file, e), kind: ErrorKindV::UnexpectedEvent }),
    }
}

/// Builds one node from the events at `i`.
pub open spec fn sp_b_node(evs: Seq<RawEventV>, i: int, file: Seq<char>) -> Result<
    (NodeV, int),
    ErrV,
>
    decreases evs.len() - i, 2int,
{
    if i < 0 || i >= evs.len() {
        Err(
            ErrV {
                span: SpanV { file, line: 0, col: 0 },
                kind: ErrorKindV::UnexpectedEvent,
            },
        )
    } else {
        match evs[i].kind {
            EventKindV::SeqStart => sp_b_seq(evs, i, file),
            EventKindV::MapStart => sp_b_map(evs, i, file),
            EventKindV::Scalar(_, _, _) => sp_b_scalar(evs, i, file),
            EventKindV::Alias => Err(
                ErrV {
                    span: ev_err_span(file, evs[i]),
                    kind: ErrorKindV::AliasNotSupported,
                },
            ),
            _ => Err(
                ErrV { span: ev_err_span(file, evs[i]), kind: ErrorKindV::UnexpectedEvent },
            ),
        }
    }
}

/// Builds a sequence node: items until the matching end event.
pub open spec fn sp_b_seq(evs: Seq<RawEventV>, i: int, file: Seq<char>) -> Result<
    (NodeV, int),
    ErrV,
>
    decreases evs.len() - i, 1int,
{
    if i < 0 || i >= evs.len() {
        Err(
            ErrV { span: SpanV { file, line: 0, col: 0 }, kind: ErrorKindV::UnexpectedEvent },
        )
    } else {
    match sp_b_seq_items(evs, i + 1, Seq::empty(), file) {
        Err(e) => Err(e),
        Ok((items, j)) => if 0 <= i < evs.len() && 0 <= j < evs.len() {
            Ok(
                (
                    NodeV::Sequence(
                        widen_items(clamp_span(mk_span(file, evs[i], evs[j])), items, 0),
                        items,
                    ),
                    j + 1,
                ),
            )
        } else {
            Err(
                ErrV { span: SpanV { file, line: 0, col: 0 }, kind: ErrorKindV::UnexpectedEvent },
            )
        },
    }
    }
}

/// Builds sequence items from `i` until the sequence's end event, whose
/// position is returned.
pub open spec fn sp_b_seq_items(
    evs: Seq<RawEventV>,
    i: int,
    acc: Seq<NodeV>,
    file: Seq<char>,
) -> Result<(Seq<NodeV>, int), ErrV>
    decreases evs.len() - i, 3int,
{
    if i < 0 || i >= evs.len() {
        Err(
            ErrV { span: SpanV { file, line: 0, col: 0 }, kind: ErrorKindV::UnexpectedEvent },
        )
    } else {
        match evs[i].kind {
            EventKindV::SeqEnd => Ok((acc, i)),
            EventKindV::SeqStart | EventKindV::MapStart | EventKindV::Scalar(_, _, _)
                | EventKindV::Alias => match sp_b_node(evs, i, file) {
                Err(e) => Err(e),
                Ok((n, j)) => if i < j <= evs.len() {
                    sp_b_seq_items(evs, j, acc.push(n), file)
                } else {
                    Err(
                        ErrV {
                            span: SpanV { file, line: 0, col: 0 },
                            kind: ErrorKindV::UnexpectedEvent,
                        },
                    )
                },
            },
            _ => Err(
                ErrV { span: ev_err_span(file, evs[i]), kind: ErrorKindV::UnexpectedEvent },
            ),
        }
    }
}

/// Builds a mapping node: key/value pairs until the end event. The span's
/// start is pulled back to the first key's start when the map's own event
/// points past it.
pub open spec fn sp_b_map(evs: Seq<RawEventV>, i: int, file: Seq<char>) -> Result<
    (NodeV, int),
    ErrV,
>
    decreases evs.len() - i, 1int,
{
    if i < 0 || i >= evs.len() {
        Err(
            ErrV { span: SpanV { file, line: 0, col: 0 }, kind: ErrorKindV::UnexpectedEvent },
        )
    } else {
    match sp_b_map_entries(evs, i + 1, Seq::empty(), file) {
        Err(e) => Err(e),
        Ok((entries, j)) => if 0 <= i < evs.len() && 0 <= j < evs.len() {
            Ok(
                (
                    NodeV::Mapping(
                        widen_entries(clamp_span(mk_span(file, evs[i], evs[j])), entries, 0),
                        entries,
                    ),
                    j + 1,
                ),
            )
        } else {
            Err(
                ErrV { span: SpanV { file, line: 0, col: 0 }, kind: ErrorKindV::UnexpectedEvent },
            )
        },
    }
    }
}

/// Builds map entries from `i` until the mapping's end event, whose
/// position is returned.
pub open spec fn sp_b_map_entries(
    evs: Seq<RawEventV>,
    i: int,
    acc: Seq<(NodeV, NodeV)>,
    file: Seq<char>,
) -> Result<(Seq<(NodeV, NodeV)>, int), ErrV>
    decreases evs.len() - i, 3int,
{
    if i < 0 || i >= evs.len() {
        Err(
            ErrV { span: SpanV { file, line: 0, col: 0 }, kind: ErrorKindV::UnexpectedEvent },
        )
    } else {
        match evs[i].kind {
            EventKindV::MapEnd => Ok((acc, i)),
            EventKindV::SeqStart | EventKindV::MapStart | EventKindV::Scalar(_, _, _)
                | EventKindV::Alias => match sp_b_node(evs, i, file) {
                Err(e) => Err(e),
                Ok((k, j)) => if i < j <= evs.len() {
                    match sp_b_node(evs, j, file) {
                        Err(e) => Err(e),
                        Ok((v, j2)) => if j < j2 <= evs.len() {
                            sp_b_map_entries(evs, j2, acc.push((k, v)), file)
                        } else {
                            Err(
                                ErrV {
                                    span: SpanV { file, line: 0, col: 0 },
                                    kind: ErrorKindV::UnexpectedEvent,
                                },
                            )
                        },
                    }
                } else {
                    Err(
                        ErrV {
                            span: SpanV { file, line: 0, col: 0 },
                            kind: ErrorKindV::UnexpectedEvent,
                        },
                    )
                },
            },
            _ => Err(
                ErrV { span: ev_err_span(file, evs[i]), kind: ErrorKindV::UnexpectedEvent },
            ),
        }
    }
}

/// Builds one document: a document-start event, one node, a document-end
/// event.
pub open spec fn sp_b_doc(evs: Seq<RawEventV>, i: int, file: Seq<char>) -> Result<
    (DocV, int),
    ErrV,
>
    decreases evs.len() - i, 3int,
{
    if i < 0 || i >= evs.len() || !(evs[i].kind is DocStart) {
        Err(
            ErrV { span: SpanV { file, line: 0, col: 0 }, kind: ErrorKindV::UnexpectedEvent },
        )
    } else {
        match sp_b_node(evs, i + 1, file) {
            Err(e) => Err(e),
            Ok((n, j)) => if i < j < evs.len() && evs[j].kind is DocEnd {
                Ok(
                    (
                        DocV {
                            span: widen(
                                clamp_span(mk_span(file, evs[i], evs[j])),
                                node_v_span(n),
                            ),
                            node: n,
                        },
                        j + 1,
                    ),
                )
            } else {
                Err(
                    ErrV {
                        span: SpanV { file, line: 0, col: 0 },
                        kind: ErrorKindV::UnexpectedEvent,
                    },
                )
            },
        }
    }
}

/// Builds the documents of the stream, ending at the stream-end event,
/// whose position is returned.
pub open spec fn sp_b_docs(evs: Seq<RawEventV>, i: int, acc: Seq<DocV>, file: Seq<char>) -> Result<
    (Seq<DocV>, int),
    ErrV,
>
    decreases evs.len() - i, 4int,
{
    if i < 0 || i >= evs.len() {
        Err(
            ErrV { span: SpanV { file, line: 0, col: 0 }, kind: ErrorKindV::UnexpectedEvent },
        )
    } else {
        match evs[i].kind {
            EventKindV::StreamEnd => Ok((acc, i)),
            EventKindV::DocStart => match sp_b_doc(evs, i, file) {
                Err(e) => Err(e),
                Ok((d, j)) => if i < j <= evs.len() {
                    sp_b_docs(evs, j, acc.push(d), file)
                } else {
                    Err(
                        ErrV {
                            span: SpanV { file, line: 0, col: 0 },
                            kind: ErrorKindV::UnexpectedEvent,
                        },
                    )
                },
            },
            _ => Err(
                ErrV { span: ev_err_span(file, evs[i]), kind: ErrorKindV::UnexpectedEvent },
            ),
        }
    }
}

/// Builds a whole template file from an event stream: a stream-start
/// event, documents, a stream-end event.
pub open spec fn sp_b_file(evs: Seq<RawEventV>, file: Seq<char>) -> Result<FileV, ErrV> {
    if evs.len() == 0 || !(evs[0].kind is StreamStart) {
        Err(
            ErrV { span: SpanV { file, line: 0, col: 0 }, kind: ErrorKindV::UnexpectedEvent },
        )
    } else {
        match sp_b_docs(evs, 1, Seq::empty(), file) {
            Err(e) => Err(e),
            Ok((docs, j)) => Ok(
                FileV {
                    span: widen_docs(clamp_span(mk_span(file, evs[0], evs[j])), docs, 0),
                    docs,
                },
            ),
        }
    }
}

fn inc_col_c(c: usize) -> (r: usize)
    ensures
        r == inc_col(c as int),
{
    if c < usize::MAX {
        c + 1
    } else {
        c
    }
}

fn mk_loc(e: &RawEvent) -> (r: SourceLocation)
    ensures
        loc_view(r) == ev_loc(crate::events::event_view(*e)),
{
    SourceLocation { index: e.mark.index, line: e.mark.line, col: inc_col_c(e.mark.col) }
}

fn mk_span_c(filename: &str, a: &RawEvent, b: &RawEvent) -> (r: SourceLocationSpan)
    ensures
        span_full_view(r) == mk_span(
            filename@,
            crate::events::event_view(*a),
            crate::events::event_view(*b),
        ),
{
    SourceLocationSpan { filename: filename.to_owned(), start: mk_loc(a), end: mk_loc(b) }
}

/// The span of a node equals the span its model carries.
pub proof fn lemma_node_span(n: NodeTemplate)
    ensures
        node_v_span(node_view(n)) == span_full_view(spec_node_src_loc(n)),
{
    match n {
        NodeTemplate::Sequence(_) => {},
        NodeTemplate::Mapping(_) => {},
        NodeTemplate::Scaler(_) => {},
    }
}

/// Clamps a span to run forward, mirroring `clamp_span`.
fn clamp_span_c(sp: &mut SourceLocationSpan)
    ensures
        span_full_view(*final(sp)) == clamp_span(span_full_view(*old(sp))),
{
    if sp.end.index < sp.start.index {
        sp.end = sp.start.dup();
    }
}

/// Widens a span to cover a child's, mirroring `widen`.
fn widen_span_c(sp: &mut SourceLocationSpan, child: &SourceLocationSpan)
    ensures
        span_full_view(*final(sp)) == widen(span_full_view(*old(sp)), span_full_view(*child)),
{
    if child.start.index < sp.start.index {
        sp.start = child.start.dup();
    }
    if child.end.index > sp.end.index {
        sp.end = child.end.dup();
    }
}

fn err_at(filename: &str, e: &RawEvent, kind: crate::errors::ErrorKind) -> (r: TemplError)
    ensures
        r@ == (ErrV {
            span: ev_err_span(filename@, crate::events::event_view(*e)),
            kind: crate::errors::kind_view(kind),
        }),
{
    let span = SourceLocationSpan {
        filename: filename.to_owned(),
        start: SourceLocation { index: e.mark.index, line: e.mark.line, col: inc_col_c(e.mark.col) },
        end: SourceLocation { index: e.mark.index, line: e.mark.line, col: inc_col_c(e.mark.col) },
    };
    TemplError { span, kind }
}

fn err_plain(filename: &str, kind: crate::errors::ErrorKind) -> (r: TemplError)
    ensures
        r@ == (ErrV {
            span: SpanV { file: filename@, line: 0, col: 0 },
            kind: crate::errors::kind_view(kind),
        }),
{
    let span = SourceLocationSpan {
        filename: filename.to_owned(),
        start: SourceLocation { index: 0, line: 0, col: 0 },
        end: SourceLocation { index: 0, line: 0, col: 0 },
    };
    TemplError { span, kind }
}

/// The first position of the sentinel `${{` at or after `i`, or the text's
/// length if there is none.
#[verifier::loop_isolation(false)]
fn find_expr_c(s: &Vec<char>, i: usize) -> (r: Option<usize>)
    requires
        i <= s@.len(),
    ensures
        match r {
            Some(j) => find_expr(s@, i as int) == j && i <= j && j + 3 <= s@.len(),
            None => find_expr(s@, i as int) == -1,
        },
{
    let mut j: usize = i;
    while s.len() - j >= 3
        invariant
            i <= j <= s@.len(),
            find_expr(s@, i as int) == find_expr(s@, j as int),
        decreases s@.len() - j,
    {
        if s[j] == '$' && s[j + 1] == '{' && s[j + 2] == '{' {
            return Some(j);
        }
        j += 1;
    }
    None
}

/// The characters of a subrange, as their own vector.
#[verifier::loop_isolation(false)]
fn subvec(s: &Vec<char>, a: usize, b: usize) -> (r: Vec<char>)
    requires
        a <= b <= s@.len(),
    ensures
        r@ == s@.subrange(a as int, b as int),
{
    let mut out: Vec<char> = Vec::new();
    let mut i: usize = a;
    proof {
        assert(out@ =~= s@.subrange(a as int, a as int));
    }
    while i < b
        invariant
            a <= i <= b,
            out@ == s@.subrange(a as int, i as int),
        decreases b - i,
    {
        out.push(s[i]);
        i += 1;
        proof {
            assert(out@ =~= s@.subrange(a as int, i as int));
        }
    }
    out
}

/// Splits a scalar's text into segments, mirroring `sp_split`.
fn split_scalar_text(s: &Vec<char>) -> (r: Option<Vec<ScalarTemplateValue>>)
    ensures
        match r {
            Some(segs) => sp_split(s@, 0) == Some(segs_view(segs@)),
            None => sp_split(s@, 0) is None,
        },
{
    let mut segs: Vec<ScalarTemplateValue> = Vec::new();
    let mut i: usize = 0;
    let mut failed = false;
    proof {
        assert(segs_view(segs@) =~= Seq::<SegV>::empty());
    }
    loop
        invariant_except_break
            0 <= i <= s@.len(),
            !failed,
            sp_split(s@, 0) == match sp_split(s@, i as int) {
                Some(rest) => Some(segs_view(segs@) + rest),
                None => None::<Seq<SegV>>,
            },
        ensures
            !failed ==> sp_split(s@, 0) == Some(segs_view(segs@)),
            failed ==> sp_split(s@, 0) is None,
        decreases s@.len() - i,
    {
        let ghost pre = segs_view(segs@);
        match find_expr_c(s, i) {
            None => {
                if i < s.len() {
                    let text = crate::lexer::chars_to_string(s, i, s.len());
                    segs.push(ScalarTemplateValue::String(text));
                    proof {
                        assert(segs_view(segs@) =~= pre.push(seg_view(segs@.last())));
                        assert(pre + seq![seg_view(segs@.last())] =~= segs_view(segs@));
                        assert(segs_view(segs@) + Seq::<SegV>::empty() =~= segs_view(segs@));
                    }
                } else if i == 0 {
                    segs.push(ScalarTemplateValue::String(String::new()));
                    proof {
                        assert(segs_view(segs@) =~= pre.push(seg_view(segs@.last())));
                        assert(pre + seq![seg_view(segs@.last())] =~= segs_view(segs@));
                        assert(segs_view(segs@) + Seq::<SegV>::empty() =~= segs_view(segs@));
                    }
                } else {
                    proof {
                        assert(segs_view(segs@) + Seq::<SegV>::empty() =~= segs_view(segs@));
                    }
                }
                break;
            },
            Some(j) => {
                if j > i {
                    let text = crate::lexer::chars_to_string(s, i, j);
                    segs.push(ScalarTemplateValue::String(text));
                    proof {
                        assert(segs_view(segs@) =~= pre.push(seg_view(segs@.last())));
                    }
                }
                let ghost mid = segs_view(segs@);
                let region = subvec(s, j, s.len());
                match crate::expr_parser::parse_template_expression(&region) {
                    None => {
                        failed = true;
                        break;
                    },
                    Some((st, consumed)) => {
                        segs.push(ScalarTemplateValue::Expr(st));
                        proof {
                            assert(segs_view(segs@) =~= mid.push(seg_view(segs@.last())));
                            assert(pre + (if j > i {
                                seq![SegV::Literal(s@.subrange(i as int, j as int))]
                            } else {
                                Seq::<SegV>::empty()
                            }) + seq![segs_view(segs@).last()] =~= segs_view(segs@));
                        }
                        i = j + consumed;
                    },
                }
            },
        }
    }
    if failed {
        None
    } else {
        Some(segs)
    }
}

/// The model of a segment list.
pub open spec fn segs_view(s: Seq<ScalarTemplateValue>) -> Seq<SegV> {
    Seq::new(s.len(), |i: int| seg_view(s[i]))
}

/// Builds one node from the events at `i`.
fn build_node(evs: &Vec<RawEvent>, i: usize, filename: &str) -> (r: Result<
    (NodeTemplate, usize),
    TemplError,
>)
    requires
        i <= evs@.len(),
    ensures
        match r {
            Ok((n, j)) => sp_b_node(events_view(evs@), i as int, filename@) == Ok::<_, ErrV>(
                (node_view(n), j as int),
            ) && i < j <= evs@.len() && spans_wf(node_view(n)),
            Err(e) => sp_b_node(events_view(evs@), i as int, filename@) == Err::<
                (NodeV, int),
                _,
            >(e@),
        },
    decreases evs@.len() - i, 2int,
{
    if i >= evs.len() {
        return Err(err_plain(filename, crate::errors::ErrorKind::UnexpectedEvent));
    }
    match &evs[i].kind {
        crate::events::EventKind::SeqStart => build_seq(evs, i, filename),
        crate::events::EventKind::MapStart => build_map(evs, i, filename),
        crate::events::EventKind::Scalar(_, _, _) => build_scalar(evs, i, filename),
        crate::events::EventKind::Alias => Err(
            err_at(filename, &evs[i], crate::errors::ErrorKind::AliasNotSupported),
        ),
        _ => Err(err_at(filename, &evs[i], crate::errors::ErrorKind::UnexpectedEvent)),
    }
}

/// Builds a scalar node; the segment list is never empty.
fn build_scalar(evs: &Vec<RawEvent>, i: usize, filename: &str) -> (r: Result<
    (NodeTemplate, usize),
    TemplError,
>)
    requires
        i < evs@.len(),
        events_view(evs@)[i as int].kind is Scalar,
    ensures
        match r {
            Ok((n, j)) => sp_b_scalar(events_view(evs@), i as int, filename@) == Ok::<_, ErrV>(
                (node_view(n), j as int),
            ) && i < j <= evs@.len() && (n matches NodeTemplate::Scaler(st) && st.values@.len()
                >= 1) && spans_wf(node_view(n)),
            Err(e) => sp_b_scalar(events_view(evs@), i as int, filename@) == Err::<
                (NodeV, int),
                _,
            >(e@),
        },
{
    let (text, plain, tagged) = match &evs[i].kind {
        crate::events::EventKind::Scalar(t, p, g) => (t, *p, *g),
        _ => {
            proof {
                assert(false);
            }
            return Err(err_plain(filename, crate::errors::ErrorKind::UnexpectedEvent));
        },
    };
    if plain && tagged {
        return Err(err_at(filename, &evs[i], crate::errors::ErrorKind::TagNotSupported));
    }
    if evs.len() - i < 2 {
        return Err(err_at(filename, &evs[i], crate::errors::ErrorKind::UnexpectedEvent));
    }
    let chars = crate::strutil::str_chars(text.as_str());
    let segs = match split_scalar_text(&chars) {
        None => {
            return Err(err_at(filename, &evs[i], crate::errors::ErrorKind::ExprMalformed));
        },
        Some(segs) => segs,
    };
    proof {
        lemma_split_nonempty(chars@);
    }
    let mut src_loc = mk_span_c(filename, &evs[i], &evs[i + 1]);
    clamp_span_c(&mut src_loc);
    let node = NodeTemplate::Scaler(ScalerTemplate { src_loc, values: segs });
    proof {
        assert(node_view(node) == NodeV::Scalar(
            clamp_span(
                mk_span(
                    filename@,
                    crate::events::event_view(evs@[i as int]),
                    crate::events::event_view(evs@[i + 1]),
                ),
            ),
            segs_view(node->Scaler_0.values@),
        ));
    }
    Ok((node, i + 1))
}

/// Builds a sequence node.
fn build_seq(evs: &Vec<RawEvent>, i: usize, filename: &str) -> (r: Result<
    (NodeTemplate, usize),
    TemplError,
>)
    requires
        i < evs@.len(),
    ensures
        match r {
            Ok((n, j)) => sp_b_seq(events_view(evs@), i as int, filename@) == Ok::<_, ErrV>(
                (node_view(n), j as int),
            ) && i < j <= evs@.len() && spans_wf(node_view(n)),
            Err(e) => sp_b_seq(events_view(evs@), i as int, filename@) == Err::<
                (NodeV, int),
                _,
            >(e@),
        },
    decreases evs@.len() - i, 1int,
{
    // Reading the length here tells the verifier positions fit the
    // machine's word.
    let _stream_len = evs.len();
    let start: Vec<NodeTemplate> = Vec::new();
    proof {
        assert(node_seq_view(start@) =~= Seq::<NodeV>::empty());
    }
    let (values, j) = match build_seq_items(evs, i + 1, start, filename) {
        Err(e) => {
            return Err(e);
        },
        Ok(x) => x,
    };
    let mut src_loc = mk_span_c(filename, &evs[i], &evs[j]);
    clamp_span_c(&mut src_loc);
    let ghost sp0 = span_full_view(src_loc);
    let ghost itemsv = node_seq_view(values@);
    let mut k: usize = 0;
    proof {
        broadcast use group_template_view_lemmas;

    }
    while k < values.len()
        invariant
            0 <= k <= values@.len(),
            itemsv == node_seq_view(values@),
            itemsv.len() == values@.len(),
            widen_items(sp0, itemsv, 0) == widen_items(
                span_full_view(src_loc),
                itemsv,
                k as int,
            ),
            span_fwd(span_full_view(src_loc)),
            forall|m: int|
                0 <= m < k ==> covers(span_full_view(src_loc), node_v_span(#[trigger] itemsv[m])),
        decreases values@.len() - k,
    {
        proof {
            broadcast use group_template_view_lemmas;

            lemma_node_span(values@[k as int]);
        }
        widen_span_c(&mut src_loc, values[k].src_loc());
        k += 1;
    }
    let node = NodeTemplate::Sequence(SequenceTemplate { src_loc, values });
    Ok((node, j + 1))
}

/// Builds sequence items, mirroring `sp_b_seq_items`.
fn build_seq_items(
    evs: &Vec<RawEvent>,
    i: usize,
    acc: Vec<NodeTemplate>,
    filename: &str,
) -> (r: Result<(Vec<NodeTemplate>, usize), TemplError>)
    requires
        i <= evs@.len(),
        forall|m: int| 0 <= m < acc@.len() ==> spans_wf(#[trigger] node_seq_view(acc@)[m]),
    ensures
        match r {
            Ok((vs, j)) => sp_b_seq_items(
                events_view(evs@),
                i as int,
                node_seq_view(acc@),
                filename@,
            ) == Ok::<_, ErrV>((node_seq_view(vs@), j as int)) && i <= j < evs@.len() && (
            forall|m: int|
                0 <= m < vs@.len() ==> spans_wf(#[trigger] node_seq_view(vs@)[m])),
            Err(e) => sp_b_seq_items(events_view(evs@), i as int, node_seq_view(acc@), filename@)
                == Err::<(Seq<NodeV>, int), _>(e@),
        },
    decreases evs@.len() - i, 3int,
{
    if i >= evs.len() {
        return Err(err_plain(filename, crate::errors::ErrorKind::UnexpectedEvent));
    }
    if matches!(&evs[i].kind, crate::events::EventKind::SeqEnd) {
        return Ok((acc, i));
    }
    let ok_item = matches!(
        &evs[i].kind,
        crate::events::EventKind::SeqStart
            | crate::events::EventKind::MapStart
            | crate::events::EventKind::Scalar(_, _, _)
            | crate::events::EventKind::Alias
    );
    if !ok_item {
        return Err(err_at(filename, &evs[i], crate::errors::ErrorKind::UnexpectedEvent));
    }
    let (n, j) = match build_node(evs, i, filename) {
        Err(e) => {
            return Err(e);
        },
        Ok(x) => x,
    };
    let ghost prev = node_seq_view(acc@);
    let ghost prevseq = acc@;
    let mut acc = acc;
    acc.push(n);
    proof {
        broadcast use group_template_view_lemmas;

        assert(acc@.drop_last() =~= prevseq);
        assert(node_seq_view(acc@) =~= prev.push(node_view(acc@.last())));
        assert forall|m: int| 0 <= m < acc@.len() implies spans_wf(
            #[trigger] node_seq_view(acc@)[m],
        ) by {
            if m < acc@.len() - 1 {
                assert(node_seq_view(acc@)[m] == prev[m]);
            } else {
                assert(node_seq_view(acc@)[m] == node_view(acc@.last()));
            }
        }
    }
    build_seq_items(evs, j, acc, filename)
}

/// Builds a mapping node; the span is widened to cover the entries, so
/// it starts at the first key even though the mapping's own event points
/// at the first entry's separator.
fn build_map(evs: &Vec<RawEvent>, i: usize, filename: &str) -> (r: Result<
    (NodeTemplate, usize),
    TemplError,
>)
    requires
        i < evs@.len(),
    ensures
        match r {
            Ok((n, j)) => sp_b_map(events_view(evs@), i as int, filename@) == Ok::<_, ErrV>(
                (node_view(n), j as int),
            ) && i < j <= evs@.len() && spans_wf(node_view(n)),
            Err(e) => sp_b_map(events_view(evs@), i as int, filename@) == Err::<
                (NodeV, int),
                _,
            >(e@),
        },
    decreases evs@.len() - i, 1int,
{
    let _stream_len = evs.len();
    let start: Vec<MapEntryTemplate> = Vec::new();
    proof {
        assert(entries_view(start@) =~= Seq::<(NodeV, NodeV)>::empty());
    }
    let (entries, j) = match build_map_entries(evs, i + 1, start, filename) {
        Err(e) => {
            return Err(e);
        },
        Ok(x) => x,
    };
    let mut src_loc = mk_span_c(filename, &evs[i], &evs[j]);
    clamp_span_c(&mut src_loc);
    let ghost sp0 = span_full_view(src_loc);
    let ghost esv = entries_view(entries@);
    let mut k: usize = 0;
    proof {
        broadcast use group_template_view_lemmas;

    }
    while k < entries.len()
        invariant
            0 <= k <= entries@.len(),
            esv == entries_view(entries@),
            esv.len() == entries@.len(),
            widen_entries(sp0, esv, 0) == widen_entries(
                span_full_view(src_loc),
                esv,
                k as int,
            ),
            span_fwd(span_full_view(src_loc)),
            forall|m: int|
                0 <= m < k ==> covers(
                    span_full_view(src_loc),
                    node_v_span((#[trigger] esv[m]).0),
                ) && covers(span_full_view(src_loc), node_v_span(esv[m].1)),
        decreases entries@.len() - k,
    {
        proof {
            broadcast use group_template_view_lemmas;

            lemma_node_span(entries@[k as int].key);
            lemma_node_span(entries@[k as int].value);
        }
        widen_span_c(&mut src_loc, entries[k].key.src_loc());
        widen_span_c(&mut src_loc, entries[k].value.src_loc());
        k += 1;
    }
    let node = NodeTemplate::Mapping(MapTemplate { src_loc, entries });
    Ok((node, j + 1))
}

/// Builds map entries, mirroring `sp_b_map_entries`.
fn build_map_entries(
    evs: &Vec<RawEvent>,
    i: usize,
    acc: Vec<MapEntryTemplate>,
    filename: &str,
) -> (r: Result<(Vec<MapEntryTemplate>, usize), TemplError>)
    requires
        i <= evs@.len(),
        forall|m: int|
            0 <= m < acc@.len() ==> spans_wf((#[trigger] entries_view(acc@)[m]).0) && spans_wf(
                entries_view(acc@)[m].1,
            ),
    ensures
        match r {
            Ok((es, j)) => sp_b_map_entries(
                events_view(evs@),
                i as int,
                entries_view(acc@),
                filename@,
            ) == Ok::<_, ErrV>((entries_view(es@), j as int)) && i <= j < evs@.len() && (
            forall|m: int|
                0 <= m < es@.len() ==> spans_wf((#[trigger] entries_view(es@)[m]).0) && spans_wf(
                    entries_view(es@)[m].1,
                )),
            Err(e) => sp_b_map_entries(events_view(evs@), i as int, entries_view(acc@), filename@)
                == Err::<(Seq<(NodeV, NodeV)>, int), _>(e@),
        },
    decreases evs@.len() - i, 3int,
{
    if i >= evs.len() {
        return Err(err_plain(filename, crate::errors::ErrorKind::UnexpectedEvent));
    }
    if matches!(&evs[i].kind, crate::events::EventKind::MapEnd) {
        return Ok((acc, i));
    }
    let ok_item = matches!(
        &evs[i].kind,
        crate::events::EventKind::SeqStart
            | crate::events::EventKind::MapStart
            | crate::events::EventKind::Scalar(_, _, _)
            | crate::events::EventKind::Alias
    );
    if !ok_item {
        return Err(err_at(filename, &evs[i], crate::errors::ErrorKind::UnexpectedEvent));
    }
    let (k, j) = match build_node(evs, i, filename) {
        Err(e) => {
            return Err(e);
        },
        Ok(x) => x,
    };
    let (v, j2) = match build_node(evs, j, filename) {
        Err(e) => {
            return Err(e);
        },
        Ok(x) => x,
    };
    let ghost prev = entries_view(acc@);
    let ghost prevseq = acc@;
    let mut acc = acc;
    acc.push(MapEntryTemplate { key: k, value: v });
    proof {
        broadcast use group_template_view_lemmas;

        assert(acc@.drop_last() =~= prevseq);
        assert(entries_view(acc@) =~= prev.push(
            (node_view(acc@.last().key), node_view(acc@.last().value)),
        ));
        assert forall|m: int| 0 <= m < acc@.len() implies spans_wf(
            (#[trigger] entries_view(acc@)[m]).0,
        ) && spans_wf(entries_view(acc@)[m].1) by {
            if m < acc@.len() - 1 {
                assert(entries_view(acc@)[m] == prev[m]);
            } else {
                assert(entries_view(acc@)[m] == (
                    node_view(acc@.last().key),
                    node_view(acc@.last().value),
                ));
            }
        }
    }
    build_map_entries(evs, j2, acc, filename)
}

/// Builds one document.
fn build_doc(evs: &Vec<RawEvent>, i: usize, filename: &str) -> (r: Result<
    (DocumentTemplate, usize),
    TemplError,
>)
    requires
        i <= evs@.len(),
    ensures
        match r {
            Ok((d, j)) => sp_b_doc(events_view(evs@), i as int, filename@) == Ok::<_, ErrV>(
                (doc_view(d), j as int),
            ) && i < j <= evs@.len() && span_fwd(doc_view(d).span) && covers(
                doc_view(d).span,
                node_v_span(doc_view(d).node),
            ) && spans_wf(doc_view(d).node),
            Err(e) => sp_b_doc(events_view(evs@), i as int, filename@) == Err::<
                (DocV, int),
                _,
            >(e@),
        },
    decreases evs@.len() - i, 3int,
{
    if i >= evs.len() || !matches!(&evs[i].kind, crate::events::EventKind::DocStart) {
        return Err(err_plain(filename, crate::errors::ErrorKind::UnexpectedEvent));
    }
    let (n, j) = match build_node(evs, i + 1, filename) {
        Err(e) => {
            return Err(e);
        },
        Ok(x) => x,
    };
    if j < evs.len() && matches!(&evs[j].kind, crate::events::EventKind::DocEnd) {
        let mut src_loc = mk_span_c(filename, &evs[i], &evs[j]);
        clamp_span_c(&mut src_loc);
        proof {
            lemma_node_span(n);
        }
        widen_span_c(&mut src_loc, n.src_loc());
        Ok((DocumentTemplate { src_loc, node: n }, j + 1))
    } else {
        Err(err_plain(filename, crate::errors::ErrorKind::UnexpectedEvent))
    }
}

/// Builds the documents of the stream, mirroring `sp_b_docs`.
fn build_docs(
    evs: &Vec<RawEvent>,
    i: usize,
    acc: Vec<DocumentTemplate>,
    filename: &str,
) -> (r: Result<(Vec<DocumentTemplate>, usize), TemplError>)
    requires
        i <= evs@.len(),
        forall|m: int|
            0 <= m < acc@.len() ==> span_fwd((#[trigger] docs_view(acc@)[m]).span) && covers(
                docs_view(acc@)[m].span,
                node_v_span(docs_view(acc@)[m].node),
            ) && spans_wf(docs_view(acc@)[m].node),
    ensures
        match r {
            Ok((ds, j)) => sp_b_docs(events_view(evs@), i as int, docs_view(acc@), filename@)
                == Ok::<_, ErrV>((docs_view(ds@), j as int)) && i <= j < evs@.len() && (
            forall|m: int|
                0 <= m < ds@.len() ==> span_fwd((#[trigger] docs_view(ds@)[m]).span) && covers(
                    docs_view(ds@)[m].span,
                    node_v_span(docs_view(ds@)[m].node),
                ) && spans_wf(docs_view(ds@)[m].node)),
            Err(e) => sp_b_docs(events_view(evs@), i as int, docs_view(acc@), filename@) == Err::<
                (Seq<DocV>, int),
                _,
            >(e@),
        },
    decreases evs@.len() - i, 4int,
{
    if i >= evs.len() {
        return Err(err_plain(filename, crate::errors::ErrorKind::UnexpectedEvent));
    }
    if matches!(&evs[i].kind, crate::events::EventKind::StreamEnd) {
        return Ok((acc, i));
    }
    if !matches!(&evs[i].kind, crate::events::EventKind::DocStart) {
        return Err(err_at(filename, &evs[i], crate::errors::ErrorKind::UnexpectedEvent));
    }
    let (d, j) = match build_doc(evs, i, filename) {
        Err(e) => {
            return Err(e);
        },
        Ok(x) => x,
    };
    let ghost prev = docs_view(acc@);
    let mut acc = acc;
    acc.push(d);
    proof {
        assert(docs_view(acc@) =~= prev.push(doc_view(acc@.last())));
        assert forall|m: int| 0 <= m < acc@.len() implies span_fwd(
            (#[trigger] docs_view(acc@)[m]).span,
        ) && covers(docs_view(acc@)[m].span, node_v_span(docs_view(acc@)[m].node)) && spans_wf(
            docs_view(acc@)[m].node,
        ) by {
            if m < acc@.len() - 1 {
                assert(docs_view(acc@)[m] == prev[m]);
            } else {
                assert(docs_view(acc@)[m] == doc_view(acc@.last()));
            }
        }
    }
    build_docs(evs, j, acc, filename)
}

/// Builds a whole template file from a finished event stream. The built
/// tree's spans run forward, and every parent's span covers its
/// children's.
pub fn build_template_file(evs: &Vec<RawEvent>, filename: &str) -> (r: Result<
    FileTemplate,
    TemplError,
>)
    ensures
        match r {
            Ok(f) => sp_b_file(events_view(evs@), filename@) == Ok::<_, ErrV>(file_view(f))
                && file_spans_wf(file_view(f)),
            Err(e) => sp_b_file(events_view(evs@), filename@) == Err::<FileV, _>(e@),
        },
{
    if evs.len() == 0 || !matches!(&evs[0].kind, crate::events::EventKind::StreamStart) {
        return Err(err_plain(filename, crate::errors::ErrorKind::UnexpectedEvent));
    }
    let start: Vec<DocumentTemplate> = Vec::new();
    proof {
        assert(docs_view(start@) =~= Seq::<DocV>::empty());
    }
    let (docs, j) = match build_docs(evs, 1, start, filename) {
        Err(e) => {
            return Err(e);
        },
        Ok(x) => x,
    };
    let mut src_loc = mk_span_c(filename, &evs[0], &evs[j]);
    clamp_span_c(&mut src_loc);
    let ghost sp0 = span_full_view(src_loc);
    let ghost dsv = docs_view(docs@);
    let mut k: usize = 0;
    while k < docs.len()
        invariant
            0 <= k <= docs@.len(),
            dsv == docs_view(docs@),
            dsv.len() == docs@.len(),
            widen_docs(sp0, dsv, 0) == widen_docs(span_full_view(src_loc), dsv, k as int),
            span_fwd(span_full_view(src_loc)),
            forall|m: int|
                0 <= m < k ==> covers(span_full_view(src_loc), (#[trigger] dsv[m]).span),
        decreases docs@.len() - k,
    {
        proof {
            assert(dsv[k as int].span == span_full_view(docs@[k as int].src_loc));
        }
        widen_span_c(&mut src_loc, &docs[k].src_loc);
        k += 1;
    }
    Ok(FileTemplate { src_loc, docs })
}

/// The most events one scan may deliver; the yaml parser ends every
/// stream with a stream-end event long before this, but the collecting
/// loop needs a bound to terminate.
pub const SCAN_FUEL: u64 = 0xFFFF_FFFF_FFFF_0000;

/// The failure reported when the collecting loop's bound runs out.
pub open spec fn scan_fuel_issue() -> ScanIssueV {
    ScanIssueV { index: 0, line: 0, col: 0, message: "yaml event stream did not end"@ }
}

/// The collected event stream of a text, reading outcomes from position
/// `k` on: the events up to and including the first stream-end, or the
/// scanner's failure, or the out-of-fuel failure.
pub open spec fn scan_events_from(
    s: Seq<char>,
    k: int,
    acc: Seq<RawEventV>,
    fuel: nat,
) -> Result<Seq<RawEventV>, ScanIssueV>
    decreases fuel,
{
    if fuel == 0 {
        Err(scan_fuel_issue())
    } else {
        match crate::outside::yaml_scan_of(s, k) {
            Err(e) => Err(e),
            Ok(ev) => if ev.kind is StreamEnd {
                Ok(acc.push(ev))
            } else {
                scan_events_from(s, k + 1, acc.push(ev), (fuel - 1) as nat)
            },
        }
    }
}

/// The collected event stream of a text.
pub open spec fn scan_result(s: Seq<char>) -> Result<Seq<RawEventV>, ScanIssueV> {
    scan_events_from(s, 0, Seq::empty(), SCAN_FUEL as nat)
}

/// Pulls the whole event stream of a text, up to and including its
/// stream-end event.
#[verifier::loop_isolation(false)]
pub fn scan_yaml_events(input: &str) -> (r: Result<Vec<RawEvent>, ScanIssue>)
    ensures
        match r {
            Ok(evs) => scan_result(input@) == Ok::<Seq<RawEventV>, ScanIssueV>(
                events_view(evs@),
            ),
            Err(e) => scan_result(input@) == Err::<Seq<RawEventV>, ScanIssueV>(issue_view(e)),
        },
{
    let mut parser = crate::outside::new_yaml_parser(input);
    let mut evs: Vec<RawEvent> = Vec::new();
    let mut fuel: u64 = SCAN_FUEL;
    proof {
        assert(events_view(evs@) =~= Seq::<RawEventV>::empty());
    }
    while fuel > 0
        invariant
            fuel <= SCAN_FUEL,
            crate::outside::source_text(parser) == input@,
            crate::outside::source_pos(parser) == evs@.len(),
            evs@.len() == SCAN_FUEL - fuel,
            scan_result(input@) == scan_events_from(
                input@,
                evs@.len() as int,
                events_view(evs@),
                fuel as nat,
            ),
        decreases fuel,
    {
        fuel = fuel - 1;
        let ghost pre = events_view(evs@);
        match crate::outside::next_raw_event(&mut parser) {
            Err(e) => {
                return Err(e);
            },
            Ok(ev) => {
                let done = matches!(&ev.kind, crate::events::EventKind::StreamEnd);
                evs.push(ev);
                proof {
                    assert(events_view(evs@) =~= pre.push(
                        crate::events::event_view(evs@.last()),
                    ));
                }
                if done {
                    return Ok(evs);
                }
            },
        }
    }
    Err(fuel_issue())
}

fn fuel_issue() -> (r: ScanIssue)
    ensures
        issue_view(r) == scan_fuel_issue(),
{
    let mut message = String::new();
    message.append("yaml event stream did not end");
    proof {
        assert(message@ =~= "yaml event stream did not end"@);
    }
    ScanIssue { mark: Mark { index: 0, line: 0, col: 0 }, message }
}

/// The spanned diagnostic of a scanner failure.
pub open spec fn scan_issue_err(file: Seq<char>, e: ScanIssueV) -> ErrV {
    ErrV {
        span: SpanV { file, line: e.line, col: inc_col(e.col) },
        kind: ErrorKindV::ScanFailed(e.message),
    }
}

/// The outcome of parsing a template text: the scanned events through the
/// tree builder; every failure is rendered `<file>:<line>:<col> message`.
pub open spec fn template_parse_result(input: Seq<char>, file: Seq<char>) -> Result<
    FileV,
    Seq<char>,
> {
    match scan_result(input) {
        Err(e) => Err(crate::errors::rendered(scan_issue_err(file, e))),
        Ok(evs) => match sp_b_file(evs, file) {
            Err(e) => Err(crate::errors::rendered(e)),
            Ok(f) => Ok(f),
        },
    }
}

/// Parses a template text into its tree: the events are read from the
/// yaml parser and handed to the verified builder.
pub fn parse_template(filename: &str, input: &str) -> (r: Result<FileTemplate, String>)
    ensures
        match r {
            Ok(f) => template_parse_result(input@, filename@) == Ok::<FileV, Seq<char>>(
                file_view(f),
            ) && file_spans_wf(file_view(f)),
            Err(m) => template_parse_result(input@, filename@) == Err::<FileV, Seq<char>>(m@),
        },
{
    let evs = match scan_yaml_events(input) {
        Err(e) => {
            let te = TemplError {
                span: SourceLocationSpan {
                    filename: filename.to_owned(),
                    start: SourceLocation {
                        index: e.mark.index,
                        line: e.mark.line,
                        col: inc_col_c(e.mark.col),
                    },
                    end: SourceLocation {
                        index: e.mark.index,
                        line: e.mark.line,
                        col: inc_col_c(e.mark.col),
                    },
                },
                kind: crate::errors::ErrorKind::ScanFailed(e.message),
            };
            return Err(te.render());
        },
        Ok(evs) => evs,
    };
    match build_template_file(&evs, filename) {
        Ok(f) => Ok(f),
        Err(e) => Err(e.render()),
    }
}

/// The template parser as a reusable object.
pub struct Parser {}

impl Parser {
    pub fn new() -> Parser {
        Parser {}
    }

    /// Parses a template text into its tree.
    pub fn parse(&self, filename: &str, input: &str) -> (r: Result<FileTemplate, String>)
        ensures
            match r {
                Ok(f) => template_parse_result(input@, filename@) == Ok::<FileV, Seq<char>>(
                    file_view(f),
                ) && file_spans_wf(file_view(f)),
                Err(m) => template_parse_result(input@, filename@) == Err::<FileV, Seq<char>>(
                    m@,
                ),
            },
    {
        parse_template(filename, input)
    }
}

} // verus!