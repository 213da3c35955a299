//! The template tree and the expression language's syntax.
//!
//! A template file holds documents; a document holds one node; a node is a
//! sequence, a map, or a scalar. A scalar is a splice of literal text
//! segments and parsed expression statements. Every node carries the span
//! of the source text it was read from.

use vstd::prelude::*;

verus! {

/// A position in the template text: byte offset, 1-based line, 1-based
/// column.
pub struct SourceLocation {
    pub index: usize,
    pub line: usize,
    pub col: usize,
}

/// The span of a construct in a named template file.
pub struct SourceLocationSpan {
    pub filename: String,
    pub start: SourceLocation,
    pub end: SourceLocation,
}

impl SourceLocation {
    pub fn dup(&self) -> (r: SourceLocation)
        ensures
            r == *self,
    {
        SourceLocation { index: self.index, line: self.line, col: self.col }
    }
}

impl SourceLocationSpan {
    pub fn dup(&self) -> (r: SourceLocationSpan)
        ensures
            r == *self,
    {
        SourceLocationSpan {
            filename: self.filename.clone(),
            start: self.start.dup(),
            end: self.end.dup(),
        }
    }
}

pub struct FileTemplate {
    pub src_loc: SourceLocationSpan,
    pub docs: Vec<DocumentTemplate>,
}

pub struct DocumentTemplate {
    pub src_loc: SourceLocationSpan,
    pub node: NodeTemplate,
}

pub enum NodeTemplate {
    Sequence(SequenceTemplate),
    Mapping(MapTemplate),
    Scaler(ScalerTemplate),
}

pub struct SequenceTemplate {
    pub src_loc: SourceLocationSpan,
    pub values: Vec<NodeTemplate>,
}

pub struct MapTemplate {
    pub src_loc: SourceLocationSpan,
    pub entries: Vec<MapEntryTemplate>,
}

pub struct MapEntryTemplate {
    pub key: NodeTemplate,
    pub value: NodeTemplate,
}

pub struct ScalerTemplate {
    pub src_loc: SourceLocationSpan,
    pub values: Vec<ScalarTemplateValue>,
}

/// One segment of a scalar: literal text, or a `${{ ... }}` statement.
pub enum ScalarTemplateValue {
    String(String),
    Expr(Statement),
}

/// What stands inside one `${{ ... }}`.
pub enum Statement {
    Expr(Expr),
    If(StatementIf),
    For(StatementFor),
}

pub struct StatementIf {
    pub condition: Expr,
}

pub struct StatementFor {
    pub bindings: Vec<ExprBinding>,
    pub iterable: Expr,
}

/// A variable bound by a `for` statement.
pub enum ExprBinding {
    Var(String),
}

pub enum Expr {
    String(ExprString),
    Inline,
    Drop,
    Query(ExprQuery),
    True,
    False,
    Eq(ExprOpBinary),
    Ne(ExprOpBinary),
    Integer(ExprInteger),
    Real(ExprReal),
}

pub struct ExprString {
    pub value: String,
}

pub struct ExprInteger {
    pub value: i64,
}

pub struct ExprReal {
    pub value: String,
}

/// A query walks from the configuration root or a variable through a chain
/// of index steps.
pub enum ExprQuery {
    Root,
    Var(String),
    Index(ExprIndex),
}

pub struct ExprOpBinary {
    pub left: Box<Expr>,
    pub right: Box<Expr>,
}

pub struct ExprIndex {
    pub object: Box<ExprQuery>,
    pub index: Box<Expr>,
}

/// The model of a query.
pub enum QueryV {
    Root,
    Var(Seq<char>),
    Index(Box<QueryV>, Box<ExprV>),
}

/// The model of an expression.
pub enum ExprV {
    Str(Seq<char>),
    Inline,
    Drop,
    True,
    False,
    Integer(int),
    Real(Seq<char>),
    Query(QueryV),
    Eq(Box<ExprV>, Box<ExprV>),
    Ne(Box<ExprV>, Box<ExprV>),
}

/// The model of a statement.
pub enum StatementV {
    Expr(ExprV),
    If(ExprV),
    For(Seq<Seq<char>>, ExprV),
}

/// The name a binding introduces.
pub open spec fn binding_name(b: ExprBinding) -> Seq<char> {
    match b {
        ExprBinding::Var(s) => s@,
    }
}

pub open spec fn binding_names(bs: Seq<ExprBinding>) -> Seq<Seq<char>> {
    Seq::new(bs.len(), |i: int| binding_name(bs[i]))
}

pub open spec fn query_view(q: ExprQuery) -> QueryV
    decreases q,
{
    match q {
        ExprQuery::Root => QueryV::Root,
        ExprQuery::Var(s) => QueryV::Var(s@),
        ExprQuery::Index(ix) => QueryV::Index(
            Box::new(query_view(*ix.object)),
            Box::new(expr_view(*ix.index)),
        ),
    }
}

pub open spec fn expr_view(e: Expr) -> ExprV
    decreases e,
{
    match e {
        Expr::String(s) => ExprV::Str(s.value@),
        Expr::Inline => ExprV::Inline,
        Expr::Drop => ExprV::Drop,
        Expr::True => ExprV::True,
        Expr::False => ExprV::False,
        Expr::Integer(i) => ExprV::Integer(i.value as int),
        Expr::Real(r) => ExprV::Real(r.value@),
        Expr::Query(q) => ExprV::Query(query_view(q)),
        Expr::Eq(op) => ExprV::Eq(Box::new(expr_view(*op.left)), Box::new(expr_view(*op.right))),
        Expr::Ne(op) => ExprV::Ne(Box::new(expr_view(*op.left)), Box::new(expr_view(*op.right))),
    }
}

pub open spec fn stmt_view(s: Statement) -> StatementV {
    match s {
        Statement::Expr(e) => StatementV::Expr(expr_view(e)),
        Statement::If(sif) => StatementV::If(expr_view(sif.condition)),
        Statement::For(sfor) => StatementV::For(
            binding_names(sfor.bindings@),
            expr_view(sfor.iterable),
        ),
    }
}

/// The span of a node, whichever shape it has. For trees the template
/// parser builds, every span runs forward and covers its children's (the
/// parse contract states this through `file_spans_wf`).
pub open spec fn spec_node_src_loc(n: NodeTemplate) -> SourceLocationSpan {
    match n {
        NodeTemplate::Sequence(s) => s.src_loc,
        NodeTemplate::Mapping(m) => m.src_loc,
        NodeTemplate::Scaler(s) => s.src_loc,
    }
}

impl NodeTemplate {
    pub fn src_loc(&self) -> (r: &SourceLocationSpan)
        ensures
            *r == spec_node_src_loc(*self),
    {
        match self {
            NodeTemplate::Sequence(SequenceTemplate { src_loc, .. }) => src_loc,
            NodeTemplate::Mapping(MapTemplate { src_loc, .. }) => src_loc,
            NodeTemplate::Scaler(ScalerTemplate { src_loc, .. }) => src_loc,
        }
    }
}

} // verus!
