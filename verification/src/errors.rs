//! Spanned diagnostics. Every error the engine raises carries the span of
//! the offending construct and a structured kind; rendering produces
//! `<file>:<line>:<col> <message>`.

use vstd::prelude::*;
use crate::ast::SourceLocationSpan;
use crate::strutil::{dec_rep, int_rep, quoted, usize_to_string, i64_to_string, quote_string};
use crate::yaml::{Yaml, YamlV, yamlv_type_name, yaml_type_name};

verus! {

broadcast use vstd::seq::group_seq_axioms, vstd::std_specs::vec::group_vec_axioms;

/// The model of a span's start: file name, 1-based line and column.
pub struct SpanV {
    pub file: Seq<char>,
    pub line: int,
    pub col: int,
}

/// The start of a source span, as diagnostics report it.
pub open spec fn span_v(s: SourceLocationSpan) -> SpanV {
    SpanV { file: s.filename@, line: s.start.line as int, col: s.start.col as int }
}

/// A directive name, for messages about misplaced directives.
pub enum DirectiveName {
    Inline,
    Drop,
    For,
}

pub open spec fn directive_name_text(d: DirectiveName) -> Seq<char> {
    match d {
        DirectiveName::Inline => "inline"@,
        DirectiveName::Drop => "drop"@,
        DirectiveName::For => "for"@,
    }
}

/// What went wrong; the message parameters are carried as data.
pub enum ErrorKind {
    AliasNotSupported,
    TagNotSupported,
    ExprMalformed,
    UnexpectedEvent,
    ScanFailed(String),
    DirectiveAsValue(DirectiveName),
    DirectiveAsSubstring(DirectiveName),
    TypeAsSubstring(String),
    InlineMapIntoList,
    InlineValueIntoList,
    InlineListIntoMap,
    InlineValueIntoMap,
    CombineListIntoMap,
    CombineMapIntoList,
    ForItemNotContainer,
    ForListBindings(usize),
    ForMapBindings(usize),
    VarNotFound(String),
    MapIndexType(String),
    ListIndexType(String),
    IndexNotFound(String),
    IndexOutOfBounds(u64),
    IndexNegative(i64),
    NotIndexable(String, String),
    DirectiveToBool(DirectiveName),
    DirectiveNotIterable(DirectiveName),
    TypeNotIterable(String),
}

/// The model of an error kind: string parameters as character sequences.
pub enum ErrorKindV {
    AliasNotSupported,
    TagNotSupported,
    ExprMalformed,
    UnexpectedEvent,
    ScanFailed(Seq<char>),
    DirectiveAsValue(DirectiveName),
    DirectiveAsSubstring(DirectiveName),
    TypeAsSubstring(Seq<char>),
    InlineMapIntoList,
    InlineValueIntoList,
    InlineListIntoMap,
    InlineValueIntoMap,
    CombineListIntoMap,
    CombineMapIntoList,
    ForItemNotContainer,
    ForListBindings(int),
    ForMapBindings(int),
    VarNotFound(Seq<char>),
    MapIndexType(Seq<char>),
    ListIndexType(Seq<char>),
    IndexNotFound(Seq<char>),
    IndexOutOfBounds(int),
    IndexNegative(int),
    NotIndexable(Seq<char>, Seq<char>),
    DirectiveToBool(DirectiveName),
    DirectiveNotIterable(DirectiveName),
    TypeNotIterable(Seq<char>),
}

pub open spec fn kind_view(k: ErrorKind) -> ErrorKindV {
    match k {
        ErrorKind::AliasNotSupported => ErrorKindV::AliasNotSupported,
        ErrorKind::TagNotSupported => ErrorKindV::TagNotSupported,
        ErrorKind::ExprMalformed => ErrorKindV::ExprMalformed,
        ErrorKind::UnexpectedEvent => ErrorKindV::UnexpectedEvent,
        ErrorKind::ScanFailed(m) => ErrorKindV::ScanFailed(m@),
        ErrorKind::DirectiveAsValue(d) => ErrorKindV::DirectiveAsValue(d),
        ErrorKind::DirectiveAsSubstring(d) => ErrorKindV::DirectiveAsSubstring(d),
        ErrorKind::TypeAsSubstring(t) => ErrorKindV::TypeAsSubstring(t@),
        ErrorKind::InlineMapIntoList => ErrorKindV::InlineMapIntoList,
        ErrorKind::InlineValueIntoList => ErrorKindV::InlineValueIntoList,
        ErrorKind::InlineListIntoMap => ErrorKindV::InlineListIntoMap,
        ErrorKind::InlineValueIntoMap => ErrorKindV::InlineValueIntoMap,
        ErrorKind::CombineListIntoMap => ErrorKindV::CombineListIntoMap,
        ErrorKind::CombineMapIntoList => ErrorKindV::CombineMapIntoList,
        ErrorKind::ForItemNotContainer => ErrorKindV::ForItemNotContainer,
        ErrorKind::ForListBindings(n) => ErrorKindV::ForListBindings(n as int),
        ErrorKind::ForMapBindings(n) => ErrorKindV::ForMapBindings(n as int),
        ErrorKind::VarNotFound(s) => ErrorKindV::VarNotFound(s@),
        ErrorKind::MapIndexType(t) => ErrorKindV::MapIndexType(t@),
        ErrorKind::ListIndexType(t) => ErrorKindV::ListIndexType(t@),
        ErrorKind::IndexNotFound(s) => ErrorKindV::IndexNotFound(s@),
        ErrorKind::IndexOutOfBounds(n) => ErrorKindV::IndexOutOfBounds(n as int),
        ErrorKind::IndexNegative(n) => ErrorKindV::IndexNegative(n as int),
        ErrorKind::NotIndexable(d, t) => ErrorKindV::NotIndexable(d@, t@),
        ErrorKind::DirectiveToBool(d) => ErrorKindV::DirectiveToBool(d),
        ErrorKind::DirectiveNotIterable(d) => ErrorKindV::DirectiveNotIterable(d),
        ErrorKind::TypeNotIterable(t) => ErrorKindV::TypeNotIterable(t@),
    }
}

/// The message text of an error kind.
pub open spec fn kind_message(k: ErrorKindV) -> Seq<char> {
    match k {
        ErrorKindV::AliasNotSupported => "yaml aliases are not supported"@,
        ErrorKindV::TagNotSupported => "yaml tags are not supported"@,
        ErrorKindV::ExprMalformed => "malformed template expression"@,
        ErrorKindV::UnexpectedEvent => "unexpected yaml event"@,
        ErrorKindV::ScanFailed(m) => m,
        ErrorKindV::DirectiveAsValue(d) => "expression value '"@ + directive_name_text(d)
            + "' can only be used as a map key"@,
        ErrorKindV::DirectiveAsSubstring(d) => "expression value '"@ + directive_name_text(d)
            + "' cannot be a substring"@,
        ErrorKindV::TypeAsSubstring(t) => "expression value of type "@ + t
            + " cannot be a substring"@,
        ErrorKindV::InlineMapIntoList => "cannot inline maps into lists"@,
        ErrorKindV::InlineValueIntoList => "cannot inline values into lists"@,
        ErrorKindV::InlineListIntoMap => "cannot inline lists into maps"@,
        ErrorKindV::InlineValueIntoMap => "cannot inline values into maps"@,
        ErrorKindV::CombineListIntoMap => "cannot combine list item into map"@,
        ErrorKindV::CombineMapIntoList => "cannot combine map item into list"@,
        ErrorKindV::ForItemNotContainer => "for loop child item must be either an array or a map"@,
        ErrorKindV::ForListBindings(n) => "for loop over list requires 1 binding item, found "@
            + dec_rep(n as nat),
        ErrorKindV::ForMapBindings(n) => "for loop over map requires 2 binding items, found "@
            + dec_rep(n as nat),
        ErrorKindV::VarNotFound(name) => "cannot find variable '"@ + name + "'"@,
        ErrorKindV::MapIndexType(t) => "value of type "@ + t
            + " cannot be used to index into a map"@,
        ErrorKindV::ListIndexType(t) => "value of type "@ + t
            + " cannot be used to index into a list"@,
        ErrorKindV::IndexNotFound(d) => "index "@ + d + " not found"@,
        ErrorKindV::IndexOutOfBounds(n) => "index "@ + dec_rep(n as nat) + " is out of bounds"@,
        ErrorKindV::IndexNegative(n) => "index "@ + int_rep(n) + " is negative"@,
        ErrorKindV::NotIndexable(d, t) => "cannot get index "@ + d + ": value type "@ + t
            + " is not indexable"@,
        ErrorKindV::DirectiveToBool(d) => "expression value '"@ + directive_name_text(d)
            + "' cannot be converted to a bool value"@,
        ErrorKindV::DirectiveNotIterable(d) => "expression value '"@ + directive_name_text(d)
            + "' is not iteratable"@,
        ErrorKindV::TypeNotIterable(t) => "value type "@ + t + " is not iteratable"@,
    }
}

/// A spanned error.
pub struct TemplError {
    pub span: SourceLocationSpan,
    pub kind: ErrorKind,
}

/// The model of a spanned error.
pub struct ErrV {
    pub span: SpanV,
    pub kind: ErrorKindV,
}

impl View for TemplError {
    type V = ErrV;

    open spec fn view(&self) -> ErrV {
        ErrV { span: span_v(self.span), kind: kind_view(self.kind) }
    }
}

/// The diagnostic prefix: `<file>:<line>:<col> `.
pub open spec fn diag_prefix(s: SpanV) -> Seq<char> {
    s.file + ":"@ + dec_rep(s.line as nat) + ":"@ + dec_rep(s.col as nat) + " "@
}

/// The full diagnostic text of an error.
pub open spec fn rendered(e: ErrV) -> Seq<char> {
    diag_prefix(e.span) + kind_message(e.kind)
}

/// Every rendered diagnostic starts with its `<file>:<line>:<col> ` prefix.
pub proof fn lemma_diag_format(e: ErrV)
    ensures
        rendered(e).take(diag_prefix(e.span).len() as int) == diag_prefix(e.span),
        rendered(e).skip(diag_prefix(e.span).len() as int) == kind_message(e.kind),
{
    assert(rendered(e).take(diag_prefix(e.span).len() as int) =~= diag_prefix(e.span));
    assert(rendered(e).skip(diag_prefix(e.span).len() as int) =~= kind_message(e.kind));
}

impl TemplError {
    pub fn new(span: &SourceLocationSpan, kind: ErrorKind) -> (r: TemplError)
        ensures
            r@ == (ErrV { span: span_v(*span), kind: kind_view(kind) }),
    {
        TemplError { span: span.dup(), kind }
    }

    /// The diagnostic text: the span prefix, then the message.
    pub fn render(&self) -> (r: String)
        ensures
            r@ == rendered(self@),
    {
        let mut out = self.span.filename.clone();
        out.append(":");
        let line = usize_to_string(self.span.start.line);
        out.append(line.as_str());
        out.append(":");
        let col = usize_to_string(self.span.start.col);
        out.append(col.as_str());
        out.append(" ");
        proof {
            assert(out@ =~= diag_prefix(span_v(self.span)));
        }
        let msg = render_kind(&self.kind);
        out.append(msg.as_str());
        out
    }
}

/// The message text of an error kind.
pub fn render_kind(k: &ErrorKind) -> (r: String)
    ensures
        r@ == kind_message(kind_view(*k)),
{
    match k {
        ErrorKind::AliasNotSupported => lit("yaml aliases are not supported"),
        ErrorKind::TagNotSupported => lit("yaml tags are not supported"),
        ErrorKind::ExprMalformed => lit("malformed template expression"),
        ErrorKind::UnexpectedEvent => lit("unexpected yaml event"),
        ErrorKind::ScanFailed(m) => lit(m.as_str()),
        ErrorKind::DirectiveAsValue(d) => cat3(
            "expression value '",
            directive_str(d),
            "' can only be used as a map key",
        ),
        ErrorKind::DirectiveAsSubstring(d) => cat3(
            "expression value '",
            directive_str(d),
            "' cannot be a substring",
        ),
        ErrorKind::TypeAsSubstring(t) => cat3(
            "expression value of type ",
            t.as_str(),
            " cannot be a substring",
        ),
        ErrorKind::InlineMapIntoList => lit("cannot inline maps into lists"),
        ErrorKind::InlineValueIntoList => lit("cannot inline values into lists"),
        ErrorKind::InlineListIntoMap => lit("cannot inline lists into maps"),
        ErrorKind::InlineValueIntoMap => lit("cannot inline values into maps"),
        ErrorKind::CombineListIntoMap => lit("cannot combine list item into map"),
        ErrorKind::CombineMapIntoList => lit("cannot combine map item into list"),
        ErrorKind::ForItemNotContainer => lit(
            "for loop child item must be either an array or a map",
        ),
        ErrorKind::ForListBindings(n) => {
            let count = usize_to_string(*n);
            cat2("for loop over list requires 1 binding item, found ", count.as_str())
        },
        ErrorKind::ForMapBindings(n) => {
            let count = usize_to_string(*n);
            cat2("for loop over map requires 2 binding items, found ", count.as_str())
        },
        ErrorKind::VarNotFound(name) => cat3("cannot find variable '", name.as_str(), "'"),
        ErrorKind::MapIndexType(t) => cat3(
            "value of type ",
            t.as_str(),
            " cannot be used to index into a map",
        ),
        ErrorKind::ListIndexType(t) => cat3(
            "value of type ",
            t.as_str(),
            " cannot be used to index into a list",
        ),
        ErrorKind::IndexNotFound(d) => cat3("index ", d.as_str(), " not found"),
        ErrorKind::IndexOutOfBounds(n) => {
            let num = crate::strutil::u64_to_string(*n);
            cat3("index ", num.as_str(), " is out of bounds")
        },
        ErrorKind::IndexNegative(n) => {
            let num = i64_to_string(*n);
            cat3("index ", num.as_str(), " is negative")
        },
        ErrorKind::NotIndexable(d, t) => {
            let mut out = lit("cannot get index ");
            out.append(d.as_str());
            out.append(": value type ");
            out.append(t.as_str());
            out.append(" is not indexable");
            proof {
                assert(out@ =~= kind_message(kind_view(*k)));
            }
            out
        },
        ErrorKind::DirectiveToBool(d) => cat3(
            "expression value '",
            directive_str(d),
            "' cannot be converted to a bool value",
        ),
        ErrorKind::DirectiveNotIterable(d) => cat3(
            "expression value '",
            directive_str(d),
            "' is not iteratable",
        ),
        ErrorKind::TypeNotIterable(t) => cat3("value type ", t.as_str(), " is not iteratable"),
    }
}

fn directive_str(d: &DirectiveName) -> (r: &'static str)
    ensures
        r@ == directive_name_text(*d),
{
    match d {
        DirectiveName::Inline => "inline",
        DirectiveName::Drop => "drop",
        DirectiveName::For => "for",
    }
}

fn lit(s: &str) -> (r: String)
    ensures
        r@ == s@,
{
    let mut out = String::new();
    out.append(s);
    proof {
        assert(out@ =~= s@);
    }
    out
}

fn cat2(a: &str, b: &str) -> (r: String)
    ensures
        r@ == a@ + b@,
{
    let mut out = lit(a);
    out.append(b);
    out
}

fn cat3(a: &str, b: &str, c: &str) -> (r: String)
    ensures
        r@ == a@ + b@ + c@,
{
    let mut out = lit(a);
    out.append(b);
    out.append(c);
    proof {
        assert(out@ =~= a@ + b@ + c@);
    }
    out
}

/// The debug form of a value in diagnostics: scalars print their content,
/// containers a placeholder.
pub open spec fn yamlv_debug(v: YamlV) -> Seq<char> {
    match v {
        YamlV::Real(s) => s,
        YamlV::Integer(i) => int_rep(i),
        YamlV::String(s) => quoted(s),
        YamlV::Boolean(b) => if b {
            "true"@
        } else {
            "false"@
        },
        YamlV::Array(_) => "<list>"@,
        YamlV::Hash(_) => "<map>"@,
        YamlV::Null => "<null>"@,
    }
}

pub fn yaml_debug_string(y: &Yaml) -> (r: String)
    ensures
        r@ == yamlv_debug(y@),
{
    match y {
        Yaml::Real(s) => lit(s.as_str()),
        Yaml::Integer(i) => i64_to_string(*i),
        Yaml::String(s) => quote_string(s.as_str()),
        Yaml::Boolean(b) => if *b {
            lit("true")
        } else {
            lit("false")
        },
        Yaml::Array(_) => lit("<list>"),
        Yaml::Hash(_) => lit("<map>"),
        Yaml::Null => lit("<null>"),
    }
}

} // verus!
