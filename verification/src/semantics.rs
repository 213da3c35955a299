//! The meaning of a template: a total, deterministic evaluation function
//! over the template tree, the configuration value, and the variable
//! scopes. The executable interpreter is proved to return exactly what
//! these functions say.

use vstd::prelude::*;
use crate::ast::{
    DocumentTemplate, Expr, ExprQuery, MapEntryTemplate, NodeTemplate,
    ScalarTemplateValue, ScalerTemplate, Statement, binding_names,
};
use crate::errors::{DirectiveName, ErrV, ErrorKindV, SpanV, span_v, yamlv_debug};
use crate::yaml::{YamlV, yamlv_type_name, hash_lookup_v, hash_insert_v};

verus! {

/// One variable frame: name/value bindings, later bindings shadowing
/// earlier ones.
pub type FrameV = Seq<(Seq<char>, YamlV)>;

/// The scope stack, outermost frame first.
pub type ScopesV = Seq<FrameV>;

/// The model of a `for` directive waiting for its body: binding names and
/// the value iterated over.
pub struct ForV {
    pub bindings: Seq<Seq<char>>,
    pub iterable: YamlV,
}

/// The model of what a node hands its parent.
pub enum ValueDataV {
    Yaml(YamlV),
    InlineYaml(YamlV),
    Inline,
    Drop,
    Nothing,
    For(ForV),
}

/// A node result with the span it came from.
pub struct ValueV {
    pub span: SpanV,
    pub data: ValueDataV,
}

/// The model of one scalar segment's result.
pub enum ScalarValueV {
    Inline,
    Drop,
    Yaml(YamlV),
    For(ForV),
}

/// The model of an expression's result.
pub enum ExprValueV {
    Inline,
    Drop,
    Yaml(YamlV),
}

/// The accumulator of a `for` expansion: nothing yet, a list, or a map.
pub enum ForAccV {
    Nothing,
    List(Seq<YamlV>),
    Mapping(Seq<(YamlV, YamlV)>),
}

/// The type name of an expression result, as diagnostics print it.
pub open spec fn ev_type_name(v: ExprValueV) -> Seq<char> {
    match v {
        ExprValueV::Inline => "inline"@,
        ExprValueV::Drop => "drop"@,
        ExprValueV::Yaml(y) => yamlv_type_name(y),
    }
}

/// The debug form of an expression result, as diagnostics print it.
pub open spec fn ev_debug(v: ExprValueV) -> Seq<char> {
    match v {
        ExprValueV::Inline => "inline"@,
        ExprValueV::Drop => "drop"@,
        ExprValueV::Yaml(y) => yamlv_debug(y),
    }
}

pub open spec fn err(span: SpanV, kind: ErrorKindV) -> ErrV {
    ErrV { span, kind }
}

/// Looks a variable up in one frame: the binding added last wins.
pub open spec fn sp_lookup_frame(f: FrameV, name: Seq<char>) -> Option<YamlV>
    decreases f,
{
    if f.len() == 0 {
        None
    } else if f.last().0 == name {
        Some(f.last().1)
    } else {
        sp_lookup_frame(f.drop_last(), name)
    }
}

/// Looks a variable up in the scope stack, innermost frame first.
pub open spec fn sp_lookup_scopes(sc: ScopesV, name: Seq<char>) -> Option<YamlV>
    decreases sc,
{
    if sc.len() == 0 {
        None
    } else {
        match sp_lookup_frame(sc.last(), name) {
            Some(v) => Some(v),
            None => sp_lookup_scopes(sc.drop_last(), name),
        }
    }
}

/// Inserts every entry of `sub` into `acc`, in order.
pub open spec fn hash_insert_all(
    acc: Seq<(YamlV, YamlV)>,
    sub: Seq<(YamlV, YamlV)>,
) -> Seq<(YamlV, YamlV)>
    decreases sub,
{
    if sub.len() == 0 {
        acc
    } else {
        hash_insert_all(hash_insert_v(acc, sub[0].0, sub[0].1), sub.drop_first())
    }
}

/// Evaluates a query against the configuration and the scopes.
pub open spec fn sp_query(cfg: YamlV, sc: ScopesV, q: ExprQuery, span: SpanV) -> Result<
    YamlV,
    ErrV,
>
    decreases q, 0int,
{
    match q {
        ExprQuery::Root => Ok(cfg),
        ExprQuery::Var(name) => match sp_lookup_scopes(sc, name@) {
            Some(v) => Ok(v),
            None => Err(err(span, ErrorKindV::VarNotFound(name@))),
        },
        ExprQuery::Index(ix) => match sp_expr(cfg, sc, *ix.index, span) {
            Err(e) => Err(e),
            Ok(idx) => match sp_query(cfg, sc, *ix.object, span) {
                Err(e) => Err(e),
                Ok(obj) => sp_index(obj, idx, span),
            },
        },
    }
}

/// Indexes a value with an evaluated index.
pub open spec fn sp_index(obj: YamlV, idx: ExprValueV, span: SpanV) -> Result<YamlV, ErrV> {
    match obj {
        YamlV::Hash(es) => match idx {
            ExprValueV::Yaml(YamlV::String(key)) => match hash_lookup_v(es, YamlV::String(key)) {
                Some(v) => Ok(v),
                None => Err(err(span, ErrorKindV::IndexNotFound(yamlv_debug(YamlV::String(key))))),
            },
            _ => Err(err(span, ErrorKindV::MapIndexType(ev_type_name(idx)))),
        },
        YamlV::Array(items) => match idx {
            ExprValueV::Yaml(YamlV::Integer(i)) => if i < 0 {
                Err(err(span, ErrorKindV::IndexNegative(i)))
            } else if i >= items.len() {
                Err(err(span, ErrorKindV::IndexOutOfBounds(i)))
            } else {
                Ok(items[i])
            },
            _ => Err(err(span, ErrorKindV::ListIndexType(ev_type_name(idx)))),
        },
        _ => Err(err(span, ErrorKindV::NotIndexable(ev_debug(idx), yamlv_type_name(obj)))),
    }
}

/// Evaluates an expression.
pub open spec fn sp_expr(cfg: YamlV, sc: ScopesV, e: Expr, span: SpanV) -> Result<
    ExprValueV,
    ErrV,
>
    decreases e, 1int,
{
    match e {
        Expr::String(s) => Ok(ExprValueV::Yaml(YamlV::String(s.value@))),
        Expr::Inline => Ok(ExprValueV::Inline),
        Expr::Drop => Ok(ExprValueV::Drop),
        Expr::True => Ok(ExprValueV::Yaml(YamlV::Boolean(true))),
        Expr::False => Ok(ExprValueV::Yaml(YamlV::Boolean(false))),
        Expr::Integer(i) => Ok(ExprValueV::Yaml(YamlV::Integer(i.value as int))),
        Expr::Real(r) => Ok(ExprValueV::Yaml(YamlV::Real(r.value@))),
        Expr::Query(q) => match sp_query(cfg, sc, q, span) {
            Ok(v) => Ok(ExprValueV::Yaml(v)),
            Err(e) => Err(e),
        },
        Expr::Eq(op) => match sp_expr(cfg, sc, *op.left, span) {
            Err(e) => Err(e),
            Ok(l) => match sp_expr(cfg, sc, *op.right, span) {
                Err(e) => Err(e),
                Ok(r) => Ok(ExprValueV::Yaml(YamlV::Boolean(l == r))),
            },
        },
        Expr::Ne(op) => match sp_expr(cfg, sc, *op.left, span) {
            Err(e) => Err(e),
            Ok(l) => match sp_expr(cfg, sc, *op.right, span) {
                Err(e) => Err(e),
                Ok(r) => Ok(ExprValueV::Yaml(YamlV::Boolean(l != r))),
            },
        },
    }
}

/// Coerces an expression result to a condition: null and false are false,
/// every other value is true, directives are an error.
pub open spec fn sp_implicit_bool(v: ExprValueV, span: SpanV) -> Result<bool, ErrV> {
    match v {
        ExprValueV::Inline => Err(err(span, ErrorKindV::DirectiveToBool(DirectiveName::Inline))),
        ExprValueV::Drop => Err(err(span, ErrorKindV::DirectiveToBool(DirectiveName::Drop))),
        ExprValueV::Yaml(YamlV::Boolean(false)) => Ok(false),
        ExprValueV::Yaml(YamlV::Null) => Ok(false),
        ExprValueV::Yaml(_) => Ok(true),
    }
}

/// Requires an expression result to be an iterable container.
pub open spec fn sp_iterable(v: ExprValueV, span: SpanV) -> Result<YamlV, ErrV> {
    match v {
        ExprValueV::Inline => Err(
            err(span, ErrorKindV::DirectiveNotIterable(DirectiveName::Inline)),
        ),
        ExprValueV::Drop => Err(err(span, ErrorKindV::DirectiveNotIterable(DirectiveName::Drop))),
        ExprValueV::Yaml(y) => match y {
            YamlV::Array(_) => Ok(y),
            YamlV::Hash(_) => Ok(y),
            _ => Err(err(span, ErrorKindV::TypeNotIterable(yamlv_type_name(y)))),
        },
    }
}

/// Evaluates one `${{ ... }}` statement.
pub open spec fn sp_stmt(cfg: YamlV, sc: ScopesV, stmt: Statement, span: SpanV) -> Result<
    ScalarValueV,
    ErrV,
> {
    match stmt {
        Statement::Expr(e) => match sp_expr(cfg, sc, e, span) {
            Err(e) => Err(e),
            Ok(ExprValueV::Inline) => Ok(ScalarValueV::Inline),
            Ok(ExprValueV::Drop) => Ok(ScalarValueV::Drop),
            Ok(ExprValueV::Yaml(y)) => Ok(ScalarValueV::Yaml(y)),
        },
        Statement::If(sif) => match sp_expr(cfg, sc, sif.condition, span) {
            Err(e) => Err(e),
            Ok(c) => match sp_implicit_bool(c, span) {
                Err(e) => Err(e),
                Ok(true) => Ok(ScalarValueV::Inline),
                Ok(false) => Ok(ScalarValueV::Drop),
            },
        },
        Statement::For(sfor) => match sp_expr(cfg, sc, sfor.iterable, span) {
            Err(e) => Err(e),
            Ok(v) => match sp_iterable(v, span) {
                Err(e) => Err(e),
                Ok(it) => Ok(
                    ScalarValueV::For(ForV { bindings: binding_names(sfor.bindings@), iterable: it }),
                ),
            },
        },
    }
}

/// The result of one scalar segment: literal text is a string value, an
/// expression evaluates.
pub open spec fn sp_segment(cfg: YamlV, sc: ScopesV, seg: ScalarTemplateValue, span: SpanV) -> Result<
    ScalarValueV,
    ErrV,
> {
    match seg {
        ScalarTemplateValue::String(s) => Ok(ScalarValueV::Yaml(YamlV::String(s@))),
        ScalarTemplateValue::Expr(stmt) => sp_stmt(cfg, sc, stmt, span),
    }
}

/// Concatenates scalar segment results into one string; every segment must
/// be a string value.
pub open spec fn sp_concat(vals: Seq<ScalarValueV>, i: int, acc: Seq<char>, span: SpanV) -> Result<
    Seq<char>,
    ErrV,
>
    decreases vals.len() - i,
{
    if i < 0 || i >= vals.len() {
        Ok(acc)
    } else {
        match vals[i] {
            ScalarValueV::Inline => Err(
                err(span, ErrorKindV::DirectiveAsSubstring(DirectiveName::Inline)),
            ),
            ScalarValueV::Drop => Err(
                err(span, ErrorKindV::DirectiveAsSubstring(DirectiveName::Drop)),
            ),
            ScalarValueV::For(_) => Err(
                err(span, ErrorKindV::DirectiveAsSubstring(DirectiveName::For)),
            ),
            ScalarValueV::Yaml(YamlV::String(s)) => sp_concat(vals, i + 1, acc + s, span),
            ScalarValueV::Yaml(y) => Err(
                err(span, ErrorKindV::TypeAsSubstring(yamlv_type_name(y))),
            ),
        }
    }
}

/// Narrows a node result to a plain value: a raw directive here is an
/// error naming it.
pub open spec fn sp_expect_value(v: ValueV) -> Result<ValueV, ErrV> {
    match v.data {
        ValueDataV::Inline => Err(
            err(v.span, ErrorKindV::DirectiveAsValue(DirectiveName::Inline)),
        ),
        ValueDataV::Drop => Err(err(v.span, ErrorKindV::DirectiveAsValue(DirectiveName::Drop))),
        ValueDataV::For(_) => Err(err(v.span, ErrorKindV::DirectiveAsValue(DirectiveName::For))),
        _ => Ok(v),
    }
}

/// The frames a `for` pushes, one per iteration: an array binds each
/// element, a hash binds each key/value pair in insertion order.
pub open spec fn sp_for_frames(bindings: Seq<Seq<char>>, iterable: YamlV) -> Seq<FrameV> {
    match iterable {
        YamlV::Array(items) => Seq::new(items.len(), |i: int| seq![(bindings[0], items[i])]),
        YamlV::Hash(es) => Seq::new(
            es.len(),
            |i: int| seq![(bindings[0], es[i].0), (bindings[1], es[i].1)],
        ),
        _ => Seq::empty(),
    }
}

/// Evaluates a node.
pub open spec fn sp_node(cfg: YamlV, sc: ScopesV, n: NodeTemplate) -> Result<ValueV, ErrV>
    decreases n, 0int, 0int,
{
    match n {
        NodeTemplate::Sequence(st) => match sp_seq_items(cfg, sc, st.values@, 0, Seq::empty()) {
            Err(e) => Err(e),
            Ok(items) => Ok(
                ValueV { span: span_v(st.src_loc), data: ValueDataV::Yaml(YamlV::Array(items)) },
            ),
        },
        NodeTemplate::Mapping(mt) => sp_map_entries(
            cfg,
            sc,
            mt.entries@,
            0,
            Seq::empty(),
            mt.entries@.len() == 1,
            span_v(mt.src_loc),
        ),
        NodeTemplate::Scaler(st) => sp_scalar(cfg, sc, st),
    }
}

/// Evaluates the items of a sequence from position `i`, extending `acc`.
pub open spec fn sp_seq_items(
    cfg: YamlV,
    sc: ScopesV,
    items: Seq<NodeTemplate>,
    i: int,
    acc: Seq<YamlV>,
) -> Result<Seq<YamlV>, ErrV>
    decreases items, items.len() - i, 0int,
{
    if i < 0 || i >= items.len() {
        Ok(acc)
    } else {
        match sp_node(cfg, sc, items[i]) {
            Err(e) => Err(e),
            Ok(v) => match sp_expect_value(v) {
                Err(e) => Err(e),
                Ok(v) => match v.data {
                    ValueDataV::Yaml(y) => sp_seq_items(cfg, sc, items, i + 1, acc.push(y)),
                    ValueDataV::InlineYaml(y) => match y {
                        YamlV::Array(sub) => sp_seq_items(cfg, sc, items, i + 1, acc + sub),
                        YamlV::Hash(_) => Err(err(v.span, ErrorKindV::InlineMapIntoList)),
                        _ => Err(err(v.span, ErrorKindV::InlineValueIntoList)),
                    },
                    _ => sp_seq_items(cfg, sc, items, i + 1, acc),
                },
            },
        }
    }
}

/// Evaluates the entries of a map from position `i`.
///
/// `single` says whether the map has exactly one entry, in which case a
/// directive key decides the fate of the whole map.
pub open spec fn sp_map_entries(
    cfg: YamlV,
    sc: ScopesV,
    entries: Seq<MapEntryTemplate>,
    i: int,
    acc: Seq<(YamlV, YamlV)>,
    single: bool,
    mspan: SpanV,
) -> Result<ValueV, ErrV>
    decreases entries, entries.len() - i, 3int,
{
    if i < 0 || i >= entries.len() {
        Ok(ValueV { span: mspan, data: ValueDataV::Yaml(YamlV::Hash(acc)) })
    } else {
        match sp_node(cfg, sc, entries[i].key) {
            Err(e) => Err(e),
            Ok(k) => match k.data {
                ValueDataV::Yaml(kv) => sp_entry_plain(cfg, sc, entries, i, acc, single, mspan, kv),
                ValueDataV::InlineYaml(kv) => sp_entry_plain(
                    cfg,
                    sc,
                    entries,
                    i,
                    acc,
                    single,
                    mspan,
                    kv,
                ),
                ValueDataV::Inline => match sp_node(cfg, sc, entries[i].value) {
                    Err(e) => Err(e),
                    Ok(ev) => sp_entry_spliced(cfg, sc, entries, i, acc, single, mspan, ev),
                },
                ValueDataV::For(fv) => match sp_run_for(cfg, sc, entries[i].value, fv, k.span) {
                    Err(e) => Err(e),
                    Ok(ev) => sp_entry_spliced(cfg, sc, entries, i, acc, single, mspan, ev),
                },
                ValueDataV::Drop => if single {
                    Ok(ValueV { span: k.span, data: ValueDataV::Nothing })
                } else {
                    sp_map_entries(cfg, sc, entries, i + 1, acc, single, mspan)
                },
                ValueDataV::Nothing => sp_map_entries(cfg, sc, entries, i + 1, acc, single, mspan),
            },
        }
    }
}

/// Finishes a map entry whose key evaluated to a plain value: the entry's
/// value is evaluated and inserted.
pub open spec fn sp_entry_plain(
    cfg: YamlV,
    sc: ScopesV,
    entries: Seq<MapEntryTemplate>,
    i: int,
    acc: Seq<(YamlV, YamlV)>,
    single: bool,
    mspan: SpanV,
    kv: YamlV,
) -> Result<ValueV, ErrV>
    decreases entries, entries.len() - i, 2int,
{
    if 0 <= i < entries.len() {
        match sp_node(cfg, sc, entries[i].value) {
            Err(e) => Err(e),
            Ok(v) => match sp_expect_value(v) {
                Err(e) => Err(e),
                Ok(v) => {
                    let vv = match v.data {
                        ValueDataV::Yaml(y) => y,
                        ValueDataV::InlineYaml(y) => y,
                        _ => YamlV::Null,
                    };
                    sp_map_entries(cfg, sc, entries, i + 1, hash_insert_v(acc, kv, vv), single, mspan)
                },
            },
        }
    } else {
        Ok(ValueV { span: mspan, data: ValueDataV::Yaml(YamlV::Hash(acc)) })
    }
}

/// Finishes a map entry whose key was `inline` or a `for`: in a
/// single-entry map the value replaces the map (a plain value upgraded to
/// a splice); otherwise the value must be a map and its entries merge in.
pub open spec fn sp_entry_spliced(
    cfg: YamlV,
    sc: ScopesV,
    entries: Seq<MapEntryTemplate>,
    i: int,
    acc: Seq<(YamlV, YamlV)>,
    single: bool,
    mspan: SpanV,
    ev: ValueV,
) -> Result<ValueV, ErrV>
    decreases entries, entries.len() - i, 1int,
{
    if i < 0 || i >= entries.len() {
        Ok(ValueV { span: mspan, data: ValueDataV::Yaml(YamlV::Hash(acc)) })
    } else {
        match sp_expect_value(ev) {
            Err(e) => Err(e),
            Ok(ev) => if single {
                let data = match ev.data {
                    ValueDataV::Yaml(y) => ValueDataV::InlineYaml(y),
                    d => d,
                };
                Ok(ValueV { span: ev.span, data })
            } else {
                match ev.data {
                    ValueDataV::Yaml(YamlV::Hash(sub)) => sp_map_entries(
                        cfg,
                        sc,
                        entries,
                        i + 1,
                        hash_insert_all(acc, sub),
                        single,
                        mspan,
                    ),
                    ValueDataV::InlineYaml(YamlV::Hash(sub)) => sp_map_entries(
                        cfg,
                        sc,
                        entries,
                        i + 1,
                        hash_insert_all(acc, sub),
                        single,
                        mspan,
                    ),
                    ValueDataV::Yaml(YamlV::Array(_)) => Err(
                        err(ev.span, ErrorKindV::InlineListIntoMap),
                    ),
                    ValueDataV::InlineYaml(YamlV::Array(_)) => Err(
                        err(ev.span, ErrorKindV::InlineListIntoMap),
                    ),
                    ValueDataV::Yaml(_) => Err(err(ev.span, ErrorKindV::InlineValueIntoMap)),
                    ValueDataV::InlineYaml(_) => Err(
                        err(ev.span, ErrorKindV::InlineValueIntoMap),
                    ),
                    ValueDataV::Nothing => sp_map_entries(
                        cfg,
                        sc,
                        entries,
                        i + 1,
                        acc,
                        single,
                        mspan,
                    ),
                    _ => sp_map_entries(cfg, sc, entries, i + 1, acc, single, mspan),
                }
            },
        }
    }
}

/// Runs a `for` over its iterable: checks the binding count, then runs the
/// entry's value template once per iteration under the pushed frame.
pub open spec fn sp_run_for(
    cfg: YamlV,
    sc: ScopesV,
    body: NodeTemplate,
    fv: ForV,
    kspan: SpanV,
) -> Result<ValueV, ErrV>
    decreases body, 1int, 0int,
{
    match fv.iterable {
        YamlV::Array(items) => if fv.bindings.len() != 1 {
            Err(err(kspan, ErrorKindV::ForListBindings(fv.bindings.len() as int)))
        } else {
            match sp_for_items(
                cfg,
                sc,
                body,
                sp_for_frames(fv.bindings, fv.iterable),
                0,
                ForAccV::Nothing,
            ) {
                Err(e) => Err(e),
                Ok(acc) => Ok(ValueV { span: kspan, data: sp_for_result(acc) }),
            }
        },
        YamlV::Hash(es) => if fv.bindings.len() != 2 {
            Err(err(kspan, ErrorKindV::ForMapBindings(fv.bindings.len() as int)))
        } else {
            match sp_for_items(
                cfg,
                sc,
                body,
                sp_for_frames(fv.bindings, fv.iterable),
                0,
                ForAccV::Nothing,
            ) {
                Err(e) => Err(e),
                Ok(acc) => Ok(ValueV { span: kspan, data: sp_for_result(acc) }),
            }
        },
        _ => Err(err(kspan, ErrorKindV::TypeNotIterable(yamlv_type_name(fv.iterable)))),
    }
}

/// What a finished `for` contributes: nothing, a list, or a map.
pub open spec fn sp_for_result(acc: ForAccV) -> ValueDataV {
    match acc {
        ForAccV::Nothing => ValueDataV::Nothing,
        ForAccV::List(l) => ValueDataV::Yaml(YamlV::Array(l)),
        ForAccV::Mapping(m) => ValueDataV::Yaml(YamlV::Hash(m)),
    }
}

/// Folds one `for` item into the accumulator: lists concatenate, maps
/// merge, shapes may not mix, anything else is an error.
pub open spec fn sp_for_combine(acc: ForAccV, v: ValueV) -> Result<ForAccV, ErrV> {
    match v.data {
        ValueDataV::Yaml(y) => sp_for_combine_yaml(acc, y, v.span),
        ValueDataV::InlineYaml(y) => sp_for_combine_yaml(acc, y, v.span),
        ValueDataV::Nothing => Ok(acc),
        _ => Ok(acc),
    }
}

pub open spec fn sp_for_combine_yaml(acc: ForAccV, y: YamlV, span: SpanV) -> Result<ForAccV, ErrV> {
    match y {
        YamlV::Array(l) => match acc {
            ForAccV::Mapping(_) => Err(err(span, ErrorKindV::CombineListIntoMap)),
            ForAccV::Nothing => Ok(ForAccV::List(l)),
            ForAccV::List(prev) => Ok(ForAccV::List(prev + l)),
        },
        YamlV::Hash(h) => match acc {
            ForAccV::List(_) => Err(err(span, ErrorKindV::CombineMapIntoList)),
            ForAccV::Nothing => Ok(ForAccV::Mapping(hash_insert_all(Seq::empty(), h))),
            ForAccV::Mapping(prev) => Ok(ForAccV::Mapping(hash_insert_all(prev, h))),
        },
        _ => Err(err(span, ErrorKindV::ForItemNotContainer)),
    }
}

/// Folds one raw `for` item into the accumulator: first narrowed to a
/// plain value, then combined.
pub open spec fn sp_for_step(acc: ForAccV, v: ValueV) -> Result<ForAccV, ErrV> {
    match sp_expect_value(v) {
        Err(e) => Err(e),
        Ok(v) => sp_for_combine(acc, v),
    }
}

/// Runs the `for` body once per frame, folding the results.
pub open spec fn sp_for_items(
    cfg: YamlV,
    sc: ScopesV,
    body: NodeTemplate,
    frames: Seq<FrameV>,
    k: int,
    acc: ForAccV,
) -> Result<ForAccV, ErrV>
    decreases body, 0int, frames.len() - k,
{
    if k < 0 || k >= frames.len() {
        Ok(acc)
    } else {
        match sp_node(cfg, sc.push(frames[k]), body) {
            Err(e) => Err(e),
            Ok(v) => match sp_for_step(acc, v) {
                Err(e) => Err(e),
                Ok(acc2) => sp_for_items(cfg, sc, body, frames, k + 1, acc2),
            },
        }
    }
}

/// Evaluates a scalar: a single segment passes its result through; several
/// segments concatenate into one string.
pub open spec fn sp_scalar(cfg: YamlV, sc: ScopesV, st: ScalerTemplate) -> Result<ValueV, ErrV>
    decreases st, 0int, 0int,
{
    let span = span_v(st.src_loc);
    match sp_segments(cfg, sc, st.values@, 0, Seq::empty(), span) {
        Err(e) => Err(e),
        Ok(vals) => if vals.len() == 1 {
            let data = match vals[0] {
                ScalarValueV::Inline => ValueDataV::Inline,
                ScalarValueV::Drop => ValueDataV::Drop,
                ScalarValueV::Yaml(y) => ValueDataV::Yaml(y),
                ScalarValueV::For(fv) => ValueDataV::For(fv),
            };
            Ok(ValueV { span, data })
        } else {
            match sp_concat(vals, 0, Seq::empty(), span) {
                Err(e) => Err(e),
                Ok(s) => Ok(ValueV { span, data: ValueDataV::Yaml(YamlV::String(s)) }),
            }
        },
    }
}

/// Evaluates scalar segments from position `i`, extending `acc`.
pub open spec fn sp_segments(
    cfg: YamlV,
    sc: ScopesV,
    segs: Seq<ScalarTemplateValue>,
    i: int,
    acc: Seq<ScalarValueV>,
    span: SpanV,
) -> Result<Seq<ScalarValueV>, ErrV>
    decreases segs.len() - i,
{
    if i < 0 || i >= segs.len() {
        Ok(acc)
    } else {
        match sp_segment(cfg, sc, segs[i], span) {
            Err(e) => Err(e),
            Ok(v) => sp_segments(cfg, sc, segs, i + 1, acc.push(v), span),
        }
    }
}

/// Evaluates the documents of a file from position `i`: each document's
/// node contributes its value to `acc`, or nothing.
pub open spec fn sp_file(
    cfg: YamlV,
    sc: ScopesV,
    docs: Seq<DocumentTemplate>,
    i: int,
    acc: Seq<YamlV>,
) -> Result<Seq<YamlV>, ErrV>
    decreases docs.len() - i,
{
    if i < 0 || i >= docs.len() {
        Ok(acc)
    } else {
        match sp_node(cfg, sc, docs[i].node) {
            Err(e) => Err(e),
            Ok(v) => match sp_expect_value(v) {
                Err(e) => Err(e),
                Ok(v) => match v.data {
                    ValueDataV::Yaml(y) => sp_file(cfg, sc, docs, i + 1, acc.push(y)),
                    ValueDataV::InlineYaml(y) => sp_file(cfg, sc, docs, i + 1, acc.push(y)),
                    _ => sp_file(cfg, sc, docs, i + 1, acc),
                },
            },
        }
    }
}

} // verus!
