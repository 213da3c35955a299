//! Laws of the engine, stated and proved over the evaluation functions:
//! identity on expression-free templates, order preservation of map
//! insertion, scope shadowing, single-entry collapse, and idempotence of
//! equality.

use vstd::prelude::*;
use crate::ast::{
    DocumentTemplate, Expr, ExprOpBinary, MapEntryTemplate, NodeTemplate, ScalarTemplateValue,
};
use crate::errors::{SpanV, span_v};
use crate::semantics::{
    ExprValueV, FrameV, ScopesV, ValueDataV, ValueV, sp_concat, sp_entry_plain,
    sp_entry_spliced, sp_expect_value, sp_expr, sp_lookup_frame,
    sp_lookup_scopes, sp_map_entries, sp_node, sp_segments, sp_seq_items, sp_file,
};
use crate::yaml::{YamlV, hash_insert_v};

verus! {

broadcast use vstd::seq::group_seq_axioms;

/// The keys of a hash model, in order.
pub open spec fn keys_of(es: Seq<(YamlV, YamlV)>) -> Seq<YamlV> {
    Seq::new(es.len(), |i: int| es[i].0)
}

/// Order preservation of insertion, fresh key: inserting a key that is not
/// present appends it, leaving every existing entry in place.
pub proof fn lemma_insert_fresh_key_appends(es: Seq<(YamlV, YamlV)>, k: YamlV, v: YamlV)
    requires
        forall|i: int| 0 <= i < es.len() ==> (#[trigger] es[i]).0 != k,
    ensures
        hash_insert_v(es, k, v) == es.push((k, v)),
        keys_of(hash_insert_v(es, k, v)) == keys_of(es).push(k),
    decreases es,
{
    if es.len() == 0 {
        assert(hash_insert_v(es, k, v) =~= es.push((k, v)));
    } else {
        assert(es[0].0 != k);
        lemma_insert_fresh_key_appends(es.drop_first(), k, v);
        assert(seq![es[0]] + es.drop_first().push((k, v)) =~= es.push((k, v)));
    }
    assert(keys_of(hash_insert_v(es, k, v)) =~= keys_of(es).push(k));
}

/// Order preservation of insertion, existing key: inserting a key that is
/// already present changes no key's position.
pub proof fn lemma_insert_existing_key_keeps_order(es: Seq<(YamlV, YamlV)>, k: YamlV, v: YamlV)
    requires
        exists|i: int| 0 <= i < es.len() && (#[trigger] es[i]).0 == k,
    ensures
        keys_of(hash_insert_v(es, k, v)) == keys_of(es),
    decreases es,
{
    assert(es.len() > 0) by {
        let i = choose|i: int| 0 <= i < es.len() && (#[trigger] es[i]).0 == k;
    }
    if es[0].0 == k {
        assert(keys_of(seq![(k, v)] + es.drop_first()) =~= keys_of(es));
    } else {
        let i = choose|i: int| 0 <= i < es.len() && (#[trigger] es[i]).0 == k;
        assert(es.drop_first()[i - 1].0 == k);
        lemma_insert_existing_key_keeps_order(es.drop_first(), k, v);
        let ins = hash_insert_v(es.drop_first(), k, v);
        assert(keys_of(ins).len() == keys_of(es.drop_first()).len());
        assert forall|j: int| 0 <= j < es.len() implies keys_of(seq![es[0]] + ins)[j] == keys_of(
            es,
        )[j] by {
            if j > 0 {
                assert(keys_of(ins)[j - 1] == keys_of(es.drop_first())[j - 1]);
            }
        }
        assert(keys_of(seq![es[0]] + ins) =~= keys_of(es));
    }
}

/// Order preservation for a whole map: when the inserted keys are
/// pairwise distinct and none is already present, the fold of insertions
/// appends every entry in its input order, after the existing entries.
/// This is the map a template builds, and the map the emitter receives.
pub proof fn lemma_insert_all_order(acc: Seq<(YamlV, YamlV)>, sub: Seq<(YamlV, YamlV)>)
    requires
        forall|i: int, j: int|
            0 <= i < j < sub.len() ==> (#[trigger] sub[i]).0 != (#[trigger] sub[j]).0,
        forall|i: int, j: int|
            0 <= i < acc.len() && 0 <= j < sub.len() ==> (#[trigger] acc[i]).0 != (
            #[trigger] sub[j]).0,
    ensures
        crate::semantics::hash_insert_all(acc, sub) == acc + sub,
    decreases sub,
{
    if sub.len() == 0 {
        assert(acc + sub =~= acc);
    } else {
        lemma_insert_fresh_key_appends(acc, sub[0].0, sub[0].1);
        lemma_insert_all_order(acc.push(sub[0]), sub.drop_first());
        assert(hash_insert_v(acc, sub[0].0, sub[0].1) == acc.push((sub[0].0, sub[0].1)));
        assert(acc.push((sub[0].0, sub[0].1)) =~= acc.push(sub[0]));
        assert(acc.push(sub[0]) + sub.drop_first() =~= acc + sub);
    }
}

/// Scope shadowing: a binding in the pushed frame wins over any outer
/// binding of the same name.
pub proof fn lemma_scope_shadowing(sc: ScopesV, frame: FrameV, name: Seq<char>, v: YamlV)
    requires
        sp_lookup_frame(frame, name) == Some(v),
    ensures
        sp_lookup_scopes(sc.push(frame), name) == Some(v),
{
    assert(sc.push(frame).last() == frame);
}

/// Scope hygiene: a name the pushed frame does not bind resolves exactly
/// as it did without that frame; when the frame is popped again the stack
/// is as before, so nothing a `for` introduced remains visible.
pub proof fn lemma_scope_fallthrough(sc: ScopesV, frame: FrameV, name: Seq<char>)
    requires
        sp_lookup_frame(frame, name) is None,
    ensures
        sp_lookup_scopes(sc.push(frame), name) == sp_lookup_scopes(sc, name),
{
    assert(sc.push(frame).last() == frame);
    assert(sc.push(frame).drop_last() =~= sc);
}

/// Equality idempotence: comparing any successfully evaluated expression
/// with itself yields true.
pub proof fn lemma_eq_idempotent(cfg: YamlV, sc: ScopesV, x: Expr, span: SpanV)
    requires
        sp_expr(cfg, sc, x, span) is Ok,
    ensures
        sp_expr(
            cfg,
            sc,
            Expr::Eq(ExprOpBinary { left: Box::new(x), right: Box::new(x) }),
            span,
        ) == Ok::<ExprValueV, crate::errors::ErrV>(ExprValueV::Yaml(YamlV::Boolean(true))),
{
}

/// Single-entry collapse, `drop`: a map whose only entry's key evaluates
/// to the drop directive evaluates to nothing.
pub proof fn lemma_single_entry_drop(
    cfg: YamlV,
    sc: ScopesV,
    entries: Seq<MapEntryTemplate>,
    mspan: SpanV,
    kv: ValueV,
)
    requires
        entries.len() == 1,
        sp_node(cfg, sc, entries[0].key) == Ok::<ValueV, crate::errors::ErrV>(kv),
        kv.data is Drop,
    ensures
        sp_map_entries(cfg, sc, entries, 0, Seq::empty(), true, mspan) == Ok::<
            ValueV,
            crate::errors::ErrV,
        >(ValueV { span: kv.span, data: ValueDataV::Nothing }),
{
}

/// Single-entry collapse, `inline`: a map whose only entry's key evaluates
/// to the inline directive evaluates to its value, a plain value upgraded
/// to a splice for the parent.
pub proof fn lemma_single_entry_inline(
    cfg: YamlV,
    sc: ScopesV,
    entries: Seq<MapEntryTemplate>,
    mspan: SpanV,
    kv: ValueV,
    ev: ValueV,
)
    requires
        entries.len() == 1,
        sp_node(cfg, sc, entries[0].key) == Ok::<ValueV, crate::errors::ErrV>(kv),
        kv.data is Inline,
        sp_node(cfg, sc, entries[0].value) == Ok::<ValueV, crate::errors::ErrV>(ev),
        sp_expect_value(ev) is Ok,
    ensures
        sp_map_entries(cfg, sc, entries, 0, Seq::empty(), true, mspan) == Ok::<
            ValueV,
            crate::errors::ErrV,
        >(
            ValueV {
                span: ev.span,
                data: match ev.data {
                    ValueDataV::Yaml(y) => ValueDataV::InlineYaml(y),
                    d => d,
                },
            },
        ),
{
    assert(sp_map_entries(cfg, sc, entries, 0, Seq::empty(), true, mspan) == sp_entry_spliced(
        cfg,
        sc,
        entries,
        0,
        Seq::empty(),
        true,
        mspan,
        ev,
    ));
}

/// Whether a template node holds no `${{ ... }}` expression anywhere.
pub open spec fn expr_free(n: NodeTemplate) -> bool
    decreases n, 0int,
{
    match n {
        NodeTemplate::Sequence(st) => forall|i: int|
            0 <= i < st.values@.len() ==> expr_free(#[trigger] st.values@[i]),
        NodeTemplate::Mapping(mt) => forall|i: int|
            0 <= i < mt.entries@.len() ==> expr_free((#[trigger] mt.entries@[i]).key) && expr_free(
                mt.entries@[i].value,
            ),
        NodeTemplate::Scaler(st) => forall|i: int|
            0 <= i < st.values@.len() ==> (#[trigger] st.values@[i]) is String,
    }
}

/// The literal reading of an expression-free node: scalars are their text,
/// sequences their items, maps their entries with repeated keys taking the
/// last value in the first position.
pub open spec fn literal_image(n: NodeTemplate) -> YamlV
    decreases n, 1int, 0int,
{
    match n {
        NodeTemplate::Sequence(st) => YamlV::Array(literal_items(st.values@)),
        NodeTemplate::Mapping(mt) => YamlV::Hash(literal_entries(mt.entries@, 0, Seq::empty())),
        NodeTemplate::Scaler(st) => YamlV::String(literal_text(st.values@, 0)),
    }
}

/// The literal readings of a sequence's items.
pub open spec fn literal_items(s: Seq<NodeTemplate>) -> Seq<YamlV>
    decreases s, 0int, 0int,
{
    if s.len() == 0 {
        Seq::empty()
    } else {
        literal_items(s.drop_last()).push(literal_image(s.last()))
    }
}

pub proof fn lemma_literal_items_len(s: Seq<NodeTemplate>)
    ensures
        literal_items(s).len() == s.len(),
    decreases s,
{
    if s.len() > 0 {
        lemma_literal_items_len(s.drop_last());
    }
}

pub proof fn lemma_literal_items_index(s: Seq<NodeTemplate>, i: int)
    requires
        0 <= i < s.len(),
    ensures
        literal_items(s)[i] == literal_image(s[i]),
    decreases s,
{
    lemma_literal_items_len(s);
    if i < s.len() - 1 {
        lemma_literal_items_index(s.drop_last(), i);
    }
}

pub open spec fn literal_entries(
    es: Seq<MapEntryTemplate>,
    i: int,
    acc: Seq<(YamlV, YamlV)>,
) -> Seq<(YamlV, YamlV)>
    decreases es, es.len() - i, 1int,
{
    if i < 0 || i >= es.len() {
        acc
    } else {
        literal_entries(
            es,
            i + 1,
            hash_insert_v(acc, literal_image(es[i].key), literal_image(es[i].value)),
        )
    }
}

/// The concatenated text of a scalar's literal segments.
pub open spec fn literal_text(segs: Seq<ScalarTemplateValue>, i: int) -> Seq<char>
    decreases segs.len() - i,
{
    if i < 0 || i >= segs.len() {
        Seq::empty()
    } else {
        match segs[i] {
            ScalarTemplateValue::String(s) => s@ + literal_text(segs, i + 1),
            ScalarTemplateValue::Expr(_) => literal_text(segs, i + 1),
        }
    }
}

/// Identity: an expression-free template node passes through evaluation
/// unchanged, whatever the configuration and scopes; its value is its
/// literal reading.
pub proof fn lemma_identity(cfg: YamlV, sc: ScopesV, n: NodeTemplate)
    requires
        expr_free(n),
    ensures
        sp_node(cfg, sc, n) == Ok::<ValueV, crate::errors::ErrV>(
            ValueV {
                span: span_v(crate::ast::spec_node_src_loc(n)),
                data: ValueDataV::Yaml(literal_image(n)),
            },
        ),
    decreases n, 2int, 0int,
{
    match n {
        NodeTemplate::Sequence(st) => {
            lemma_identity_seq(cfg, sc, st.values@, 0, Seq::empty(), n);
            lemma_literal_items_len(st.values@);
            assert(Seq::empty().add(literal_items(st.values@).skip(0)) =~= literal_items(
                st.values@,
            ));
        },
        NodeTemplate::Mapping(mt) => {
            lemma_identity_map(cfg, sc, mt.entries@, 0, Seq::empty(), n, span_v(mt.src_loc));
        },
        NodeTemplate::Scaler(st) => {
            lemma_identity_scalar(cfg, sc, st.values@, span_v(st.src_loc));
            if st.values@.len() == 1 {
                match st.values@[0] {
                    ScalarTemplateValue::String(s) => {
                        assert(literal_text(st.values@, 1) =~= Seq::<char>::empty());
                        assert(literal_text(st.values@, 0) =~= s@);
                    },
                    _ => {},
                }
            }
        },
    }
}

/// Identity over a sequence's items.
pub proof fn lemma_identity_seq(
    cfg: YamlV,
    sc: ScopesV,
    items: Seq<NodeTemplate>,
    i: int,
    acc: Seq<YamlV>,
    parent: NodeTemplate,
)
    requires
        0 <= i <= items.len(),
        parent matches NodeTemplate::Sequence(st) && st.values@ == items,
        forall|j: int| 0 <= j < items.len() ==> expr_free(#[trigger] items[j]),
    ensures
        sp_seq_items(cfg, sc, items, i, acc) == Ok::<Seq<YamlV>, crate::errors::ErrV>(
            acc + literal_items(items).skip(i),
        ),
    decreases parent, 1int, items.len() - i,
{
    lemma_literal_items_len(items);
    let imgs = literal_items(items);
    if i == items.len() {
        assert(acc + imgs.skip(i) =~= acc);
    } else {
        lemma_literal_items_index(items, i);
        lemma_identity(cfg, sc, items[i]);
        lemma_identity_seq(cfg, sc, items, i + 1, acc.push(literal_image(items[i])), parent);
        assert(acc.push(literal_image(items[i])) + imgs.skip(i + 1) =~= acc + imgs.skip(i));
    }
}

/// Identity over a map's entries.
pub proof fn lemma_identity_map(
    cfg: YamlV,
    sc: ScopesV,
    entries: Seq<MapEntryTemplate>,
    i: int,
    acc: Seq<(YamlV, YamlV)>,
    parent: NodeTemplate,
    mspan: SpanV,
)
    requires
        0 <= i <= entries.len(),
        parent matches NodeTemplate::Mapping(mt) && mt.entries@ == entries,
        forall|j: int|
            0 <= j < entries.len() ==> expr_free((#[trigger] entries[j]).key) && expr_free(
                entries[j].value,
            ),
    ensures
        sp_map_entries(cfg, sc, entries, i, acc, entries.len() == 1, mspan) == Ok::<
            ValueV,
            crate::errors::ErrV,
        >(
            ValueV {
                span: mspan,
                data: ValueDataV::Yaml(YamlV::Hash(literal_entries(entries, i, acc))),
            },
        ),
    decreases parent, 1int, entries.len() - i,
{
    if i < entries.len() {
        lemma_identity(cfg, sc, entries[i].key);
        lemma_identity(cfg, sc, entries[i].value);
        let acc2 = hash_insert_v(acc, literal_image(entries[i].key), literal_image(
            entries[i].value,
        ));
        lemma_identity_map(cfg, sc, entries, i + 1, acc2, parent, mspan);
        assert(sp_map_entries(cfg, sc, entries, i, acc, entries.len() == 1, mspan)
            == sp_entry_plain(
            cfg,
            sc,
            entries,
            i,
            acc,
            entries.len() == 1,
            mspan,
            literal_image(entries[i].key),
        ));
    }
}

/// Identity over a scalar's literal segments: the segments evaluate to
/// their texts, and their concatenation is the scalar's text.
pub proof fn lemma_identity_scalar(
    cfg: YamlV,
    sc: ScopesV,
    segs: Seq<ScalarTemplateValue>,
    span: SpanV,
)
    requires
        forall|j: int| 0 <= j < segs.len() ==> (#[trigger] segs[j]) is String,
    ensures
        segs.len() == 1 ==> sp_segments(cfg, sc, segs, 0, Seq::empty(), span) == Ok::<
            Seq<crate::semantics::ScalarValueV>,
            crate::errors::ErrV,
        >(seq![crate::semantics::ScalarValueV::Yaml(YamlV::String(literal_text(segs, 0)))]),
        sp_scalar_result(cfg, sc, segs, span) == Ok::<ValueV, crate::errors::ErrV>(
            ValueV {
                span,
                data: ValueDataV::Yaml(YamlV::String(literal_text(segs, 0))),
            },
        ),
{
    lemma_identity_segments(cfg, sc, segs, 0, Seq::empty(), span);
    let vals = seg_values(segs);
    assert(Seq::empty() + vals.skip(0) =~= vals);
    if segs.len() == 1 {
        match segs[0] {
            ScalarTemplateValue::String(s) => {
                assert(vals =~= seq![
                    crate::semantics::ScalarValueV::Yaml(YamlV::String(s@)),
                ]);
                assert(literal_text(segs, 1) =~= Seq::<char>::empty());
                assert(literal_text(segs, 0) =~= s@);
            },
            _ => {},
        }
    } else {
        lemma_identity_concat(segs, 0, Seq::empty(), span);
        assert(Seq::empty() + literal_text(segs, 0) =~= literal_text(segs, 0));
    }
}

/// The result of evaluating a scalar with the given segments, as
/// `sp_scalar` computes it from the segment results.
pub open spec fn sp_scalar_result(
    cfg: YamlV,
    sc: ScopesV,
    segs: Seq<ScalarTemplateValue>,
    span: SpanV,
) -> Result<ValueV, crate::errors::ErrV> {
    match sp_segments(cfg, sc, segs, 0, Seq::empty(), span) {
        Err(e) => Err(e),
        Ok(vals) => if vals.len() == 1 {
            let data = match vals[0] {
                crate::semantics::ScalarValueV::Inline => ValueDataV::Inline,
                crate::semantics::ScalarValueV::Drop => ValueDataV::Drop,
                crate::semantics::ScalarValueV::Yaml(y) => ValueDataV::Yaml(y),
                crate::semantics::ScalarValueV::For(fv) => ValueDataV::For(fv),
            };
            Ok(ValueV { span, data })
        } else {
            match sp_concat(vals, 0, Seq::empty(), span) {
                Err(e) => Err(e),
                Ok(s) => Ok(ValueV { span, data: ValueDataV::Yaml(YamlV::String(s)) }),
            }
        },
    }
}

/// The segment results of literal segments: each is its text as a string.
pub open spec fn seg_values(segs: Seq<ScalarTemplateValue>) -> Seq<
    crate::semantics::ScalarValueV,
> {
    Seq::new(
        segs.len(),
        |j: int|
            match segs[j] {
                ScalarTemplateValue::String(s) => crate::semantics::ScalarValueV::Yaml(
                    YamlV::String(s@),
                ),
                ScalarTemplateValue::Expr(_) => crate::semantics::ScalarValueV::Inline,
            },
    )
}

pub proof fn lemma_identity_segments(
    cfg: YamlV,
    sc: ScopesV,
    segs: Seq<ScalarTemplateValue>,
    i: int,
    acc: Seq<crate::semantics::ScalarValueV>,
    span: SpanV,
)
    requires
        0 <= i <= segs.len(),
        forall|j: int| 0 <= j < segs.len() ==> (#[trigger] segs[j]) is String,
    ensures
        sp_segments(cfg, sc, segs, i, acc, span) == Ok::<
            Seq<crate::semantics::ScalarValueV>,
            crate::errors::ErrV,
        >(acc + seg_values(segs).skip(i)),
    decreases segs.len() - i,
{
    if i == segs.len() {
        assert(acc + seg_values(segs).skip(i) =~= acc);
    } else {
        match segs[i] {
            ScalarTemplateValue::String(s) => {
                lemma_identity_segments(
                    cfg,
                    sc,
                    segs,
                    i + 1,
                    acc.push(crate::semantics::ScalarValueV::Yaml(YamlV::String(s@))),
                    span,
                );
                assert(acc.push(crate::semantics::ScalarValueV::Yaml(YamlV::String(s@)))
                    + seg_values(segs).skip(i + 1) =~= acc + seg_values(segs).skip(i));
            },
            _ => {},
        }
    }
}

pub proof fn lemma_identity_concat(
    segs: Seq<ScalarTemplateValue>,
    i: int,
    acc: Seq<char>,
    span: SpanV,
)
    requires
        0 <= i <= segs.len(),
        forall|j: int| 0 <= j < segs.len() ==> (#[trigger] segs[j]) is String,
    ensures
        sp_concat(seg_values(segs), i, acc, span) == Ok::<Seq<char>, crate::errors::ErrV>(
            acc + literal_text(segs, i),
        ),
    decreases segs.len() - i,
{
    if i == segs.len() {
        assert(acc + literal_text(segs, i) =~= acc);
    } else {
        match segs[i] {
            ScalarTemplateValue::String(s) => {
                lemma_identity_concat(segs, i + 1, acc + s@, span);
                assert((acc + s@) + literal_text(segs, i + 1) =~= acc + literal_text(segs, i));
            },
            _ => {},
        }
    }
}

/// Identity at the file level: when every document of a template is
/// expression-free, interpretation yields exactly the documents' literal
/// readings, in order.
pub proof fn lemma_identity_file(
    cfg: YamlV,
    sc: ScopesV,
    docs: Seq<DocumentTemplate>,
    i: int,
    acc: Seq<YamlV>,
)
    requires
        0 <= i <= docs.len(),
        forall|j: int| 0 <= j < docs.len() ==> expr_free((#[trigger] docs[j]).node),
    ensures
        sp_file(cfg, sc, docs, i, acc) == Ok::<Seq<YamlV>, crate::errors::ErrV>(
            acc + Seq::new(docs.len(), |j: int| literal_image(docs[j].node)).skip(i),
        ),
    decreases docs.len() - i,
{
    let imgs = Seq::new(docs.len(), |j: int| literal_image(docs[j].node));
    if i == docs.len() {
        assert(acc + imgs.skip(i) =~= acc);
    } else {
        lemma_identity(cfg, sc, docs[i].node);
        lemma_identity_file(cfg, sc, docs, i + 1, acc.push(literal_image(docs[i].node)));
        assert(acc.push(literal_image(docs[i].node)) + imgs.skip(i + 1) =~= acc + imgs.skip(i));
    }
}

} // verus!
