//! The interpreter: walks a template tree and produces the output YAML
//! documents. Every function returns exactly what the evaluation functions
//! of `semantics` say, and leaves the configuration and the scope stack as
//! it found them.

use vstd::prelude::*;
use crate::ast::{
    ExprBinding, Expr, ExprQuery, FileTemplate, NodeTemplate, ScalarTemplateValue, ScalerTemplate,
    SourceLocationSpan, Statement, StatementFor, StatementIf,
};
use crate::errors::{DirectiveName, ErrorKind, TemplError, span_v};
use crate::ast::{binding_name, binding_names};
use crate::semantics::{
    ExprValueV, ForV, FrameV, ScalarValueV, ScopesV, ValueDataV, ValueV,
    sp_expr, sp_implicit_bool, sp_index, sp_iterable, sp_lookup_frame,
    sp_lookup_scopes, sp_query, sp_stmt,
};
use crate::yaml::{Yaml, yaml_view, yaml_type_name};
use crate::errors::yaml_debug_string;

verus! {

broadcast use vstd::seq::group_seq_axioms, vstd::std_specs::vec::group_vec_axioms, crate::yaml::group_yaml_view_lemmas;

/// A node result with the span it came from.
pub struct Value {
    pub src_loc: SourceLocationSpan,
    pub data: ValueData,
}

/// What a node hands its parent.
pub enum ValueData {
    Yaml(Yaml),
    InlineYaml(Yaml),
    Inline,
    Drop,
    Nothing,
    For(ValueFor),
}

/// A `for` directive waiting for its body.
pub struct ValueFor {
    pub bindings: Vec<ExprBinding>,
    pub iterable: Yaml,
}

/// The result of one scalar segment.
pub enum ScalarValue {
    Inline,
    Drop,
    Yaml(Yaml),
    For(ValueFor),
}

/// The result of an expression.
pub enum ExprValue {
    Inline,
    Drop,
    Yaml(Yaml),
}

pub open spec fn for_view(f: ValueFor) -> ForV {
    ForV { bindings: binding_names(f.bindings@), iterable: yaml_view(f.iterable) }
}

pub open spec fn value_data_view(d: ValueData) -> ValueDataV {
    match d {
        ValueData::Yaml(y) => ValueDataV::Yaml(yaml_view(y)),
        ValueData::InlineYaml(y) => ValueDataV::InlineYaml(yaml_view(y)),
        ValueData::Inline => ValueDataV::Inline,
        ValueData::Drop => ValueDataV::Drop,
        ValueData::Nothing => ValueDataV::Nothing,
        ValueData::For(f) => ValueDataV::For(for_view(f)),
    }
}

pub open spec fn value_view(v: Value) -> ValueV {
    ValueV { span: span_v(v.src_loc), data: value_data_view(v.data) }
}

pub open spec fn scalar_value_view(v: ScalarValue) -> ScalarValueV {
    match v {
        ScalarValue::Inline => ScalarValueV::Inline,
        ScalarValue::Drop => ScalarValueV::Drop,
        ScalarValue::Yaml(y) => ScalarValueV::Yaml(yaml_view(y)),
        ScalarValue::For(f) => ScalarValueV::For(for_view(f)),
    }
}

pub open spec fn expr_value_view(v: ExprValue) -> ExprValueV {
    match v {
        ExprValue::Inline => ExprValueV::Inline,
        ExprValue::Drop => ExprValueV::Drop,
        ExprValue::Yaml(y) => ExprValueV::Yaml(yaml_view(y)),
    }
}

/// One runtime scope frame.
pub open spec fn frame_view(f: Seq<(String, Yaml)>) -> FrameV {
    Seq::new(f.len(), |i: int| (f[i].0@, yaml_view(f[i].1)))
}

/// The runtime scope stack.
pub open spec fn scopes_view(sc: Seq<Vec<(String, Yaml)>>) -> ScopesV {
    Seq::new(sc.len(), |i: int| frame_view(sc[i]@))
}

/// One evaluation run: the configuration document and the variable scope
/// stack, whose bottom frame holds the caller-provided variables.
pub struct InterpreterRun {
    pub config: Yaml,
    pub scopes: Vec<Vec<(String, Yaml)>>,
}

impl InterpreterRun {
    /// The model of the configuration.
    pub open spec fn cfg(&self) -> crate::yaml::YamlV {
        yaml_view(self.config)
    }

    /// The model of the scope stack.
    pub open spec fn sc(&self) -> ScopesV {
        scopes_view(self.scopes@)
    }

    pub fn new(config: Yaml, variables: Vec<(String, Yaml)>) -> (r: InterpreterRun)
        ensures
            r.cfg() == yaml_view(config),
            r.sc() == seq![frame_view(variables@)],
    {
        let mut scopes: Vec<Vec<(String, Yaml)>> = Vec::new();
        scopes.push(variables);
        let r = InterpreterRun { config, scopes };
        proof {
            assert(r.sc() =~= seq![frame_view(r.scopes@[0]@)]);
        }
        r
    }

    /// Looks a variable up, innermost frame first; within a frame the
    /// binding added last wins.
    #[verifier::loop_isolation(false)]
    fn lookup_var(&self, name: &String) -> (r: Option<&Yaml>)
        ensures
            match r {
                Some(v) => sp_lookup_scopes(self.sc(), name@) == Some(yaml_view(*v)),
                None => sp_lookup_scopes(self.sc(), name@) is None,
            },
    {
        let mut j: usize = self.scopes.len();
        proof {
            assert(self.sc().take(j as int) =~= self.sc());
        }
        while j > 0
            invariant
                0 <= j <= self.scopes@.len(),
                sp_lookup_scopes(self.sc(), name@) == sp_lookup_scopes(
                    self.sc().take(j as int),
                    name@,
                ),
            decreases j,
        {
            j -= 1;
            let frame = &self.scopes[j];
            proof {
                assert(self.sc().take(j + 1).last() == frame_view(frame@));
                assert(self.sc().take(j + 1).drop_last() =~= self.sc().take(j as int));
            }
            let mut k: usize = frame.len();
            proof {
                assert(frame_view(frame@).take(k as int) =~= frame_view(frame@));
            }
            while k > 0
                invariant
                    0 <= k <= frame@.len(),
                    sp_lookup_frame(frame_view(frame@), name@) == sp_lookup_frame(
                        frame_view(frame@).take(k as int),
                        name@,
                    ),
                decreases k,
            {
                k -= 1;
                proof {
                    assert(frame_view(frame@).take(k + 1).last() == (
                        frame@[k as int].0@,
                        yaml_view(frame@[k as int].1),
                    ));
                    assert(frame_view(frame@).take(k + 1).drop_last() =~= frame_view(
                        frame@,
                    ).take(k as int));
                }
                if frame[k].0 == *name {
                    return Some(&frame[k].1);
                }
            }
            proof {
                assert(frame_view(frame@).take(0) =~= Seq::empty());
            }
        }
        proof {
            assert(self.sc().take(0) =~= Seq::empty());
        }
        None
    }

    /// Evaluates a query.
    pub fn query(&self, q: &ExprQuery, src_loc: &SourceLocationSpan) -> (r: Result<Yaml, TemplError>)
        ensures
            res_yaml_view(r) == sp_query(self.cfg(), self.sc(), *q, span_v(*src_loc)),
        decreases q, 0int,
    {
        match q {
            ExprQuery::Root => Ok(self.config.duplicate()),
            ExprQuery::Var(name) => match self.lookup_var(name) {
                Some(v) => Ok(v.duplicate()),
                None => Err(
                    TemplError::new(src_loc, ErrorKind::VarNotFound(name.clone())),
                ),
            },
            ExprQuery::Index(ix) => {
                let idx = self.interpret_expr(&ix.index, src_loc)?;
                let obj = self.query(&ix.object, src_loc)?;
                self.query_index(obj, idx, src_loc)
            },
        }
    }

    /// Indexes an evaluated object with an evaluated index.
    #[verifier::loop_isolation(false)]
    pub fn query_index(&self, obj: Yaml, idx: ExprValue, src_loc: &SourceLocationSpan) -> (r: Result<
        Yaml,
        TemplError,
    >)
        ensures
            res_yaml_view(r) == sp_index(yaml_view(obj), expr_value_view(idx), span_v(*src_loc)),
    {
        match obj {
            Yaml::Hash(es) => {
                let key = match idx {
                    ExprValue::Yaml(k) => match k {
                        Yaml::String(_) => k,
                        _ => {
                            let t = yaml_type_name(&k);
                            return Err(
                                TemplError::new(src_loc, ErrorKind::MapIndexType(str_owned(t))),
                            );
                        },
                    },
                    _ => {
                        let t = expr_value_type_name(&idx);
                        return Err(
                            TemplError::new(src_loc, ErrorKind::MapIndexType(str_owned(t))),
                        );
                    },
                };
                let mut i: usize = 0;
                proof {
                    assert(crate::yaml::yaml_pairs_view(es@).skip(0) =~= crate::yaml::yaml_pairs_view(es@));
                }
                while i < es.len()
                    invariant
                        0 <= i <= es@.len(),
                        crate::yaml::hash_lookup_v(
                            crate::yaml::yaml_pairs_view(es@),
                            yaml_view(key),
                        ) == crate::yaml::hash_lookup_v(
                            crate::yaml::yaml_pairs_view(es@).skip(i as int),
                            yaml_view(key),
                        ),
                    decreases es@.len() - i,
                {
                    proof {
                        assert(crate::yaml::yaml_pairs_view(es@).skip(i as int)[0]
                            == (yaml_view(es@[i as int].0), yaml_view(es@[i as int].1)));
                        assert(crate::yaml::yaml_pairs_view(es@).skip(i as int).drop_first()
                            =~= crate::yaml::yaml_pairs_view(es@).skip(i + 1));
                    }
                    if es[i].0.structural_eq(&key) {
                        return Ok(es[i].1.duplicate());
                    }
                    i += 1;
                }
                proof {
                    assert(crate::yaml::yaml_pairs_view(es@).skip(i as int) =~= Seq::empty());
                }
                let dbg = yaml_debug_string(&key);
                Err(TemplError::new(src_loc, ErrorKind::IndexNotFound(dbg)))
            },
            Yaml::Array(items) => {
                let i = match idx {
                    ExprValue::Yaml(Yaml::Integer(i)) => i,
                    _ => {
                        let t = expr_value_type_name(&idx);
                        return Err(
                            TemplError::new(src_loc, ErrorKind::ListIndexType(str_owned(t))),
                        );
                    },
                };
                if i < 0 {
                    return Err(TemplError::new(src_loc, ErrorKind::IndexNegative(i)));
                }
                proof {
                    assert(crate::yaml::yaml_seq_view(items@).len() == items@.len());
                }
                if i as u64 >= items.len() as u64 {
                    return Err(TemplError::new(src_loc, ErrorKind::IndexOutOfBounds(i as u64)));
                }
                let ui = i as usize;
                proof {
                    assert(crate::yaml::yaml_seq_view(items@)[i as int] == yaml_view(
                        items@[i as int],
                    ));
                }
                Ok(items[ui].duplicate())
            },
            _ => {
                let dbg = expr_value_debug_string(&idx);
                let t = yaml_type_name(&obj);
                Err(TemplError::new(src_loc, ErrorKind::NotIndexable(dbg, str_owned(t))))
            },
        }
    }

    /// Evaluates an expression.
    pub fn interpret_expr(&self, expr: &Expr, src_loc: &SourceLocationSpan) -> (r: Result<
        ExprValue,
        TemplError,
    >)
        ensures
            res_ev_view(r) == sp_expr(self.cfg(), self.sc(), *expr, span_v(*src_loc)),
        decreases expr, 1int,
    {
        match expr {
            Expr::String(s) => Ok(ExprValue::Yaml(Yaml::String(s.value.clone()))),
            Expr::Inline => Ok(ExprValue::Inline),
            Expr::Drop => Ok(ExprValue::Drop),
            Expr::True => Ok(ExprValue::Yaml(Yaml::Boolean(true))),
            Expr::False => Ok(ExprValue::Yaml(Yaml::Boolean(false))),
            Expr::Integer(i) => Ok(ExprValue::Yaml(Yaml::Integer(i.value))),
            Expr::Real(rl) => Ok(ExprValue::Yaml(Yaml::Real(rl.value.clone()))),
            Expr::Query(q) => {
                let v = self.query(q, src_loc)?;
                Ok(ExprValue::Yaml(v))
            },
            Expr::Eq(op) => {
                let l = self.interpret_expr(&op.left, src_loc)?;
                let rr = self.interpret_expr(&op.right, src_loc)?;
                let eq = expr_value_eq(&l, &rr);
                Ok(ExprValue::Yaml(Yaml::Boolean(eq)))
            },
            Expr::Ne(op) => {
                let l = self.interpret_expr(&op.left, src_loc)?;
                let rr = self.interpret_expr(&op.right, src_loc)?;
                let eq = expr_value_eq(&l, &rr);
                Ok(ExprValue::Yaml(Yaml::Boolean(!eq)))
            },
        }
    }
}

impl InterpreterRun {
    /// Evaluates one `${{ ... }}` statement.
    pub fn interpret_statement(&self, stmt: &Statement, src_loc: &SourceLocationSpan) -> (r: Result<
        ScalarValue,
        TemplError,
    >)
        ensures
            res_sv_view(r) == sp_stmt(self.cfg(), self.sc(), *stmt, span_v(*src_loc)),
    {
        match stmt {
            Statement::Expr(expr) => {
                let v = self.interpret_expr(expr, src_loc)?;
                match v {
                    ExprValue::Inline => Ok(ScalarValue::Inline),
                    ExprValue::Drop => Ok(ScalarValue::Drop),
                    ExprValue::Yaml(y) => Ok(ScalarValue::Yaml(y)),
                }
            },
            Statement::If(if_stmt) => self.interpret_if(if_stmt, src_loc),
            Statement::For(for_stmt) => self.interpret_for(for_stmt, src_loc),
        }
    }

    /// Evaluates an `if`: the condition coerces to a bool; true means
    /// `inline`, false means `drop`.
    pub fn interpret_if(&self, if_stmt: &StatementIf, src_loc: &SourceLocationSpan) -> (r: Result<
        ScalarValue,
        TemplError,
    >)
        ensures
            res_sv_view(r) == sp_stmt(
                self.cfg(),
                self.sc(),
                Statement::If(*if_stmt),
                span_v(*src_loc),
            ),
    {
        let cond = self.interpret_expr(&if_stmt.condition, src_loc)?;
        let cond = expect_implicit_bool(cond, src_loc)?;
        if cond {
            Ok(ScalarValue::Inline)
        } else {
            Ok(ScalarValue::Drop)
        }
    }

    /// Evaluates a `for` head: the iterable must be a container; the body
    /// runs later, at the directive's map entry.
    pub fn interpret_for(&self, for_stmt: &StatementFor, src_loc: &SourceLocationSpan) -> (r: Result<
        ScalarValue,
        TemplError,
    >)
        ensures
            res_sv_view(r) == sp_stmt(
                self.cfg(),
                self.sc(),
                Statement::For(*for_stmt),
                span_v(*src_loc),
            ),
    {
        let it = self.interpret_expr(&for_stmt.iterable, src_loc)?;
        let iterable = expect_iterable(it, src_loc)?;
        let bindings = dup_bindings(&for_stmt.bindings);
        Ok(ScalarValue::For(ValueFor { bindings, iterable }))
    }

    /// Evaluates a scalar: one segment passes through, several concatenate
    /// into a string.
    #[verifier::loop_isolation(false)]
    pub fn interpret_scalar(&self, scalar_templ: &ScalerTemplate) -> (r: Result<
        Value,
        TemplError,
    >)
        ensures
            res_value_view(r) == crate::semantics::sp_scalar(self.cfg(), self.sc(), *scalar_templ),
    {
        let ghost span = span_v(scalar_templ.src_loc);
        let ghost segs = scalar_templ.values@;
        let mut vals: Vec<ScalarValue> = Vec::new();
        let mut i: usize = 0;
        proof {
            assert(scalar_values_view(vals@) =~= Seq::empty());
        }
        while i < scalar_templ.values.len()
            invariant
                0 <= i <= segs.len(),
                vals@.len() == i,
                crate::semantics::sp_segments(self.cfg(), self.sc(), segs, 0, Seq::empty(), span)
                    == crate::semantics::sp_segments(
                    self.cfg(),
                    self.sc(),
                    segs,
                    i as int,
                    scalar_values_view(vals@),
                    span,
                ),
            decreases segs.len() - i,
        {
            let ghost pre = scalar_values_view(vals@);
            let seg = &scalar_templ.values[i];
            match seg {
                ScalarTemplateValue::String(substring) => {
                    vals.push(ScalarValue::Yaml(Yaml::String(substring.clone())));
                },
                ScalarTemplateValue::Expr(stmt) => {
                    let v = self.interpret_statement(stmt, &scalar_templ.src_loc)?;
                    vals.push(v);
                },
            }
            i += 1;
            proof {
                assert(scalar_values_view(vals@) =~= pre.push(
                    scalar_value_view(vals@[vals@.len() - 1]),
                ));
            }
        }
        let ghost valsv = scalar_values_view(vals@);
        if vals.len() == 1 {
            let singular = match vals.pop() {
                Some(v) => v,
                None => {
                    proof {
                        assert(false);
                    }
                    ScalarValue::Drop
                },
            };
            let data = match singular {
                ScalarValue::Inline => ValueData::Inline,
                ScalarValue::Drop => ValueData::Drop,
                ScalarValue::Yaml(y) => ValueData::Yaml(y),
                ScalarValue::For(vf) => ValueData::For(vf),
            };
            return Ok(Value { src_loc: scalar_templ.src_loc.dup(), data });
        }
        let mut string = String::new();
        let mut j: usize = 0;
        proof {
            assert(string@ =~= Seq::<char>::empty());
        }
        while j < vals.len()
            invariant
                0 <= j <= vals@.len(),
                valsv == scalar_values_view(vals@),
                crate::semantics::sp_concat(valsv, 0, Seq::empty(), span)
                    == crate::semantics::sp_concat(valsv, j as int, string@, span),
            decreases vals@.len() - j,
        {
            match &vals[j] {
                ScalarValue::Inline => {
                    return Err(
                        TemplError::new(
                            &scalar_templ.src_loc,
                            ErrorKind::DirectiveAsSubstring(DirectiveName::Inline),
                        ),
                    );
                },
                ScalarValue::Drop => {
                    return Err(
                        TemplError::new(
                            &scalar_templ.src_loc,
                            ErrorKind::DirectiveAsSubstring(DirectiveName::Drop),
                        ),
                    );
                },
                ScalarValue::For(_) => {
                    return Err(
                        TemplError::new(
                            &scalar_templ.src_loc,
                            ErrorKind::DirectiveAsSubstring(DirectiveName::For),
                        ),
                    );
                },
                ScalarValue::Yaml(y) => match y {
                    Yaml::String(substring) => {
                        string.append(substring.as_str());
                    },
                    _ => {
                        let t = yaml_type_name(y);
                        return Err(
                            TemplError::new(
                                &scalar_templ.src_loc,
                                ErrorKind::TypeAsSubstring(str_owned(t)),
                            ),
                        );
                    },
                },
            }
            j += 1;
        }
        Ok(
            Value {
                src_loc: scalar_templ.src_loc.dup(),
                data: ValueData::Yaml(Yaml::String(string)),
            },
        )
    }
}

/// The accumulator of a running `for` expansion.
pub enum ForAcc {
    Nothing,
    List(Vec<Yaml>),
    Mapping(Vec<(Yaml, Yaml)>),
}

pub open spec fn for_acc_view(a: ForAcc) -> crate::semantics::ForAccV {
    match a {
        ForAcc::Nothing => crate::semantics::ForAccV::Nothing,
        ForAcc::List(l) => crate::semantics::ForAccV::List(crate::yaml::yaml_seq_view(l@)),
        ForAcc::Mapping(m) => crate::semantics::ForAccV::Mapping(crate::yaml::yaml_pairs_view(m@)),
    }
}

/// Appends copies of `sub`'s elements to `out`.
#[verifier::loop_isolation(false)]
fn extend_values(out: &mut Vec<Yaml>, sub: &Vec<Yaml>)
    ensures
        crate::yaml::yaml_seq_view(final(out)@) == crate::yaml::yaml_seq_view(old(out)@)
            + crate::yaml::yaml_seq_view(sub@),
{
    let mut k: usize = 0;
    proof {
        assert(crate::yaml::yaml_seq_view(out@) =~= crate::yaml::yaml_seq_view(old(out)@)
            + crate::yaml::yaml_seq_view(sub@).take(0));
    }
    while k < sub.len()
        invariant
            0 <= k <= sub@.len(),
            crate::yaml::yaml_seq_view(out@) == crate::yaml::yaml_seq_view(old(out)@)
                + crate::yaml::yaml_seq_view(sub@).take(k as int),
        decreases sub@.len() - k,
    {
        let ghost pre = out@;
        out.push(sub[k].duplicate());
        k += 1;
        proof {
            assert(out@.drop_last() =~= pre);
            assert(crate::yaml::yaml_seq_view(out@) == crate::yaml::yaml_seq_view(pre).push(
                yaml_view(out@.last()),
            ));
            assert(crate::yaml::yaml_seq_view(out@) =~= crate::yaml::yaml_seq_view(old(out)@)
                + crate::yaml::yaml_seq_view(sub@).take(k as int));
        }
    }
    proof {
        assert(crate::yaml::yaml_seq_view(sub@).take(sub@.len() as int) =~= crate::yaml::yaml_seq_view(sub@));
    }
}

/// Inserts copies of `sub`'s entries into `acc`, in order.
#[verifier::loop_isolation(false)]
fn insert_all(acc: &mut Vec<(Yaml, Yaml)>, sub: &Vec<(Yaml, Yaml)>)
    ensures
        crate::yaml::yaml_pairs_view(final(acc)@) == crate::semantics::hash_insert_all(
            crate::yaml::yaml_pairs_view(old(acc)@),
            crate::yaml::yaml_pairs_view(sub@),
        ),
{
    let ghost subv = crate::yaml::yaml_pairs_view(sub@);
    let mut k: usize = 0;
    proof {
        assert(subv.skip(0) =~= subv);
    }
    while k < sub.len()
        invariant
            0 <= k <= sub@.len(),
            crate::semantics::hash_insert_all(crate::yaml::yaml_pairs_view(old(acc)@), subv)
                == crate::semantics::hash_insert_all(
                crate::yaml::yaml_pairs_view(acc@),
                subv.skip(k as int),
            ),
        decreases sub@.len() - k,
    {
        proof {
            assert(subv.skip(k as int)[0] == (yaml_view(sub@[k as int].0), yaml_view(
                sub@[k as int].1,
            )));
            assert(subv.skip(k as int).drop_first() =~= subv.skip(k + 1));
        }
        crate::yaml::hash_insert(acc, sub[k].0.duplicate(), sub[k].1.duplicate());
        k += 1;
    }
    proof {
        assert(subv.skip(sub@.len() as int) =~= Seq::<(crate::yaml::YamlV, crate::yaml::YamlV)>::empty());
    }
}

impl InterpreterRun {
    /// Evaluates a node.
    pub fn interpret_node(&mut self, node_templ: &NodeTemplate) -> (r: Result<Value, TemplError>)
        ensures
            final(self).config == old(self).config,
            final(self).sc() == old(self).sc(),
            res_value_view(r) == crate::semantics::sp_node(
                old(self).cfg(),
                old(self).sc(),
                *node_templ,
            ),
        decreases *node_templ, 0int, 1int,
    {
        match node_templ {
            NodeTemplate::Sequence(seq_templ) => self.interpret_seq(seq_templ),
            NodeTemplate::Mapping(map_templ) => self.interpret_map(map_templ),
            NodeTemplate::Scaler(scalar_templ) => self.interpret_scalar(scalar_templ),
        }
    }

    /// Evaluates a sequence: items contribute values, `inline` splices
    /// arrays, `drop`ped entries vanish.
    #[verifier::loop_isolation(false)]
    pub fn interpret_seq(&mut self, seq_templ: &crate::ast::SequenceTemplate) -> (r: Result<
        Value,
        TemplError,
    >)
        ensures
            final(self).config == old(self).config,
            final(self).sc() == old(self).sc(),
            res_value_view(r) == crate::semantics::sp_node(
                old(self).cfg(),
                old(self).sc(),
                NodeTemplate::Sequence(*seq_templ),
            ),
        decreases NodeTemplate::Sequence(*seq_templ), 0int, 0int,
    {
        let ghost items = seq_templ.values@;
        let ghost cfg = self.cfg();
        let ghost sc = self.sc();
        let mut values: Vec<Yaml> = Vec::new();
        let mut i: usize = 0;
        proof {
            assert(crate::yaml::yaml_seq_view(values@) =~= Seq::<crate::yaml::YamlV>::empty());
        }
        while i < seq_templ.values.len()
            invariant
                0 <= i <= items.len(),
                self.config == old(self).config,
                self.sc() == old(self).sc(),
                crate::semantics::sp_seq_items(cfg, sc, items, 0, Seq::empty())
                    == crate::semantics::sp_seq_items(
                    cfg,
                    sc,
                    items,
                    i as int,
                    crate::yaml::yaml_seq_view(values@),
                ),
            decreases items.len() - i,
        {
            let ghost acc0 = crate::yaml::yaml_seq_view(values@);
            let value = self.interpret_node(&seq_templ.values[i])?;
            let value = expect_value(value)?;
            match value.data {
                ValueData::Yaml(yaml) => {
                    let ghost pre = values@;
                    values.push(yaml);
                    proof {
                        assert(values@.drop_last() =~= pre);
                        assert(crate::yaml::yaml_seq_view(values@)
                            == crate::yaml::yaml_seq_view(pre).push(yaml_view(values@.last())));
                    }
                },
                ValueData::InlineYaml(yaml) => match yaml {
                    Yaml::Array(sublist) => {
                        extend_values(&mut values, &sublist);
                    },
                    Yaml::Hash(_) => {
                        return Err(
                            TemplError::new(&value.src_loc, ErrorKind::InlineMapIntoList),
                        );
                    },
                    _ => {
                        return Err(
                            TemplError::new(&value.src_loc, ErrorKind::InlineValueIntoList),
                        );
                    },
                },
                ValueData::Nothing => {},
                _ => {
                    proof {
                        assert(false);
                    }
                    return Err(TemplError::new(&value.src_loc, ErrorKind::InlineMapIntoList));
                },
            }
            proof {
                assert(crate::semantics::sp_seq_items(cfg, sc, items, i as int, acc0)
                    == crate::semantics::sp_seq_items(
                    cfg,
                    sc,
                    items,
                    i + 1,
                    crate::yaml::yaml_seq_view(values@),
                ));
            }
            i += 1;
        }
        Ok(
            Value {
                src_loc: seq_templ.src_loc.dup(),
                data: ValueData::Yaml(Yaml::Array(values)),
            },
        )
    }

    /// Evaluates a map: plain keys insert entries, directive keys reshape
    /// the map.
    #[verifier::loop_isolation(false)]
    pub fn interpret_map(&mut self, map_templ: &crate::ast::MapTemplate) -> (r: Result<
        Value,
        TemplError,
    >)
        ensures
            final(self).config == old(self).config,
            final(self).sc() == old(self).sc(),
            res_value_view(r) == crate::semantics::sp_node(
                old(self).cfg(),
                old(self).sc(),
                NodeTemplate::Mapping(*map_templ),
            ),
        decreases NodeTemplate::Mapping(*map_templ), 0int, 0int,
    {
        let ghost entriesg = map_templ.entries@;
        let ghost cfg = self.cfg();
        let ghost sc = self.sc();
        let ghost mspan = span_v(map_templ.src_loc);
        let single = map_templ.entries.len() == 1;
        let mut entries: Vec<(Yaml, Yaml)> = Vec::new();
        let mut i: usize = 0;
        proof {
            assert(crate::yaml::yaml_pairs_view(entries@) =~= Seq::<
                (crate::yaml::YamlV, crate::yaml::YamlV),
            >::empty());
        }
        while i < map_templ.entries.len()
            invariant
                0 <= i <= entriesg.len(),
                self.config == old(self).config,
                self.sc() == old(self).sc(),
                crate::semantics::sp_map_entries(cfg, sc, entriesg, 0, Seq::empty(), single, mspan)
                    == crate::semantics::sp_map_entries(
                    cfg,
                    sc,
                    entriesg,
                    i as int,
                    crate::yaml::yaml_pairs_view(entries@),
                    single,
                    mspan,
                ),
            decreases entriesg.len() - i,
        {
            let entry_templ = &map_templ.entries[i];
            let key = self.interpret_node(&entry_templ.key)?;
            match key.data {
                ValueData::Yaml(k) => {
                    let ghost kv = yaml_view(k);
                    let ghost acc0 = crate::yaml::yaml_pairs_view(entries@);
                    proof {
                        assert(crate::semantics::sp_map_entries(
                            cfg,
                            sc,
                            entriesg,
                            i as int,
                            acc0,
                            single,
                            mspan,
                        ) == crate::semantics::sp_entry_plain(
                            cfg,
                            sc,
                            entriesg,
                            i as int,
                            acc0,
                            single,
                            mspan,
                            kv,
                        ));
                    }
                    let entry_value = self.interpret_node(&entry_templ.value)?;
                    let entry_value = expect_value(entry_value)?;
                    let vv = match entry_value.data {
                        ValueData::Yaml(yaml) => yaml,
                        ValueData::InlineYaml(yaml) => yaml,
                        _ => Yaml::Null,
                    };
                    let ghost vvv = yaml_view(vv);
                    crate::yaml::hash_insert(&mut entries, k, vv);
                    proof {
                        assert(crate::yaml::yaml_pairs_view(entries@)
                            == crate::yaml::hash_insert_v(acc0, kv, vvv));
                    }
                },
                ValueData::InlineYaml(k) => {
                    let ghost kv = yaml_view(k);
                    let ghost acc0 = crate::yaml::yaml_pairs_view(entries@);
                    proof {
                        assert(crate::semantics::sp_map_entries(
                            cfg,
                            sc,
                            entriesg,
                            i as int,
                            acc0,
                            single,
                            mspan,
                        ) == crate::semantics::sp_entry_plain(
                            cfg,
                            sc,
                            entriesg,
                            i as int,
                            acc0,
                            single,
                            mspan,
                            kv,
                        ));
                    }
                    let entry_value = self.interpret_node(&entry_templ.value)?;
                    let entry_value = expect_value(entry_value)?;
                    let vv = match entry_value.data {
                        ValueData::Yaml(yaml) => yaml,
                        ValueData::InlineYaml(yaml) => yaml,
                        _ => Yaml::Null,
                    };
                    let ghost vvv = yaml_view(vv);
                    crate::yaml::hash_insert(&mut entries, k, vv);
                    proof {
                        assert(crate::yaml::yaml_pairs_view(entries@)
                            == crate::yaml::hash_insert_v(acc0, kv, vvv));
                    }
                },
                ValueData::Inline => {
                    let ghost acc0 = crate::yaml::yaml_pairs_view(entries@);
                    let entry_value = self.interpret_node(&entry_templ.value)?;
                    let ghost evv = value_view(entry_value);
                    proof {
                        assert(crate::semantics::sp_map_entries(
                            cfg,
                            sc,
                            entriesg,
                            i as int,
                            acc0,
                            single,
                            mspan,
                        ) == crate::semantics::sp_entry_spliced(
                            cfg,
                            sc,
                            entriesg,
                            i as int,
                            acc0,
                            single,
                            mspan,
                            evv,
                        ));
                    }
                    match self.entry_spliced(entry_value, &mut entries, single) {
                        Err(e) => {
                            return Err(e);
                        },
                        Ok(Some(v)) => {
                            return Ok(v);
                        },
                        Ok(None) => {},
                    }
                },
                ValueData::For(value_for) => {
                    let ghost acc0 = crate::yaml::yaml_pairs_view(entries@);
                    let entry_value = self.run_for_loop(
                        &key.src_loc,
                        value_for,
                        &entry_templ.value,
                    )?;
                    let ghost evv = value_view(entry_value);
                    proof {
                        assert(crate::semantics::sp_map_entries(
                            cfg,
                            sc,
                            entriesg,
                            i as int,
                            acc0,
                            single,
                            mspan,
                        ) == crate::semantics::sp_entry_spliced(
                            cfg,
                            sc,
                            entriesg,
                            i as int,
                            acc0,
                            single,
                            mspan,
                            evv,
                        ));
                    }
                    match self.entry_spliced(entry_value, &mut entries, single) {
                        Err(e) => {
                            return Err(e);
                        },
                        Ok(Some(v)) => {
                            return Ok(v);
                        },
                        Ok(None) => {},
                    }
                },
                ValueData::Drop => {
                    if single {
                        return Ok(Value { src_loc: key.src_loc, data: ValueData::Nothing });
                    }
                },
                ValueData::Nothing => {},
            }
            i += 1;
        }
        Ok(
            Value {
                src_loc: map_templ.src_loc.dup(),
                data: ValueData::Yaml(Yaml::Hash(entries)),
            },
        )
    }

    /// Finishes a map entry whose key was `inline` or a finished `for`:
    /// returns `Ok(Some(v))` when the value replaces the whole map,
    /// `Ok(None)` when its entries merged into `entries`.
    fn entry_spliced(
        &self,
        entry_value: Value,
        entries: &mut Vec<(Yaml, Yaml)>,
        single: bool,
    ) -> (r: Result<Option<Value>, TemplError>)
        ensures
            match r {
                Err(e) => forall|cfg: crate::yaml::YamlV, sc: ScopesV, eg: Seq<
                    crate::ast::MapEntryTemplate,
                >, i: int, sgl: bool, mspan: crate::errors::SpanV|
                    0 <= i < eg.len() && sgl == single ==> crate::semantics::sp_entry_spliced(
                        cfg,
                        sc,
                        eg,
                        i,
                        crate::yaml::yaml_pairs_view(old(entries)@),
                        sgl,
                        mspan,
                        value_view(entry_value),
                    ) == Err::<ValueV, crate::errors::ErrV>(e@),
                Ok(Some(v)) => forall|cfg: crate::yaml::YamlV, sc: ScopesV, eg: Seq<
                    crate::ast::MapEntryTemplate,
                >, i: int, sgl: bool, mspan: crate::errors::SpanV|
                    0 <= i < eg.len() && sgl == single ==> crate::semantics::sp_entry_spliced(
                        cfg,
                        sc,
                        eg,
                        i,
                        crate::yaml::yaml_pairs_view(old(entries)@),
                        sgl,
                        mspan,
                        value_view(entry_value),
                    ) == Ok::<ValueV, crate::errors::ErrV>(value_view(v)),
                Ok(None) => forall|cfg: crate::yaml::YamlV, sc: ScopesV, eg: Seq<
                    crate::ast::MapEntryTemplate,
                >, i: int, sgl: bool, mspan: crate::errors::SpanV|
                    0 <= i < eg.len() && sgl == single ==> crate::semantics::sp_entry_spliced(
                        cfg,
                        sc,
                        eg,
                        i,
                        crate::yaml::yaml_pairs_view(old(entries)@),
                        sgl,
                        mspan,
                        value_view(entry_value),
                    ) == crate::semantics::sp_map_entries(
                        cfg,
                        sc,
                        eg,
                        i + 1,
                        crate::yaml::yaml_pairs_view(final(entries)@),
                        sgl,
                        mspan,
                    ),
            },
    {
        let entry_value = match expect_value(entry_value) {
            Ok(v) => v,
            Err(e) => {
                return Err(e);
            },
        };
        if single {
            let data = match entry_value.data {
                ValueData::Yaml(yaml) => ValueData::InlineYaml(yaml),
                d => d,
            };
            return Ok(Some(Value { src_loc: entry_value.src_loc, data }));
        }
        match entry_value.data {
            ValueData::Yaml(yaml) => match yaml {
                Yaml::Hash(submap) => {
                    insert_all(entries, &submap);
                    Ok(None)
                },
                Yaml::Array(_) => Err(
                    TemplError::new(&entry_value.src_loc, ErrorKind::InlineListIntoMap),
                ),
                _ => Err(TemplError::new(&entry_value.src_loc, ErrorKind::InlineValueIntoMap)),
            },
            ValueData::InlineYaml(yaml) => match yaml {
                Yaml::Hash(submap) => {
                    insert_all(entries, &submap);
                    Ok(None)
                },
                Yaml::Array(_) => Err(
                    TemplError::new(&entry_value.src_loc, ErrorKind::InlineListIntoMap),
                ),
                _ => Err(TemplError::new(&entry_value.src_loc, ErrorKind::InlineValueIntoMap)),
            },
            ValueData::Nothing => Ok(None),
            _ => {
                proof {
                    assert(false);
                }
                Ok(None)
            },
        }
    }

    /// Runs a `for` over its iterable: one iteration per element under a
    /// fresh scope frame, folding the results into a list or a map.
    #[verifier::loop_isolation(false)]
    #[verifier::rlimit(60)]
    pub fn run_for_loop(
        &mut self,
        key_src_loc: &SourceLocationSpan,
        value_for: ValueFor,
        item_templ: &NodeTemplate,
    ) -> (r: Result<Value, TemplError>)
        ensures
            final(self).config == old(self).config,
            final(self).sc() == old(self).sc(),
            res_value_view(r) == crate::semantics::sp_run_for(
                old(self).cfg(),
                old(self).sc(),
                *item_templ,
                for_view(value_for),
                span_v(*key_src_loc),
            ),
        decreases *item_templ, 1int, 0int,
    {
        let ghost cfg = self.cfg();
        let ghost sc = self.sc();
        let ghost fv = for_view(value_for);
        let ghost kspan = span_v(*key_src_loc);
        let ghost framesv = crate::semantics::sp_for_frames(fv.bindings, fv.iterable);
        let ValueFor { bindings, iterable } = value_for;
        let mut acc = ForAcc::Nothing;
        match iterable {
            Yaml::Array(list) => {
                if bindings.len() != 1 {
                    return Err(
                        TemplError::new(key_src_loc, ErrorKind::ForListBindings(bindings.len())),
                    );
                }
                let name = match &bindings[0] {
                    ExprBinding::Var(n) => n,
                };
                proof {
                    assert(fv.iterable == crate::yaml::YamlV::Array(
                        crate::yaml::yaml_seq_view(list@),
                    ));
                    assert(fv.bindings[0] == name@);
                    assert(framesv.len() == list@.len());
                    assert forall|m: int| 0 <= m < list@.len() implies #[trigger] framesv[m]
                        == seq![(name@, yaml_view(list@[m]))] by {
                        crate::yaml::lemma_yaml_seq_view_index(list@, m);
                        assert(framesv[m] =~= seq![(name@, yaml_view(list@[m]))]);
                    }
                }
                let mut k: usize = 0;
                while k < list.len()
                    invariant
                        0 <= k <= list@.len(),
                        self.config == old(self).config,
                        self.sc() == old(self).sc(),
                        framesv.len() == list@.len(),
                        forall|m: int|
                            0 <= m < list@.len() ==> #[trigger] framesv[m] == seq![
                                (name@, yaml_view(list@[m])),
                            ],
                        crate::semantics::sp_for_items(
                            cfg,
                            sc,
                            *item_templ,
                            framesv,
                            0,
                            crate::semantics::ForAccV::Nothing,
                        ) == crate::semantics::sp_for_items(
                            cfg,
                            sc,
                            *item_templ,
                            framesv,
                            k as int,
                            for_acc_view(acc),
                        ),
                    decreases list@.len() - k,
                {
                    let mut frame: Vec<(String, Yaml)> = Vec::new();
                    frame.push((name.clone(), list[k].duplicate()));
                    let item = self.push_run_pop(frame, item_templ);
                    proof {
                        assert(frame_view(frame@) =~= framesv[k as int]);
                    }
                    let item = item?;
                    acc = combine_for_item(acc, item)?;
                    k += 1;
                }
                proof {
                    assert(crate::semantics::sp_for_items(
                        cfg,
                        sc,
                        *item_templ,
                        framesv,
                        list@.len() as int,
                        for_acc_view(acc),
                    ) == Ok::<crate::semantics::ForAccV, crate::errors::ErrV>(for_acc_view(acc)));
                }
            },
            Yaml::Hash(map) => {
                if bindings.len() != 2 {
                    return Err(
                        TemplError::new(key_src_loc, ErrorKind::ForMapBindings(bindings.len())),
                    );
                }
                let kname = match &bindings[0] {
                    ExprBinding::Var(n) => n,
                };
                let vname = match &bindings[1] {
                    ExprBinding::Var(n) => n,
                };
                proof {
                    assert(fv.iterable == crate::yaml::YamlV::Hash(
                        crate::yaml::yaml_pairs_view(map@),
                    ));
                    assert(fv.bindings[0] == kname@);
                    assert(fv.bindings[1] == vname@);
                    assert(framesv.len() == map@.len());
                    assert forall|m: int| 0 <= m < map@.len() implies #[trigger] framesv[m]
                        == seq![(kname@, yaml_view(map@[m].0)), (vname@, yaml_view(map@[m].1))] by {
                        crate::yaml::lemma_yaml_pairs_view_index(map@, m);
                        assert(framesv[m] =~= seq![
                            (kname@, yaml_view(map@[m].0)),
                            (vname@, yaml_view(map@[m].1)),
                        ]);
                    }
                }
                let mut k: usize = 0;
                while k < map.len()
                    invariant
                        0 <= k <= map@.len(),
                        self.config == old(self).config,
                        self.sc() == old(self).sc(),
                        framesv.len() == map@.len(),
                        forall|m: int|
                            0 <= m < map@.len() ==> #[trigger] framesv[m] == seq![
                                (kname@, yaml_view(map@[m].0)),
                                (vname@, yaml_view(map@[m].1)),
                            ],
                        crate::semantics::sp_for_items(
                            cfg,
                            sc,
                            *item_templ,
                            framesv,
                            0,
                            crate::semantics::ForAccV::Nothing,
                        ) == crate::semantics::sp_for_items(
                            cfg,
                            sc,
                            *item_templ,
                            framesv,
                            k as int,
                            for_acc_view(acc),
                        ),
                    decreases map@.len() - k,
                {
                    let mut frame: Vec<(String, Yaml)> = Vec::new();
                    frame.push((kname.clone(), map[k].0.duplicate()));
                    frame.push((vname.clone(), map[k].1.duplicate()));
                    let item = self.push_run_pop(frame, item_templ);
                    proof {
                        assert(frame_view(frame@) =~= framesv[k as int]);
                    }
                    let item = item?;
                    acc = combine_for_item(acc, item)?;
                    k += 1;
                }
                proof {
                    assert(crate::semantics::sp_for_items(
                        cfg,
                        sc,
                        *item_templ,
                        framesv,
                        map@.len() as int,
                        for_acc_view(acc),
                    ) == Ok::<crate::semantics::ForAccV, crate::errors::ErrV>(for_acc_view(acc)));
                }
            },
            other => {
                let t = yaml_type_name(&other);
                return Err(TemplError::new(key_src_loc, ErrorKind::TypeNotIterable(str_owned(t))));
            },
        }
        let data = match acc {
            ForAcc::Nothing => ValueData::Nothing,
            ForAcc::List(l) => ValueData::Yaml(Yaml::Array(l)),
            ForAcc::Mapping(m) => ValueData::Yaml(Yaml::Hash(m)),
        };
        Ok(Value { src_loc: key_src_loc.dup(), data })
    }

    /// Evaluates the documents of a file; each document contributes its
    /// value to the output, or nothing.
    #[verifier::loop_isolation(false)]
    pub fn interpret_file(&mut self, file_templ: &FileTemplate) -> (r: Result<
        Vec<Yaml>,
        TemplError,
    >)
        ensures
            final(self).config == old(self).config,
            final(self).sc() == old(self).sc(),
            res_docs_view(r) == crate::semantics::sp_file(
                old(self).cfg(),
                old(self).sc(),
                file_templ.docs@,
                0,
                Seq::empty(),
            ),
    {
        let ghost docsg = file_templ.docs@;
        let ghost cfg = self.cfg();
        let ghost sc = self.sc();
        let mut docs: Vec<Yaml> = Vec::new();
        let mut i: usize = 0;
        proof {
            assert(crate::yaml::yaml_seq_view(docs@) =~= Seq::<crate::yaml::YamlV>::empty());
        }
        while i < file_templ.docs.len()
            invariant
                0 <= i <= docsg.len(),
                self.config == old(self).config,
                self.sc() == old(self).sc(),
                crate::semantics::sp_file(cfg, sc, docsg, 0, Seq::empty())
                    == crate::semantics::sp_file(
                    cfg,
                    sc,
                    docsg,
                    i as int,
                    crate::yaml::yaml_seq_view(docs@),
                ),
            decreases docsg.len() - i,
        {
            let ghost acc0 = crate::yaml::yaml_seq_view(docs@);
            let value = self.interpret_node(&file_templ.docs[i].node)?;
            let value = expect_value(value)?;
            match value.data {
                ValueData::Yaml(yaml) => {
                    let ghost pre = docs@;
                    docs.push(yaml);
                    proof {
                        assert(docs@.drop_last() =~= pre);
                        assert(crate::yaml::yaml_seq_view(docs@)
                            == crate::yaml::yaml_seq_view(pre).push(yaml_view(docs@.last())));
                    }
                },
                ValueData::InlineYaml(yaml) => {
                    let ghost pre = docs@;
                    docs.push(yaml);
                    proof {
                        assert(docs@.drop_last() =~= pre);
                        assert(crate::yaml::yaml_seq_view(docs@)
                            == crate::yaml::yaml_seq_view(pre).push(yaml_view(docs@.last())));
                    }
                },
                ValueData::Nothing => {},
                _ => {
                    proof {
                        assert(false);
                    }
                    return Err(TemplError::new(&value.src_loc, ErrorKind::InlineMapIntoList));
                },
            }
            proof {
                assert(crate::semantics::sp_file(cfg, sc, docsg, i as int, acc0)
                    == crate::semantics::sp_file(
                    cfg,
                    sc,
                    docsg,
                    i + 1,
                    crate::yaml::yaml_seq_view(docs@),
                ));
            }
            i += 1;
        }
        Ok(docs)
    }

    /// Runs the body under a pushed frame and pops it again.
    fn push_run_pop(&mut self, frame: Vec<(String, Yaml)>, body: &NodeTemplate) -> (r: Result<
        Value,
        TemplError,
    >)
        ensures
            final(self).config == old(self).config,
            final(self).sc() == old(self).sc(),
            res_value_view(r) == crate::semantics::sp_node(
                old(self).cfg(),
                old(self).sc().push(frame_view(frame@)),
                *body,
            ),
        decreases *body, 0int, 2int,
    {
        let ghost sc0 = self.sc();
        let ghost fv = frame_view(frame@);
        self.scopes.push(frame);
        proof {
            assert(self.sc() =~= sc0.push(fv));
        }
        let item = self.interpret_node(body);
        let ghost scp = self.sc();
        self.scopes.pop();
        proof {
            assert(self.sc() =~= scp.drop_last());
            assert(scp.drop_last() =~= sc0);
        }
        item
    }
}

/// Folds one `for` item into the accumulator: lists concatenate, maps
/// merge, shapes may not mix.
fn combine_for_item(acc: ForAcc, item: Value) -> (r: Result<ForAcc, TemplError>)
    ensures
        match r {
            Ok(a) => crate::semantics::sp_for_step(for_acc_view(acc), value_view(item))
                == Ok::<crate::semantics::ForAccV, crate::errors::ErrV>(for_acc_view(a)),
            Err(e) => crate::semantics::sp_for_step(for_acc_view(acc), value_view(item)) == Err::<
                crate::semantics::ForAccV,
                crate::errors::ErrV,
            >(e@),
        },
{
    let item = expect_value(item)?;
    let yaml = match item.data {
        ValueData::Yaml(y) => y,
        ValueData::InlineYaml(y) => y,
        ValueData::Nothing => {
            return Ok(acc);
        },
        _ => {
            proof {
                assert(false);
            }
            return Ok(acc);
        },
    };
    match yaml {
        Yaml::Array(lower) => match acc {
            ForAcc::Mapping(_) => Err(
                TemplError::new(&item.src_loc, ErrorKind::CombineListIntoMap),
            ),
            ForAcc::Nothing => {
                let mut out: Vec<Yaml> = Vec::new();
                extend_values(&mut out, &lower);
                proof {
                    assert(crate::yaml::yaml_seq_view(out@) =~= crate::yaml::yaml_seq_view(lower@));
                }
                Ok(ForAcc::List(out))
            },
            ForAcc::List(mut prev) => {
                extend_values(&mut prev, &lower);
                Ok(ForAcc::List(prev))
            },
        },
        Yaml::Hash(lower) => match acc {
            ForAcc::List(_) => Err(TemplError::new(&item.src_loc, ErrorKind::CombineMapIntoList)),
            ForAcc::Nothing => {
                let mut out: Vec<(Yaml, Yaml)> = Vec::new();
                proof {
                    assert(crate::yaml::yaml_pairs_view(out@) =~= Seq::<
                        (crate::yaml::YamlV, crate::yaml::YamlV),
                    >::empty());
                }
                insert_all(&mut out, &lower);
                Ok(ForAcc::Mapping(out))
            },
            ForAcc::Mapping(mut prev) => {
                insert_all(&mut prev, &lower);
                Ok(ForAcc::Mapping(prev))
            },
        },
        _ => Err(TemplError::new(&item.src_loc, ErrorKind::ForItemNotContainer)),
    }
}

/// Narrows a node result to a plain value: a raw directive here is an
/// error naming it.
pub fn expect_value(value: Value) -> (r: Result<Value, TemplError>)
    ensures
        res_value_view(r) == crate::semantics::sp_expect_value(value_view(value)),
{
    match &value.data {
        ValueData::Inline => Err(
            TemplError::new(&value.src_loc, ErrorKind::DirectiveAsValue(DirectiveName::Inline)),
        ),
        ValueData::Drop => Err(
            TemplError::new(&value.src_loc, ErrorKind::DirectiveAsValue(DirectiveName::Drop)),
        ),
        ValueData::For(_) => Err(
            TemplError::new(&value.src_loc, ErrorKind::DirectiveAsValue(DirectiveName::For)),
        ),
        _ => Ok(value),
    }
}

/// Coerces an expression result to a condition: null and false are false,
/// every other value is true, directives are an error.
pub fn expect_implicit_bool(value: ExprValue, src_loc: &SourceLocationSpan) -> (r: Result<
    bool,
    TemplError,
>)
    ensures
        res_bool_view(r) == sp_implicit_bool(expr_value_view(value), span_v(*src_loc)),
{
    match value {
        ExprValue::Inline => Err(
            TemplError::new(src_loc, ErrorKind::DirectiveToBool(DirectiveName::Inline)),
        ),
        ExprValue::Drop => Err(
            TemplError::new(src_loc, ErrorKind::DirectiveToBool(DirectiveName::Drop)),
        ),
        ExprValue::Yaml(Yaml::Boolean(false)) => Ok(false),
        ExprValue::Yaml(Yaml::Null) => Ok(false),
        ExprValue::Yaml(_) => Ok(true),
    }
}

/// Requires an expression result to be an iterable container.
pub fn expect_iterable(expr_value: ExprValue, src_loc: &SourceLocationSpan) -> (r: Result<
    Yaml,
    TemplError,
>)
    ensures
        res_yaml_view(r) == sp_iterable(expr_value_view(expr_value), span_v(*src_loc)),
{
    match expr_value {
        ExprValue::Inline => Err(
            TemplError::new(src_loc, ErrorKind::DirectiveNotIterable(DirectiveName::Inline)),
        ),
        ExprValue::Drop => Err(
            TemplError::new(src_loc, ErrorKind::DirectiveNotIterable(DirectiveName::Drop)),
        ),
        ExprValue::Yaml(yaml) => match yaml {
            Yaml::Array(_) => Ok(yaml),
            Yaml::Hash(_) => Ok(yaml),
            _ => {
                let t = yaml_type_name(&yaml);
                Err(TemplError::new(src_loc, ErrorKind::TypeNotIterable(str_owned(t))))
            },
        },
    }
}

/// Copies a binding list; the names are unchanged.
pub fn dup_bindings(bs: &Vec<ExprBinding>) -> (r: Vec<ExprBinding>)
    ensures
        binding_names(r@) == binding_names(bs@),
        r@.len() == bs@.len(),
{
    let mut out: Vec<ExprBinding> = Vec::new();
    let mut i: usize = 0;
    while i < bs.len()
        invariant
            0 <= i <= bs@.len(),
            out@.len() == i,
            forall|j: int| 0 <= j < i ==> binding_name(out@[j]) == binding_name(bs@[j]),
        decreases bs@.len() - i,
    {
        match &bs[i] {
            ExprBinding::Var(name) => out.push(ExprBinding::Var(name.clone())),
        }
        i += 1;
    }
    proof {
        assert(binding_names(out@) =~= binding_names(bs@));
    }
    out
}

/// The model of a sequence of scalar segment results.
pub open spec fn scalar_values_view(s: Seq<ScalarValue>) -> Seq<ScalarValueV> {
    Seq::new(s.len(), |i: int| scalar_value_view(s[i]))
}

/// Structural equality of two expression results.
pub fn expr_value_eq(a: &ExprValue, b: &ExprValue) -> (r: bool)
    ensures
        r == (expr_value_view(*a) == expr_value_view(*b)),
{
    match (a, b) {
        (ExprValue::Inline, ExprValue::Inline) => true,
        (ExprValue::Drop, ExprValue::Drop) => true,
        (ExprValue::Yaml(x), ExprValue::Yaml(y)) => x.structural_eq(y),
        _ => {
            assert(expr_value_view(*a) != expr_value_view(*b));
            false
        },
    }
}

/// The type name of an expression result, as diagnostics print it.
pub fn expr_value_type_name(v: &ExprValue) -> (r: &'static str)
    ensures
        r@ == crate::semantics::ev_type_name(expr_value_view(*v)),
{
    match v {
        ExprValue::Inline => "inline",
        ExprValue::Drop => "drop",
        ExprValue::Yaml(y) => yaml_type_name(y),
    }
}

/// The debug form of an expression result, as diagnostics print it.
pub fn expr_value_debug_string(v: &ExprValue) -> (r: String)
    ensures
        r@ == crate::semantics::ev_debug(expr_value_view(*v)),
{
    match v {
        ExprValue::Inline => str_owned("inline"),
        ExprValue::Drop => str_owned("drop"),
        ExprValue::Yaml(y) => yaml_debug_string(y),
    }
}

fn str_owned(s: &str) -> (r: String)
    ensures
        r@ == s@,
{
    let mut out = String::new();
    out.append(s);
    proof {
        assert(out@ =~= s@);
    }
    out
}

/// Interprets a whole template file against a configuration and a set of
/// named variables, returning the output documents.
pub fn interpret(file_templ: &FileTemplate, config: Yaml, variables: Vec<(String, Yaml)>) -> (r:
    Result<Vec<Yaml>, TemplError>)
    ensures
        res_docs_view(r) == crate::semantics::sp_file(
            yaml_view(config),
            seq![frame_view(variables@)],
            file_templ.docs@,
            0,
            Seq::empty(),
        ),
{
    let mut interpreter_run = InterpreterRun::new(config, variables);
    interpreter_run.interpret_file(file_templ)
}

/// The model of an output document list.
pub open spec fn res_docs_view(r: Result<Vec<Yaml>, TemplError>) -> Result<
    Seq<crate::yaml::YamlV>,
    crate::errors::ErrV,
> {
    match r {
        Ok(docs) => Ok(crate::yaml::yaml_seq_view(docs@)),
        Err(e) => Err(e@),
    }
}

/// The model of a value-or-error result.
pub open spec fn res_yaml_view(r: Result<Yaml, TemplError>) -> Result<
    crate::yaml::YamlV,
    crate::errors::ErrV,
> {
    match r {
        Ok(v) => Ok(yaml_view(v)),
        Err(e) => Err(e@),
    }
}

/// The model of an expression result.
pub open spec fn res_ev_view(r: Result<ExprValue, TemplError>) -> Result<
    ExprValueV,
    crate::errors::ErrV,
> {
    match r {
        Ok(v) => Ok(expr_value_view(v)),
        Err(e) => Err(e@),
    }
}

/// The model of a scalar segment result.
pub open spec fn res_sv_view(r: Result<ScalarValue, TemplError>) -> Result<
    ScalarValueV,
    crate::errors::ErrV,
> {
    match r {
        Ok(v) => Ok(scalar_value_view(v)),
        Err(e) => Err(e@),
    }
}

/// The model of a node result.
pub open spec fn res_value_view(r: Result<Value, TemplError>) -> Result<
    ValueV,
    crate::errors::ErrV,
> {
    match r {
        Ok(v) => Ok(value_view(v)),
        Err(e) => Err(e@),
    }
}

/// The model of a condition result.
pub open spec fn res_bool_view(r: Result<bool, TemplError>) -> Result<bool, crate::errors::ErrV> {
    match r {
        Ok(b) => Ok(b),
        Err(e) => Err(e@),
    }
}

} // verus!
