//! The expression parser: a recursive descent over the lexed tokens of a
//! `${{ ... }}` region, producing a statement. The parse functions return
//! exactly what the specification-level descent says.
//!
//! Grammar: a statement is `if` expression, `for` variables `in`
//! expression, or an expression; an expression is a left-associative
//! chain of `==`/`!=` over atoms; an atom is a literal, a variable
//! query, or a `.`-rooted query with identifier and `[expression]`
//! index steps.

use vstd::prelude::*;
use crate::ast::{
    Expr, ExprBinding, ExprIndex, ExprInteger, ExprOpBinary, ExprQuery, ExprReal, ExprString,
    ExprV, QueryV, Statement, StatementFor, StatementIf, StatementV, binding_names, expr_view,
    query_view, stmt_view,
};
use crate::lexer::{SpannedToken, TokV, Token, lex_at, lex_expr, tokens_view};
use crate::strutil::str_eq;

verus! {

broadcast use vstd::seq::group_seq_axioms, vstd::std_specs::vec::group_vec_axioms;

/// Parses an atom at `p`: a literal, a variable, or a query.
pub open spec fn sp_atom(ts: Seq<(TokV, int, int)>, p: int) -> Option<(ExprV, int)>
    decreases ts.len() - p, 2int,
{
    if p < 0 || p >= ts.len() {
        None
    } else {
        match ts[p].0 {
            TokV::Str(s) => Some((ExprV::Str(s), p + 1)),
            TokV::Integer(i) => Some((ExprV::Integer(i), p + 1)),
            TokV::Real(s) => Some((ExprV::Real(s), p + 1)),
            TokV::Ident(s) => if s == "inline"@ {
                Some((ExprV::Inline, p + 1))
            } else if s == "drop"@ {
                Some((ExprV::Drop, p + 1))
            } else if s == "true"@ {
                Some((ExprV::True, p + 1))
            } else if s == "false"@ {
                Some((ExprV::False, p + 1))
            } else {
                None
            },
            TokV::Variable(name) => match sp_postfix(ts, p + 1, QueryV::Var(name)) {
                Some((q, p2)) => Some((ExprV::Query(q), p2)),
                None => None,
            },
            TokV::Dot => if p + 1 >= ts.len() {
                Some((ExprV::Query(QueryV::Root), p + 1))
            } else {
                match ts[p + 1].0 {
                    TokV::Ident(name) => match sp_postfix(
                        ts,
                        p + 2,
                        QueryV::Index(Box::new(QueryV::Root), Box::new(ExprV::Str(name))),
                    ) {
                        Some((q, p2)) => Some((ExprV::Query(q), p2)),
                        None => None,
                    },
                    TokV::LBracket => match sp_bracket(ts, p + 2, QueryV::Root) {
                        Some((q, p2)) => Some((ExprV::Query(q), p2)),
                        None => None,
                    },
                    _ => Some((ExprV::Query(QueryV::Root), p + 1)),
                }
            },
            _ => None,
        }
    }
}

/// Parses the index steps that may follow a query.
pub open spec fn sp_postfix(ts: Seq<(TokV, int, int)>, p: int, q: QueryV) -> Option<(QueryV, int)>
    decreases ts.len() - p, 1int,
{
    if p < 0 || p + 1 >= ts.len() {
        Some((q, p))
    } else if ts[p].0 is Dot && ts[p + 1].0 is Ident {
        let name = ts[p + 1].0->Ident_0;
        sp_postfix(ts, p + 2, QueryV::Index(Box::new(q), Box::new(ExprV::Str(name))))
    } else if ts[p].0 is Dot && ts[p + 1].0 is LBracket {
        sp_bracket(ts, p + 2, q)
    } else if ts[p].0 is LBracket {
        sp_bracket(ts, p + 1, q)
    } else {
        Some((q, p))
    }
}

/// Parses a bracketed index expression starting just after `[`, closing
/// with `]`, and then any further index steps.
pub open spec fn sp_bracket(ts: Seq<(TokV, int, int)>, p: int, q: QueryV) -> Option<(QueryV, int)>
    decreases ts.len() - p, 4int,
{
    match sp_expr_toks(ts, p) {
        None => None,
        Some((e, p2)) => if p2 < ts.len() && ts[p2].0 is RBracket && p2 >= p {
            sp_postfix(ts, p2 + 1, QueryV::Index(Box::new(q), Box::new(e)))
        } else {
            None
        },
    }
}

/// Parses the `==`/`!=` chain after a first atom, folding left.
pub open spec fn sp_cmp_rest(ts: Seq<(TokV, int, int)>, p: int, acc: ExprV) -> Option<
    (ExprV, int),
>
    decreases ts.len() - p, 2int,
{
    if p < 0 || p >= ts.len() {
        Some((acc, p))
    } else if ts[p].0 is OpEq {
        match sp_atom(ts, p + 1) {
            None => None,
            Some((rhs, p2)) => if p < p2 <= ts.len() {
                sp_cmp_rest(ts, p2, ExprV::Eq(Box::new(acc), Box::new(rhs)))
            } else {
                None
            },
        }
    } else if ts[p].0 is OpNe {
        match sp_atom(ts, p + 1) {
            None => None,
            Some((rhs, p2)) => if p < p2 <= ts.len() {
                sp_cmp_rest(ts, p2, ExprV::Ne(Box::new(acc), Box::new(rhs)))
            } else {
                None
            },
        }
    } else {
        Some((acc, p))
    }
}

/// Parses an expression at `p`.
pub open spec fn sp_expr_toks(ts: Seq<(TokV, int, int)>, p: int) -> Option<(ExprV, int)>
    decreases ts.len() - p, 3int,
{
    match sp_atom(ts, p) {
        None => None,
        Some((a, p2)) => if p < p2 <= ts.len() {
            sp_cmp_rest(ts, p2, a)
        } else {
            None
        },
    }
}

/// Parses the binding list of a `for`: variables separated by commas,
/// ending at the `in` keyword.
pub open spec fn sp_varlist(ts: Seq<(TokV, int, int)>, p: int, acc: Seq<Seq<char>>) -> Option<
    (Seq<Seq<char>>, int),
>
    decreases ts.len() - p, 5int,
{
    if p < 0 || p >= ts.len() {
        None
    } else {
        match ts[p].0 {
            TokV::Variable(name) => if p + 1 < ts.len() && ts[p + 1].0 is Comma {
                sp_varlist(ts, p + 2, acc.push(name))
            } else {
                Some((acc.push(name), p + 1))
            },
            _ => None,
        }
    }
}

/// Parses one statement at `p`.
pub open spec fn sp_stmt_toks(ts: Seq<(TokV, int, int)>, p: int) -> Option<(StatementV, int)>
    decreases ts.len() - p, 6int,
{
    if p < 0 || p >= ts.len() {
        None
    } else if ts[p].0 == TokV::Ident("if"@) {
        match sp_expr_toks(ts, p + 1) {
            None => None,
            Some((e, p2)) => Some((StatementV::If(e), p2)),
        }
    } else if ts[p].0 == TokV::Ident("for"@) {
        match sp_varlist(ts, p + 1, Seq::empty()) {
            None => None,
            Some((names, p2)) => if p2 < ts.len() && ts[p2].0 == TokV::Ident("in"@) && p2 > p {
                match sp_expr_toks(ts, p2 + 1) {
                    None => None,
                    Some((e, p3)) => Some((StatementV::For(names, e), p3)),
                }
            } else {
                None
            },
        }
    } else {
        match sp_expr_toks(ts, p) {
            None => None,
            Some((e, p2)) => Some((StatementV::Expr(e), p2)),
        }
    }
}

/// Parses a whole `${{ statement }}`: the result carries the index of the
/// `End` token.
pub open spec fn sp_parse_toks(ts: Seq<(TokV, int, int)>) -> Option<(StatementV, int)> {
    if ts.len() == 0 || !(ts[0].0 is Start) {
        None
    } else {
        match sp_stmt_toks(ts, 1) {
            None => None,
            Some((st, p)) => if 0 <= p < ts.len() && ts[p].0 is End {
                Some((st, p))
            } else {
                None
            },
        }
    }
}

/// Parses the expression region starting at the `${{` of a scalar's text:
/// the statement and the number of characters consumed.
pub open spec fn sp_parse_region(s: Seq<char>) -> Option<(StatementV, int)> {
    match lex_at(s, 0) {
        None => None,
        Some(ts) => match sp_parse_toks(ts) {
            None => None,
            Some((st, p)) => Some((st, ts[p].2)),
        },
    }
}

spec fn tsv(ts: Seq<SpannedToken>) -> Seq<(TokV, int, int)> {
    tokens_view(ts)
}

fn atom_c(ts: &Vec<SpannedToken>, p: usize) -> (r: Option<(Expr, usize)>)
    requires
        p <= ts@.len(),
    ensures
        match r {
            Some((e, p2)) => sp_atom(tsv(ts@), p as int) == Some((expr_view(e), p2 as int)) && p
                < p2 <= ts@.len(),
            None => sp_atom(tsv(ts@), p as int) is None,
        },
    decreases ts@.len() - p, 2int,
{
    proof {
        reveal_with_fuel(query_view, 3);
        reveal_with_fuel(expr_view, 3);
    }
    if p >= ts.len() {
        return None;
    }
    match &ts[p].tok {
        Token::String(s) => Some((Expr::String(ExprString { value: s.clone() }), p + 1)),
        Token::Integer(i) => Some((Expr::Integer(ExprInteger { value: *i }), p + 1)),
        Token::Real(s) => Some((Expr::Real(ExprReal { value: s.clone() }), p + 1)),
        Token::Ident(s) => {
            if str_eq(s.as_str(), "inline") {
                Some((Expr::Inline, p + 1))
            } else if str_eq(s.as_str(), "drop") {
                Some((Expr::Drop, p + 1))
            } else if str_eq(s.as_str(), "true") {
                Some((Expr::True, p + 1))
            } else if str_eq(s.as_str(), "false") {
                Some((Expr::False, p + 1))
            } else {
                None
            }
        },
        Token::Variable(name) => {
            match postfix_c(ts, p + 1, ExprQuery::Var(name.clone())) {
                Some((q, p2)) => Some((Expr::Query(q), p2)),
                None => None,
            }
        },
        Token::Dot => {
            if ts.len() - p < 2 {
                return Some((Expr::Query(ExprQuery::Root), p + 1));
            }
            match &ts[p + 1].tok {
                Token::Ident(name) => {
                    let root = ExprQuery::Index(
                        ExprIndex {
                            object: Box::new(ExprQuery::Root),
                            index: Box::new(Expr::String(ExprString { value: name.clone() })),
                        },
                    );
                    match postfix_c(ts, p + 2, root) {
                        Some((q, p2)) => Some((Expr::Query(q), p2)),
                        None => None,
                    }
                },
                Token::LBracket => {
                    match bracket_c(ts, p + 2, ExprQuery::Root) {
                        Some((q, p2)) => Some((Expr::Query(q), p2)),
                        None => None,
                    }
                },
                _ => Some((Expr::Query(ExprQuery::Root), p + 1)),
            }
        },
        _ => None,
    }
}

fn postfix_c(ts: &Vec<SpannedToken>, p: usize, q: ExprQuery) -> (r: Option<(ExprQuery, usize)>)
    requires
        p <= ts@.len(),
    ensures
        match r {
            Some((q2, p2)) => sp_postfix(tsv(ts@), p as int, query_view(q)) == Some(
                (query_view(q2), p2 as int),
            ) && p <= p2 <= ts@.len(),
            None => sp_postfix(tsv(ts@), p as int, query_view(q)) is None,
        },
    decreases ts@.len() - p, 1int,
{
    if ts.len() - p < 2 {
        return Some((q, p));
    }
    if matches!(&ts[p].tok, Token::Dot) {
        match &ts[p + 1].tok {
            Token::Ident(name) => {
                let ghost qv = query_view(q);
                let cloned = name.clone();
                proof {
                    assert(cloned@ == name@);
                }
                let q2 = ExprQuery::Index(
                    ExprIndex {
                        object: Box::new(q),
                        index: Box::new(Expr::String(ExprString { value: cloned })),
                    },
                );
                proof {
                    reveal_with_fuel(query_view, 2);
                    reveal_with_fuel(expr_view, 2);
                    assert(query_view(q2) == QueryV::Index(
                        Box::new(qv),
                        Box::new(ExprV::Str(name@)),
                    ));
                }
                return postfix_c(ts, p + 2, q2);
            },
            Token::LBracket => {
                return bracket_c(ts, p + 2, q);
            },
            _ => {
                return Some((q, p));
            },
        }
    }
    if matches!(&ts[p].tok, Token::LBracket) {
        return bracket_c(ts, p + 1, q);
    }
    Some((q, p))
}

fn bracket_c(ts: &Vec<SpannedToken>, p: usize, q: ExprQuery) -> (r: Option<(ExprQuery, usize)>)
    requires
        p <= ts@.len(),
    ensures
        match r {
            Some((q2, p2)) => sp_bracket(tsv(ts@), p as int, query_view(q)) == Some(
                (query_view(q2), p2 as int),
            ) && p <= p2 <= ts@.len(),
            None => sp_bracket(tsv(ts@), p as int, query_view(q)) is None,
        },
    decreases ts@.len() - p, 4int,
{
    let (e, p2) = match expr_toks_c(ts, p) {
        Some(x) => x,
        None => {
            return None;
        },
    };
    if p2 < ts.len() {
        let rb = match &ts[p2].tok {
            Token::RBracket => true,
            _ => false,
        };
        if rb {
            let q2 = ExprQuery::Index(ExprIndex { object: Box::new(q), index: Box::new(e) });
            return postfix_c(ts, p2 + 1, q2);
        }
    }
    None
}

fn cmp_rest_c(ts: &Vec<SpannedToken>, p: usize, acc: Expr) -> (r: Option<(Expr, usize)>)
    requires
        p <= ts@.len(),
    ensures
        match r {
            Some((e, p2)) => sp_cmp_rest(tsv(ts@), p as int, expr_view(acc)) == Some(
                (expr_view(e), p2 as int),
            ) && p <= p2 <= ts@.len(),
            None => sp_cmp_rest(tsv(ts@), p as int, expr_view(acc)) is None,
        },
    decreases ts@.len() - p, 2int,
{
    if p >= ts.len() {
        return Some((acc, p));
    }
    let is_eq = match &ts[p].tok {
        Token::Eq => true,
        _ => false,
    };
    let is_ne = match &ts[p].tok {
        Token::Ne => true,
        _ => false,
    };
    if is_eq {
        match atom_c(ts, p + 1) {
            None => None,
            Some((rhs, p2)) => cmp_rest_c(
                ts,
                p2,
                Expr::Eq(ExprOpBinary { left: Box::new(acc), right: Box::new(rhs) }),
            ),
        }
    } else if is_ne {
        match atom_c(ts, p + 1) {
            None => None,
            Some((rhs, p2)) => cmp_rest_c(
                ts,
                p2,
                Expr::Ne(ExprOpBinary { left: Box::new(acc), right: Box::new(rhs) }),
            ),
        }
    } else {
        Some((acc, p))
    }
}

fn expr_toks_c(ts: &Vec<SpannedToken>, p: usize) -> (r: Option<(Expr, usize)>)
    requires
        p <= ts@.len(),
    ensures
        match r {
            Some((e, p2)) => sp_expr_toks(tsv(ts@), p as int) == Some((expr_view(e), p2 as int))
                && p < p2 <= ts@.len(),
            None => sp_expr_toks(tsv(ts@), p as int) is None,
        },
    decreases ts@.len() - p, 3int,
{
    match atom_c(ts, p) {
        None => None,
        Some((a, p2)) => cmp_rest_c(ts, p2, a),
    }
}

fn varlist_c(ts: &Vec<SpannedToken>, p: usize, acc: Vec<ExprBinding>) -> (r: Option<
    (Vec<ExprBinding>, usize),
>)
    requires
        p <= ts@.len(),
    ensures
        match r {
            Some((bs, p2)) => sp_varlist(tsv(ts@), p as int, binding_names(acc@)) == Some(
                (binding_names(bs@), p2 as int),
            ) && p < p2 <= ts@.len(),
            None => sp_varlist(tsv(ts@), p as int, binding_names(acc@)) is None,
        },
    decreases ts@.len() - p, 5int,
{
    if p >= ts.len() {
        return None;
    }
    let name = match &ts[p].tok {
        Token::Variable(name) => name.clone(),
        _ => {
            return None;
        },
    };
    let mut acc = acc;
    let ghost accv = binding_names(acc@);
    acc.push(ExprBinding::Var(name));
    proof {
        assert(binding_names(acc@) =~= accv.push(acc@.last()->Var_0@));
    }
    if p + 1 < ts.len() {
        let comma = match &ts[p + 1].tok {
            Token::Comma => true,
            _ => false,
        };
        if comma {
            return varlist_c(ts, p + 2, acc);
        }
    }
    Some((acc, p + 1))
}

fn stmt_toks_c(ts: &Vec<SpannedToken>, p: usize) -> (r: Option<(Statement, usize)>)
    requires
        p <= ts@.len(),
    ensures
        match r {
            Some((st, p2)) => sp_stmt_toks(tsv(ts@), p as int) == Some(
                (stmt_view(st), p2 as int),
            ) && p < p2 <= ts@.len(),
            None => sp_stmt_toks(tsv(ts@), p as int) is None,
        },
    decreases ts@.len() - p, 6int,
{
    if p >= ts.len() {
        return None;
    }
    let kw_if = match &ts[p].tok {
        Token::Ident(s) => str_eq(s.as_str(), "if"),
        _ => false,
    };
    if kw_if {
        return match expr_toks_c(ts, p + 1) {
            None => None,
            Some((e, p2)) => Some((Statement::If(StatementIf { condition: e }), p2)),
        };
    }
    let kw_for = match &ts[p].tok {
        Token::Ident(s) => str_eq(s.as_str(), "for"),
        _ => false,
    };
    if kw_for {
        let empty: Vec<ExprBinding> = Vec::new();
        proof {
            assert(binding_names(empty@) =~= Seq::<Seq<char>>::empty());
        }
        let (names, p2) = match varlist_c(ts, p + 1, empty) {
            None => {
                return None;
            },
            Some(x) => x,
        };
        if p2 < ts.len() {
            let kw_in = match &ts[p2].tok {
                Token::Ident(s) => str_eq(s.as_str(), "in"),
                _ => false,
            };
            if kw_in {
                return match expr_toks_c(ts, p2 + 1) {
                    None => None,
                    Some((e, p3)) => Some(
                        (Statement::For(StatementFor { bindings: names, iterable: e }), p3),
                    ),
                };
            }
        }
        return None;
    }
    match expr_toks_c(ts, p) {
        None => None,
        Some((e, p2)) => Some((Statement::Expr(e), p2)),
    }
}

/// Parses one `${{ ... }}` region out of the characters of a scalar,
/// starting at its `${{`: the statement and how many characters of `s`
/// the region occupied.
pub fn parse_template_expression(s: &Vec<char>) -> (r: Option<(Statement, usize)>)
    ensures
        match r {
            Some((st, consumed)) => sp_parse_region(s@) == Some((stmt_view(st), consumed as int))
                && 0 < consumed <= s@.len(),
            None => sp_parse_region(s@) is None,
        },
{
    let ts = match lex_expr(s) {
        None => {
            return None;
        },
        Some(ts) => ts,
    };
    if ts.len() == 0 {
        return None;
    }
    let is_start = match &ts[0].tok {
        Token::Start => true,
        _ => false,
    };
    if !is_start {
        return None;
    }
    let (st, p) = match stmt_toks_c(&ts, 1) {
        None => {
            return None;
        },
        Some(x) => x,
    };
    if p >= ts.len() {
        return None;
    }
    let is_end = match &ts[p].tok {
        Token::End => true,
        _ => false,
    };
    if !is_end {
        return None;
    }
    Some((st, ts[p].end))
}

/// The expression parser as a reusable object.
pub struct TemplateExprParser {}

impl TemplateExprParser {
    pub fn new() -> TemplateExprParser {
        TemplateExprParser {}
    }

    /// Parses the `${{ ... }}` region at the start of `expr_str`: the
    /// statement and how many characters it occupied.
    pub fn parse(&self, expr_str: &str) -> (r: Result<(Statement, usize), String>)
        ensures
            match r {
                Ok((st, consumed)) => sp_parse_region(expr_str@) == Some(
                    (stmt_view(st), consumed as int),
                ),
                Err(_) => sp_parse_region(expr_str@) is None,
            },
    {
        let chars = crate::strutil::str_chars(expr_str);
        match parse_template_expression(&chars) {
            Some(x) => Ok(x),
            None => Err(parse_error_message()),
        }
    }
}

fn parse_error_message() -> (r: String)
    ensures
        r@ == "expression parse errors (count=1)"@,
{
    let mut out = String::new();
    out.append("expression parse errors (count=1)");
    proof {
        assert(out@ =~= "expression parse errors (count=1)"@);
    }
    out
}

} // verus!
