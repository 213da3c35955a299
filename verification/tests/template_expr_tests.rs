//! Tests of the expression parser: what one `${{ ... }}` region parses to
//! and how many characters it occupies.

use yadot::ast::{Expr, ExprQuery, Statement};
use yadot::expr_parser::TemplateExprParser;

fn parse_ok(input: &str) -> (Statement, usize) {
    let parser = TemplateExprParser::new();
    parser.parse(input).expect("expression should parse")
}

#[test]
fn string_simple() {
    let (stmt, end) = parse_ok("${{\"abc\"}}");
    match stmt {
        Statement::Expr(Expr::String(s)) => assert_eq!(s.value, "abc"),
        _ => panic!("expected a string expression"),
    }
    assert_eq!(end, 10);
}

#[test]
fn string_with_whitespace() {
    let (stmt, end) = parse_ok("${{ \"abc\" }}");
    match stmt {
        Statement::Expr(Expr::String(s)) => assert_eq!(s.value, "abc"),
        _ => panic!("expected a string expression"),
    }
    assert_eq!(end, 12);
}

#[test]
fn drop_simple() {
    let (stmt, end) = parse_ok("${{drop}}");
    assert!(matches!(stmt, Statement::Expr(Expr::Drop)));
    assert_eq!(end, 9);
}

#[test]
fn drop_with_whitespace() {
    let (stmt, end) = parse_ok("${{ drop }}");
    assert!(matches!(stmt, Statement::Expr(Expr::Drop)));
    assert_eq!(end, 11);
}

#[test]
fn inline_simple() {
    let (stmt, end) = parse_ok("${{inline}}");
    assert!(matches!(stmt, Statement::Expr(Expr::Inline)));
    assert_eq!(end, 11);
}

#[test]
fn inline_with_whitespace() {
    let (stmt, end) = parse_ok("${{ inline }}");
    assert!(matches!(stmt, Statement::Expr(Expr::Inline)));
    assert_eq!(end, 13);
}

#[test]
fn query_root() {
    let (stmt, _) = parse_ok("${{ . }}");
    assert!(matches!(stmt, Statement::Expr(Expr::Query(ExprQuery::Root))));
}

#[test]
fn query_nested_child() {
    let (stmt, _) = parse_ok("${{ .a.b }}");
    let q = match stmt {
        Statement::Expr(Expr::Query(ExprQuery::Index(ix))) => ix,
        _ => panic!("expected an index query"),
    };
    match (*q.object, *q.index) {
        (ExprQuery::Index(inner), Expr::String(b)) => {
            assert_eq!(b.value, "b");
            assert!(matches!(*inner.object, ExprQuery::Root));
            match *inner.index {
                Expr::String(a) => assert_eq!(a.value, "a"),
                _ => panic!("expected a field name"),
            }
        },
        _ => panic!("expected a nested index query"),
    }
}

#[test]
fn query_bracket_index() {
    let (stmt, _) = parse_ok("${{ .users[0] }}");
    let q = match stmt {
        Statement::Expr(Expr::Query(ExprQuery::Index(ix))) => ix,
        _ => panic!("expected an index query"),
    };
    match *q.index {
        Expr::Integer(i) => assert_eq!(i.value, 0),
        _ => panic!("expected an integer index"),
    }
}

#[test]
fn numbers_and_reals() {
    let (stmt, _) = parse_ok("${{ -42 }}");
    match stmt {
        Statement::Expr(Expr::Integer(i)) => assert_eq!(i.value, -42),
        _ => panic!("expected an integer"),
    }
    let (stmt, _) = parse_ok("${{ 1.5e3 }}");
    match stmt {
        Statement::Expr(Expr::Real(r)) => assert_eq!(r.value, "1.5e3"),
        _ => panic!("expected a real"),
    }
    // Too large for a signed 64-bit integer: kept as its text.
    let (stmt, _) = parse_ok("${{ 9223372036854775808 }}");
    match stmt {
        Statement::Expr(Expr::Real(r)) => assert_eq!(r.value, "9223372036854775808"),
        _ => panic!("expected a real"),
    }
    let (stmt, _) = parse_ok("${{ -9223372036854775808 }}");
    match stmt {
        Statement::Expr(Expr::Integer(i)) => assert_eq!(i.value, i64::MIN),
        _ => panic!("expected the smallest integer"),
    }
}

#[test]
fn equality_chain() {
    let (stmt, _) = parse_ok("${{ true == false }}");
    match stmt {
        Statement::Expr(Expr::Eq(op)) => {
            assert!(matches!(*op.left, Expr::True));
            assert!(matches!(*op.right, Expr::False));
        },
        _ => panic!("expected an equality"),
    }
    let (stmt, _) = parse_ok("${{ \"a\" != \"b\" }}");
    assert!(matches!(stmt, Statement::Expr(Expr::Ne(_))));
}

#[test]
fn if_statement() {
    let (stmt, _) = parse_ok("${{ if .flag }}");
    assert!(matches!(stmt, Statement::If(_)));
}

#[test]
fn for_statement() {
    let (stmt, _) = parse_ok("${{ for $k, $v in .items }}");
    match stmt {
        Statement::For(f) => {
            assert_eq!(f.bindings.len(), 2);
        },
        _ => panic!("expected a for statement"),
    }
}

#[test]
fn variable_query() {
    let (stmt, _) = parse_ok("${{ $u }}");
    match stmt {
        Statement::Expr(Expr::Query(ExprQuery::Var(name))) => assert_eq!(name, "u"),
        _ => panic!("expected a variable query"),
    }
}

#[test]
fn string_escapes() {
    let (stmt, _) = parse_ok("${{ \"a\\n\\t\\\\\\\"\\u0041\" }}");
    match stmt {
        Statement::Expr(Expr::String(s)) => assert_eq!(s.value, "a\n\t\\\"A"),
        _ => panic!("expected a string"),
    }
}

#[test]
fn leading_zero_splits_number() {
    // "0123" lexes as the integer 0 followed by 123; a second number where
    // the closing braces should stand is a parse error.
    let parser = TemplateExprParser::new();
    assert!(parser.parse("${{ 0123 }}").is_err());
}

#[test]
fn unterminated_expression_fails() {
    let parser = TemplateExprParser::new();
    assert!(parser.parse("${{ drop").is_err());
    assert!(parser.parse("${{ ? }}").is_err());
    // A surrogate escape in a string cannot be lexed.
    assert!(parser.parse("${{ \"\\uD800\" }}").is_err());
}
