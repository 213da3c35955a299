//! End-to-end tests of the engine: a template and a configuration in, the
//! rendered YAML out. Structured outputs are parsed back and compared by
//! value, so the emitter's exact layout does not matter.

use yadot::ast::{NodeTemplate, ScalarTemplateValue};
use yadot::loader::parse_yaml_str;
use yadot::process_template::{VariableValue, process_yaml_template_str};
use yadot::yaml::Yaml;

fn run(template: &str, config: &str) -> Result<String, String> {
    process_yaml_template_str("test.yaml", template, config, Vec::new())
}

fn run_vars(template: &str, config: &str, vars: Vec<(String, VariableValue)>) -> Result<
    String,
    String,
> {
    process_yaml_template_str("test.yaml", template, config, vars)
}

fn load(text: &str) -> Vec<Yaml> {
    parse_yaml_str(text).expect("output should be yaml")
}

fn s(text: &str) -> Yaml {
    Yaml::String(text.to_string())
}

fn entry(k: &str, v: Yaml) -> (Yaml, Yaml) {
    (s(k), v)
}

fn assert_same(a: &Yaml, b: &Yaml) {
    assert!(a.structural_eq(b));
}

#[test]
fn string_expression_value() {
    let out = run("hello: ${{ \"world\" }}", "").unwrap();
    let docs = load(&out);
    assert_eq!(docs.len(), 1);
    assert_same(&docs[0], &Yaml::Hash(vec![entry("hello", s("world"))]));
}

#[test]
fn plain_template_unchanged() {
    let out = run("a: 1", "").unwrap();
    assert_eq!(out, "---\na: 1");
    let docs = load(&out);
    assert_same(&docs[0], &Yaml::Hash(vec![entry("a", Yaml::Integer(1))]));
}

#[test]
fn inline_merges_sibling_entries() {
    let template = "parent:\n  ${{ inline }}: { x: 1, y: 2 }\n  z: 3";
    let out = run(template, "").unwrap();
    let docs = load(&out);
    let expected = Yaml::Hash(vec![entry(
        "parent",
        Yaml::Hash(vec![
            entry("x", Yaml::Integer(1)),
            entry("y", Yaml::Integer(2)),
            entry("z", Yaml::Integer(3)),
        ]),
    )]);
    assert_same(&docs[0], &expected);
}

#[test]
fn drop_alone_gives_empty_output() {
    let out = run("${{ drop }}: _", "").unwrap();
    assert_eq!(out, "");
}

#[test]
fn drop_with_sibling_keeps_sibling() {
    let out = run("keep: 1\n${{ drop }}: _", "").unwrap();
    let docs = load(&out);
    assert_eq!(docs.len(), 1);
    assert_same(&docs[0], &Yaml::Hash(vec![entry("keep", Yaml::Integer(1))]));
}

#[test]
fn for_over_list_builds_list() {
    let template = "${{ for $u in .users }}:\n  - ${{ $u }}";
    let out = run(template, "users: [alice, bob]").unwrap();
    let docs = load(&out);
    assert_eq!(docs.len(), 1);
    assert_same(&docs[0], &Yaml::Array(vec![s("alice"), s("bob")]));
}

#[test]
fn for_over_map_builds_map() {
    let template = "${{ for $k, $v in .pairs }}:\n  ${{ $k }}: ${{ $v }}";
    let out = run(template, "pairs: {a: x, b: y}").unwrap();
    let docs = load(&out);
    assert_same(&docs[0], &Yaml::Hash(vec![entry("a", s("x")), entry("b", s("y"))]));
}

#[test]
fn if_true_includes_if_false_drops() {
    let template = "${{ if .flag }}:\n  included: yes";
    let out = run(template, "flag: true").unwrap();
    let docs = load(&out);
    assert_same(&docs[0], &Yaml::Hash(vec![entry("included", s("yes"))]));

    let out = run(template, "flag: false").unwrap();
    assert_eq!(out, "");
}

#[test]
fn missing_key_error_is_spanned() {
    let err = run("x: ${{ .missing }}", "{}").unwrap_err();
    assert!(err.starts_with("test.yaml:1:4 "), "unexpected message: {}", err);
    assert!(err.contains("index"));
    assert!(err.contains("not found"));
}

#[test]
fn unknown_variable_error() {
    let err = run("x: ${{ $nope }}", "").unwrap_err();
    assert_eq!(err, "test.yaml:1:4 cannot find variable 'nope'");
}

#[test]
fn equality_of_value_with_itself() {
    let out = run("same: ${{ .a == .a }}\ndiff: ${{ .a != .a }}", "a: [1, 2]").unwrap();
    let docs = load(&out);
    let expected = Yaml::Hash(vec![
        entry("same", Yaml::Boolean(true)),
        entry("diff", Yaml::Boolean(false)),
    ]);
    assert_same(&docs[0], &expected);
}

#[test]
fn substring_concatenation() {
    let out = run("msg: pre-${{ \"mid\" }}-post", "").unwrap();
    let docs = load(&out);
    assert_same(&docs[0], &Yaml::Hash(vec![entry("msg", s("pre-mid-post"))]));
}

#[test]
fn map_order_is_preserved() {
    let out = run("b: 1\nz: 2\na: 3\nm: 4", "").unwrap();
    assert_eq!(out, "---\nb: 1\nz: 2\na: 3\nm: 4");
}

#[test]
fn inline_list_into_list() {
    let template = "- start\n- ${{ inline }}: ${{ .more }}\n- end";
    let out = run(template, "more: [x, y]").unwrap();
    let docs = load(&out);
    assert_same(&docs[0], &Yaml::Array(vec![s("start"), s("x"), s("y"), s("end")]));
}

#[test]
fn inline_map_into_list_fails() {
    let template = "- ${{ inline }}: {a: 1}";
    let err = run(template, "").unwrap_err();
    assert!(err.contains("cannot inline maps into lists"), "unexpected message: {}", err);
}

#[test]
fn inline_list_into_map_fails() {
    let template = "a: 1\n${{ inline }}: [1, 2]";
    let err = run(template, "").unwrap_err();
    assert!(err.contains("cannot inline lists into maps"), "unexpected message: {}", err);
}

#[test]
fn directive_as_value_fails() {
    let err = run("a: ${{ drop }}", "").unwrap_err();
    assert!(
        err.contains("expression value 'drop' can only be used as a map key"),
        "unexpected message: {}",
        err,
    );
}

#[test]
fn directive_as_substring_fails() {
    let err = run("a: x${{ inline }}y", "").unwrap_err();
    assert!(
        err.contains("expression value 'inline' cannot be a substring"),
        "unexpected message: {}",
        err,
    );
}

#[test]
fn for_bindings_must_match_iterable() {
    let err = run("${{ for $a, $b in .xs }}:\n  - ${{ $a }}", "xs: [1]").unwrap_err();
    assert!(
        err.contains("for loop over list requires 1 binding item, found 2"),
        "unexpected message: {}",
        err,
    );
}

#[test]
fn iterating_a_scalar_fails() {
    let err = run("${{ for $a in .n }}:\n  - ${{ $a }}", "n: 5").unwrap_err();
    assert!(err.contains("value type integer is not iteratable"), "unexpected message: {}", err);
}

#[test]
fn list_index_out_of_bounds() {
    let err = run("x: ${{ .xs[4] }}", "xs: [1]").unwrap_err();
    assert!(err.contains("index 4 is out of bounds"), "unexpected message: {}", err);
}

#[test]
fn scope_of_for_binding_ends_with_the_loop() {
    // The binding is visible inside the loop body only; using it after the
    // loop is an unknown variable.
    let template = "${{ for $u in .users }}:\n  k${{ $u }}: 1\nafter: ${{ $u }}";
    let err = run(template, "users: [a]").unwrap_err();
    assert!(err.contains("cannot find variable 'u'"), "unexpected message: {}", err);
}

#[test]
fn inner_binding_shadows_outer_variable() {
    // The command-line variable is shadowed inside the loop and visible
    // again, unchanged, after it.
    let template = "a:\n  ${{ for $u in .users }}:\n    - ${{ $u }}\nb: ${{ $u }}";
    let out = run_vars(
        template,
        "users: [inner]",
        vec![("u".to_string(), VariableValue::String("outer".to_string()))],
    )
    .unwrap();
    let docs = load(&out);
    let expected = Yaml::Hash(vec![
        entry("a", Yaml::Array(vec![s("inner")])),
        entry("b", s("outer")),
    ]);
    assert_same(&docs[0], &expected);
}

#[test]
fn later_variable_overrides_earlier() {
    let out = run_vars(
        "v: ${{ $x }}",
        "",
        vec![
            ("x".to_string(), VariableValue::String("first".to_string())),
            ("x".to_string(), VariableValue::String("second".to_string())),
        ],
    )
    .unwrap();
    let docs = load(&out);
    assert_same(&docs[0], &Yaml::Hash(vec![entry("v", s("second"))]));
}

#[test]
fn yaml_variable_is_parsed() {
    let out = run_vars(
        "v: ${{ $x.a }}",
        "",
        vec![("x".to_string(), VariableValue::Yaml("a: 7".to_string()))],
    )
    .unwrap();
    let docs = load(&out);
    assert_same(&docs[0], &Yaml::Hash(vec![entry("v", Yaml::Integer(7))]));
}

#[test]
fn config_must_be_single_document() {
    let err = run("a: 1", "---\na: 1\n---\nb: 2").unwrap_err();
    assert!(
        err.contains("config yaml must only have a single document"),
        "unexpected message: {}",
        err,
    );
}

#[test]
fn aliases_are_rejected() {
    let err = run("a: &x 1\nb: *x", "").unwrap_err();
    assert!(err.contains("alias"), "unexpected message: {}", err);
}

#[test]
fn multiple_documents_pass_through() {
    // The emitter writes documents back to back, each beginning with its
    // own `---` marker.
    let out = run("---\na: 1\n---\nb: 2", "").unwrap();
    assert_eq!(out, "---\na: 1---\nb: 2");
}

#[test]
fn single_inline_replaces_document() {
    let out = run("${{ inline }}: {a: 1}", "").unwrap();
    let docs = load(&out);
    assert_same(&docs[0], &Yaml::Hash(vec![entry("a", Yaml::Integer(1))]));
}

#[test]
fn empty_scalar_is_one_empty_literal_segment() {
    // An empty scalar parses to exactly one segment: the empty literal.
    // It still evaluates to the empty string.
    let parser = yadot::template::Parser::new();
    let file = parser.parse("test.yaml", "a: \"\"").unwrap();
    let map = match &file.docs[0].node {
        NodeTemplate::Mapping(mt) => mt,
        _ => panic!("expected a mapping"),
    };
    let scalar = match &map.entries[0].value {
        NodeTemplate::Scaler(st) => st,
        _ => panic!("expected a scalar"),
    };
    assert_eq!(scalar.values.len(), 1);
    match &scalar.values[0] {
        ScalarTemplateValue::String(text) => assert_eq!(text, ""),
        _ => panic!("expected a literal segment"),
    }
}

#[test]
fn colliding_keys_merge_on_emission() {
    // A quoted string key and a real-number key share their emitted form;
    // the merged key keeps the first position with the last value, ahead
    // of later entries.
    let out = run("\"1.5\": a\nz: 0\n${{ 1.5 }}: b", "").unwrap();
    assert_eq!(out, "---\n1.5: b\nz: 0");
}

#[test]
fn parsed_spans_run_forward_and_nest() {
    // The parser guarantees every span runs forward and covers its
    // children; the outer map's span starts at its first key, not at the
    // first separator.
    let parser = yadot::template::Parser::new();
    let file = parser.parse("test.yaml", "a:\n  b: c").unwrap();
    let doc = &file.docs[0];
    let outer = match &doc.node {
        NodeTemplate::Mapping(mt) => mt,
        _ => panic!("expected a mapping"),
    };
    assert_eq!(outer.src_loc.start.index, 0);
    assert!(outer.src_loc.start.index <= outer.src_loc.end.index);
    let inner = match &outer.entries[0].value {
        NodeTemplate::Mapping(mt) => mt,
        _ => panic!("expected a nested mapping"),
    };
    assert!(outer.src_loc.start.index <= inner.src_loc.start.index);
    assert!(inner.src_loc.end.index <= outer.src_loc.end.index);
    assert!(doc.src_loc.start.index <= outer.src_loc.start.index);
}

#[test]
fn map_valued_keys_are_emitted() {
    // A key that is itself a map round-trips through emission.
    let out = run("{a: 1}: v", "").unwrap();
    let docs = load(&out);
    let expected = Yaml::Hash(vec![(
        Yaml::Hash(vec![entry("a", Yaml::Integer(1))]),
        s("v"),
    )]);
    assert_same(&docs[0], &expected);
}

#[test]
fn nested_query_through_config() {
    let out = run("v: ${{ .a.b[1] }}", "a: {b: [x, y, z]}").unwrap();
    let docs = load(&out);
    assert_same(&docs[0], &Yaml::Hash(vec![entry("v", s("y"))]));
}
