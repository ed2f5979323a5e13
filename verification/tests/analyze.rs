use relyzer_swc::analyzer::{analyze_module_to_result, analyze_module_with_id, format_id};
use relyzer_swc::plan::{AnalyzeResult, ComponentMetaData, ObservedMeta};

fn observed(list: &[ObservedMeta]) -> Vec<(String, String, String)> {
    list.iter().map(|o| (o.name.clone(), o.loc.clone(), o.observed_type.clone())).collect()
}

fn triple(name: &str, loc: &str, kind: &str) -> (String, String, String) {
    (name.to_string(), loc.to_string(), kind.to_string())
}

fn only_component(r: &AnalyzeResult) -> &ComponentMetaData {
    assert_eq!(r.components.len(), 1, "components: {:?}", r.components);
    &r.components[0]
}

const README_EXAMPLE: &str = "import React, { useMemo } from 'react';\n\n/** @component */\nexport function Demo({ count, title }) {\n  const value = useMemo(() => count * 2, [count]);\n  const info = { value };\n\n  return <Widget label={title} data={info} />;\n}\n";

#[test]
fn readme_example_imports() {
    let r = analyze_module_to_result(README_EXAMPLE, 255);
    assert!(r.ok);
    assert!(r.errors.is_empty());
    assert_eq!(r.imports.len(), 1);
    assert_eq!(r.imports[0].source, "react");
    assert_eq!(r.imports[0].specifiers, vec!["React".to_string(), "useMemo".to_string()]);
}

#[test]
fn readme_example_components() {
    let r = analyze_module_to_result(README_EXAMPLE, 255);
    assert_eq!(r.components.len(), 2);
    let code = "function Demo({ count, title }) {\n  const value = useMemo(() => count * 2, [count]);\n  const info = { value };\n\n  return <Widget label={title} data={info} />;\n}";
    let expected = vec![
        triple("value", "1,8,1,13", "var"),
        triple("count", "1,42,1,47", "dep"),
        triple("info", "2,8,2,12", "var"),
        triple("label", "4,17,4,22", "attr"),
        triple("data", "4,31,4,35", "attr"),
    ];
    let explicit = &r.components[0];
    assert_eq!(explicit.id, "SWC_ff");
    assert_eq!(explicit.name, None);
    assert_eq!(explicit.code, code);
    assert_eq!(explicit.loc.as_deref(), Some("4,7,9,1"));
    assert!(!explicit.should_detect_call_stack);
    assert_eq!(observed(&explicit.observed_list), expected);
    let auto = &r.components[1];
    assert_eq!(auto.id, "SWC_ff");
    assert_eq!(auto.name.as_deref(), Some("Demo"));
    assert_eq!(auto.code, code);
    assert_eq!(auto.loc.as_deref(), Some("4,7,9,1"));
    assert!(auto.should_detect_call_stack);
    assert_eq!(observed(&auto.observed_list), expected);
}

#[test]
fn memo_arrow_component() {
    let code = "const Foo = memo(() => {\n  const a = 1;\n  return <div />;\n});\n";
    let r = analyze_module_to_result(code, 16);
    assert!(r.ok);
    let c = only_component(&r);
    assert_eq!(c.id, "SWC_10");
    assert_eq!(c.name.as_deref(), Some("Foo"));
    assert_eq!(c.code, "() => {\n  const a = 1;\n  return <div />;\n}");
    assert_eq!(c.loc.as_deref(), Some("1,17,4,1"));
    assert!(c.should_detect_call_stack);
    assert_eq!(observed(&c.observed_list), vec![triple("a", "1,8,1,9", "var")]);
}

#[test]
fn memo_function_component() {
    let code = "const Bar = memo(function () {\n  const [x, y] = useState(0);\n  return <Child value={x} />;\n});\n";
    let r = analyze_module_to_result(code, 1);
    let c = only_component(&r);
    assert_eq!(c.name.as_deref(), Some("Bar"));
    assert_eq!(c.code, "function () {\n  const [x, y] = useState(0);\n  return <Child value={x} />;\n}");
    assert_eq!(c.loc.as_deref(), Some("1,17,4,1"));
    assert!(c.should_detect_call_stack);
    assert_eq!(
        observed(&c.observed_list),
        vec![triple("x", "1,9,1,10", "var"), triple("y", "1,12,1,13", "var"), triple("value", "2,16,2,21", "attr")]
    );
}

#[test]
fn nested_destructuring_component() {
    let code = "function Card({ a, b: { c }, ...rest }) {\n  const { d, e: [f] } = rest;\n  return null;\n}\n";
    let r = analyze_module_to_result(code, 2);
    let c = only_component(&r);
    assert_eq!(c.name.as_deref(), Some("Card"));
    assert_eq!(c.loc.as_deref(), Some("1,0,4,1"));
    assert!(c.should_detect_call_stack);
    assert_eq!(observed(&c.observed_list), vec![triple("d", "1,10,1,11", "var"), triple("f", "1,17,1,18", "var")]);
}

#[test]
fn component_comment_on_lowercase_function() {
    let code = "/** @component */\nfunction helper() {\n  return <Panel />;\n}\n";
    let r = analyze_module_to_result(code, 3);
    let c = only_component(&r);
    assert_eq!(c.id, "SWC_3");
    assert_eq!(c.name, None);
    assert_eq!(c.code, "function helper() {\n  return <Panel />;\n}");
    assert_eq!(c.loc.as_deref(), Some("2,0,4,1"));
    assert!(!c.should_detect_call_stack);
    assert!(c.observed_list.is_empty());
}

#[test]
fn component_comment_on_exported_lowercase_function() {
    let code = "\n/** @component */\nexport function helper() {\n  return <Panel />;\n}\n";
    let r = analyze_module_to_result(code, 3);
    let c = only_component(&r);
    assert_eq!(c.name, None);
    assert_eq!(c.code, "function helper() {\n  return <Panel />;\n}");
    assert_eq!(c.loc.as_deref(), Some("3,7,5,1"));
    assert!(!c.should_detect_call_stack);
}

#[test]
fn use_relyzer_directive_marks_component() {
    let code = "const widget = () => {\n  'use relyzer';\n  const v = 1;\n  return v;\n};\n";
    let r = analyze_module_to_result(code, 4);
    let c = only_component(&r);
    assert_eq!(c.name, None);
    assert_eq!(c.loc.as_deref(), Some("1,15,5,1"));
    assert!(!c.should_detect_call_stack);
    assert_eq!(observed(&c.observed_list), vec![triple("v", "2,8,2,9", "var")]);
}

#[test]
fn directive_on_exported_function_is_not_repeated() {
    let code = "export function helper() {\n  'use relyzer';\n  return 1;\n}\n";
    let r = analyze_module_to_result(code, 5);
    let c = only_component(&r);
    assert_eq!(c.name, None);
    assert_eq!(c.loc.as_deref(), Some("1,7,4,1"));
    assert!(!c.should_detect_call_stack);
}

#[test]
fn hook_dependencies_are_observed() {
    let code = "function App({ a }) {\n  const cb = useCallback(() => a, [a, props.b]);\n  return cb;\n}\n";
    let r = analyze_module_to_result(code, 6);
    let c = only_component(&r);
    let lo = code.find("props.b").unwrap() + 1;
    let member = format!("span:{}..{}", lo, lo + 7);
    assert_eq!(
        observed(&c.observed_list),
        vec![
            triple("cb", "1,8,1,10", "var"),
            triple("a", "1,35,1,36", "dep"),
            triple(&member, "1,38,1,45", "dep"),
        ]
    );
}

#[test]
fn use_memo_needs_a_dependency_array() {
    let code = "function App() {\n  const m = useMemo(() => 1);\n  const n = useMemo(() => 2, deps);\n  return m + n;\n}\n";
    let r = analyze_module_to_result(code, 7);
    let c = only_component(&r);
    assert_eq!(observed(&c.observed_list), vec![triple("m", "1,8,1,9", "var"), triple("n", "2,8,2,9", "var")]);
}

#[test]
fn jsx_attributes_of_components_only() {
    let code = "function View() {\n  return <div a={1}><Comp s=\"x\" e={2} ns:attr={3} el=<b /> fr=<></> /></div>;\n}\n";
    let r = analyze_module_to_result(code, 8);
    let c = only_component(&r);
    assert_eq!(c.name.as_deref(), Some("View"));
    assert_eq!(c.loc.as_deref(), Some("1,0,3,1"));
    assert_eq!(
        observed(&c.observed_list),
        vec![
            triple("e", "1,32,1,33", "attr"),
            triple("ns:attr", "1,38,1,45", "attr"),
            triple("el", "1,53,1,58", "attr"),
            triple("fr", "1,62,1,67", "attr"),
        ]
    );
}

#[test]
fn imports_of_every_kind() {
    let code = "import A, { b as c, d } from 'm1';\nimport * as ns from \"m2\";\nimport 'side';\n";
    let r = analyze_module_to_result(code, 0);
    assert!(r.ok);
    assert!(r.components.is_empty());
    let got: Vec<(String, Vec<String>)> = r.imports.iter().map(|i| (i.source.clone(), i.specifiers.clone())).collect();
    assert_eq!(
        got,
        vec![
            ("m1".to_string(), vec!["A".to_string(), "c".to_string(), "d".to_string()]),
            ("m2".to_string(), vec!["ns".to_string()]),
            ("side".to_string(), vec![]),
        ]
    );
}

#[test]
fn lowercase_function_is_not_a_component() {
    let r = analyze_module_to_result("function helper() {\n  return <Panel />;\n}\n", 0);
    assert!(r.ok);
    assert!(r.components.is_empty());
    assert!(r.imports.is_empty());
    assert!(r.errors.is_empty());
}

#[test]
fn parse_error_is_reported() {
    let r = analyze_module_to_result("function (", 0);
    assert!(!r.ok);
    assert!(r.imports.is_empty());
    assert!(r.components.is_empty());
    assert_eq!(r.errors.len(), 1);
    assert!(r.errors[0].starts_with("parse error: "), "{:?}", r.errors);
}

#[test]
fn byte_order_mark_is_skipped() {
    let code = "\u{feff}function A() {\n  const q = 1;\n  return q;\n}\n";
    let r = analyze_module_to_result(code, 9);
    let c = only_component(&r);
    assert_eq!(c.code, "function A() {\n  const q = 1;\n  return q;\n}");
    assert_eq!(c.loc.as_deref(), Some("1,0,4,1"));
    assert_eq!(observed(&c.observed_list), vec![triple("q", "1,8,1,9", "var")]);
}

#[test]
fn byte_order_mark_before_indented_component() {
    let code = "\u{feff}  function A() {\n  const q = 1;\n}\n";
    let r = analyze_module_to_result(code, 9);
    let c = only_component(&r);
    assert_eq!(c.code, "function A() {\n  const q = 1;\n}");
    assert_eq!(c.loc.as_deref(), Some("1,2,3,1"));
    assert_eq!(observed(&c.observed_list), vec![triple("q", "1,8,1,9", "var")]);
}

#[test]
fn given_identifier_is_used_for_every_component() {
    let r = analyze_module_with_id(README_EXAMPLE, &"fixed".to_string());
    assert_eq!(r.components.len(), 2);
    assert!(r.components.iter().all(|c| c.id == "fixed"));
}

#[test]
fn identifiers_are_hexadecimal_times() {
    assert_eq!(format_id(0), "SWC_0");
    assert_eq!(format_id(255), "SWC_ff");
    assert_eq!(format_id(1_700_000_000_000), "SWC_18bcfe56800");
}

#[test]
fn directive_after_other_statements_does_not_count() {
    let r = analyze_module_to_result("function f() {\n  g();\n  'use relyzer';\n  return 1;\n}\n", 0);
    assert!(r.ok);
    assert!(r.components.is_empty());
}

#[test]
fn directive_later_in_the_prologue_counts() {
    let code = "function f() {\n  'use strict';\n  'use relyzer';\n  return 1;\n}\n";
    let r = analyze_module_to_result(code, 0);
    let c = only_component(&r);
    assert_eq!(c.name, None);
    assert_eq!(c.loc.as_deref(), Some("1,0,5,1"));
    assert!(!c.should_detect_call_stack);
}

#[test]
fn component_comment_before_const() {
    let r = analyze_module_to_result("/** @component */\nconst foo = () => {};\n", 0);
    let c = only_component(&r);
    assert_eq!(c.id, "SWC_0");
    assert_eq!(c.name, None);
    assert_eq!(c.code, "() => {}");
    assert_eq!(c.loc.as_deref(), Some("2,12,2,20"));
    assert!(!c.should_detect_call_stack);
}

#[test]
fn component_comment_before_const_marks_each_declarator() {
    let r = analyze_module_to_result("/** @component */\nconst a = () => 1, b = function () {};\nconst c = () => 2;\n", 0);
    let codes: Vec<&str> = r.components.iter().map(|c| c.code.as_str()).collect();
    assert_eq!(codes, vec!["() => 1", "function () {}"]);
}
