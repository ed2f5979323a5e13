use relyzer_swc::analyzer::{analyze_module_to_result, analyze_module_with_id};
use relyzer_swc::plan::AnalyzeResult;

const SAMPLES: &[&str] = &[
    "import React, { useMemo } from 'react';\n\n/** @component */\nexport function Demo({ count, title }) {\n  const value = useMemo(() => count * 2, [count]);\n  const info = { value };\n\n  return <Widget label={title} data={info} />;\n}\n",
    "export function helper() {\n  'use relyzer';\n  return 1;\n}\n",
    "const Foo = memo(() => {\n  const [a, b] = useState(0);\n  const c = useCallback(() => a, [a, b]);\n  return <Bar x={a} y={b} />;\n});\nfunction Inner() {\n  function Nested() {\n    const z = 1;\n    return z;\n  }\n  return <Nested v={1} />;\n}\n",
    "function lower() {}\nconst alsoLower = () => 1;\n",
];

fn check_components(r: &AnalyzeResult, id: &str) {
    for (i, c) in r.components.iter().enumerate() {
        assert_eq!(c.id, id);
        assert_eq!(c.name.is_some(), c.should_detect_call_stack);
        if let Some(n) = &c.name {
            assert!(n.chars().next().map(|ch| ch.is_ascii_uppercase()).unwrap_or(false), "{}", n);
        }
        for (j, o) in c.observed_list.iter().enumerate() {
            assert!(o.observed_type == "var" || o.observed_type == "dep" || o.observed_type == "attr");
            for p in &c.observed_list[j + 1..] {
                assert_ne!(o.loc, p.loc);
            }
        }
        for d in &r.components[i + 1..] {
            assert!(!(c.code == d.code && c.loc == d.loc && c.should_detect_call_stack == d.should_detect_call_stack));
        }
    }
}

#[test]
fn components_are_well_formed_on_samples() {
    for (k, code) in SAMPLES.iter().enumerate() {
        let r = analyze_module_to_result(code, k as u64);
        check_components(&r, &format!("SWC_{:x}", k));
    }
}

#[test]
fn nested_components_are_found() {
    let r = analyze_module_to_result(SAMPLES[2], 0);
    let names: Vec<Option<&str>> = r.components.iter().map(|c| c.name.as_deref()).collect();
    assert_eq!(names, vec![Some("Foo"), Some("Inner"), Some("Nested")]);
    let locs: Vec<Option<&str>> = r.components.iter().map(|c| c.loc.as_deref()).collect();
    assert_eq!(locs, vec![Some("1,17,5,1"), Some("6,0,12,1"), Some("7,2,10,3")]);
}

#[test]
fn ok_exactly_without_errors() {
    for code in ["const a = 1;", "function (", "import x from 'y';", "let = ;"] {
        let r = analyze_module_to_result(code, 0);
        assert_eq!(r.ok, r.errors.is_empty(), "{}", code);
        if !r.ok {
            assert_eq!(r.errors.len(), 1);
            assert!(r.imports.is_empty() && r.components.is_empty());
        }
    }
}

#[test]
fn identifiers_change_nothing_else() {
    for code in SAMPLES {
        let a = analyze_module_with_id(code, &"first".to_string());
        let b = analyze_module_with_id(code, &"second".to_string());
        assert_eq!(a.ok, b.ok);
        assert_eq!(a.errors, b.errors);
        assert_eq!(a.imports.len(), b.imports.len());
        for (x, y) in a.imports.iter().zip(b.imports.iter()) {
            assert_eq!(x.source, y.source);
            assert_eq!(x.specifiers, y.specifiers);
        }
        assert_eq!(a.components.len(), b.components.len());
        for (x, y) in a.components.iter().zip(b.components.iter()) {
            assert_eq!(x.id, "first");
            assert_eq!(y.id, "second");
            assert_eq!(x.name, y.name);
            assert_eq!(x.code, y.code);
            assert_eq!(x.loc, y.loc);
            assert_eq!(x.should_detect_call_stack, y.should_detect_call_stack);
            assert_eq!(format!("{:?}", x.observed_list), format!("{:?}", y.observed_list));
        }
    }
}
