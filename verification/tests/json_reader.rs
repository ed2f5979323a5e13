use relyzer_swc::plan::PropsMode;
use relyzer_swc::syntax::{collect_pat_idents, props_mode_from_pat, props_name_from_pat};
use relyzer_swc::json::{
    array_field_exec, field_exec, get_field, has_tag_exec, parse_json_chars, str_field_exec, u32_field_exec,
    u32_of_text_exec, JsonValue,
};

fn read(text: &str) -> Option<JsonValue> {
    parse_json_chars(&text.chars().collect())
}

fn chars(s: &str) -> Vec<char> {
    s.chars().collect()
}

#[test]
fn reads_literals() {
    assert!(matches!(read("null"), Some(JsonValue::Null)));
    assert!(matches!(read(" true "), Some(JsonValue::Bool(true))));
    assert!(matches!(read("false"), Some(JsonValue::Bool(false))));
    match read("-12.5e+3") {
        Some(JsonValue::Number(t)) => assert_eq!(t, chars("-12.5e+3")),
        other => panic!("{:?}", other),
    }
}

#[test]
fn reads_strings_with_escapes() {
    match read(r#""a\"b\\c\/\n\t\u0041\ud83d\ude00""#) {
        Some(JsonValue::Str(t)) => assert_eq!(t, chars("a\"b\\c/\n\tA\u{1F600}")),
        other => panic!("{:?}", other),
    }
}

#[test]
fn rejects_malformed_documents() {
    assert!(read("").is_none());
    assert!(read("nul").is_none());
    assert!(read("01").is_none());
    assert!(read("1.").is_none());
    assert!(read("[1,]").is_none());
    assert!(read("{\"a\" 1}").is_none());
    assert!(read("\"unterminated").is_none());
    assert!(read("\"\\ud83d\"").is_none());
    assert!(read("\"\\x\"").is_none());
    assert!(read("\"tab\there\"").is_none());
    assert!(read("1 2").is_none());
}

#[test]
fn reads_nested_values_and_looks_them_up() {
    let v = read(r#"{"type":"Identifier","span":{"start":3,"end":7},"value":"abc","list":[1,{"x":null}],"type":"Other"}"#)
        .expect("valid document");
    assert!(has_tag_exec(&v, "Identifier"));
    assert!(!has_tag_exec(&v, "Other"));
    assert_eq!(str_field_exec(&v, "value"), Some(&chars("abc")));
    assert_eq!(str_field_exec(&v, "span"), None);
    let span = field_exec(&v, "span").expect("span");
    assert_eq!(u32_field_exec(span, "start"), Some(3));
    assert_eq!(u32_field_exec(span, "end"), Some(7));
    assert_eq!(u32_field_exec(span, "missing"), None);
    let list = array_field_exec(&v, "list").expect("list");
    assert_eq!(list.len(), 2);
    assert!(matches!(get_field(&list[1], &chars("x")), Some(JsonValue::Null)));
    assert!(get_field(&list[0], &chars("x")).is_none());
}

#[test]
fn number_texts_as_u32() {
    assert_eq!(u32_of_text_exec(&chars("0")), Some(0));
    assert_eq!(u32_of_text_exec(&chars("4294967295")), Some(u32::MAX));
    assert_eq!(u32_of_text_exec(&chars("4294967296")), None);
    assert_eq!(u32_of_text_exec(&chars("-1")), None);
    assert_eq!(u32_of_text_exec(&chars("1.5")), None);
    assert_eq!(u32_of_text_exec(&chars("")), None);
}

#[test]
fn only_binding_identifiers_are_bound() {
    let binding = read(r#"{"type":"Identifier","span":{"start":3,"end":4},"ctxt":0,"value":"a","optional":false,"typeAnnotation":null}"#).unwrap();
    let expr = read(r#"{"type":"Identifier","span":{"start":3,"end":4},"ctxt":0,"value":"a","optional":false}"#).unwrap();
    let mut out = Vec::new();
    collect_pat_idents(&binding, &mut out);
    assert_eq!(out.len(), 1);
    assert_eq!(out[0].0, chars("a"));
    assert_eq!((out[0].1.lo, out[0].1.hi), (3, 4));
    let mut out = Vec::new();
    collect_pat_idents(&expr, &mut out);
    assert!(out.is_empty());
    assert!(matches!(props_mode_from_pat(Some(&binding)), PropsMode::Ident { .. }));
    assert!(matches!(props_mode_from_pat(Some(&expr)), PropsMode::Absent));
    assert_eq!(props_name_from_pat(Some(&binding)).as_deref(), Some("a"));
    assert_eq!(props_name_from_pat(Some(&expr)), None);
}
