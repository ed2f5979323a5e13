use relyzer_swc::analyzer::analyze_program_to_plan;
use relyzer_swc::plan::{span_is_dummy, ComponentPlan, PluginConfig, PropsMode, Span, TransformPlan};
use relyzer_swc::runtime_ast::{
    make_metadata_object, make_perf_call_expr, make_perf_call_stmt, make_use_relyzer_decl, make_use_relyzer_import,
    private_ident, MetaValue,
};
use relyzer_swc::transform::RelyzerTransform;

fn plan_at(lo: u32, hi: u32, code: &str, loc: Option<&str>, detect: bool) -> ComponentPlan {
    ComponentPlan {
        component_span: Span { lo, hi },
        body_span: None,
        code: code.to_string(),
        loc: loc.map(|l| l.to_string()),
        observed_list: vec![],
        should_detect_call_stack: detect,
        is_explicit: !detect,
        is_auto_detected: detect,
        props_mode: PropsMode::Absent,
        inject_points: vec![],
    }
}

fn props_of(m: &relyzer_swc::runtime_ast::MetadataObject) -> Vec<String> {
    m.props
        .iter()
        .map(|(k, v)| match v {
            MetaValue::Str(s) => format!("{}={}", k, s),
            MetaValue::EmptyArray => format!("{}=[]", k),
            MetaValue::Bool(b) => format!("{}={}", k, b),
        })
        .collect()
}

#[test]
fn default_config_is_empty() {
    let c = PluginConfig::default();
    assert_eq!(c.auto_detect, None);
    assert!(c.includes.is_none());
    assert!(c.excludes.is_none());
}

#[test]
fn runtime_import_names() {
    let i = make_use_relyzer_import(private_ident("_local"));
    assert_eq!(i.local.sym, "_local");
    assert_eq!(i.imported, "useRelyzer");
    assert_eq!(i.source, "@relyzer/runtime");
}

#[test]
fn metadata_object_with_and_without_location() {
    let with_loc = make_metadata_object(&plan_at(1, 5, "function A() {}", Some("1,0,1,15"), true));
    assert_eq!(
        props_of(&with_loc),
        vec!["id=SWC_PLUGIN_TODO", "code=function A() {}", "observedList=[]", "shouldDetectCallStack=true", "loc=1,0,1,15"]
    );
    let without = make_metadata_object(&plan_at(1, 5, "x", None, false));
    assert_eq!(props_of(&without), vec!["id=SWC_PLUGIN_TODO", "code=x", "observedList=[]", "shouldDetectCallStack=false"]);
}

#[test]
fn hook_declaration_and_perf_calls() {
    let plan = plan_at(1, 5, "c", None, false);
    let d = make_use_relyzer_decl(&private_ident("_useRelyzer"), &private_ident("_p"), &plan);
    assert_eq!(d.runtime_ident.sym, "_useRelyzer");
    assert_eq!(d.perf_ident.sym, "_p");
    assert_eq!(props_of(&d.metadata).len(), 4);
    let call = make_perf_call_expr(&private_ident("_p"), "expr", 3);
    assert_eq!(call.perf_ident.sym, "_p");
    assert_eq!(call.expr, "expr");
    assert_eq!(call.index, 3);
    let stmt = make_perf_call_stmt(&private_ident("_p"), 42u8, -1);
    assert_eq!(stmt.call.expr, 42u8);
    assert_eq!(stmt.call.index, -1);
}

#[test]
fn runtime_import_is_inserted_once() {
    let plan = TransformPlan { import_runtime: true, components: vec![] };
    let mut t = RelyzerTransform::new(PluginConfig::default(), plan);
    assert!(t.should_import_runtime());
    let first = t.ensure_runtime_import().expect("first import");
    assert_eq!(first.local.sym, "_useRelyzer");
    assert_eq!(t.runtime_ident.as_ref().map(|i| i.sym.as_str()), Some("_useRelyzer"));
    assert!(t.ensure_runtime_import().is_none());
    assert_eq!(t.runtime_ident.as_ref().map(|i| i.sym.as_str()), Some("_useRelyzer"));
}

#[test]
fn import_needed_for_planned_components() {
    let none = RelyzerTransform::new(PluginConfig::default(), TransformPlan { import_runtime: false, components: vec![] });
    assert!(!none.should_import_runtime());
    let some = RelyzerTransform::new(
        PluginConfig::default(),
        TransformPlan { import_runtime: false, components: vec![plan_at(1, 2, "a", None, false)] },
    );
    assert!(some.should_import_runtime());
}

#[test]
fn injection_for_planned_spans_only() {
    let plan = TransformPlan {
        import_runtime: false,
        components: vec![plan_at(10, 20, "first", None, false), plan_at(30, 40, "second", Some("2,0,3,1"), true), plan_at(10, 20, "again", None, true)],
    };
    let mut t = RelyzerTransform::new(PluginConfig::default(), plan);
    assert!(t.injection_for(Span { lo: 10, hi: 20 }).is_none());
    t.ensure_runtime_import();
    assert_eq!(t.component_plan_for_span(Span { lo: 10, hi: 20 }).map(|p| p.code.as_str()), Some("first"));
    assert!(t.component_plan_for_span(Span { lo: 10, hi: 21 }).is_none());
    let d = t.injection_for(Span { lo: 30, hi: 40 }).expect("planned");
    assert_eq!(d.perf_ident.sym, "_p");
    assert_eq!(d.runtime_ident.sym, "_useRelyzer");
    assert_eq!(props_of(&d.metadata)[1], "code=second");
    assert_eq!(props_of(&d.metadata)[4], "loc=2,0,3,1");
    assert!(t.injection_for(Span { lo: 31, hi: 40 }).is_none());
}

#[test]
fn dummy_spans() {
    assert!(span_is_dummy(Span { lo: 0, hi: 0 }));
    assert!(!span_is_dummy(Span { lo: 0, hi: 1 }));
    assert!(!span_is_dummy(Span { lo: 1, hi: 5 }));
    assert!(span_is_dummy(Span { lo: u32::MAX, hi: u32::MAX }));
}

#[test]
fn plan_of_programs() {
    let config = PluginConfig::default();
    let module = swc_ecma_ast::Program::Module(swc_ecma_ast::Module {
        span: swc_common::DUMMY_SP,
        body: vec![],
        shebang: None,
    });
    let plan = analyze_program_to_plan(&module, &config);
    assert!(!plan.import_runtime);
    assert!(plan.components.is_empty());
    let script = swc_ecma_ast::Program::Script(swc_ecma_ast::Script {
        span: swc_common::DUMMY_SP,
        body: vec![],
        shebang: None,
    });
    let plan = analyze_program_to_plan(&script, &config);
    assert!(!plan.import_runtime);
    assert!(plan.components.is_empty());
}
