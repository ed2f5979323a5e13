//! The code that the transform injects: the import of the runtime hook, the
//! declaration that calls it with a component's metadata, and the calls that
//! report observed values. Each is built here as a value of its own, which
//! the code generator turns into syntax.
use vstd::prelude::*;

use crate::plan::ComponentPlan;
use crate::source::opt_string_view;

verus! {

/// An identifier of injected code.
#[derive(Debug)]
pub struct Ident {
    pub sym: String,
}

pub fn copy_ident(i: &Ident) -> (r: Ident)
    ensures
        r.sym@ == i.sym@,
{
    Ident { sym: i.sym.clone() }
}

/// An identifier with the given name.
pub fn private_ident(name: &str) -> (r: Ident)
    ensures
        r.sym@ == name@,
{
    Ident { sym: name.to_owned() }
}

/// `import { useRelyzer as <local> } from "@relyzer/runtime";`
#[derive(Debug)]
pub struct UseRelyzerImport {
    pub local: Ident,
    pub imported: String,
    pub source: String,
}

pub fn make_use_relyzer_import(local: Ident) -> (r: UseRelyzerImport)
    ensures
        r.local.sym@ == local.sym@,
        r.imported@ == "useRelyzer"@,
        r.source@ == "@relyzer/runtime"@,
{
    UseRelyzerImport { local, imported: "useRelyzer".to_owned(), source: "@relyzer/runtime".to_owned() }
}

/// A literal in the metadata object: a string, an empty array, a boolean.
#[derive(Debug)]
pub enum MetaValue {
    Str(String),
    EmptyArray,
    Bool(bool),
}

pub enum MetaValueView {
    Str(Seq<char>),
    EmptyArray,
    Bool(bool),
}

impl View for MetaValue {
    type V = MetaValueView;

    open spec fn view(&self) -> MetaValueView {
        match self {
            MetaValue::Str(s) => MetaValueView::Str(s@),
            MetaValue::EmptyArray => MetaValueView::EmptyArray,
            MetaValue::Bool(b) => MetaValueView::Bool(*b),
        }
    }
}

/// The metadata object handed to the runtime hook: its properties in order.
#[derive(Debug)]
pub struct MetadataObject {
    pub props: Vec<(String, MetaValue)>,
}

pub open spec fn props_view(v: Seq<(String, MetaValue)>) -> Seq<(Seq<char>, MetaValueView)> {
    v.map_values(|p: (String, MetaValue)| (p.0@, p.1@))
}

/// The properties of a component's metadata object: a placeholder id, the
/// code, an empty observed list, the call-stack flag, and the location when
/// there is one.
pub open spec fn metadata_props(code: Seq<char>, loc: Option<Seq<char>>, detect: bool) -> Seq<(Seq<char>, MetaValueView)> {
    let base = seq![
        ("id"@, MetaValueView::Str("SWC_PLUGIN_TODO"@)),
        ("code"@, MetaValueView::Str(code)),
        ("observedList"@, MetaValueView::EmptyArray),
        ("shouldDetectCallStack"@, MetaValueView::Bool(detect)),
    ];
    match loc {
        Some(l) => base.push(("loc"@, MetaValueView::Str(l))),
        None => base,
    }
}

pub fn make_metadata_object(plan: &ComponentPlan) -> (r: MetadataObject)
    ensures
        props_view(r.props@) == metadata_props(plan.code@, opt_string_view(plan.loc), plan.should_detect_call_stack),
{
    let mut props: Vec<(String, MetaValue)> = Vec::new();
    props.push(("id".to_owned(), MetaValue::Str("SWC_PLUGIN_TODO".to_owned())));
    props.push(("code".to_owned(), MetaValue::Str(plan.code.clone())));
    props.push(("observedList".to_owned(), MetaValue::EmptyArray));
    props.push(("shouldDetectCallStack".to_owned(), MetaValue::Bool(plan.should_detect_call_stack)));
    match &plan.loc {
        Some(loc) => props.push(("loc".to_owned(), MetaValue::Str(loc.clone()))),
        None => {},
    }
    assert(props_view(props@) =~= metadata_props(plan.code@, opt_string_view(plan.loc), plan.should_detect_call_stack));
    MetadataObject { props }
}

/// `const <perf_ident> = <runtime_ident>(<metadata>);`
#[derive(Debug)]
pub struct UseRelyzerDecl {
    pub perf_ident: Ident,
    pub runtime_ident: Ident,
    pub metadata: MetadataObject,
}

pub fn make_use_relyzer_decl(runtime_ident: &Ident, perf_ident: &Ident, plan: &ComponentPlan) -> (r: UseRelyzerDecl)
    ensures
        r.perf_ident.sym@ == perf_ident.sym@,
        r.runtime_ident.sym@ == runtime_ident.sym@,
        props_view(r.metadata.props@) == metadata_props(plan.code@, opt_string_view(plan.loc), plan.should_detect_call_stack),
{
    UseRelyzerDecl {
        perf_ident: copy_ident(perf_ident),
        runtime_ident: copy_ident(runtime_ident),
        metadata: make_metadata_object(plan),
    }
}

/// `<perf_ident>(<expr>, <index>)`.
#[derive(Debug)]
pub struct PerfCall<E> {
    pub perf_ident: Ident,
    pub expr: E,
    pub index: i32,
}

pub fn make_perf_call_expr<E>(perf_ident: &Ident, expr: E, index: i32) -> (r: PerfCall<E>)
    ensures
        r.perf_ident.sym@ == perf_ident.sym@,
        r.expr == expr,
        r.index == index,
{
    PerfCall { perf_ident: copy_ident(perf_ident), expr, index }
}

/// The statement `<perf_ident>(<expr>, <index>);`.
#[derive(Debug)]
pub struct PerfCallStmt<E> {
    pub call: PerfCall<E>,
}

pub fn make_perf_call_stmt<E>(perf_ident: &Ident, expr: E, index: i32) -> (r: PerfCallStmt<E>)
    ensures
        r.call.perf_ident.sym@ == perf_ident.sym@,
        r.call.expr == expr,
        r.call.index == index,
{
    PerfCallStmt { call: make_perf_call_expr(perf_ident, expr, index) }
}

} // verus!
