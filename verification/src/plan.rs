//! The metadata that the analysis produces and the plan that the transform
//! follows, each with its mathematical view.
use vstd::prelude::*;

use crate::json::{Json, JsonValue};
use crate::source::{opt_string_view, strings_view};

verus! {

/// A range of byte positions in the source map, `lo` to `hi`.
#[derive(Clone, Copy, PartialEq, Eq, Debug, Structural)]
pub struct Span {
    pub lo: u32,
    pub hi: u32,
}

/// Spans at or above this position are reserved for synthesized code.
pub const DUMMY_RESERVE: u32 = 4294901759u32;

/// A span that stands for no source text: empty at position 0, or reserved.
pub open spec fn is_dummy(s: Span) -> bool {
    (s.lo == 0 && s.hi == 0) || s.lo >= DUMMY_RESERVE
}

pub fn span_is_dummy(s: Span) -> (r: bool)
    ensures
        r == is_dummy(s),
{
    (s.lo == 0 && s.hi == 0) || s.lo >= DUMMY_RESERVE
}

/// One observed value of a component: a variable, a hook dependency or a JSX
/// attribute (`observed_type` is "var", "dep" or "attr"), with its location
/// relative to the component.
#[derive(Debug)]
pub struct ObservedMeta {
    pub name: String,
    pub loc: String,
    pub observed_type: String,
}

pub struct ObservedView {
    pub name: Seq<char>,
    pub loc: Seq<char>,
    pub observed_type: Seq<char>,
}

impl View for ObservedMeta {
    type V = ObservedView;

    open spec fn view(&self) -> ObservedView {
        ObservedView { name: self.name@, loc: self.loc@, observed_type: self.observed_type@ }
    }
}

pub open spec fn observed_seq_view(v: Seq<ObservedMeta>) -> Seq<ObservedView> {
    v.map_values(|o: ObservedMeta| o@)
}

/// A component found in a module.
#[derive(Debug)]
pub struct ComponentMetaData {
    pub id: String,
    pub name: Option<String>,
    pub code: String,
    pub loc: Option<String>,
    pub observed_list: Vec<ObservedMeta>,
    pub should_detect_call_stack: bool,
}

pub struct ComponentView {
    pub id: Seq<char>,
    pub name: Option<Seq<char>>,
    pub code: Seq<char>,
    pub loc: Option<Seq<char>>,
    pub observed_list: Seq<ObservedView>,
    pub should_detect_call_stack: bool,
}

impl View for ComponentMetaData {
    type V = ComponentView;

    open spec fn view(&self) -> ComponentView {
        ComponentView {
            id: self.id@,
            name: opt_string_view(self.name),
            code: self.code@,
            loc: opt_string_view(self.loc),
            observed_list: observed_seq_view(self.observed_list@),
            should_detect_call_stack: self.should_detect_call_stack,
        }
    }
}

pub open spec fn component_seq_view(v: Seq<ComponentMetaData>) -> Seq<ComponentView> {
    v.map_values(|c: ComponentMetaData| c@)
}

/// One import declaration: the module imported and the local names bound.
#[derive(Debug)]
pub struct ImportMeta {
    pub source: String,
    pub specifiers: Vec<String>,
}

pub struct ImportView {
    pub source: Seq<char>,
    pub specifiers: Seq<Seq<char>>,
}

impl View for ImportMeta {
    type V = ImportView;

    open spec fn view(&self) -> ImportView {
        ImportView { source: self.source@, specifiers: strings_view(self.specifiers@) }
    }
}

pub open spec fn import_seq_view(v: Seq<ImportMeta>) -> Seq<ImportView> {
    v.map_values(|i: ImportMeta| i@)
}

/// What analyzing a module gives.
#[derive(Debug)]
pub struct AnalyzeResult {
    pub ok: bool,
    pub imports: Vec<ImportMeta>,
    pub components: Vec<ComponentMetaData>,
    pub errors: Vec<String>,
}

pub struct AnalyzeResultView {
    pub ok: bool,
    pub imports: Seq<ImportView>,
    pub components: Seq<ComponentView>,
    pub errors: Seq<Seq<char>>,
}

impl View for AnalyzeResult {
    type V = AnalyzeResultView;

    open spec fn view(&self) -> AnalyzeResultView {
        AnalyzeResultView {
            ok: self.ok,
            imports: import_seq_view(self.imports@),
            components: component_seq_view(self.components@),
            errors: strings_view(self.errors@),
        }
    }
}

/// The settings that the plugin reads from its configuration.
#[derive(Debug)]
pub struct PluginConfig {
    pub auto_detect: Option<bool>,
    pub includes: Option<Vec<String>>,
    pub excludes: Option<Vec<String>>,
}

impl Default for PluginConfig {
    fn default() -> (r: PluginConfig)
        ensures
            r.auto_detect is None,
            r.includes is None,
            r.excludes is None,
    {
        PluginConfig { auto_detect: None, includes: None, excludes: None }
    }
}

/// How a component receives its props: not at all, under one name, or
/// through an object pattern (kept as its syntax tree) that is to be bound to
/// a temporary name.
#[derive(Debug)]
pub enum PropsMode {
    Absent,
    Ident { name: String },
    ObjectPattern { temp_name: String, original: JsonValue },
}

pub enum PropsModeView {
    Absent,
    Ident { name: Seq<char> },
    ObjectPattern { temp_name: Seq<char>, original: Json },
}

impl View for PropsMode {
    type V = PropsModeView;

    open spec fn view(&self) -> PropsModeView {
        match self {
            PropsMode::Absent => PropsModeView::Absent,
            PropsMode::Ident { name } => PropsModeView::Ident { name: name@ },
            PropsMode::ObjectPattern { temp_name, original } => PropsModeView::ObjectPattern {
                temp_name: temp_name@,
                original: original@,
            },
        }
    }
}

/// Where the transform reports an observed value, and its index in the
/// component's observed list.
#[derive(Debug)]
pub enum InjectPoint {
    Var { stmt_span: Span, name: String, index: usize },
    DepExpr { expr_span: Span, name: String, index: usize },
    AttrExpr { expr_span: Span, attr_name: String, index: usize },
}

pub enum InjectPointView {
    Var { stmt_span: Span, name: Seq<char>, index: usize },
    DepExpr { expr_span: Span, name: Seq<char>, index: usize },
    AttrExpr { expr_span: Span, attr_name: Seq<char>, index: usize },
}

impl View for InjectPoint {
    type V = InjectPointView;

    open spec fn view(&self) -> InjectPointView {
        match self {
            InjectPoint::Var { stmt_span, name, index } => InjectPointView::Var {
                stmt_span: *stmt_span,
                name: name@,
                index: *index,
            },
            InjectPoint::DepExpr { expr_span, name, index } => InjectPointView::DepExpr {
                expr_span: *expr_span,
                name: name@,
                index: *index,
            },
            InjectPoint::AttrExpr { expr_span, attr_name, index } => InjectPointView::AttrExpr {
                expr_span: *expr_span,
                attr_name: attr_name@,
                index: *index,
            },
        }
    }
}

pub open spec fn inject_seq_view(v: Seq<InjectPoint>) -> Seq<InjectPointView> {
    v.map_values(|p: InjectPoint| p@)
}

/// What the transform is to do for one component.
#[derive(Debug)]
pub struct ComponentPlan {
    pub component_span: Span,
    pub body_span: Option<Span>,
    pub code: String,
    pub loc: Option<String>,
    pub observed_list: Vec<ObservedMeta>,
    pub should_detect_call_stack: bool,
    pub is_explicit: bool,
    pub is_auto_detected: bool,
    pub props_mode: PropsMode,
    pub inject_points: Vec<InjectPoint>,
}

pub struct ComponentPlanView {
    pub component_span: Span,
    pub body_span: Option<Span>,
    pub code: Seq<char>,
    pub loc: Option<Seq<char>>,
    pub observed_list: Seq<ObservedView>,
    pub should_detect_call_stack: bool,
    pub is_explicit: bool,
    pub is_auto_detected: bool,
    pub props_mode: PropsModeView,
    pub inject_points: Seq<InjectPointView>,
}

impl View for ComponentPlan {
    type V = ComponentPlanView;

    open spec fn view(&self) -> ComponentPlanView {
        ComponentPlanView {
            component_span: self.component_span,
            body_span: self.body_span,
            code: self.code@,
            loc: opt_string_view(self.loc),
            observed_list: observed_seq_view(self.observed_list@),
            should_detect_call_stack: self.should_detect_call_stack,
            is_explicit: self.is_explicit,
            is_auto_detected: self.is_auto_detected,
            props_mode: self.props_mode@,
            inject_points: inject_seq_view(self.inject_points@),
        }
    }
}

pub open spec fn plan_seq_view(v: Seq<ComponentPlan>) -> Seq<ComponentPlanView> {
    v.map_values(|p: ComponentPlan| p@)
}

/// What the transform is to do for a module.
#[derive(Debug)]
pub struct TransformPlan {
    pub import_runtime: bool,
    pub components: Vec<ComponentPlan>,
}

pub struct TransformPlanView {
    pub import_runtime: bool,
    pub components: Seq<ComponentPlanView>,
}

impl View for TransformPlan {
    type V = TransformPlanView;

    open spec fn view(&self) -> TransformPlanView {
        TransformPlanView {
            import_runtime: self.import_runtime,
            components: plan_seq_view(self.components@),
        }
    }
}

/// A copy of an observed value.
pub fn copy_observed(o: &ObservedMeta) -> (r: ObservedMeta)
    ensures
        r@ == o@,
{
    ObservedMeta {
        name: o.name.clone(),
        loc: o.loc.clone(),
        observed_type: o.observed_type.clone(),
    }
}

/// A copy of an observed list.
pub fn copy_observed_list(v: &Vec<ObservedMeta>) -> (r: Vec<ObservedMeta>)
    ensures
        observed_seq_view(r@) == observed_seq_view(v@),
{
    let mut r: Vec<ObservedMeta> = Vec::new();
    let mut i: usize = 0;
    while i < v.len()
        invariant
            i <= v.len(),
            r.len() == i,
            forall|k: int| 0 <= k < i ==> (#[trigger] r@[k])@ == v@[k]@,
        decreases v.len() - i,
    {
        r.push(copy_observed(&v[i]));
        i = i + 1;
    }
    assert(observed_seq_view(r@) =~= observed_seq_view(v@));
    r
}

} // verus!
