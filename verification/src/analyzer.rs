//! The analysis of a module: which functions are components, what each of
//! them observes, and what the module imports.
use vstd::prelude::*;

use crate::collector::{Collected, ComponentCollector, collect_body, empty_collected};
use crate::json::{
    Json, JsonValue, array_field, array_field_exec, children, field, field_exec, has_tag,
    has_tag_exec, json_seq, lemma_child_decreases, lemma_json_seq_index, lemma_json_seq_len,
    parse_json, parse_json_chars, str_field, str_field_exec,
};
use crate::location::{
    Cx, SourceText, any_marked, snippet, span_loc, texts_view,
};
use crate::plan::{
    AnalyzeResult, AnalyzeResultView, ComponentMetaData, ComponentPlan, ComponentPlanView,
    ComponentView, ImportMeta, ImportView, PropsMode, PropsModeView, Span, component_seq_view,
    copy_observed_list, import_seq_view, observed_seq_view, plan_seq_view,
};
use crate::source::{
    ParseOutcomeView, ParserOptions, has_bom, leading_comment_map, leading_comments,
    opt_string_view, parse_module_source, parsed_module, strings_view, strip_bom,
};
use crate::syntax::{
    first_arrow_param, first_fn_param, first_param_exec, fn_body, fn_body_exec,
    has_directive, has_directive_exec, is_binding_ident, is_binding_ident_exec, name_of, or_empty, pat_span, pat_span_exec,
    props_mode_from_pat, props_mode_of, props_name_from_pat, span_of, span_of_exec,
};
use crate::text::{chars_of, first_is_upper, starts_upper, string_of};

verus! {

/// What the analysis has found so far.
pub struct Analysis {
    pub imports: Seq<ImportView>,
    pub components: Seq<ComponentView>,
    pub plans: Seq<ComponentPlanView>,
}

pub open spec fn empty_analysis() -> Analysis {
    Analysis { imports: Seq::empty(), components: Seq::empty(), plans: Seq::empty() }
}

/// A name that starts with an uppercase letter.
pub open spec fn is_cap(name: Option<Seq<char>>) -> bool {
    match name {
        Some(n) => starts_upper(n),
        None => false,
    }
}

/// A component with this code, location and call-stack flag is already known.
pub open spec fn is_duplicate(st: Analysis, code: Seq<char>, loc: Option<Seq<char>>, auto: bool) -> bool {
    exists|j: int|
        0 <= j < st.components.len() && (#[trigger] st.components[j]).code == code
            && st.components[j].loc == loc && st.components[j].should_detect_call_stack == auto
}

/// Considering a function as a component. It is one when a leading comment
/// of one of `spans` holds "@component", when its body holds the directive
/// "use relyzer", or when it may be detected automatically and its name
/// starts with an uppercase letter; a component of the same code, location
/// and detection as one already found is not added again.
pub open spec fn push_component(
    src: SourceText,
    id: Seq<char>,
    st: Analysis,
    name: Option<Seq<char>>,
    span: Span,
    body: Option<Json>,
    props: PropsModeView,
    spans: Seq<Span>,
    auto_detected: bool,
) -> Analysis {
    let explicit = any_marked(src, spans) || has_directive(body);
    let auto = auto_detected && is_cap(name);
    if !(explicit || auto) {
        st
    } else {
        let collected = collect_body(src, span, body);
        let code = snippet(src, span);
        let loc = span_loc(src, span);
        if is_duplicate(st, code, loc, auto) {
            st
        } else {
            Analysis {
                imports: st.imports,
                components: st.components.push(
                    ComponentView {
                        id,
                        name: if auto { name } else { None },
                        code,
                        loc,
                        observed_list: collected.observed,
                        should_detect_call_stack: auto,
                    },
                ),
                plans: st.plans.push(
                    ComponentPlanView {
                        component_span: span,
                        body_span: match body {
                            Some(b) => Some(span_of(b)),
                            None => None,
                        },
                        code,
                        loc,
                        observed_list: collected.observed,
                        should_detect_call_stack: auto,
                        is_explicit: explicit,
                        is_auto_detected: auto,
                        props_mode: props,
                        inject_points: collected.injects,
                    },
                ),
            }
        }
    }
}

pub open spec fn span_or_dummy(v: Option<Json>) -> Span {
    match v {
        Some(x) => span_of(x),
        None => Span { lo: 0, hi: 0 },
    }
}

/// An exported function declaration marked as a component is considered
/// with no name and without automatic detection.
pub open spec fn export_event(src: SourceText, id: Seq<char>, st: Analysis, v: Json) -> Analysis {
    match field(v, "declaration"@) {
        Some(fd) => if has_tag(fd, "FunctionDeclaration"@) {
            let spans = seq![span_of(v), span_or_dummy(field(fd, "identifier"@)), span_of(fd)];
            let body = fn_body(fd);
            if any_marked(src, spans) || has_directive(body) {
                push_component(src, id, st, None, span_of(fd), body, props_mode_of(first_fn_param(fd)), spans, false)
            } else {
                st
            }
        } else {
            st
        },
        None => st,
    }
}

/// A function declaration is considered under its name.
pub open spec fn fn_decl_event(src: SourceText, id: Seq<char>, st: Analysis, v: Json) -> Analysis {
    let ident = field(v, "identifier"@);
    let name = match ident {
        Some(i) => name_of(i),
        None => None,
    };
    push_component(
        src,
        id,
        st,
        name,
        span_of(v),
        fn_body(v),
        props_mode_of(first_fn_param(v)),
        seq![span_or_dummy(ident), span_of(v)],
        is_cap(name),
    )
}

/// A function or arrow function bound to a declarator is considered under
/// the declarator's name.
pub open spec fn fn_like_event(src: SourceText, id: Seq<char>, st: Analysis, name: Option<Seq<char>>, f: Json, spans: Seq<Span>) -> Analysis {
    if has_tag(f, "FunctionExpression"@) {
        push_component(src, id, st, name, span_of(f), fn_body(f), props_mode_of(first_fn_param(f)), spans.push(span_of(f)), is_cap(name))
    } else if has_tag(f, "ArrowFunctionExpression"@) {
        push_component(src, id, st, name, span_of(f), fn_body(f), props_mode_of(first_arrow_param(f)), spans.push(span_of(f)), is_cap(name))
    } else {
        st
    }
}

/// The name a declarator binds, when it binds a plain identifier.
pub open spec fn declarator_name(d: Json) -> Option<Seq<char>> {
    match field(d, "id"@) {
        Some(p) => if is_binding_ident(p) {
            name_of(p)
        } else {
            None
        },
        None => None,
    }
}

/// A declarator whose initializer is a function, an arrow function, or a call
/// whose first argument is one of these. `decl` is the span of the
/// declaration that holds the declarator: a comment before the declaration
/// marks its functions too.
pub open spec fn declarator_event(src: SourceText, id: Seq<char>, st: Analysis, d: Json, decl: Span) -> Analysis {
    let name = declarator_name(d);
    let pat_sp = match field(d, "id"@) {
        Some(p) => pat_span(p),
        None => Span { lo: 0, hi: 0 },
    };
    let base = seq![decl, pat_sp, span_of(d)];
    match field(d, "init"@) {
        Some(init) => if has_tag(init, "FunctionExpression"@) || has_tag(init, "ArrowFunctionExpression"@) {
            fn_like_event(src, id, st, name, init, base)
        } else if has_tag(init, "CallExpression"@) {
            let args = array_field(init, "arguments"@);
            if args.len() > 0 {
                match field(args[0], "expression"@) {
                    Some(f) => fn_like_event(src, id, st, name, f, base.push(span_of(init))),
                    None => st,
                }
            } else {
                st
            }
        } else {
            st
        },
        None => st,
    }
}

/// The local name bound by an import specifier.
pub open spec fn specifier_local(s: Json) -> Seq<char> {
    match field(s, "local"@) {
        Some(l) => or_empty(name_of(l)),
        None => Seq::empty(),
    }
}

/// An import declaration: its source and the local names it binds.
pub open spec fn import_meta_of(v: Json) -> ImportView {
    ImportView {
        source: match field(v, "source"@) {
            Some(s) => or_empty(str_field(s, "value"@)),
            None => Seq::empty(),
        },
        specifiers: array_field(v, "specifiers"@).map_values(|s: Json| specifier_local(s)),
    }
}

/// What a node adds to the analysis, before its descendants.
pub open spec fn analyzer_event(src: SourceText, id: Seq<char>, st: Analysis, v: Json, decl: Span) -> Analysis {
    if has_tag(v, "ExportDeclaration"@) {
        export_event(src, id, st, v)
    } else if has_tag(v, "ImportDeclaration"@) {
        Analysis { imports: st.imports.push(import_meta_of(v)), ..st }
    } else if has_tag(v, "FunctionDeclaration"@) {
        fn_decl_event(src, id, st, v)
    } else if has_tag(v, "VariableDeclarator"@) {
        declarator_event(src, id, st, v, decl)
    } else {
        st
    }
}

/// The declaration span that the children of `v` see, when `v` sees `decl`:
/// a variable declaration hands down its own span, through the list of its
/// declarators; any other node hands down none.
pub open spec fn child_decl(v: Json, decl: Span) -> Span {
    if has_tag(v, "VariableDeclaration"@) {
        span_of(v)
    } else if v is Array {
        decl
    } else {
        Span { lo: 0, hi: 0 }
    }
}

/// Analyzing a node and, in order, its descendants (those of an import
/// declaration excepted). `decl` is the span of the declaration that directly
/// holds the node, if it is a declarator.
pub open spec fn analyze_node(src: SourceText, id: Seq<char>, st: Analysis, v: Json, decl: Span) -> Analysis
    decreases v, 1nat,
{
    let st1 = analyzer_event(src, id, st, v, decl);
    if has_tag(v, "ImportDeclaration"@) {
        st1
    } else {
        match v {
            Json::Array(a) => analyze_list(src, id, st1, a, child_decl(v, decl)),
            Json::Object(_, vs) => analyze_list(src, id, st1, vs, child_decl(v, decl)),
            _ => st1,
        }
    }
}

pub open spec fn analyze_list(src: SourceText, id: Seq<char>, st: Analysis, s: Seq<Json>, decl: Span) -> Analysis
    decreases s, 0nat,
{
    if s.len() == 0 {
        st
    } else {
        analyze_node(src, id, analyze_list(src, id, st, s.drop_last(), decl), s.last(), decl)
    }
}

} // verus!

verus! {

pub open spec fn opt_chars_view(o: Option<Vec<char>>) -> Option<Seq<char>> {
    match o {
        Some(t) => Some(t@),
        None => None,
    }
}

pub open spec fn opt_json_view(o: Option<&JsonValue>) -> Option<Json> {
    match o {
        Some(v) => Some(v@),
        None => None,
    }
}

fn opt_string_eq(a: &Option<String>, b: &Option<String>) -> (r: bool)
    ensures
        r == (opt_string_view(*a) == opt_string_view(*b)),
{
    match (a, b) {
        (Some(x), Some(y)) => *x == *y,
        (None, None) => true,
        _ => false,
    }
}

fn opt_string_copy(a: &Option<String>) -> (r: Option<String>)
    ensures
        opt_string_view(r) == opt_string_view(*a),
{
    match a {
        Some(x) => Some(x.clone()),
        None => None,
    }
}

/// Walks a module and gathers its imports and components.
pub struct Analyzer {
    pub imports: Vec<ImportMeta>,
    pub components: Vec<ComponentMetaData>,
    pub plans: Vec<ComponentPlan>,
}

impl Analyzer {
    pub open spec fn analysis(&self) -> Analysis {
        Analysis {
            imports: import_seq_view(self.imports@),
            components: component_seq_view(self.components@),
            plans: plan_seq_view(self.plans@),
        }
    }

    pub fn new() -> (r: Analyzer)
        ensures
            r.analysis() == empty_analysis(),
    {
        let r = Analyzer { imports: Vec::new(), components: Vec::new(), plans: Vec::new() };
        assert(r.analysis().imports =~= Seq::<ImportView>::empty());
        assert(r.analysis().components =~= Seq::<ComponentView>::empty());
        assert(r.analysis().plans =~= Seq::<ComponentPlanView>::empty());
        r
    }

    fn is_duplicate_exec(&self, code: &String, loc: &Option<String>, auto: bool) -> (r: bool)
        ensures
            r == is_duplicate(self.analysis(), code@, opt_string_view(*loc), auto),
    {
        let ghost st = self.analysis();
        let mut j: usize = 0;
        while j < self.components.len()
            invariant
                st == self.analysis(),
                j <= self.components.len(),
                forall|k: int|
                    0 <= k < j ==> !((#[trigger] st.components[k]).code == code@ && st.components[k].loc
                        == opt_string_view(*loc) && st.components[k].should_detect_call_stack == auto),
            decreases self.components.len() - j,
        {
            let c = &self.components[j];
            assert(st.components[j as int] == c@);
            if c.code == *code && opt_string_eq(&c.loc, loc) && c.should_detect_call_stack == auto {
                return true;
            }
            j = j + 1;
        }
        false
    }

    /// Considers a function as a component (see the spec function of the
    /// same name).
    pub fn push_component(
        &mut self,
        cx: &Cx,
        id: &String,
        name: Option<Vec<char>>,
        span: Span,
        body: Option<&JsonValue>,
        props_mode: PropsMode,
        comment_spans: &Vec<Span>,
        is_auto_detected: bool,
    )
        requires
            cx.wf(),
        ensures
            final(self).analysis() == push_component(
                cx.src(),
                id@,
                old(self).analysis(),
                opt_chars_view(name),
                span,
                opt_json_view(body),
                props_mode@,
                comment_spans@,
                is_auto_detected,
            ),
    {
        let explicit = cx.any_marked_exec(comment_spans) || has_directive_exec(body);
        let inferred = match &name {
            Some(n) => first_is_upper(n),
            None => false,
        };
        let is_auto_component = is_auto_detected && inferred;
        if !(explicit || is_auto_component) {
            return;
        }
        let mut collector = ComponentCollector::new(span);
        match body {
            Some(b) => collector.visit_node(cx, b),
            None => {},
        }
        let code = cx.snippet_exec(span);
        let loc = cx.span_loc_exec(span);
        if self.is_duplicate_exec(&code, &loc, is_auto_component) {
            return;
        }
        let normalized_name = if is_auto_component {
            match &name {
                Some(n) => Some(string_of(n)),
                None => None,
            }
        } else {
            None
        };
        let ghost st = self.analysis();
        let component = ComponentMetaData {
            id: id.clone(),
            name: normalized_name,
            code: code.clone(),
            loc: opt_string_copy(&loc),
            observed_list: copy_observed_list(&collector.observed),
            should_detect_call_stack: is_auto_component,
        };
        let body_span = match body {
            Some(b) => Some(span_of_exec(b)),
            None => None,
        };
        let plan = ComponentPlan {
            component_span: span,
            body_span,
            code,
            loc,
            observed_list: collector.observed,
            should_detect_call_stack: is_auto_component,
            is_explicit: explicit,
            is_auto_detected: is_auto_component,
            props_mode,
            inject_points: collector.inject_points,
        };
        self.components.push(component);
        self.plans.push(plan);
        assert(self.analysis().components =~= st.components.push(component@));
        assert(self.analysis().plans =~= st.plans.push(plan@));
        assert(self.analysis().imports =~= st.imports);
    }
}

} // verus!

verus! {

fn span_or_dummy_exec(v: Option<&JsonValue>) -> (r: Span)
    ensures
        r == span_or_dummy(opt_json_view(v)),
{
    match v {
        Some(x) => span_of_exec(x),
        None => Span { lo: 0, hi: 0 },
    }
}

fn name_of_exec(v: &JsonValue) -> (r: Option<Vec<char>>)
    ensures
        opt_chars_view(r) == name_of(v@),
{
    match str_field_exec(v, "value") {
        Some(t) => Some(t.clone()),
        None => None,
    }
}

fn chars_or_empty(o: Option<&Vec<char>>) -> (r: Vec<char>)
    ensures
        r@ == or_empty(match o { Some(t) => Some(t@), None => None }),
{
    match o {
        Some(t) => t.clone(),
        None => Vec::new(),
    }
}

fn is_cap_exec(name: &Option<Vec<char>>) -> (r: bool)
    ensures
        r == is_cap(opt_chars_view(*name)),
{
    match name {
        Some(n) => first_is_upper(n),
        None => false,
    }
}

fn copy_name(name: &Option<Vec<char>>) -> (r: Option<Vec<char>>)
    ensures
        opt_chars_view(r) == opt_chars_view(*name),
{
    match name {
        Some(n) => Some(n.clone()),
        None => None,
    }
}

impl Analyzer {
    fn visit_export_decl(&mut self, cx: &Cx, id: &String, v: &JsonValue)
        requires
            cx.wf(),
        ensures
            final(self).analysis() == export_event(cx.src(), id@, old(self).analysis(), v@),
    {
        let fd = match field_exec(v, "declaration") {
            Some(fd) => fd,
            None => {
                return;
            },
        };
        if !has_tag_exec(fd, "FunctionDeclaration") {
            return;
        }
        let mut spans: Vec<Span> = Vec::new();
        spans.push(span_of_exec(v));
        spans.push(span_or_dummy_exec(field_exec(fd, "identifier")));
        spans.push(span_of_exec(fd));
        assert(spans@ =~= seq![span_of(v@), span_or_dummy(field(fd@, "identifier"@)), span_of(fd@)]);
        let body = fn_body_exec(fd);
        if cx.any_marked_exec(&spans) || has_directive_exec(body) {
            let param = first_param_exec(fd, false);
            let _props_name = props_name_from_pat(param);
            let props = props_mode_from_pat(param);
            self.push_component(cx, id, None, span_of_exec(fd), body, props, &spans, false);
        }
    }

    fn visit_fn_decl(&mut self, cx: &Cx, id: &String, v: &JsonValue)
        requires
            cx.wf(),
        ensures
            final(self).analysis() == fn_decl_event(cx.src(), id@, old(self).analysis(), v@),
    {
        let ident = field_exec(v, "identifier");
        let name = match ident {
            Some(i) => name_of_exec(i),
            None => None,
        };
        let mut spans: Vec<Span> = Vec::new();
        spans.push(span_or_dummy_exec(ident));
        spans.push(span_of_exec(v));
        assert(spans@ =~= seq![span_or_dummy(field(v@, "identifier"@)), span_of(v@)]);
        let auto = is_cap_exec(&name);
        let param = first_param_exec(v, false);
        let _props_name = props_name_from_pat(param);
        let props = props_mode_from_pat(param);
        self.push_component(cx, id, name, span_of_exec(v), fn_body_exec(v), props, &spans, auto);
    }

    fn visit_fn_like(
        &mut self,
        cx: &Cx,
        id: &String,
        name: &Option<Vec<char>>,
        f: &JsonValue,
        spans: &Vec<Span>,
    )
        requires
            cx.wf(),
        ensures
            final(self).analysis() == fn_like_event(
                cx.src(),
                id@,
                old(self).analysis(),
                opt_chars_view(*name),
                f@,
                spans@,
            ),
    {
        let arrow = if has_tag_exec(f, "FunctionExpression") {
            false
        } else if has_tag_exec(f, "ArrowFunctionExpression") {
            true
        } else {
            return;
        };
        let mut all = spans.clone();
        all.push(span_of_exec(f));
        assert(all@ =~= spans@.push(span_of(f@)));
        let auto = is_cap_exec(name);
        let param = first_param_exec(f, arrow);
        let _props_name = props_name_from_pat(param);
        let props = props_mode_from_pat(param);
        self.push_component(cx, id, copy_name(name), span_of_exec(f), fn_body_exec(f), props, &all, auto);
    }

    fn visit_var_declarator(&mut self, cx: &Cx, id: &String, d: &JsonValue, decl: Span)
        requires
            cx.wf(),
        ensures
            final(self).analysis() == declarator_event(cx.src(), id@, old(self).analysis(), d@, decl),
    {
        let pat = field_exec(d, "id");
        let name = match pat {
            Some(p) => if is_binding_ident_exec(p) {
                name_of_exec(p)
            } else {
                None
            },
            None => None,
        };
        let pat_sp = match pat {
            Some(p) => pat_span_exec(p),
            None => Span { lo: 0, hi: 0 },
        };
        let mut base: Vec<Span> = Vec::new();
        base.push(decl);
        base.push(pat_sp);
        base.push(span_of_exec(d));
        assert(base@ =~= seq![decl, pat_sp, span_of(d@)]);
        let init = match field_exec(d, "init") {
            Some(i) => i,
            None => {
                return;
            },
        };
        if has_tag_exec(init, "FunctionExpression") || has_tag_exec(init, "ArrowFunctionExpression") {
            self.visit_fn_like(cx, id, &name, init, &base);
        } else if has_tag_exec(init, "CallExpression") {
            match array_field_exec(init, "arguments") {
                Some(args) => {
                    proof {
                        lemma_json_seq_len(args@);
                    }
                    if args.len() > 0 {
                        proof {
                            lemma_json_seq_index(args@, 0);
                        }
                        match field_exec(&args[0], "expression") {
                            Some(f) => {
                                base.push(span_of_exec(init));
                                self.visit_fn_like(cx, id, &name, f, &base);
                            },
                            None => {},
                        }
                    }
                },
                None => {},
            }
        }
    }

    fn visit_import_decl(&mut self, v: &JsonValue)
        ensures
            final(self).analysis() == (Analysis {
                imports: old(self).analysis().imports.push(import_meta_of(v@)),
                ..old(self).analysis()
            }),
    {
        let source = match field_exec(v, "source") {
            Some(s) => chars_or_empty(str_field_exec(s, "value")),
            None => Vec::new(),
        };
        let ghost target = import_meta_of(v@).specifiers;
        let mut specifiers: Vec<String> = Vec::new();
        match array_field_exec(v, "specifiers") {
            Some(specs) => {
                proof {
                    lemma_json_seq_len(specs@);
                }
                let mut i: usize = 0;
                while i < specs.len()
                    invariant
                        target == import_meta_of(v@).specifiers,
                        target == json_seq(specs@).map_values(|s: Json| specifier_local(s)),
                        json_seq(specs@).len() == specs.len(),
                        i <= specs.len(),
                        strings_view(specifiers@) =~= target.take(i as int),
                    decreases specs.len() - i,
                {
                    proof {
                        lemma_json_seq_index(specs@, i as int);
                    }
                    let local = match field_exec(&specs[i], "local") {
                        Some(l) => chars_or_empty(str_field_exec(l, "value")),
                        None => Vec::new(),
                    };
                    assert(local@ == specifier_local(specs@[i as int]@));
                    assert(target[i as int] == specifier_local(specs@[i as int]@));
                    let ghost before = specifiers@;
                    specifiers.push(string_of(&local));
                    assert(strings_view(specifiers@) =~= strings_view(before).push(local@));
                    assert(target.take(i + 1) =~= target.take(i as int).push(target[i as int]));
                    i = i + 1;
                    assert(strings_view(specifiers@) =~= target.take(i as int));
                }
                assert(target.take(specs.len() as int) =~= target);
            },
            None => {
                assert(strings_view(specifiers@) =~= target);
            },
        }
        let ghost st = self.analysis();
        let meta = ImportMeta { source: string_of(&source), specifiers };
        self.imports.push(meta);
        assert(self.analysis().imports =~= st.imports.push(import_meta_of(v@)));
        assert(self.analysis().components =~= st.components);
        assert(self.analysis().plans =~= st.plans);
    }

    fn visit_event(&mut self, cx: &Cx, id: &String, v: &JsonValue, decl: Span)
        requires
            cx.wf(),
        ensures
            final(self).analysis() == analyzer_event(cx.src(), id@, old(self).analysis(), v@, decl),
    {
        if has_tag_exec(v, "ExportDeclaration") {
            self.visit_export_decl(cx, id, v);
        } else if has_tag_exec(v, "ImportDeclaration") {
            self.visit_import_decl(v);
        } else if has_tag_exec(v, "FunctionDeclaration") {
            self.visit_fn_decl(cx, id, v);
        } else if has_tag_exec(v, "VariableDeclarator") {
            self.visit_var_declarator(cx, id, v, decl);
        }
    }

    /// Analyzes a node and, in order, its descendants; `decl` is the span of
    /// the declaration that directly holds the node.
    pub fn visit_node(&mut self, cx: &Cx, id: &String, v: &JsonValue, decl: Span)
        requires
            cx.wf(),
        ensures
            final(self).analysis() == analyze_node(cx.src(), id@, old(self).analysis(), v@, decl),
        decreases v@,
    {
        self.visit_event(cx, id, v, decl);
        if has_tag_exec(v, "ImportDeclaration") {
            return;
        }
        let is_decl = has_tag_exec(v, "VariableDeclaration");
        match v {
            JsonValue::Array(a) => {
                proof {
                    assert(v@ == Json::Array(json_seq(a@)));
                }
                let cd = if is_decl { span_of_exec(v) } else { decl };
                self.visit_all(cx, id, a, Ghost(v@), cd);
            },
            JsonValue::Object(ks, vs) => {
                proof {
                    assert(v@ == Json::Object(crate::json::keys_of(ks@), json_seq(vs@)));
                }
                let cd = if is_decl { span_of_exec(v) } else { Span { lo: 0, hi: 0 } };
                self.visit_all(cx, id, vs, Ghost(v@), cd);
            },
            _ => {},
        }
    }

    fn visit_all(&mut self, cx: &Cx, id: &String, s: &Vec<JsonValue>, parent: Ghost<Json>, decl: Span)
        requires
            cx.wf(),
            children(parent@) == json_seq(s@),
        ensures
            final(self).analysis() == analyze_list(cx.src(), id@, old(self).analysis(), json_seq(s@), decl),
        decreases parent@, 0nat,
    {
        let ghost st0 = self.analysis();
        let ghost all = json_seq(s@);
        proof {
            lemma_json_seq_len(s@);
        }
        let mut i: usize = 0;
        assert(all.take(0) =~= Seq::<Json>::empty());
        while i < s.len()
            invariant
                cx.wf(),
                all == json_seq(s@),
                children(parent@) == all,
                all.len() == s.len(),
                st0 == old(self).analysis(),
                i <= s.len(),
                self.analysis() == analyze_list(cx.src(), id@, st0, all.take(i as int), decl),
            decreases s.len() - i,
        {
            proof {
                lemma_json_seq_index(s@, i as int);
                lemma_child_decreases(parent@, i as int);
                assert(all.take(i + 1).drop_last() =~= all.take(i as int));
            }
            self.visit_node(cx, id, &s[i], decl);
            i = i + 1;
        }
        assert(all.take(s.len() as int) =~= all);
    }
}

} // verus!

verus! {

/// The file name under which a module is parsed.
pub open spec fn input_file_name() -> Seq<char> {
    "input.tsx"@
}

/// The parser settings of the analysis: TypeScript with JSX and decorators,
/// without the early errors.
pub open spec fn analyzer_options() -> ParserOptions {
    ParserOptions { tsx: true, decorators: true, no_early_errors: true }
}

/// The errors of a parse: the fatal one alone, or the recovered ones.
pub open spec fn parse_errors(out: ParseOutcomeView) -> Seq<Seq<char>> {
    match out.fatal {
        Some(e) => seq!["parse error: "@ + e],
        None => out.recovered.map_values(|w: Seq<char>| "parse warning: "@ + w),
    }
}

/// The syntax tree of a parse that did not fail (nothing is found in a tree
/// that could not be serialized or read back).
pub open spec fn module_tree(out: ParseOutcomeView) -> Option<Json> {
    match out.fatal {
        Some(_) => None,
        None => Some(
            match out.module_json {
                Some(t) => match parse_json(t) {
                    Some(m) => m,
                    None => Json::Null,
                },
                None => Json::Null,
            },
        ),
    }
}

/// The analysis of a module's source text, every component identified by `id`.
pub open spec fn analyze_source(code: Seq<char>, id: Seq<char>) -> AnalyzeResultView {
    let out = parsed_module(input_file_name(), code, analyzer_options());
    let errors = parse_errors(out);
    match module_tree(out) {
        None => AnalyzeResultView {
            ok: false,
            imports: Seq::empty(),
            components: Seq::empty(),
            errors,
        },
        Some(m) => {
            let src = SourceText {
                file_name: input_file_name(),
                code,
                comments: leading_comment_map(input_file_name(), code, analyzer_options()),
            };
            let st = analyze_node(src, id, empty_analysis(), m, Span { lo: 0, hi: 0 });
            AnalyzeResultView { ok: errors.len() == 0, imports: st.imports, components: st.components, errors }
        },
    }
}

/// The identifier of a component found at a time: "SWC_" and the time in
/// milliseconds in lowercase hexadecimal.
pub open spec fn id_text(ms: nat) -> Seq<char> {
    "SWC_"@ + crate::text::hexadecimal(ms)
}

fn prefixed(prefix: &str, s: &String) -> (r: String)
    ensures
        r@ == prefix@ + s@,
{
    let mut out = chars_of(prefix);
    let tail = chars_of(s.as_str());
    let ghost start = out@;
    let mut k: usize = 0;
    while k < tail.len()
        invariant
            k <= tail.len(),
            tail@ == s@,
            start == prefix@,
            out@ == start + tail@.take(k as int),
        decreases tail.len() - k,
    {
        out.push(tail[k]);
        k = k + 1;
        assert(out@ =~= start + tail@.take(k as int));
    }
    assert(tail@.take(tail.len() as int) =~= tail@);
    string_of(&out)
}

/// The identifier of a component found at `ms` milliseconds.
pub fn format_id(ms: u64) -> (r: String)
    ensures
        r@ == id_text(ms as nat),
{
    let mut out = chars_of("SWC_");
    crate::text::push_hexadecimal(&mut out, ms);
    string_of(&out)
}

fn comment_texts(raw: Vec<(u32, Vec<String>)>) -> (r: Vec<(u32, Vec<Vec<char>>)>)
    ensures
        r.len() == raw.len(),
        forall|i: int|
            0 <= i < r.len() ==> (#[trigger] r@[i]).0 == raw@[i].0 && texts_view(r@[i].1@)
                == strings_view(raw@[i].1@),
{
    let mut out: Vec<(u32, Vec<Vec<char>>)> = Vec::new();
    let mut i: usize = 0;
    while i < raw.len()
        invariant
            i <= raw.len(),
            out.len() == i,
            forall|k: int|
                0 <= k < i ==> (#[trigger] out@[k]).0 == raw@[k].0 && texts_view(out@[k].1@)
                    == strings_view(raw@[k].1@),
        decreases raw.len() - i,
    {
        let texts = &raw[i].1;
        let mut conv: Vec<Vec<char>> = Vec::new();
        let mut j: usize = 0;
        while j < texts.len()
            invariant
                i < raw.len(),
                texts == raw@[i as int].1,
                j <= texts.len(),
                texts_view(conv@) =~= strings_view(texts@).take(j as int),
            decreases texts.len() - j,
        {
            let t = chars_of(texts[j].as_str());
            let ghost before = conv@;
            conv.push(t);
            assert(texts_view(conv@) =~= texts_view(before).push(t@));
            assert(strings_view(texts@).take(j + 1) =~= strings_view(texts@).take(j as int).push(texts@[j as int]@));
            j = j + 1;
        }
        assert(strings_view(texts@).take(texts.len() as int) =~= strings_view(texts@));
        out.push((raw[i].0, conv));
        i = i + 1;
    }
    out
}

/// Analyzes a module's source text, identifying every component by `id`.
pub fn analyze_module_with_id(code: &str, id: &String) -> (r: AnalyzeResult)
    ensures
        r@ == analyze_source(code@, id@),
{
    let options = ParserOptions { tsx: true, decorators: true, no_early_errors: true };
    let outcome = parse_module_source("input.tsx", code, options);
    let ghost out = parsed_module(input_file_name(), code@, analyzer_options());
    match &outcome.fatal {
        Some(e) => {
            let mut errors: Vec<String> = Vec::new();
            errors.push(prefixed("parse error: ", e));
            assert(strings_view(errors@) =~= parse_errors(out));
            let r = AnalyzeResult { ok: false, imports: Vec::new(), components: Vec::new(), errors };
            assert(r@.imports =~= Seq::<ImportView>::empty());
            assert(r@.components =~= Seq::<ComponentView>::empty());
            return r;
        },
        None => {},
    }
    let mut errors: Vec<String> = Vec::new();
    let mut i: usize = 0;
    while i < outcome.recovered.len()
        invariant
            outcome@ == out,
            out.fatal is None,
            i <= outcome.recovered.len(),
            strings_view(errors@) =~= parse_errors(out).take(i as int),
        decreases outcome.recovered.len() - i,
    {
        let ghost before = errors@;
        let w = prefixed("parse warning: ", &outcome.recovered[i]);
        assert(out.recovered[i as int] == outcome.recovered@[i as int]@);
        assert(parse_errors(out)[i as int] == "parse warning: "@ + out.recovered[i as int]);
        errors.push(w);
        assert(strings_view(errors@) =~= strings_view(before).push(w@));
        assert(parse_errors(out).take(i + 1) =~= parse_errors(out).take(i as int).push(parse_errors(out)[i as int]));
        i = i + 1;
    }
    assert(parse_errors(out).take(outcome.recovered.len() as int) =~= parse_errors(out));
    let module = match &outcome.module_json {
        Some(t) => match parse_json_chars(&chars_of(t.as_str())) {
            Some(m) => m,
            None => JsonValue::Null,
        },
        None => JsonValue::Null,
    };
    let raw = leading_comments("input.tsx", code, options);
    let comments = comment_texts(raw);
    let cx = Cx {
        file_name: "input.tsx",
        code,
        text: strip_bom(code),
        comments,
        comment_map: Ghost(leading_comment_map(input_file_name(), code@, analyzer_options())),
    };
    proof {
        assert forall|i: int, j: int| 0 <= i < j < cx.comments.len() implies cx.comments@[i].0 != cx.comments@[j].0 by {
            assert(cx.comments@[i].0 == raw@[i].0);
            assert(cx.comments@[j].0 == raw@[j].0);
        }
        assert forall|i: int| 0 <= i < cx.comments.len() implies {
            &&& #[trigger] cx.comment_map@.contains_key(cx.comments@[i].0)
            &&& cx.comment_map@[cx.comments@[i].0] == texts_view(cx.comments@[i].1@)
        } by {
            assert(cx.comments@[i].0 == raw@[i].0);
            assert(leading_comment_map(input_file_name(), code@, analyzer_options()).contains_key(raw@[i].0));
        }
        assert forall|p: u32| #[trigger] cx.comment_map@.contains_key(p) implies exists|i: int|
            0 <= i < cx.comments.len() && cx.comments@[i].0 == p by {
            let i = choose|i: int| 0 <= i < raw.len() && raw@[i].0 == p;
            assert(cx.comments@[i].0 == raw@[i].0);
        }
    }
    let mut analyzer = Analyzer::new();
    analyzer.visit_node(&cx, id, &module, Span { lo: 0, hi: 0 });
    let ok = errors.len() == 0;
    AnalyzeResult { ok, imports: analyzer.imports, components: analyzer.components, errors }
}

} // verus!

verus! {

/// Two components that differ at most in their identifiers.
pub open spec fn same_but_id(a: ComponentView, b: ComponentView) -> bool {
    &&& a.name == b.name
    &&& a.code == b.code
    &&& a.loc == b.loc
    &&& a.observed_list == b.observed_list
    &&& a.should_detect_call_stack == b.should_detect_call_stack
}

/// Analyzes a module's source text; every component is identified by the
/// time of the analysis, `now_ms` milliseconds since the epoch, which the
/// host reads from its clock.
pub fn analyze_module_to_result(code: &str, now_ms: u64) -> (r: AnalyzeResult)
    ensures
        r@ == analyze_source(code@, id_text(now_ms as nat)),
{
    let id = format_id(now_ms);
    analyze_module_with_id(code, &id)
}

} // verus!

verus! {

/// The plan for a program. The analyzer is read-only: it never asks for the
/// runtime import and plans no component, whatever the program and the
/// configuration.
pub fn analyze_program_to_plan(program: &swc_ecma_ast::Program, config: &crate::plan::PluginConfig) -> (r: crate::plan::TransformPlan)
    ensures
        !r@.import_runtime,
        r@.components.len() == 0,
{
    let _ = program;
    let _ = config;
    let r = crate::plan::TransformPlan { import_runtime: false, components: Vec::new() };
    assert(r@.components =~= Seq::<ComponentPlanView>::empty());
    r
}

} // verus!
