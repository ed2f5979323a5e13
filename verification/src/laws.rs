//! What holds of every analysis: the invariants that the analysis keeps as it
//! walks a module, and the laws they give of its results.
use vstd::prelude::*;

use crate::analyzer::{
    same_but_id, is_duplicate,
    Analysis, analyze_list, analyze_node, analyze_source, analyzer_event, declarator_event,
    empty_analysis, export_event, fn_decl_event, fn_like_event, is_cap, module_tree,
    push_component, input_file_name, analyzer_options, parse_errors,
};
use crate::collector::{
    Collected, CandidateView, add_candidate, add_candidates, collect_body, collect_list,
    collect_node, collector_event, empty_collected, kind_text, ObsKind,
};
use crate::json::{Json, children, lemma_child_decreases};
use crate::location::SourceText;
use crate::plan::{ComponentView, InjectPointView, ObservedView, Span};
use crate::source::parsed_module;
use crate::text::starts_upper;

verus! {

/// The kinds of observed values.
pub open spec fn is_observed_type(t: Seq<char>) -> bool {
    t == "var"@ || t == "dep"@ || t == "attr"@
}

/// The index that an inject point carries.
pub open spec fn inject_index(p: InjectPointView) -> usize {
    match p {
        InjectPointView::Var { index, .. } => index,
        InjectPointView::DepExpr { index, .. } => index,
        InjectPointView::AttrExpr { index, .. } => index,
    }
}

/// No two observed values share a location, each is of a known kind.
pub open spec fn observed_list_wf(obs: Seq<ObservedView>) -> bool {
    &&& forall|i: int, j: int| 0 <= i < j < obs.len() ==> (#[trigger] obs[i]).loc != (#[trigger] obs[j]).loc
    &&& forall|i: int| 0 <= i < obs.len() ==> is_observed_type((#[trigger] obs[i]).observed_type)
}

/// The observed values are well formed, and the k-th inject point reports
/// the k-th of them.
pub open spec fn collected_wf(c: Collected) -> bool {
    &&& observed_list_wf(c.observed)
    &&& c.injects.len() == c.observed.len()
    &&& forall|i: int| 0 <= i < c.injects.len() ==> inject_index(#[trigger] c.injects[i]) == i as usize
}

/// A component carries a name exactly when it was detected automatically
/// (and must report its call stack); that name starts with an uppercase
/// letter; its observed values are well formed.
pub open spec fn component_wf(c: ComponentView) -> bool {
    &&& (c.name is Some <==> c.should_detect_call_stack)
    &&& (c.name matches Some(n) ==> starts_upper(n))
    &&& observed_list_wf(c.observed_list)
}

/// Components are well formed, and no two share their code, location and
/// detection.
pub open spec fn components_wf(cs: Seq<ComponentView>) -> bool {
    &&& forall|i: int| 0 <= i < cs.len() ==> component_wf(#[trigger] cs[i])
    &&& forall|i: int, j: int|
        0 <= i < j < cs.len() ==> !((#[trigger] cs[i]).code == (#[trigger] cs[j]).code && cs[i].loc
            == cs[j].loc && cs[i].should_detect_call_stack == cs[j].should_detect_call_stack)
}

/// Every component carries the identifier `id`.
pub open spec fn tagged(cs: Seq<ComponentView>, id: Seq<char>) -> bool {
    forall|i: int| 0 <= i < cs.len() ==> (#[trigger] cs[i]).id == id
}

proof fn lemma_add_candidate_wf(src: SourceText, base: Span, st: Collected, c: CandidateView)
    requires
        collected_wf(st),
    ensures
        collected_wf(add_candidate(src, base, st, c)),
{
    let r = add_candidate(src, base, st, c);
    if r != st {
        let n = st.observed.len();
        assert(is_observed_type(kind_text(c.kind)));
        assert forall|i: int, j: int| 0 <= i < j < r.observed.len() implies (#[trigger] r.observed[i]).loc
            != (#[trigger] r.observed[j]).loc by {
            if j == n {
                assert(r.observed[i] == st.observed[i]);
            }
        }
        assert forall|i: int| 0 <= i < r.observed.len() implies is_observed_type((#[trigger] r.observed[i]).observed_type) by {
            if i < n {
                assert(r.observed[i] == st.observed[i]);
            }
        }
        assert forall|i: int| 0 <= i < r.injects.len() implies inject_index(#[trigger] r.injects[i]) == i as usize by {
            if i < n {
                assert(r.injects[i] == st.injects[i]);
            }
        }
    }
}

proof fn lemma_add_candidates_wf(src: SourceText, base: Span, st: Collected, cs: Seq<CandidateView>)
    requires
        collected_wf(st),
    ensures
        collected_wf(add_candidates(src, base, st, cs)),
    decreases cs.len(),
{
    if cs.len() > 0 {
        lemma_add_candidates_wf(src, base, st, cs.drop_last());
        lemma_add_candidate_wf(src, base, add_candidates(src, base, st, cs.drop_last()), cs.last());
    }
}

proof fn lemma_collect_node_wf(src: SourceText, base: Span, st: Collected, v: Json)
    requires
        collected_wf(st),
    ensures
        collected_wf(collect_node(src, base, st, v)),
    decreases v, 1nat,
{
    lemma_add_candidates_wf(src, base, st, collector_event(v));
    let st1 = add_candidates(src, base, st, collector_event(v));
    match v {
        Json::Array(a) => lemma_collect_list_wf(src, base, st1, a),
        Json::Object(_, vs) => lemma_collect_list_wf(src, base, st1, vs),
        _ => {},
    }
}

proof fn lemma_collect_list_wf(src: SourceText, base: Span, st: Collected, s: Seq<Json>)
    requires
        collected_wf(st),
    ensures
        collected_wf(collect_list(src, base, st, s)),
    decreases s, 0nat,
{
    if s.len() > 0 {
        lemma_collect_list_wf(src, base, st, s.drop_last());
        lemma_collect_node_wf(src, base, collect_list(src, base, st, s.drop_last()), s.last());
    }
}

/// What a component observes in its body is well formed: distinct
/// locations, known kinds, and one inject point per observed value, at its
/// index.
pub proof fn law_collected_wf(src: SourceText, base: Span, body: Option<Json>)
    ensures
        collected_wf(collect_body(src, base, body)),
{
    match body {
        Some(b) => lemma_collect_node_wf(src, base, empty_collected(), b),
        None => {},
    }
}

proof fn lemma_push_component_wf(
    src: SourceText,
    id: Seq<char>,
    st: Analysis,
    name: Option<Seq<char>>,
    span: Span,
    body: Option<Json>,
    props: crate::plan::PropsModeView,
    spans: Seq<Span>,
    auto_detected: bool,
)
    requires
        components_wf(st.components),
        tagged(st.components, id),
    ensures
        components_wf(push_component(src, id, st, name, span, body, props, spans, auto_detected).components),
        tagged(push_component(src, id, st, name, span, body, props, spans, auto_detected).components, id),
{
    let r = push_component(src, id, st, name, span, body, props, spans, auto_detected);
    law_collected_wf(src, span, body);
    if r.components.len() != st.components.len() {
        let n = st.components.len();
        let c = r.components[n as int];
        assert(component_wf(c));
        assert forall|i: int| 0 <= i < r.components.len() implies component_wf(#[trigger] r.components[i])
            && r.components[i].id == id by {
            if i < n {
                assert(r.components[i] == st.components[i]);
            }
        }
        assert forall|i: int, j: int|
            0 <= i < j < r.components.len() implies !((#[trigger] r.components[i]).code == (#[trigger] r.components[j]).code
                && r.components[i].loc == r.components[j].loc
                && r.components[i].should_detect_call_stack == r.components[j].should_detect_call_stack) by {
            if j == n {
                assert(r.components[i] == st.components[i]);
            } else {
                assert(r.components[i] == st.components[i]);
                assert(r.components[j] == st.components[j]);
            }
        }
    }
}

proof fn lemma_event_wf(src: SourceText, id: Seq<char>, st: Analysis, v: Json, decl: Span)
    requires
        components_wf(st.components),
        tagged(st.components, id),
    ensures
        components_wf(analyzer_event(src, id, st, v, decl).components),
        tagged(analyzer_event(src, id, st, v, decl).components, id),
{
    if crate::json::has_tag(v, "ExportDeclaration"@) {
        match crate::json::field(v, "declaration"@) {
            Some(fd) => {
                let spans = seq![
                    crate::syntax::span_of(v),
                    crate::analyzer::span_or_dummy(crate::json::field(fd, "identifier"@)),
                    crate::syntax::span_of(fd),
                ];
                lemma_push_component_wf(src, id, st, None, crate::syntax::span_of(fd), crate::syntax::fn_body(fd),
                    crate::syntax::props_mode_of(crate::syntax::first_fn_param(fd)), spans, false);
            },
            None => {},
        }
    } else if crate::json::has_tag(v, "ImportDeclaration"@) {
    } else if crate::json::has_tag(v, "FunctionDeclaration"@) {
        let ident = crate::json::field(v, "identifier"@);
        let name = match ident {
            Some(i) => crate::syntax::name_of(i),
            None => None,
        };
        lemma_push_component_wf(src, id, st, name, crate::syntax::span_of(v), crate::syntax::fn_body(v),
            crate::syntax::props_mode_of(crate::syntax::first_fn_param(v)),
            seq![crate::analyzer::span_or_dummy(ident), crate::syntax::span_of(v)], is_cap(name));
    } else if crate::json::has_tag(v, "VariableDeclarator"@) {
        lemma_declarator_wf(src, id, st, v, decl);
    }
}

proof fn lemma_fn_like_wf(src: SourceText, id: Seq<char>, st: Analysis, name: Option<Seq<char>>, f: Json, spans: Seq<Span>)
    requires
        components_wf(st.components),
        tagged(st.components, id),
    ensures
        components_wf(fn_like_event(src, id, st, name, f, spans).components),
        tagged(fn_like_event(src, id, st, name, f, spans).components, id),
{
    let sp = crate::syntax::span_of(f);
    let body = crate::syntax::fn_body(f);
    lemma_push_component_wf(src, id, st, name, sp, body,
        crate::syntax::props_mode_of(crate::syntax::first_fn_param(f)), spans.push(sp), is_cap(name));
    lemma_push_component_wf(src, id, st, name, sp, body,
        crate::syntax::props_mode_of(crate::syntax::first_arrow_param(f)), spans.push(sp), is_cap(name));
}

proof fn lemma_declarator_wf(src: SourceText, id: Seq<char>, st: Analysis, d: Json, decl: Span)
    requires
        components_wf(st.components),
        tagged(st.components, id),
    ensures
        components_wf(declarator_event(src, id, st, d, decl).components),
        tagged(declarator_event(src, id, st, d, decl).components, id),
{
    let name = crate::analyzer::declarator_name(d);
    let pat_sp = match crate::json::field(d, "id"@) {
        Some(p) => crate::syntax::pat_span(p),
        None => Span { lo: 0, hi: 0 },
    };
    let base = seq![decl, pat_sp, crate::syntax::span_of(d)];
    match crate::json::field(d, "init"@) {
        Some(init) => {
            lemma_fn_like_wf(src, id, st, name, init, base);
            let args = crate::json::array_field(init, "arguments"@);
            if args.len() > 0 {
                match crate::json::field(args[0], "expression"@) {
                    Some(f) => lemma_fn_like_wf(src, id, st, name, f, base.push(crate::syntax::span_of(init))),
                    None => {},
                }
            }
        },
        None => {},
    }
}

proof fn lemma_analyze_node_wf(src: SourceText, id: Seq<char>, st: Analysis, v: Json, decl: Span)
    requires
        components_wf(st.components),
        tagged(st.components, id),
    ensures
        components_wf(analyze_node(src, id, st, v, decl).components),
        tagged(analyze_node(src, id, st, v, decl).components, id),
    decreases v, 1nat,
{
    lemma_event_wf(src, id, st, v, decl);
    let st1 = analyzer_event(src, id, st, v, decl);
    let cd = crate::analyzer::child_decl(v, decl);
    if !crate::json::has_tag(v, "ImportDeclaration"@) {
        match v {
            Json::Array(a) => lemma_analyze_list_wf(src, id, st1, a, cd),
            Json::Object(_, vs) => lemma_analyze_list_wf(src, id, st1, vs, cd),
            _ => {},
        }
    }
}

proof fn lemma_analyze_list_wf(src: SourceText, id: Seq<char>, st: Analysis, s: Seq<Json>, decl: Span)
    requires
        components_wf(st.components),
        tagged(st.components, id),
    ensures
        components_wf(analyze_list(src, id, st, s, decl).components),
        tagged(analyze_list(src, id, st, s, decl).components, id),
    decreases s, 0nat,
{
    if s.len() > 0 {
        lemma_analyze_list_wf(src, id, st, s.drop_last(), decl);
        lemma_analyze_node_wf(src, id, analyze_list(src, id, st, s.drop_last(), decl), s.last(), decl);
    }
}

/// Every analysis of a module gives well-formed components: no two with the
/// same code, location and detection; a name exactly on those detected
/// automatically, and then an uppercase one; observed values with distinct
/// locations and known kinds. Each component carries the identifier that the
/// analysis was given.
pub proof fn law_components_wf(code: Seq<char>, id: Seq<char>)
    ensures
        components_wf(analyze_source(code, id).components),
        tagged(analyze_source(code, id).components, id),
{
    let out = parsed_module(input_file_name(), code, analyzer_options());
    match module_tree(out) {
        Some(m) => {
            let src = SourceText {
                file_name: input_file_name(),
                code,
                comments: crate::source::leading_comment_map(input_file_name(), code, analyzer_options()),
            };
            lemma_analyze_node_wf(src, id, empty_analysis(), m, Span { lo: 0, hi: 0 });
        },
        None => {},
    }
}

/// An analysis succeeds exactly when it reports no error; a parse that fails
/// yields one error and nothing else.
pub proof fn law_ok_iff_no_errors(code: Seq<char>, id: Seq<char>)
    ensures
        analyze_source(code, id).ok <==> analyze_source(code, id).errors.len() == 0,
        parsed_module(input_file_name(), code, analyzer_options()).fatal is Some ==> {
            &&& analyze_source(code, id).errors.len() == 1
            &&& analyze_source(code, id).imports.len() == 0
            &&& analyze_source(code, id).components.len() == 0
        },
{
}

} // verus!

verus! {

/// Two states of an analysis that differ at most in the identifiers of their
/// components.
pub open spec fn agree_but_ids(a: Analysis, b: Analysis) -> bool {
    &&& a.imports == b.imports
    &&& a.plans == b.plans
    &&& a.components.len() == b.components.len()
    &&& forall|i: int| 0 <= i < a.components.len() ==> same_but_id(#[trigger] a.components[i], b.components[i])
}

proof fn lemma_push_component_ids(
    src: SourceText,
    a: Seq<char>,
    b: Seq<char>,
    sa: Analysis,
    sb: Analysis,
    name: Option<Seq<char>>,
    span: Span,
    body: Option<Json>,
    props: crate::plan::PropsModeView,
    spans: Seq<Span>,
    auto_detected: bool,
)
    requires
        agree_but_ids(sa, sb),
    ensures
        agree_but_ids(
            push_component(src, a, sa, name, span, body, props, spans, auto_detected),
            push_component(src, b, sb, name, span, body, props, spans, auto_detected),
        ),
{
    let code = crate::location::snippet(src, span);
    let loc = crate::location::span_loc(src, span);
    let auto = auto_detected && is_cap(name);
    if is_duplicate(sa, code, loc, auto) {
        let j = choose|j: int|
            0 <= j < sa.components.len() && (#[trigger] sa.components[j]).code == code
                && sa.components[j].loc == loc && sa.components[j].should_detect_call_stack == auto;
        assert(same_but_id(sa.components[j], sb.components[j]));
        assert(is_duplicate(sb, code, loc, auto));
    }
    if is_duplicate(sb, code, loc, auto) {
        let j = choose|j: int|
            0 <= j < sb.components.len() && (#[trigger] sb.components[j]).code == code
                && sb.components[j].loc == loc && sb.components[j].should_detect_call_stack == auto;
        assert(same_but_id(sa.components[j], sb.components[j]));
        assert(is_duplicate(sa, code, loc, auto));
    }
    let ra = push_component(src, a, sa, name, span, body, props, spans, auto_detected);
    let rb = push_component(src, b, sb, name, span, body, props, spans, auto_detected);
    if ra.components.len() != sa.components.len() {
        let n = sa.components.len();
        assert forall|i: int| 0 <= i < ra.components.len() implies same_but_id(#[trigger] ra.components[i], rb.components[i]) by {
            if i < n {
                assert(ra.components[i] == sa.components[i]);
                assert(rb.components[i] == sb.components[i]);
            }
        }
    }
}

proof fn lemma_fn_like_ids(src: SourceText, a: Seq<char>, b: Seq<char>, sa: Analysis, sb: Analysis, name: Option<Seq<char>>, f: Json, spans: Seq<Span>)
    requires
        agree_but_ids(sa, sb),
    ensures
        agree_but_ids(fn_like_event(src, a, sa, name, f, spans), fn_like_event(src, b, sb, name, f, spans)),
{
    let sp = crate::syntax::span_of(f);
    let body = crate::syntax::fn_body(f);
    lemma_push_component_ids(src, a, b, sa, sb, name, sp, body,
        crate::syntax::props_mode_of(crate::syntax::first_fn_param(f)), spans.push(sp), is_cap(name));
    lemma_push_component_ids(src, a, b, sa, sb, name, sp, body,
        crate::syntax::props_mode_of(crate::syntax::first_arrow_param(f)), spans.push(sp), is_cap(name));
}

proof fn lemma_declarator_ids(src: SourceText, a: Seq<char>, b: Seq<char>, sa: Analysis, sb: Analysis, d: Json, decl: Span)
    requires
        agree_but_ids(sa, sb),
    ensures
        agree_but_ids(declarator_event(src, a, sa, d, decl), declarator_event(src, b, sb, d, decl)),
{
    let name = crate::analyzer::declarator_name(d);
    let pat_sp = match crate::json::field(d, "id"@) {
        Some(p) => crate::syntax::pat_span(p),
        None => Span { lo: 0, hi: 0 },
    };
    let base = seq![decl, pat_sp, crate::syntax::span_of(d)];
    match crate::json::field(d, "init"@) {
        Some(init) => {
            lemma_fn_like_ids(src, a, b, sa, sb, name, init, base);
            let args = crate::json::array_field(init, "arguments"@);
            if args.len() > 0 {
                match crate::json::field(args[0], "expression"@) {
                    Some(f) => lemma_fn_like_ids(src, a, b, sa, sb, name, f, base.push(crate::syntax::span_of(init))),
                    None => {},
                }
            }
        },
        None => {},
    }
}

proof fn lemma_event_ids(src: SourceText, a: Seq<char>, b: Seq<char>, sa: Analysis, sb: Analysis, v: Json, decl: Span)
    requires
        agree_but_ids(sa, sb),
    ensures
        agree_but_ids(analyzer_event(src, a, sa, v, decl), analyzer_event(src, b, sb, v, decl)),
{
    if crate::json::has_tag(v, "ExportDeclaration"@) {
        match crate::json::field(v, "declaration"@) {
            Some(fd) => {
                let spans = seq![
                    crate::syntax::span_of(v),
                    crate::analyzer::span_or_dummy(crate::json::field(fd, "identifier"@)),
                    crate::syntax::span_of(fd),
                ];
                lemma_push_component_ids(src, a, b, sa, sb, None, crate::syntax::span_of(fd), crate::syntax::fn_body(fd),
                    crate::syntax::props_mode_of(crate::syntax::first_fn_param(fd)), spans, false);
            },
            None => {},
        }
    } else if crate::json::has_tag(v, "ImportDeclaration"@) {
        let ra = analyzer_event(src, a, sa, v, decl);
        let rb = analyzer_event(src, b, sb, v, decl);
        assert(ra.components == sa.components);
        assert(rb.components == sb.components);
    } else if crate::json::has_tag(v, "FunctionDeclaration"@) {
        let ident = crate::json::field(v, "identifier"@);
        let name = match ident {
            Some(i) => crate::syntax::name_of(i),
            None => None,
        };
        lemma_push_component_ids(src, a, b, sa, sb, name, crate::syntax::span_of(v), crate::syntax::fn_body(v),
            crate::syntax::props_mode_of(crate::syntax::first_fn_param(v)),
            seq![crate::analyzer::span_or_dummy(ident), crate::syntax::span_of(v)], is_cap(name));
    } else if crate::json::has_tag(v, "VariableDeclarator"@) {
        lemma_declarator_ids(src, a, b, sa, sb, v, decl);
    }
}

proof fn lemma_analyze_node_ids(src: SourceText, a: Seq<char>, b: Seq<char>, sa: Analysis, sb: Analysis, v: Json, decl: Span)
    requires
        agree_but_ids(sa, sb),
    ensures
        agree_but_ids(analyze_node(src, a, sa, v, decl), analyze_node(src, b, sb, v, decl)),
    decreases v, 1nat,
{
    lemma_event_ids(src, a, b, sa, sb, v, decl);
    let ta = analyzer_event(src, a, sa, v, decl);
    let tb = analyzer_event(src, b, sb, v, decl);
    let cd = crate::analyzer::child_decl(v, decl);
    if !crate::json::has_tag(v, "ImportDeclaration"@) {
        match v {
            Json::Array(s) => lemma_analyze_list_ids(src, a, b, ta, tb, s, cd),
            Json::Object(_, vs) => lemma_analyze_list_ids(src, a, b, ta, tb, vs, cd),
            _ => {},
        }
    }
}

proof fn lemma_analyze_list_ids(src: SourceText, a: Seq<char>, b: Seq<char>, sa: Analysis, sb: Analysis, s: Seq<Json>, decl: Span)
    requires
        agree_but_ids(sa, sb),
    ensures
        agree_but_ids(analyze_list(src, a, sa, s, decl), analyze_list(src, b, sb, s, decl)),
    decreases s, 0nat,
{
    if s.len() > 0 {
        lemma_analyze_list_ids(src, a, b, sa, sb, s.drop_last(), decl);
        lemma_analyze_node_ids(src, a, b, analyze_list(src, a, sa, s.drop_last(), decl), analyze_list(src, b, sb, s.drop_last(), decl), s.last(), decl);
    }
}

/// The identifier an analysis is given changes nothing but the identifiers
/// of its components: two analyses of one text have the same outcome, imports
/// and errors, and the same components in the same order up to their ids.
pub proof fn law_ids_only_differ(code: Seq<char>, a: Seq<char>, b: Seq<char>)
    ensures
        analyze_source(code, a).ok == analyze_source(code, b).ok,
        analyze_source(code, a).imports == analyze_source(code, b).imports,
        analyze_source(code, a).errors == analyze_source(code, b).errors,
        analyze_source(code, a).components.len() == analyze_source(code, b).components.len(),
        forall|i: int|
            0 <= i < analyze_source(code, a).components.len() ==> same_but_id(
                #[trigger] analyze_source(code, a).components[i],
                analyze_source(code, b).components[i],
            ),
{
    let out = parsed_module(input_file_name(), code, analyzer_options());
    match module_tree(out) {
        Some(m) => {
            let src = SourceText {
                file_name: input_file_name(),
                code,
                comments: crate::source::leading_comment_map(input_file_name(), code, analyzer_options()),
            };
            lemma_analyze_node_ids(src, a, b, empty_analysis(), empty_analysis(), m, Span { lo: 0, hi: 0 });
        },
        None => {},
    }
}

} // verus!

verus! {

/// The identifiers bound by the first `m` properties of an object pattern
/// stay, in place, among those bound by its first `n >= m`.
proof fn lemma_object_pat_prefix(p: Json, m: int, n: int)
    requires
        0 <= m <= n <= crate::json::array_field(p, "properties"@).len(),
    ensures
        crate::syntax::object_pat_idents(p, m).len() <= crate::syntax::object_pat_idents(p, n).len(),
        forall|i: int| 0 <= i < crate::syntax::object_pat_idents(p, m).len() ==>
            #[trigger] crate::syntax::object_pat_idents(p, n)[i] == crate::syntax::object_pat_idents(p, m)[i],
    decreases n - m,
{
    if m < n {
        lemma_object_pat_prefix(p, m, n - 1);
        let a = crate::syntax::object_pat_idents(p, n - 1);
        let b = crate::syntax::object_pat_idents(p, n);
        assert forall|i: int| 0 <= i < a.len() implies #[trigger] b[i] == a[i] by {}
    }
}

/// Destructuring with a rest element binds what the rest's target binds:
/// every identifier that the argument of an object pattern's rest element
/// binds is among the identifiers that the whole pattern binds.
pub proof fn law_object_rest_is_bound(p: Json, k: int, a: Json, x: (Seq<char>, Span))
    requires
        crate::json::has_tag(p, "ObjectPattern"@),
        0 <= k < crate::json::array_field(p, "properties"@).len(),
        crate::json::has_tag(crate::json::array_field(p, "properties"@)[k], "RestElement"@),
        crate::json::field(crate::json::array_field(p, "properties"@)[k], "argument"@) == Some(a),
        crate::syntax::pat_idents(a).contains(x),
    ensures
        crate::syntax::pat_idents(p).contains(x),
{
    reveal_strlit("Identifier");
    reveal_strlit("ObjectPattern");
    reveal_strlit("ArrayPattern");
    reveal_strlit("RestElement");
    reveal_strlit("AssignmentPatternProperty");
    reveal_strlit("KeyValuePatternProperty");
    assert("Identifier"@.len() == 10);
    assert("ObjectPattern"@.len() == 13);
    assert("ArrayPattern"@.len() == 12);
    assert("RestElement"@.len() == 11);
    assert("AssignmentPatternProperty"@.len() == 25);
    assert("KeyValuePatternProperty"@.len() == 23);
    let props = crate::json::array_field(p, "properties"@);
    let pr = props[k];
    assert(!crate::syntax::is_binding_ident(p));
    assert(!crate::json::has_tag(p, "ArrayPattern"@));
    assert(!crate::json::has_tag(pr, "AssignmentPatternProperty"@));
    assert(!crate::json::has_tag(pr, "KeyValuePatternProperty"@));
    let before = crate::syntax::object_pat_idents(p, k);
    let upto = crate::syntax::object_pat_idents(p, k + 1);
    assert(upto == before + crate::syntax::pat_idents(a));
    let j = choose|j: int| 0 <= j < crate::syntax::pat_idents(a).len() && crate::syntax::pat_idents(a)[j] == x;
    assert(upto[before.len() + j] == x);
    lemma_object_pat_prefix(p, k + 1, props.len() as int);
    let all = crate::syntax::object_pat_idents(p, props.len() as int);
    assert(all[before.len() + j] == x);
    assert(crate::syntax::pat_idents(p) == all);
}

} // verus!

verus! {

/// Every candidate that `somes` keeps comes from some entry.
proof fn lemma_somes_from(s: Seq<Option<CandidateView>>)
    ensures
        forall|k: int| 0 <= k < crate::collector::somes(s).len() ==> exists|i: int|
            0 <= i < s.len() && s[i] == Some(#[trigger] crate::collector::somes(s)[k]),
    decreases s.len(),
{
    if s.len() > 0 {
        lemma_somes_from(s.drop_last());
        let r = crate::collector::somes(s);
        let q = crate::collector::somes(s.drop_last());
        assert forall|k: int| 0 <= k < r.len() implies exists|i: int| 0 <= i < s.len() && s[i] == Some(#[trigger] r[k]) by {
            if k < q.len() {
                assert(r[k] == q[k]);
                let i = choose|i: int| 0 <= i < s.drop_last().len() && s.drop_last()[i] == Some(q[k]);
                assert(s[i] == Some(r[k]));
            } else {
                assert(s[s.len() - 1] == Some(r[k]));
            }
        }
    }
}

/// Every entry that is a candidate is kept by `somes`.
proof fn lemma_somes_contains(s: Seq<Option<CandidateView>>, i: int)
    requires
        0 <= i < s.len(),
        s[i] is Some,
    ensures
        crate::collector::somes(s).contains(s[i]->0),
    decreases s.len(),
{
    let r = crate::collector::somes(s);
    if i == s.len() - 1 {
        assert(r[r.len() - 1] == s[i]->0);
    } else {
        lemma_somes_contains(s.drop_last(), i);
        let q = crate::collector::somes(s.drop_last());
        let j = choose|j: int| 0 <= j < q.len() && q[j] == s[i]->0;
        assert(r[j] == q[j]);
    }
}

/// A call of one of the hooks whose dependencies are observed.
pub open spec fn is_tracked_hook_call(v: Json) -> bool {
    &&& crate::json::has_tag(v, "CallExpression"@)
    &&& match crate::json::field(v, "callee"@) {
        Some(c) => crate::json::has_tag(c, "Identifier"@) && (crate::syntax::name_of(c) == Some("useMemo"@)
            || crate::syntax::name_of(c) == Some("useCallback"@)),
        None => false,
    }
}

/// Dependencies come only from `useMemo` and `useCallback`: a node offers a
/// dependency for observation only when it is a call whose callee is the
/// identifier `useMemo` or `useCallback`; any other call offers none.
pub proof fn law_deps_only_from_tracked_hooks(v: Json, i: int)
    requires
        0 <= i < collector_event(v).len(),
        collector_event(v)[i].kind == ObsKind::Dep,
    ensures
        is_tracked_hook_call(v),
{
    if crate::json::has_tag(v, "VariableDeclarator"@) {
        let c = collector_event(v)[i];
        assert(c == crate::collector::var_candidates(v)[i]);
    } else if crate::json::has_tag(v, "CallExpression"@) {
        if !is_tracked_hook_call(v) {
            let h = crate::collector::hook_deps(v);
            assert(h == Seq::<Json>::empty());
            assert(h.map_values(|e: Json| crate::collector::dep_candidate(e)) =~= Seq::<Option<CandidateView>>::empty());
        }
    } else if crate::json::has_tag(v, "JSXOpeningElement"@) {
        let s = crate::json::array_field(v, "attributes"@).map_values(|a: Json| crate::collector::attr_candidate(a));
        if !crate::collector::is_native(v) {
            lemma_somes_from(s);
            let c = crate::collector::somes(s)[i];
            let j = choose|j: int| 0 <= j < s.len() && s[j] == Some(c);
            assert(s[j] == crate::collector::attr_candidate(crate::json::array_field(v, "attributes"@)[j]));
        }
    }
}

/// The name of a JSX element is a plain identifier that starts with a
/// lowercase letter (`div`, `span`): a native element.
pub open spec fn names_native_element(o: Json) -> bool {
    match crate::json::field(o, "name"@) {
        Some(n) => crate::json::has_tag(n, "Identifier"@) && match crate::syntax::name_of(n) {
            Some(t) => t.len() > 0 && 'a' <= t[0] && t[0] <= 'z',
            None => false,
        },
        None => false,
    }
}

/// JSX attributes are observed on every element but native ones: on an
/// opening element whose name is not a lowercase plain identifier (a
/// component name, or a member expression such as `Form.Item`), each
/// attribute that passes an expression, an element or a fragment is offered
/// for observation; a native element offers nothing.
pub proof fn law_attrs_observed_unless_native(o: Json, k: int)
    requires
        crate::json::has_tag(o, "JSXOpeningElement"@),
        0 <= k < crate::json::array_field(o, "attributes"@).len(),
    ensures
        names_native_element(o) ==> collector_event(o).len() == 0,
        !names_native_element(o) ==> match crate::collector::attr_candidate(crate::json::array_field(o, "attributes"@)[k]) {
            Some(c) => collector_event(o).contains(c),
            None => true,
        },
{
    reveal_strlit("JSXOpeningElement");
    reveal_strlit("VariableDeclarator");
    reveal_strlit("CallExpression");
    assert("JSXOpeningElement"@.len() == 17);
    assert("VariableDeclarator"@.len() == 18);
    assert("CallExpression"@.len() == 14);
    assert(!crate::json::has_tag(o, "VariableDeclarator"@));
    assert(!crate::json::has_tag(o, "CallExpression"@));
    assert(collector_event(o) == crate::collector::attr_candidates(o));
    if !names_native_element(o) {
        let s = crate::json::array_field(o, "attributes"@).map_values(|a: Json| crate::collector::attr_candidate(a));
        assert(!crate::collector::is_native(o));
        if s[k] is Some {
            lemma_somes_contains(s, k);
        }
    }
}

} // verus!

verus! {

/// The function a declarator binds directly or through a call: its
/// initializer when that is an arrow function, or the first argument of its
/// initializer when that is a call (as in `memo(() => ...)`) whose first
/// argument is an arrow function.
pub open spec fn declared_arrow(d: Json) -> Option<Json> {
    match crate::json::field(d, "init"@) {
        Some(init) => if crate::json::has_tag(init, "ArrowFunctionExpression"@) {
            Some(init)
        } else if crate::json::has_tag(init, "CallExpression"@) {
            let args = crate::json::array_field(init, "arguments"@);
            if args.len() > 0 {
                match crate::json::field(args[0], "expression"@) {
                    Some(f) => if crate::json::has_tag(f, "ArrowFunctionExpression"@) {
                        Some(f)
                    } else {
                        None
                    },
                    None => None,
                }
            } else {
                None
            }
        } else {
            None
        },
        None => None,
    }
}

/// Uppercase arrow components are detected whatever their body: when a
/// declarator binds an identifier whose name starts with an uppercase letter
/// to an arrow function (directly or as the first argument of a call such as
/// `memo`), the analysis then holds a component with that arrow's code and
/// location that must report its call stack; unless one was found already,
/// it is a new last component carrying that name and the analysis's id. The
/// arrow's body may be a block or an expression.
pub proof fn law_uppercase_arrow_is_component(src: SourceText, id: Seq<char>, st: Analysis, d: Json, decl: Span, p: Json, n: Seq<char>, f: Json)
    requires
        crate::json::field(d, "id"@) == Some(p),
        crate::syntax::is_binding_ident(p),
        crate::syntax::name_of(p) == Some(n),
        starts_upper(n),
        declared_arrow(d) == Some(f),
    ensures
        ({
            let r = declarator_event(src, id, st, d, decl);
            let code = crate::location::snippet(src, crate::syntax::span_of(f));
            let loc = crate::location::span_loc(src, crate::syntax::span_of(f));
            &&& exists|j: int| 0 <= j < r.components.len() && (#[trigger] r.components[j]).code == code
                && r.components[j].loc == loc && r.components[j].should_detect_call_stack
            &&& !is_duplicate(st, code, loc, true) ==> {
                &&& r.components.len() == st.components.len() + 1
                &&& r.components.last().name == Some(n)
                &&& r.components.last().id == id
                &&& r.components.last().code == code
                &&& r.components.last().loc == loc
                &&& r.components.last().should_detect_call_stack
            }
        }),
{
    reveal_strlit("ArrowFunctionExpression");
    reveal_strlit("FunctionExpression");
    reveal_strlit("CallExpression");
    assert("ArrowFunctionExpression"@.len() == 23);
    assert("FunctionExpression"@.len() == 18);
    assert("CallExpression"@.len() == 14);
    assert(!crate::json::has_tag(f, "FunctionExpression"@));
    assert(crate::analyzer::declarator_name(d) == Some(n));
    assert(is_cap(Some(n)));
    let r = declarator_event(src, id, st, d, decl);
    let code = crate::location::snippet(src, crate::syntax::span_of(f));
    let loc = crate::location::span_loc(src, crate::syntax::span_of(f));
    if is_duplicate(st, code, loc, true) {
        let j = choose|j: int|
            0 <= j < st.components.len() && (#[trigger] st.components[j]).code == code
                && st.components[j].loc == loc && st.components[j].should_detect_call_stack == true;
        assert(r.components[j] == st.components[j]);
    } else {
        assert(r.components[st.components.len() as int].code == code);
    }
}

/// The import declarations of a node, in source order, each as the
/// analysis reports it; the descendants of an import declaration are not
/// searched.
pub open spec fn import_decls(v: Json) -> Seq<crate::plan::ImportView>
    decreases v, 1nat,
{
    if crate::json::has_tag(v, "ImportDeclaration"@) {
        seq![crate::analyzer::import_meta_of(v)]
    } else {
        match v {
            Json::Array(a) => import_decls_list(a),
            Json::Object(_, vs) => import_decls_list(vs),
            _ => Seq::empty(),
        }
    }
}

pub open spec fn import_decls_list(s: Seq<Json>) -> Seq<crate::plan::ImportView>
    decreases s, 0nat,
{
    if s.len() == 0 {
        Seq::empty()
    } else {
        import_decls_list(s.drop_last()) + import_decls(s.last())
    }
}

proof fn lemma_push_component_imports(
    src: SourceText,
    id: Seq<char>,
    st: Analysis,
    name: Option<Seq<char>>,
    span: Span,
    body: Option<Json>,
    props: crate::plan::PropsModeView,
    spans: Seq<Span>,
    auto_detected: bool,
)
    ensures
        push_component(src, id, st, name, span, body, props, spans, auto_detected).imports == st.imports,
{
}

proof fn lemma_event_imports(src: SourceText, id: Seq<char>, st: Analysis, v: Json, decl: Span)
    requires
        !crate::json::has_tag(v, "ImportDeclaration"@),
    ensures
        analyzer_event(src, id, st, v, decl).imports == st.imports,
{
    if crate::json::has_tag(v, "ExportDeclaration"@) {
        match crate::json::field(v, "declaration"@) {
            Some(fd) => {
                let spans = seq![
                    crate::syntax::span_of(v),
                    crate::analyzer::span_or_dummy(crate::json::field(fd, "identifier"@)),
                    crate::syntax::span_of(fd),
                ];
                lemma_push_component_imports(src, id, st, None, crate::syntax::span_of(fd), crate::syntax::fn_body(fd),
                    crate::syntax::props_mode_of(crate::syntax::first_fn_param(fd)), spans, false);
            },
            None => {},
        }
    } else if crate::json::has_tag(v, "FunctionDeclaration"@) {
    } else if crate::json::has_tag(v, "VariableDeclarator"@) {
    }
}

proof fn lemma_analyze_node_imports(src: SourceText, id: Seq<char>, st: Analysis, v: Json, decl: Span)
    ensures
        analyze_node(src, id, st, v, decl).imports == st.imports + import_decls(v),
    decreases v, 1nat,
{
    reveal_strlit("ImportDeclaration");
    reveal_strlit("ExportDeclaration");
    assert("ImportDeclaration"@[0] == 'I');
    assert("ExportDeclaration"@[0] == 'E');
    if crate::json::has_tag(v, "ImportDeclaration"@) {
        assert(!crate::json::has_tag(v, "ExportDeclaration"@));
        assert(st.imports.push(crate::analyzer::import_meta_of(v)) =~= st.imports + import_decls(v));
    } else {
        lemma_event_imports(src, id, st, v, decl);
        let st1 = analyzer_event(src, id, st, v, decl);
        let cd = crate::analyzer::child_decl(v, decl);
        match v {
            Json::Array(a) => lemma_analyze_list_imports(src, id, st1, a, cd),
            Json::Object(_, vs) => lemma_analyze_list_imports(src, id, st1, vs, cd),
            _ => {
                assert(st.imports + import_decls(v) =~= st.imports);
            },
        }
    }
}

proof fn lemma_analyze_list_imports(src: SourceText, id: Seq<char>, st: Analysis, s: Seq<Json>, decl: Span)
    ensures
        analyze_list(src, id, st, s, decl).imports == st.imports + import_decls_list(s),
    decreases s, 0nat,
{
    if s.len() == 0 {
        assert(st.imports + import_decls_list(s) =~= st.imports);
    } else {
        lemma_analyze_list_imports(src, id, st, s.drop_last(), decl);
        let mid = analyze_list(src, id, st, s.drop_last(), decl);
        lemma_analyze_node_imports(src, id, mid, s.last(), decl);
        assert(st.imports + import_decls_list(s) =~= (st.imports + import_decls_list(s.drop_last())) + import_decls(s.last()));
    }
}

/// The imports of an analysis are its module's import declarations, one
/// entry per declaration, in source order, each with its source and the
/// local names it binds, whether or not sources repeat. A module that does
/// not parse has none.
pub proof fn law_imports_are_declarations(code: Seq<char>, id: Seq<char>)
    ensures
        analyze_source(code, id).imports == match module_tree(parsed_module(input_file_name(), code, analyzer_options())) {
            Some(m) => import_decls(m),
            None => Seq::empty(),
        },
{
    let out = parsed_module(input_file_name(), code, analyzer_options());
    match module_tree(out) {
        Some(m) => {
            let src = SourceText {
                file_name: input_file_name(),
                code,
                comments: crate::source::leading_comment_map(input_file_name(), code, analyzer_options()),
            };
            lemma_analyze_node_imports(src, id, empty_analysis(), m, Span { lo: 0, hi: 0 });
            assert(empty_analysis().imports + import_decls(m) =~= import_decls(m));
        },
        None => {},
    }
}

} // verus!

verus! {

proof fn lemma_array_pat_prefix(p: Json, m: int, n: int)
    requires
        0 <= m <= n <= crate::json::array_field(p, "elements"@).len(),
    ensures
        crate::syntax::array_pat_idents(p, m).len() <= crate::syntax::array_pat_idents(p, n).len(),
        forall|i: int| 0 <= i < crate::syntax::array_pat_idents(p, m).len() ==>
            #[trigger] crate::syntax::array_pat_idents(p, n)[i] == crate::syntax::array_pat_idents(p, m)[i],
    decreases n - m,
{
    if m < n {
        lemma_array_pat_prefix(p, m, n - 1);
        let a = crate::syntax::array_pat_idents(p, n - 1);
        let b = crate::syntax::array_pat_idents(p, n);
        assert forall|i: int| 0 <= i < a.len() implies #[trigger] b[i] == a[i] by {}
    }
}

proof fn reveal_pattern_tags()
    ensures
        "Identifier"@.len() == 10,
        "ObjectPattern"@.len() == 13,
        "ArrayPattern"@.len() == 12,
        "RestElement"@.len() == 11,
        "AssignmentPattern"@.len() == 17,
        "AssignmentPatternProperty"@.len() == 25,
        "KeyValuePatternProperty"@.len() == 23,
{
    reveal_strlit("Identifier");
    reveal_strlit("ObjectPattern");
    reveal_strlit("ArrayPattern");
    reveal_strlit("RestElement");
    reveal_strlit("AssignmentPattern");
    reveal_strlit("AssignmentPatternProperty");
    reveal_strlit("KeyValuePatternProperty");
}

/// A binding identifier binds its own name at its own span; a default binds
/// what its target binds; a rest binds what its argument binds.
pub proof fn law_simple_patterns(p: Json)
    ensures
        crate::syntax::is_binding_ident(p) ==> crate::syntax::pat_idents(p) == seq![
            (crate::syntax::or_empty(crate::syntax::name_of(p)), crate::syntax::span_of(p))],
        crate::json::has_tag(p, "AssignmentPattern"@) ==> crate::syntax::pat_idents(p) == match crate::json::field(p, "left"@) {
            Some(l) => crate::syntax::pat_idents(l),
            None => Seq::empty(),
        },
        crate::json::has_tag(p, "RestElement"@) ==> crate::syntax::pat_idents(p) == match crate::json::field(p, "argument"@) {
            Some(a) => crate::syntax::pat_idents(a),
            None => Seq::empty(),
        },
{
    reveal_pattern_tags();
}

/// Every element of an array pattern binds its names within the whole
/// pattern.
pub proof fn law_array_element_is_bound(p: Json, k: int, x: (Seq<char>, Span))
    requires
        crate::json::has_tag(p, "ArrayPattern"@),
        0 <= k < crate::json::array_field(p, "elements"@).len(),
        crate::syntax::pat_idents(crate::json::array_field(p, "elements"@)[k]).contains(x),
    ensures
        crate::syntax::pat_idents(p).contains(x),
{
    reveal_pattern_tags();
    let els = crate::json::array_field(p, "elements"@);
    let e = els[k];
    assert(!crate::syntax::is_binding_ident(p));
    let j = choose|j: int| 0 <= j < crate::syntax::pat_idents(e).len() && crate::syntax::pat_idents(e)[j] == x;
    if e is Null {
        assert(crate::syntax::pat_idents(e) =~= Seq::<(Seq<char>, Span)>::empty());
    } else {
        let before = crate::syntax::array_pat_idents(p, k);
        let upto = crate::syntax::array_pat_idents(p, k + 1);
        assert(upto == before + crate::syntax::pat_idents(e));
        assert(upto[before.len() + j] == x);
        lemma_array_pat_prefix(p, k + 1, els.len() as int);
        assert(crate::syntax::pat_idents(p) == crate::syntax::array_pat_idents(p, els.len() as int));
        assert(crate::syntax::pat_idents(p)[before.len() + j] == x);
    }
}

/// The value of every key-value property of an object pattern binds its
/// names within the whole pattern.
pub proof fn law_object_value_is_bound(p: Json, k: int, val: Json, x: (Seq<char>, Span))
    requires
        crate::json::has_tag(p, "ObjectPattern"@),
        0 <= k < crate::json::array_field(p, "properties"@).len(),
        crate::json::has_tag(crate::json::array_field(p, "properties"@)[k], "KeyValuePatternProperty"@),
        crate::json::field(crate::json::array_field(p, "properties"@)[k], "value"@) == Some(val),
        crate::syntax::pat_idents(val).contains(x),
    ensures
        crate::syntax::pat_idents(p).contains(x),
{
    reveal_pattern_tags();
    let props = crate::json::array_field(p, "properties"@);
    assert(!crate::syntax::is_binding_ident(p));
    assert(crate::syntax::pat_idents(p) == crate::syntax::object_pat_idents(p, props.len() as int));
    let j = choose|j: int| 0 <= j < crate::syntax::pat_idents(val).len() && crate::syntax::pat_idents(val)[j] == x;
    let before = crate::syntax::object_pat_idents(p, k);
    let upto = crate::syntax::object_pat_idents(p, k + 1);
    assert(upto == before + crate::syntax::pat_idents(val));
    assert(upto[before.len() + j] == x);
    lemma_object_pat_prefix(p, k + 1, props.len() as int);
    assert(crate::syntax::pat_idents(p)[before.len() + j] == x);
}

/// Every shorthand property of an object pattern (`{ a }`, `{ a = 1 }`)
/// binds its key's name at the key's span.
pub proof fn law_object_shorthand_is_bound(p: Json, k: int, key: Json)
    requires
        crate::json::has_tag(p, "ObjectPattern"@),
        0 <= k < crate::json::array_field(p, "properties"@).len(),
        crate::json::has_tag(crate::json::array_field(p, "properties"@)[k], "AssignmentPatternProperty"@),
        crate::json::field(crate::json::array_field(p, "properties"@)[k], "key"@) == Some(key),
    ensures
        crate::syntax::pat_idents(p).contains(
            (crate::syntax::or_empty(crate::syntax::name_of(key)), crate::syntax::span_of(key))),
{
    reveal_pattern_tags();
    let props = crate::json::array_field(p, "properties"@);
    assert(!crate::syntax::is_binding_ident(p));
    assert(crate::syntax::pat_idents(p) == crate::syntax::object_pat_idents(p, props.len() as int));
    let x = (crate::syntax::or_empty(crate::syntax::name_of(key)), crate::syntax::span_of(key));
    let before = crate::syntax::object_pat_idents(p, k);
    let upto = crate::syntax::object_pat_idents(p, k + 1);
    assert(upto == before.push(x));
    assert(upto[before.len() as int] == x);
    lemma_object_pat_prefix(p, k + 1, props.len() as int);
    assert(crate::syntax::pat_idents(p)[before.len() as int] == x);
}

} // verus!

verus! {

/// When a function is a component: it is one exactly when a leading comment
/// of one of its spans holds `@component`, its body's directive prologue
/// holds `"use relyzer"`, or it may be detected automatically and its name
/// starts with an uppercase letter, whatever its body. A component is then
/// present with the function's code and location; unless one with the same
/// code, location and detection was found already, it is a new last
/// component with the analysis's id, the name only when detected
/// automatically, and the values observed in its body. Anything else leaves
/// the analysis unchanged.
pub proof fn law_component_detection(
    src: SourceText,
    id: Seq<char>,
    st: Analysis,
    name: Option<Seq<char>>,
    span: Span,
    body: Option<Json>,
    props: crate::plan::PropsModeView,
    spans: Seq<Span>,
    auto_detected: bool,
)
    ensures
        ({
            let r = push_component(src, id, st, name, span, body, props, spans, auto_detected);
            let explicit = (exists|i: int| 0 <= i < spans.len() && crate::location::span_marked(src, #[trigger] spans[i]))
                || crate::syntax::has_directive(body);
            let detect = auto_detected && match name {
                Some(n) => n.len() > 0 && 'A' <= n[0] && n[0] <= 'Z',
                None => false,
            };
            let code = crate::location::snippet(src, span);
            let loc = crate::location::span_loc(src, span);
            &&& !(explicit || detect) ==> r == st
            &&& (explicit || detect) ==> exists|j: int| 0 <= j < r.components.len()
                && (#[trigger] r.components[j]).code == code && r.components[j].loc == loc
                && r.components[j].should_detect_call_stack == detect
            &&& (explicit || detect) && !is_duplicate(st, code, loc, detect) ==> {
                &&& r.components == st.components.push(crate::plan::ComponentView {
                    id,
                    name: if detect { name } else { None },
                    code,
                    loc,
                    observed_list: collect_body(src, span, body).observed,
                    should_detect_call_stack: detect,
                })
                &&& r.imports == st.imports
            }
        }),
{
    let r = push_component(src, id, st, name, span, body, props, spans, auto_detected);
    let detect = auto_detected && is_cap(name);
    let code = crate::location::snippet(src, span);
    let loc = crate::location::span_loc(src, span);
    if is_duplicate(st, code, loc, detect) {
        let j = choose|j: int|
            0 <= j < st.components.len() && (#[trigger] st.components[j]).code == code
                && st.components[j].loc == loc && st.components[j].should_detect_call_stack == detect;
        assert(r.components[j] == st.components[j]);
    } else if r.components.len() > st.components.len() {
        assert(r.components[st.components.len() as int].code == code);
    }
}

/// `"use relyzer"` counts only in the directive prologue: when it stands at
/// position `k` of a body and every statement before it is a string literal
/// statement, the body holds the directive; when a statement that is not a
/// string literal statement stands at `k` and no `"use relyzer"` comes
/// before it, the body does not hold it, whatever follows.
pub proof fn law_directive_prologue(b: Json, k: int)
    requires
        0 <= k < crate::json::array_field(b, "stmts"@).len(),
    ensures
        crate::syntax::is_use_relyzer(crate::json::array_field(b, "stmts"@)[k])
            && (forall|j: int| 0 <= j < k ==> crate::syntax::is_directive(#[trigger] crate::json::array_field(b, "stmts"@)[j]))
            ==> crate::syntax::has_directive(Some(b)),
        !crate::syntax::is_directive(crate::json::array_field(b, "stmts"@)[k])
            && (forall|j: int| 0 <= j < k ==> !crate::syntax::is_use_relyzer(#[trigger] crate::json::array_field(b, "stmts"@)[j]))
            ==> !crate::syntax::has_directive(Some(b)),
{
    let s = crate::json::array_field(b, "stmts"@);
    if !crate::syntax::is_directive(s[k]) && (forall|j: int| 0 <= j < k ==> !crate::syntax::is_use_relyzer(#[trigger] s[j])) {
        assert forall|i: int| 0 <= i < s.len() && crate::syntax::is_use_relyzer(#[trigger] s[i])
            implies !(forall|j: int| 0 <= j < i ==> crate::syntax::is_directive(#[trigger] s[j])) by {
            if i > k {
                assert(!crate::syntax::is_directive(s[k]));
            }
        }
    }
}

} // verus!
