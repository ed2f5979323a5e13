//! What a component observes: the variables it declares, the dependencies
//! of its `useMemo` / `useCallback` hooks and the attributes it passes to
//! components in JSX, each at a location relative to the component.
use vstd::prelude::*;

use crate::json::{
    Json, JsonValue, array_field, array_field_exec, children, field, field_exec, has_tag,
    has_tag_exec, json_seq, lemma_child_decreases, lemma_json_seq_index, lemma_json_seq_len,
    str_field_exec,
};
use crate::location::{Cx, SourceText, relative_loc};
use crate::plan::{
    InjectPoint, InjectPointView, ObservedMeta, ObservedView, Span, inject_seq_view,
    observed_seq_view,
};
use crate::syntax::{
    collect_pat_idents, idents_view, name_of, or_empty, pat_idents, span_new, span_new_exec,
    span_of, span_of_exec,
};
use crate::text::{chars_of, decimal, first_is_lower, push_decimal, starts_lower, string_of};

verus! {

/// The three kinds of observed values.
#[derive(Clone, Copy, PartialEq, Eq, Structural)]
pub enum ObsKind {
    Var,
    Dep,
    Attr,
}

pub open spec fn kind_text(k: ObsKind) -> Seq<char> {
    match k {
        ObsKind::Var => "var"@,
        ObsKind::Dep => "dep"@,
        ObsKind::Attr => "attr"@,
    }
}

/// A value that a component may observe: its kind and name, the span whose
/// location identifies it, and the span of the declaration it stands in.
pub struct Candidate {
    pub kind: ObsKind,
    pub name: Vec<char>,
    pub span: Span,
    pub stmt_span: Span,
}

pub struct CandidateView {
    pub kind: ObsKind,
    pub name: Seq<char>,
    pub span: Span,
    pub stmt_span: Span,
}

impl View for Candidate {
    type V = CandidateView;

    open spec fn view(&self) -> CandidateView {
        CandidateView { kind: self.kind, name: self.name@, span: self.span, stmt_span: self.stmt_span }
    }
}

pub open spec fn candidates_view(v: Seq<Candidate>) -> Seq<CandidateView> {
    v.map_values(|c: Candidate| c@)
}

/// The observed values of a component so far, and where to report them.
pub struct Collected {
    pub observed: Seq<ObservedView>,
    pub injects: Seq<InjectPointView>,
}

pub open spec fn empty_collected() -> Collected {
    Collected { observed: Seq::empty(), injects: Seq::empty() }
}

pub open spec fn inject_for(c: CandidateView, index: usize) -> InjectPointView {
    match c.kind {
        ObsKind::Var => InjectPointView::Var { stmt_span: c.stmt_span, name: c.name, index },
        ObsKind::Dep => InjectPointView::DepExpr { expr_span: c.span, name: c.name, index },
        ObsKind::Attr => InjectPointView::AttrExpr { expr_span: c.span, attr_name: c.name, index },
    }
}

/// Observing a candidate: it counts when it has a location relative to the
/// component and no value observed so far has that location.
pub open spec fn add_candidate(src: SourceText, base: Span, st: Collected, c: CandidateView) -> Collected {
    match relative_loc(src, base, c.span) {
        None => st,
        Some(loc) => if exists|j: int| 0 <= j < st.observed.len() && (#[trigger] st.observed[j]).loc == loc {
            st
        } else {
            Collected {
                observed: st.observed.push(ObservedView { name: c.name, loc, observed_type: kind_text(c.kind) }),
                injects: st.injects.push(inject_for(c, st.observed.len() as usize)),
            }
        },
    }
}

pub open spec fn add_candidates(src: SourceText, base: Span, st: Collected, cs: Seq<CandidateView>) -> Collected
    decreases cs.len(),
{
    if cs.len() == 0 {
        st
    } else {
        add_candidate(src, base, add_candidates(src, base, st, cs.drop_last()), cs.last())
    }
}

/// The candidates among a sequence of optional ones.
pub open spec fn somes(s: Seq<Option<CandidateView>>) -> Seq<CandidateView>
    decreases s.len(),
{
    if s.len() == 0 {
        Seq::empty()
    } else {
        match s.last() {
            Some(c) => somes(s.drop_last()).push(c),
            None => somes(s.drop_last()),
        }
    }
}

/// The variables that a declarator declares.
pub open spec fn var_candidates(d: Json) -> Seq<CandidateView> {
    match field(d, "id"@) {
        Some(p) => pat_idents(p).map_values(
            |x: (Seq<char>, Span)|
                CandidateView { kind: ObsKind::Var, name: x.0, span: x.1, stmt_span: span_of(d) },
        ),
        None => Seq::empty(),
    }
}

/// The elements of the dependency array of a `useCallback` or `useMemo` call.
pub open spec fn hook_deps(c: Json) -> Seq<Json> {
    match field(c, "callee"@) {
        Some(callee) => if has_tag(callee, "Identifier"@) && (name_of(callee) == Some("useCallback"@)
            || name_of(callee) == Some("useMemo"@)) && array_field(c, "arguments"@).len() > 1 {
            match field(array_field(c, "arguments"@)[1], "expression"@) {
                Some(a) => if has_tag(a, "ArrayExpression"@) {
                    array_field(a, "elements"@)
                } else {
                    Seq::empty()
                },
                None => Seq::empty(),
            }
        } else {
            Seq::empty()
        },
        None => Seq::empty(),
    }
}

/// How an expression is named: an identifier by its name, anything else by
/// its span ("span:lo..hi").
pub open spec fn expr_name(x: Json) -> Seq<char> {
    if has_tag(x, "Identifier"@) {
        or_empty(name_of(x))
    } else {
        "span:"@ + decimal(span_of(x).lo as nat) + ".."@ + decimal(span_of(x).hi as nat)
    }
}

/// The dependency that an element of a dependency array stands for (none
/// for a hole).
pub open spec fn dep_candidate(e: Json) -> Option<CandidateView> {
    match field(e, "expression"@) {
        Some(x) => Some(CandidateView { kind: ObsKind::Dep, name: expr_name(x), span: span_of(x), stmt_span: span_of(x) }),
        None => None,
    }
}

pub open spec fn dep_candidates(c: Json) -> Seq<CandidateView> {
    somes(hook_deps(c).map_values(|e: Json| dep_candidate(e)))
}

/// A JSX element with a lowercase name is a native element.
pub open spec fn is_native(o: Json) -> bool {
    match field(o, "name"@) {
        Some(n) => has_tag(n, "Identifier"@) && starts_lower(or_empty(name_of(n))),
        None => false,
    }
}

/// The name of a JSX attribute: `name` or `namespace:name`.
pub open spec fn attr_name(n: Json) -> Seq<char> {
    if has_tag(n, "JSXNamespacedName"@) {
        let ns = match field(n, "namespace"@) { Some(x) => or_empty(name_of(x)), None => Seq::empty() };
        let nm = match field(n, "name"@) { Some(x) => or_empty(name_of(x)), None => Seq::empty() };
        ns + seq![':'] + nm
    } else {
        or_empty(name_of(n))
    }
}

/// The span of a JSX attribute's name.
pub open spec fn attr_name_span(n: Json) -> Span {
    if has_tag(n, "JSXNamespacedName"@) {
        let lo = match field(n, "namespace"@) { Some(x) => span_of(x).lo, None => 0 };
        let hi = match field(n, "name"@) { Some(x) => span_of(x).hi, None => 0 };
        span_new(lo, hi)
    } else {
        span_of(n)
    }
}

/// The attribute that a JSX attribute passes as observable: one whose value
/// is an expression, an element or a fragment.
pub open spec fn attr_candidate(a: Json) -> Option<CandidateView> {
    if !has_tag(a, "JSXAttribute"@) {
        None
    } else {
        let n = match field(a, "name"@) { Some(n) => n, None => Json::Null };
        let name = attr_name(n);
        match field(a, "value"@) {
            Some(v) => if has_tag(v, "JSXExpressionContainer"@) {
                match field(v, "expression"@) {
                    Some(e) => if has_tag(e, "JSXEmptyExpression"@) {
                        None
                    } else {
                        Some(CandidateView { kind: ObsKind::Attr, name, span: attr_name_span(n), stmt_span: attr_name_span(n) })
                    },
                    None => None,
                }
            } else if has_tag(v, "JSXElement"@) || has_tag(v, "JSXFragment"@) {
                Some(CandidateView { kind: ObsKind::Attr, name, span: span_of(v), stmt_span: span_of(v) })
            } else {
                None
            },
            None => None,
        }
    }
}

pub open spec fn attr_candidates(o: Json) -> Seq<CandidateView> {
    if is_native(o) {
        Seq::empty()
    } else {
        somes(array_field(o, "attributes"@).map_values(|a: Json| attr_candidate(a)))
    }
}

/// What a node offers for observation, before its descendants.
pub open spec fn collector_event(v: Json) -> Seq<CandidateView> {
    if has_tag(v, "VariableDeclarator"@) {
        var_candidates(v)
    } else if has_tag(v, "CallExpression"@) {
        dep_candidates(v)
    } else if has_tag(v, "JSXOpeningElement"@) {
        attr_candidates(v)
    } else {
        Seq::empty()
    }
}

/// Observing a node and, in order, all its descendants.
pub open spec fn collect_node(src: SourceText, base: Span, st: Collected, v: Json) -> Collected
    decreases v, 1nat,
{
    let st1 = add_candidates(src, base, st, collector_event(v));
    match v {
        Json::Array(a) => collect_list(src, base, st1, a),
        Json::Object(_, vs) => collect_list(src, base, st1, vs),
        _ => st1,
    }
}

pub open spec fn collect_list(src: SourceText, base: Span, st: Collected, s: Seq<Json>) -> Collected
    decreases s, 0nat,
{
    if s.len() == 0 {
        st
    } else {
        collect_node(src, base, collect_list(src, base, st, s.drop_last()), s.last())
    }
}

/// What a component whose span is `base` observes in its body.
pub open spec fn collect_body(src: SourceText, base: Span, body: Option<Json>) -> Collected {
    match body {
        Some(b) => collect_node(src, base, empty_collected(), b),
        None => empty_collected(),
    }
}

} // verus!

verus! {

proof fn lemma_somes_step(s: Seq<Option<CandidateView>>, i: int)
    requires
        0 <= i < s.len(),
    ensures
        somes(s.take(i + 1)) == match s[i] {
            Some(c) => somes(s.take(i)).push(c),
            None => somes(s.take(i)),
        },
{
    assert(s.take(i + 1).drop_last() =~= s.take(i));
}

fn push_candidate(out: &mut Vec<Candidate>, c: Candidate)
    ensures
        candidates_view(final(out)@) == candidates_view(old(out)@).push(c@),
{
    out.push(c);
    assert(candidates_view(out@) =~= candidates_view(old(out)@).push(c@));
}

/// The variables that a declarator declares.
pub fn var_declarator_candidates(d: &JsonValue) -> (r: Vec<Candidate>)
    ensures
        candidates_view(r@) == var_candidates(d@),
{
    let mut out: Vec<Candidate> = Vec::new();
    match field_exec(d, "id") {
        None => {
            assert(candidates_view(out@) =~= var_candidates(d@));
        },
        Some(p) => {
            let mut idents: Vec<(Vec<char>, Span)> = Vec::new();
            collect_pat_idents(p, &mut idents);
            assert(idents_view(idents@) =~= pat_idents(p@));
            let stmt_span = span_of_exec(d);
            let ghost target = var_candidates(d@);
            let mut i: usize = 0;
            while i < idents.len()
                invariant
                    target == var_candidates(d@),
                    field(d@, "id"@) == Some(p@),
                    idents_view(idents@) == pat_idents(p@),
                    stmt_span == span_of(d@),
                    i <= idents.len(),
                    candidates_view(out@) =~= target.take(i as int),
                decreases idents.len() - i,
            {
                assert(idents_view(idents@)[i as int] == (idents@[i as int].0@, idents@[i as int].1));
                let c = Candidate { kind: ObsKind::Var, name: idents[i].0.clone(), span: idents[i].1, stmt_span };
                push_candidate(&mut out, c);
                i = i + 1;
                assert(candidates_view(out@) =~= target.take(i as int));
            }
            assert(target.take(idents.len() as int) =~= target);
        },
    }
    out
}

/// The elements of the dependency array of a `useCallback` or `useMemo` call.
fn hook_deps_exec(c: &JsonValue) -> (r: Option<&Vec<JsonValue>>)
    ensures
        r matches Some(a) ==> hook_deps(c@) == json_seq(a@),
        r is None ==> hook_deps(c@) == Seq::<Json>::empty(),
{
    let callee = match field_exec(c, "callee") {
        Some(x) => x,
        None => {
            return None;
        },
    };
    if !has_tag_exec(callee, "Identifier") {
        return None;
    }
    let is_hook = match str_field_exec(callee, "value") {
        Some(n) => {
            let a = chars_of("useCallback");
            let b = chars_of("useMemo");
            crate::text::chars_eq(n, &a) || crate::text::chars_eq(n, &b)
        },
        None => false,
    };
    if !is_hook {
        return None;
    }
    let args = match array_field_exec(c, "arguments") {
        Some(a) => a,
        None => {
            return None;
        },
    };
    proof {
        lemma_json_seq_len(args@);
    }
    if args.len() <= 1 {
        return None;
    }
    proof {
        lemma_json_seq_index(args@, 1);
    }
    match field_exec(&args[1], "expression") {
        Some(a) => if has_tag_exec(a, "ArrayExpression") {
            array_field_exec(a, "elements")
        } else {
            None
        },
        None => None,
    }
}

/// How an expression is named.
pub fn expr_name_exec(x: &JsonValue) -> (r: Vec<char>)
    ensures
        r@ == expr_name(x@),
{
    if has_tag_exec(x, "Identifier") {
        match str_field_exec(x, "value") {
            Some(t) => t.clone(),
            None => Vec::new(),
        }
    } else {
        let sp = span_of_exec(x);
        let mut out = chars_of("span:");
        push_decimal(&mut out, sp.lo as usize);
        out.push('.');
        out.push('.');
        proof {
            reveal_strlit("..");
        }
        push_decimal(&mut out, sp.hi as usize);
        assert(out@ =~= expr_name(x@));
        out
    }
}

fn dep_candidate_exec(e: &JsonValue) -> (r: Option<Candidate>)
    ensures
        match r {
            Some(c) => dep_candidate(e@) == Some(c@),
            None => dep_candidate(e@) is None,
        },
{
    match field_exec(e, "expression") {
        Some(x) => {
            let sp = span_of_exec(x);
            Some(Candidate { kind: ObsKind::Dep, name: expr_name_exec(x), span: sp, stmt_span: sp })
        },
        None => None,
    }
}

/// The dependencies of a `useCallback` or `useMemo` call.
pub fn call_expr_candidates(c: &JsonValue) -> (r: Vec<Candidate>)
    ensures
        candidates_view(r@) == dep_candidates(c@),
{
    let mut out: Vec<Candidate> = Vec::new();
    match hook_deps_exec(c) {
        None => {
            assert(hook_deps(c@).map_values(|e: Json| dep_candidate(e)) =~= Seq::empty());
            assert(candidates_view(out@) =~= dep_candidates(c@));
        },
        Some(elems) => {
            let ghost s = hook_deps(c@).map_values(|e: Json| dep_candidate(e));
            proof {
                lemma_json_seq_len(elems@);
            }
            let mut i: usize = 0;
            assert(candidates_view(out@) =~= somes(s.take(0)));
            while i < elems.len()
                invariant
                    s == hook_deps(c@).map_values(|e: Json| dep_candidate(e)),
                    hook_deps(c@) == json_seq(elems@),
                    s.len() == elems.len(),
                    i <= elems.len(),
                    candidates_view(out@) == somes(s.take(i as int)),
                decreases elems.len() - i,
            {
                proof {
                    lemma_json_seq_index(elems@, i as int);
                    lemma_somes_step(s, i as int);
                }
                match &elems[i] {
                    JsonValue::Null => {
                        assert(field(elems@[i as int]@, "expression"@) is None);
                    },
                    e => match dep_candidate_exec(e) {
                        Some(cand) => push_candidate(&mut out, cand),
                        None => {},
                    },
                }
                i = i + 1;
            }
            assert(s.take(elems.len() as int) =~= s);
        },
    }
    out
}

fn name_field_or_empty(v: &JsonValue, key: &str) -> (r: Vec<char>)
    ensures
        r@ == match field(v@, key@) {
            Some(x) => or_empty(name_of(x)),
            None => Seq::empty(),
        },
{
    match field_exec(v, key) {
        Some(x) => match str_field_exec(x, "value") {
            Some(t) => t.clone(),
            None => Vec::new(),
        },
        None => Vec::new(),
    }
}

fn attr_name_exec(n: &JsonValue) -> (r: Vec<char>)
    ensures
        r@ == attr_name(n@),
{
    if has_tag_exec(n, "JSXNamespacedName") {
        let mut ns = name_field_or_empty(n, "namespace");
        let nm = name_field_or_empty(n, "name");
        let ghost before = ns@;
        ns.push(':');
        let mut k: usize = 0;
        while k < nm.len()
            invariant
                k <= nm.len(),
                ns@ == before.push(':') + nm@.take(k as int),
            decreases nm.len() - k,
        {
            ns.push(nm[k]);
            k = k + 1;
            assert(ns@ =~= before.push(':') + nm@.take(k as int));
        }
        assert(nm@.take(nm.len() as int) =~= nm@);
        assert(ns@ =~= attr_name(n@));
        ns
    } else {
        match str_field_exec(n, "value") {
            Some(t) => t.clone(),
            None => Vec::new(),
        }
    }
}

fn attr_name_span_exec(n: &JsonValue) -> (r: Span)
    ensures
        r == attr_name_span(n@),
{
    if has_tag_exec(n, "JSXNamespacedName") {
        let lo = match field_exec(n, "namespace") {
            Some(x) => span_of_exec(x).lo,
            None => 0,
        };
        let hi = match field_exec(n, "name") {
            Some(x) => span_of_exec(x).hi,
            None => 0,
        };
        span_new_exec(lo, hi)
    } else {
        span_of_exec(n)
    }
}

fn attr_candidate_exec(a: &JsonValue) -> (r: Option<Candidate>)
    ensures
        match r {
            Some(c) => attr_candidate(a@) == Some(c@),
            None => attr_candidate(a@) is None,
        },
{
    if !has_tag_exec(a, "JSXAttribute") {
        return None;
    }
    let null = JsonValue::Null;
    let n = match field_exec(a, "name") {
        Some(n) => n,
        None => &null,
    };
    match field_exec(a, "value") {
        Some(v) => if has_tag_exec(v, "JSXExpressionContainer") {
            match field_exec(v, "expression") {
                Some(e) => if has_tag_exec(e, "JSXEmptyExpression") {
                    None
                } else {
                    let sp = attr_name_span_exec(n);
                    Some(Candidate { kind: ObsKind::Attr, name: attr_name_exec(n), span: sp, stmt_span: sp })
                },
                None => None,
            }
        } else if has_tag_exec(v, "JSXElement") || has_tag_exec(v, "JSXFragment") {
            let sp = span_of_exec(v);
            Some(Candidate { kind: ObsKind::Attr, name: attr_name_exec(n), span: sp, stmt_span: sp })
        } else {
            None
        },
        None => None,
    }
}

fn is_native_exec(o: &JsonValue) -> (r: bool)
    ensures
        r == is_native(o@),
{
    match field_exec(o, "name") {
        Some(n) => if has_tag_exec(n, "Identifier") {
            let nm = match str_field_exec(n, "value") {
                Some(t) => t.clone(),
                None => Vec::new(),
            };
            first_is_lower(&nm)
        } else {
            false
        },
        None => false,
    }
}

/// The attributes that a JSX opening element passes as observable.
pub fn jsx_opening_element_candidates(o: &JsonValue) -> (r: Vec<Candidate>)
    ensures
        candidates_view(r@) == attr_candidates(o@),
{
    let mut out: Vec<Candidate> = Vec::new();
    if is_native_exec(o) {
        assert(candidates_view(out@) =~= attr_candidates(o@));
        return out;
    }
    match array_field_exec(o, "attributes") {
        None => {
            assert(array_field(o@, "attributes"@).map_values(|a: Json| attr_candidate(a)) =~= Seq::empty());
            assert(candidates_view(out@) =~= attr_candidates(o@));
        },
        Some(attrs) => {
            let ghost s = array_field(o@, "attributes"@).map_values(|a: Json| attr_candidate(a));
            proof {
                lemma_json_seq_len(attrs@);
            }
            let mut i: usize = 0;
            assert(candidates_view(out@) =~= somes(s.take(0)));
            while i < attrs.len()
                invariant
                    s == array_field(o@, "attributes"@).map_values(|a: Json| attr_candidate(a)),
                    array_field(o@, "attributes"@) == json_seq(attrs@),
                    s.len() == attrs.len(),
                    i <= attrs.len(),
                    candidates_view(out@) == somes(s.take(i as int)),
                decreases attrs.len() - i,
            {
                proof {
                    lemma_json_seq_index(attrs@, i as int);
                    lemma_somes_step(s, i as int);
                }
                match attr_candidate_exec(&attrs[i]) {
                    Some(cand) => push_candidate(&mut out, cand),
                    None => {},
                }
                i = i + 1;
            }
            assert(s.take(attrs.len() as int) =~= s);
        },
    }
    out
}

/// What a node offers for observation.
pub fn collector_event_exec(v: &JsonValue) -> (r: Vec<Candidate>)
    ensures
        candidates_view(r@) == collector_event(v@),
{
    if has_tag_exec(v, "VariableDeclarator") {
        var_declarator_candidates(v)
    } else if has_tag_exec(v, "CallExpression") {
        call_expr_candidates(v)
    } else if has_tag_exec(v, "JSXOpeningElement") {
        jsx_opening_element_candidates(v)
    } else {
        let out: Vec<Candidate> = Vec::new();
        assert(candidates_view(out@) =~= collector_event(v@));
        out
    }
}

} // verus!

verus! {

/// Walks a component's body and gathers what it observes.
pub struct ComponentCollector {
    pub component_span: Span,
    pub observed: Vec<ObservedMeta>,
    pub inject_points: Vec<InjectPoint>,
}

fn kind_string(k: ObsKind) -> (r: String)
    ensures
        r@ == kind_text(k),
{
    match k {
        ObsKind::Var => "var".to_owned(),
        ObsKind::Dep => "dep".to_owned(),
        ObsKind::Attr => "attr".to_owned(),
    }
}

impl ComponentCollector {
    pub open spec fn collected(&self) -> Collected {
        Collected {
            observed: observed_seq_view(self.observed@),
            injects: inject_seq_view(self.inject_points@),
        }
    }

    pub fn new(component_span: Span) -> (r: ComponentCollector)
        ensures
            r.component_span == component_span,
            r.collected() == empty_collected(),
    {
        let r = ComponentCollector { component_span, observed: Vec::new(), inject_points: Vec::new() };
        assert(r.collected().observed =~= Seq::<ObservedView>::empty());
        assert(r.collected().injects =~= Seq::<InjectPointView>::empty());
        r
    }

    /// Observes one candidate.
    #[verifier::loop_isolation(false)]
    pub fn push_observed(&mut self, cx: &Cx, c: &Candidate)
        requires
            cx.wf(),
        ensures
            final(self).component_span == old(self).component_span,
            final(self).collected() == add_candidate(
                cx.src(),
                old(self).component_span,
                old(self).collected(),
                c@,
            ),
    {
        let loc = match cx.relative_loc_exec(self.component_span, c.span) {
            Some(loc) => loc,
            None => {
                return;
            },
        };
        let ghost st = self.collected();
        let mut j: usize = 0;
        while j < self.observed.len()
            invariant
                st == self.collected(),
                j <= self.observed.len(),
                forall|k: int| 0 <= k < j ==> (#[trigger] st.observed[k]).loc != loc@,
            decreases self.observed.len() - j,
        {
            assert(st.observed[j as int] == self.observed@[j as int]@);
            if self.observed[j].loc == loc {
                assert(st.observed[j as int].loc == loc@);
                return;
            }
            j = j + 1;
        }
        let index = self.observed.len();
        let name = string_of(&c.name);
        let point = match c.kind {
            ObsKind::Var => InjectPoint::Var { stmt_span: c.stmt_span, name: name.clone(), index },
            ObsKind::Dep => InjectPoint::DepExpr { expr_span: c.span, name: name.clone(), index },
            ObsKind::Attr => InjectPoint::AttrExpr { expr_span: c.span, attr_name: name.clone(), index },
        };
        self.observed.push(ObservedMeta { name, loc, observed_type: kind_string(c.kind) });
        self.inject_points.push(point);
        assert(self.collected().observed =~= st.observed.push(
            ObservedView { name: c@.name, loc: loc@, observed_type: kind_text(c.kind) },
        ));
        assert(self.collected().injects =~= st.injects.push(inject_for(c@, index)));
    }

    /// Observes the candidates in order.
    pub fn push_all(&mut self, cx: &Cx, cs: &Vec<Candidate>)
        requires
            cx.wf(),
        ensures
            final(self).component_span == old(self).component_span,
            final(self).collected() == add_candidates(
                cx.src(),
                old(self).component_span,
                old(self).collected(),
                candidates_view(cs@),
            ),
    {
        let ghost st0 = self.collected();
        let ghost all = candidates_view(cs@);
        let mut i: usize = 0;
        assert(all.take(0) =~= Seq::<CandidateView>::empty());
        while i < cs.len()
            invariant
                cx.wf(),
                all == candidates_view(cs@),
                self.component_span == old(self).component_span,
                st0 == old(self).collected(),
                i <= cs.len(),
                self.collected() == add_candidates(cx.src(), self.component_span, st0, all.take(i as int)),
            decreases cs.len() - i,
        {
            assert(all.take(i + 1).drop_last() =~= all.take(i as int));
            self.push_observed(cx, &cs[i]);
            i = i + 1;
        }
        assert(all.take(cs.len() as int) =~= all);
    }

    /// Observes a node and, in order, all its descendants.
    pub fn visit_node(&mut self, cx: &Cx, v: &JsonValue)
        requires
            cx.wf(),
        ensures
            final(self).component_span == old(self).component_span,
            final(self).collected() == collect_node(
                cx.src(),
                old(self).component_span,
                old(self).collected(),
                v@,
            ),
        decreases v@,
    {
        let cands = collector_event_exec(v);
        self.push_all(cx, &cands);
        let ghost st1 = self.collected();
        match v {
            JsonValue::Array(a) => {
                proof {
                    assert(v@ == Json::Array(json_seq(a@)));
                }
                self.visit_all(cx, a, Ghost(v@));
            },
            JsonValue::Object(ks, vs) => {
                proof {
                    assert(v@ == Json::Object(crate::json::keys_of(ks@), json_seq(vs@)));
                }
                self.visit_all(cx, vs, Ghost(v@));
            },
            _ => {},
        }
    }

    /// Observes the nodes of `s`, the children of `parent`, in order.
    fn visit_all(&mut self, cx: &Cx, s: &Vec<JsonValue>, parent: Ghost<Json>)
        requires
            cx.wf(),
            children(parent@) == json_seq(s@),
        ensures
            final(self).component_span == old(self).component_span,
            final(self).collected() == collect_list(
                cx.src(),
                old(self).component_span,
                old(self).collected(),
                json_seq(s@),
            ),
        decreases parent@, 0nat,
    {
        let ghost st0 = self.collected();
        let ghost all = json_seq(s@);
        proof {
            lemma_json_seq_len(s@);
        }
        let mut i: usize = 0;
        assert(all.take(0) =~= Seq::<Json>::empty());
        while i < s.len()
            invariant
                cx.wf(),
                all == json_seq(s@),
                children(parent@) == all,
                all.len() == s.len(),
                self.component_span == old(self).component_span,
                st0 == old(self).collected(),
                i <= s.len(),
                self.collected() == collect_list(cx.src(), self.component_span, st0, all.take(i as int)),
            decreases s.len() - i,
        {
            proof {
                lemma_json_seq_index(s@, i as int);
                lemma_child_decreases(parent@, i as int);
                assert(all.take(i + 1).drop_last() =~= all.take(i as int));
            }
            self.visit_node(cx, &s[i]);
            i = i + 1;
        }
        assert(all.take(s.len() as int) =~= all);
    }
}

} // verus!
