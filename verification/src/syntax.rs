//! Reading the parts of a serialized syntax tree that the analysis needs:
//! spans, names, function bodies, parameters and binding patterns.
use vstd::prelude::*;

use crate::json::{
    Json, JsonValue, array_field, array_field_exec, copy_json, field, field_exec, has_tag,
    has_tag_exec, json_seq, lemma_array_field_decreases, lemma_field_decreases,
    lemma_json_seq_index, str_field, str_field_exec, u32_field, u32_field_exec,
};
use crate::plan::{PropsMode, PropsModeView, Span};
use crate::text::chars_of;

verus! {

pub open spec fn or_zero(o: Option<u32>) -> u32 {
    match o {
        Some(x) => x,
        None => 0,
    }
}

pub open spec fn or_empty(o: Option<Seq<char>>) -> Seq<char> {
    match o {
        Some(t) => t,
        None => Seq::empty(),
    }
}

/// The span of a node (its member "span"; positions that are absent count
/// as 0).
pub open spec fn span_of(v: Json) -> Span {
    match field(v, "span"@) {
        Some(s) => Span { lo: or_zero(u32_field(s, "start"@)), hi: or_zero(u32_field(s, "end"@)) },
        None => Span { lo: 0, hi: 0 },
    }
}

pub fn span_of_exec(v: &JsonValue) -> (r: Span)
    ensures
        r == span_of(v@),
{
    match field_exec(v, "span") {
        Some(s) => {
            let lo = match u32_field_exec(s, "start") {
                Some(x) => x,
                None => 0,
            };
            let hi = match u32_field_exec(s, "end") {
                Some(x) => x,
                None => 0,
            };
            Span { lo, hi }
        },
        None => Span { lo: 0, hi: 0 },
    }
}

/// The span from `lo` to `hi`, in order.
pub open spec fn span_new(lo: u32, hi: u32) -> Span {
    if lo > hi {
        Span { lo: hi, hi: lo }
    } else {
        Span { lo, hi }
    }
}

pub fn span_new_exec(lo: u32, hi: u32) -> (r: Span)
    ensures
        r == span_new(lo, hi),
{
    if lo > hi {
        Span { lo: hi, hi: lo }
    } else {
        Span { lo, hi }
    }
}

pub open spec fn is_object(v: Json) -> bool {
    v is Object
}

/// The span of a binding pattern: an identifier with a type annotation
/// reaches to the end of the annotation.
pub open spec fn pat_span(p: Json) -> Span {
    if has_tag(p, "Identifier"@) {
        match field(p, "typeAnnotation"@) {
            Some(a) => if is_object(a) {
                span_new(span_of(p).lo, span_of(a).hi)
            } else {
                span_of(p)
            },
            None => span_of(p),
        }
    } else {
        span_of(p)
    }
}

pub fn pat_span_exec(p: &JsonValue) -> (r: Span)
    ensures
        r == pat_span(p@),
{
    if has_tag_exec(p, "Identifier") {
        match field_exec(p, "typeAnnotation") {
            Some(a) => match a {
                JsonValue::Object(_, _) => span_new_exec(span_of_exec(p).lo, span_of_exec(a).hi),
                _ => span_of_exec(p),
            },
            None => span_of_exec(p),
        }
    } else {
        span_of_exec(p)
    }
}

/// A binding identifier: an identifier node in a pattern position, which
/// always carries a member "typeAnnotation" (possibly null). An identifier
/// expression used as a pattern has the same tag but no such member.
pub open spec fn is_binding_ident(p: Json) -> bool {
    has_tag(p, "Identifier"@) && field(p, "typeAnnotation"@) is Some
}

pub fn is_binding_ident_exec(p: &JsonValue) -> (r: bool)
    ensures
        r == is_binding_ident(p@),
{
    has_tag_exec(p, "Identifier") && field_exec(p, "typeAnnotation").is_some()
}

/// The name an identifier node holds (its member "value").
pub open spec fn name_of(v: Json) -> Option<Seq<char>> {
    str_field(v, "value"@)
}

/// The body of a function or arrow function, when it is a block.
pub open spec fn fn_body(f: Json) -> Option<Json> {
    match field(f, "body"@) {
        Some(b) => if has_tag(b, "FunctionBody"@) {
            Some(b)
        } else {
            None
        },
        None => None,
    }
}

pub fn fn_body_exec(f: &JsonValue) -> (r: Option<&JsonValue>)
    ensures
        r matches Some(b) ==> fn_body(f@) == Some(b@),
        r is None ==> fn_body(f@) is None,
{
    match field_exec(f, "body") {
        Some(b) => if has_tag_exec(b, "FunctionBody") {
            Some(b)
        } else {
            None
        },
        None => None,
    }
}

/// The pattern of the first parameter of a function.
pub open spec fn first_fn_param(f: Json) -> Option<Json> {
    let ps = array_field(f, "params"@);
    if ps.len() > 0 {
        field(ps[0], "pat"@)
    } else {
        None
    }
}

/// The first parameter (a pattern) of an arrow function.
pub open spec fn first_arrow_param(a: Json) -> Option<Json> {
    let ps = array_field(a, "params"@);
    if ps.len() > 0 {
        Some(ps[0])
    } else {
        None
    }
}

pub fn first_param_exec(f: &JsonValue, arrow: bool) -> (r: Option<&JsonValue>)
    ensures
        r matches Some(p) ==> Some(p@) == if arrow { first_arrow_param(f@) } else { first_fn_param(f@) },
        r is None ==> (if arrow { first_arrow_param(f@) } else { first_fn_param(f@) }) is None,
{
    match array_field_exec(f, "params") {
        Some(ps) => {
            if ps.len() > 0 {
                proof {
                    lemma_json_seq_index(ps@, 0);
                }
                if arrow {
                    Some(&ps[0])
                } else {
                    field_exec(&ps[0], "pat")
                }
            } else {
                proof {
                    crate::json::lemma_json_seq_len(ps@);
                }
                None
            }
        },
        None => None,
    }
}

/// How a component with this first parameter receives its props.
pub open spec fn props_mode_of(p: Option<Json>) -> PropsModeView {
    match p {
        None => PropsModeView::Absent,
        Some(p) => if is_binding_ident(p) {
            PropsModeView::Ident { name: or_empty(name_of(p)) }
        } else if has_tag(p, "ObjectPattern"@) {
            PropsModeView::ObjectPattern { temp_name: "_props"@, original: p }
        } else {
            PropsModeView::Absent
        },
    }
}

pub fn props_mode_from_pat(p: Option<&JsonValue>) -> (r: PropsMode)
    ensures
        r@ == props_mode_of(match p { Some(q) => Some(q@), None => None }),
{
    match p {
        None => PropsMode::Absent,
        Some(p) => if is_binding_ident_exec(p) {
            let name = match str_field_exec(p, "value") {
                Some(t) => crate::text::string_of(t),
                None => String::new(),
            };
            PropsMode::Ident { name }
        } else if has_tag_exec(p, "ObjectPattern") {
            PropsMode::ObjectPattern { temp_name: "_props".to_owned(), original: copy_json(p) }
        } else {
            PropsMode::Absent
        },
    }
}

/// The name under which a component with this first parameter sees its
/// props: the parameter's name, "props" for an object pattern or no
/// parameter, nothing otherwise.
pub open spec fn props_name_of(p: Option<Json>) -> Option<Seq<char>> {
    match p {
        None => Some("props"@),
        Some(p) => if is_binding_ident(p) {
            Some(or_empty(name_of(p)))
        } else if has_tag(p, "ObjectPattern"@) {
            Some("props"@)
        } else {
            None
        },
    }
}

pub fn props_name_from_pat(p: Option<&JsonValue>) -> (r: Option<String>)
    ensures
        crate::source::opt_string_view(r) == props_name_of(
            match p {
                Some(q) => Some(q@),
                None => None,
            },
        ),
{
    match p {
        None => Some("props".to_owned()),
        Some(p) => if is_binding_ident_exec(p) {
            match str_field_exec(p, "value") {
                Some(t) => Some(crate::text::string_of(t)),
                None => Some(String::new()),
            }
        } else if has_tag_exec(p, "ObjectPattern") {
            Some("props".to_owned())
        } else {
            None
        },
    }
}

/// A statement `"use relyzer";`.
pub open spec fn is_use_relyzer(stmt: Json) -> bool {
    &&& has_tag(stmt, "ExpressionStatement"@)
    &&& match field(stmt, "expression"@) {
        Some(e) => has_tag(e, "StringLiteral"@) && str_field(e, "value"@) == Some("use relyzer"@),
        None => false,
    }
}

/// A directive: an expression statement that is a string literal.
pub open spec fn is_directive(stmt: Json) -> bool {
    &&& has_tag(stmt, "ExpressionStatement"@)
    &&& match field(stmt, "expression"@) {
        Some(e) => has_tag(e, "StringLiteral"@),
        None => false,
    }
}

/// A body's directive prologue (its leading run of directives) holds the
/// directive `"use relyzer"`.
pub open spec fn has_directive(body: Option<Json>) -> bool {
    match body {
        Some(b) => {
            let s = array_field(b, "stmts"@);
            exists|i: int|
                0 <= i < s.len() && is_use_relyzer(#[trigger] s[i]) && forall|j: int|
                    0 <= j < i ==> is_directive(#[trigger] s[j])
        },
        None => false,
    }
}

/// Whether a statement is a directive, and whether it is `"use relyzer"`.
fn directive_exec(stmt: &JsonValue) -> (r: (bool, bool))
    ensures
        r.0 == is_directive(stmt@),
        r.1 == is_use_relyzer(stmt@),
{
    if !has_tag_exec(stmt, "ExpressionStatement") {
        return (false, false);
    }
    match field_exec(stmt, "expression") {
        Some(e) => {
            if !has_tag_exec(e, "StringLiteral") {
                return (false, false);
            }
            match str_field_exec(e, "value") {
                Some(t) => {
                    let want = chars_of("use relyzer");
                    (true, crate::text::chars_eq(t, &want))
                },
                None => (true, false),
            }
        },
        None => (false, false),
    }
}

pub fn has_directive_exec(body: Option<&JsonValue>) -> (r: bool)
    ensures
        r == has_directive(
            match body {
                Some(b) => Some(b@),
                None => None,
            },
        ),
{
    match body {
        None => false,
        Some(b) => match array_field_exec(b, "stmts") {
            None => false,
            Some(stmts) => {
                let ghost s = array_field(b@, "stmts"@);
                proof {
                    crate::json::lemma_json_seq_len(stmts@);
                }
                let mut i: usize = 0;
                while i < stmts.len()
                    invariant
                        body == Some(b),
                        s == array_field(b@, "stmts"@),
                        s == json_seq(stmts@),
                        s.len() == stmts.len(),
                        i <= stmts.len(),
                        forall|j: int| 0 <= j < i ==> is_directive(#[trigger] s[j]) && !is_use_relyzer(s[j]),
                    decreases stmts.len() - i,
                {
                    proof {
                        lemma_json_seq_index(stmts@, i as int);
                    }
                    let (directive, relyzer) = directive_exec(&stmts[i]);
                    if relyzer {
                        assert(is_use_relyzer(s[i as int]));
                        return true;
                    }
                    if !directive {
                        assert forall|k: int| 0 <= k < s.len() && is_use_relyzer(#[trigger] s[k])
                            implies !(forall|j: int| 0 <= j < k ==> is_directive(#[trigger] s[j])) by {
                            if k <= i {
                                assert(!is_use_relyzer(s[k]));
                            } else {
                                assert(!is_directive(s[i as int]));
                            }
                        }
                        return false;
                    }
                    i = i + 1;
                }
                assert forall|k: int| 0 <= k < s.len() implies !is_use_relyzer(#[trigger] s[k]) by {
                    assert(is_directive(s[k]) && !is_use_relyzer(s[k]));
                }
                false
            },
        },
    }
}

} // verus!

verus! {

/// The identifiers that a binding pattern binds, with their spans, in
/// source order: a binding identifier (an identifier expression in a pattern
/// binds nothing); the elements of an array pattern; the
/// shorthand keys, values and rest of an object pattern; the target of a
/// default or a rest.
pub open spec fn pat_idents(p: Json) -> Seq<(Seq<char>, Span)>
    decreases p, 2nat, 0int,
{
    if is_binding_ident(p) {
        seq![(or_empty(name_of(p)), span_of(p))]
    } else if has_tag(p, "ArrayPattern"@) {
        array_pat_idents(p, array_field(p, "elements"@).len() as int)
    } else if has_tag(p, "ObjectPattern"@) {
        object_pat_idents(p, array_field(p, "properties"@).len() as int)
    } else if has_tag(p, "AssignmentPattern"@) {
        match field(p, "left"@) {
            Some(l) => {
                proof {
                    lemma_field_decreases(p, "left"@);
                }
                pat_idents(l)
            },
            None => Seq::empty(),
        }
    } else if has_tag(p, "RestElement"@) {
        match field(p, "argument"@) {
            Some(a) => {
                proof {
                    lemma_field_decreases(p, "argument"@);
                }
                pat_idents(a)
            },
            None => Seq::empty(),
        }
    } else {
        Seq::empty()
    }
}

/// The identifiers bound by the first `n` elements of an array pattern.
pub open spec fn array_pat_idents(p: Json, n: int) -> Seq<(Seq<char>, Span)>
    decreases p, 1nat, n,
{
    if n <= 0 || n > array_field(p, "elements"@).len() {
        Seq::empty()
    } else {
        let e = array_field(p, "elements"@)[n - 1];
        let rest = array_pat_idents(p, n - 1);
        if e is Null {
            rest
        } else {
            proof {
                lemma_array_field_decreases(p, "elements"@, n - 1);
            }
            rest + pat_idents(e)
        }
    }
}

/// The identifiers bound by the first `n` properties of an object pattern.
pub open spec fn object_pat_idents(p: Json, n: int) -> Seq<(Seq<char>, Span)>
    decreases p, 1nat, n,
{
    if n <= 0 || n > array_field(p, "properties"@).len() {
        Seq::empty()
    } else {
        let pr = array_field(p, "properties"@)[n - 1];
        let rest = object_pat_idents(p, n - 1);
        if has_tag(pr, "AssignmentPatternProperty"@) {
            match field(pr, "key"@) {
                Some(k) => rest.push((or_empty(name_of(k)), span_of(k))),
                None => rest,
            }
        } else if has_tag(pr, "KeyValuePatternProperty"@) {
            match field(pr, "value"@) {
                Some(val) => {
                    proof {
                        lemma_array_field_decreases(p, "properties"@, n - 1);
                        lemma_field_decreases(pr, "value"@);
                    }
                    rest + pat_idents(val)
                },
                None => rest,
            }
        } else if has_tag(pr, "RestElement"@) {
            match field(pr, "argument"@) {
                Some(a) => {
                    proof {
                        lemma_array_field_decreases(p, "properties"@, n - 1);
                        lemma_field_decreases(pr, "argument"@);
                    }
                    rest + pat_idents(a)
                },
                None => rest,
            }
        } else {
            rest
        }
    }
}

pub open spec fn idents_view(s: Seq<(Vec<char>, Span)>) -> Seq<(Seq<char>, Span)> {
    s.map_values(|x: (Vec<char>, Span)| (x.0@, x.1))
}

fn name_or_empty(v: &JsonValue) -> (r: Vec<char>)
    ensures
        r@ == or_empty(name_of(v@)),
{
    match str_field_exec(v, "value") {
        Some(t) => t.clone(),
        None => Vec::new(),
    }
}

fn push_ident(out: &mut Vec<(Vec<char>, Span)>, name: Vec<char>, span: Span)
    ensures
        idents_view(final(out)@) == idents_view(old(out)@).push((name@, span)),
{
    out.push((name, span));
    assert(idents_view(out@) =~= idents_view(old(out)@).push((name@, span)));
}

/// Appends the identifiers that a binding pattern binds to `out`.
pub fn collect_pat_idents(p: &JsonValue, out: &mut Vec<(Vec<char>, Span)>)
    ensures
        idents_view(final(out)@) == idents_view(old(out)@) + pat_idents(p@),
    decreases p@, 2nat, 0int,
{
    if is_binding_ident_exec(p) {
        let name = name_or_empty(p);
        push_ident(out, name, span_of_exec(p));
    } else if has_tag_exec(p, "ArrayPattern") {
        collect_array_pat_idents(p, out);
    } else if has_tag_exec(p, "ObjectPattern") {
        collect_object_pat_idents(p, out);
    } else if has_tag_exec(p, "AssignmentPattern") {
        match field_exec(p, "left") {
            Some(l) => {
                proof {
                    lemma_field_decreases(p@, "left"@);
                }
                collect_pat_idents(l, out);
            },
            None => {
                assert(idents_view(out@) =~= idents_view(old(out)@) + pat_idents(p@));
            },
        }
    } else if has_tag_exec(p, "RestElement") {
        match field_exec(p, "argument") {
            Some(a) => {
                proof {
                    lemma_field_decreases(p@, "argument"@);
                }
                collect_pat_idents(a, out);
            },
            None => {
                assert(idents_view(out@) =~= idents_view(old(out)@) + pat_idents(p@));
            },
        }
    } else {
        assert(idents_view(out@) =~= idents_view(old(out)@) + pat_idents(p@));
    }
}

fn collect_array_pat_idents(p: &JsonValue, out: &mut Vec<(Vec<char>, Span)>)
    requires
        has_tag(p@, "ArrayPattern"@),
    ensures
        idents_view(final(out)@) == idents_view(old(out)@) + array_pat_idents(
            p@,
            array_field(p@, "elements"@).len() as int,
        ),
    decreases p@, 1nat, array_field(p@, "elements"@).len() + 1,
{
    let ghost start = idents_view(out@);
    match array_field_exec(p, "elements") {
        None => {
            assert(idents_view(out@) =~= start + array_pat_idents(p@, 0));
        },
        Some(elems) => {
            let ghost s = array_field(p@, "elements"@);
            proof {
                crate::json::lemma_json_seq_len(elems@);
            }
            let mut i: usize = 0;
            assert(idents_view(out@) =~= start + array_pat_idents(p@, 0));
            while i < elems.len()
                invariant
                    s == array_field(p@, "elements"@),
                    s == json_seq(elems@),
                    s.len() == elems.len(),
                    i <= elems.len(),
                    idents_view(out@) == start + array_pat_idents(p@, i as int),
                decreases elems.len() - i,
            {
                proof {
                    lemma_json_seq_index(elems@, i as int);
                }
                let ghost before = idents_view(out@);
                match &elems[i] {
                    JsonValue::Null => {},
                    e => {
                        proof {
                            lemma_array_field_decreases(p@, "elements"@, i as int);
                        }
                        collect_pat_idents(e, out);
                    },
                }
                proof {
                    assert(idents_view(out@) =~= start + array_pat_idents(p@, i + 1));
                }
                i = i + 1;
            }
        },
    }
}

fn collect_object_pat_idents(p: &JsonValue, out: &mut Vec<(Vec<char>, Span)>)
    requires
        has_tag(p@, "ObjectPattern"@),
    ensures
        idents_view(final(out)@) == idents_view(old(out)@) + object_pat_idents(
            p@,
            array_field(p@, "properties"@).len() as int,
        ),
    decreases p@, 1nat, array_field(p@, "properties"@).len() + 1,
{
    let ghost start = idents_view(out@);
    match array_field_exec(p, "properties") {
        None => {
            assert(idents_view(out@) =~= start + object_pat_idents(p@, 0));
        },
        Some(props) => {
            let ghost s = array_field(p@, "properties"@);
            proof {
                crate::json::lemma_json_seq_len(props@);
            }
            let mut i: usize = 0;
            assert(idents_view(out@) =~= start + object_pat_idents(p@, 0));
            while i < props.len()
                invariant
                    s == array_field(p@, "properties"@),
                    s == json_seq(props@),
                    s.len() == props.len(),
                    i <= props.len(),
                    idents_view(out@) == start + object_pat_idents(p@, i as int),
                decreases props.len() - i,
            {
                proof {
                    lemma_json_seq_index(props@, i as int);
                }
                let pr = &props[i];
                if has_tag_exec(pr, "AssignmentPatternProperty") {
                    match field_exec(pr, "key") {
                        Some(k) => {
                            let name = name_or_empty(k);
                            push_ident(out, name, span_of_exec(k));
                        },
                        None => {},
                    }
                } else if has_tag_exec(pr, "KeyValuePatternProperty") {
                    match field_exec(pr, "value") {
                        Some(val) => {
                            proof {
                                lemma_array_field_decreases(p@, "properties"@, i as int);
                                lemma_field_decreases(pr@, "value"@);
                            }
                            collect_pat_idents(val, out);
                        },
                        None => {},
                    }
                } else if has_tag_exec(pr, "RestElement") {
                    match field_exec(pr, "argument") {
                        Some(a) => {
                            proof {
                                lemma_array_field_decreases(p@, "properties"@, i as int);
                                lemma_field_decreases(pr@, "argument"@);
                            }
                            collect_pat_idents(a, out);
                        },
                        None => {},
                    }
                }
                proof {
                    assert(idents_view(out@) =~= start + object_pat_idents(p@, i + 1));
                }
                i = i + 1;
            }
        },
    }
}

} // verus!
