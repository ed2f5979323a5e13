//! Where things are in the source: locations of spans as text, the source
//! text of a span, and the `@component` marks in leading comments.
use vstd::prelude::*;

use crate::plan::{Span, is_dummy, span_is_dummy};
use crate::source::{
    lookup_position, lookup_snippet, opt_string_view, source_position, text_between,
    valid_position, source_text,
};
use crate::text::{chars_of, contains_chars, contains_seq, decimal, push_decimal, string_of};

verus! {

/// The source of a module as the analysis sees it: the file's name, its text
/// and the texts of the leading comments at each position.
pub struct SourceText {
    pub file_name: Seq<char>,
    pub code: Seq<char>,
    pub comments: Map<u32, Seq<Seq<char>>>,
}

/// The line and display column of a byte position, when it is one of the file.
pub open spec fn position(src: SourceText, pos: u32) -> Option<(usize, usize)> {
    if valid_position(src.code, pos) {
        Some(source_position(src.file_name, src.code, pos))
    } else {
        None
    }
}

pub open spec fn sat_sub(a: usize, b: usize) -> nat {
    if a >= b {
        (a - b) as nat
    } else {
        0
    }
}

/// "a,b,c,d" in decimal.
pub open spec fn loc_text(a: nat, b: nat, c: nat, d: nat) -> Seq<char> {
    decimal(a) + seq![','] + decimal(b) + seq![','] + decimal(c) + seq![','] + decimal(d)
}

/// The location of a span: start line, start column, end line, end column.
pub open spec fn span_loc(src: SourceText, s: Span) -> Option<Seq<char>> {
    if is_dummy(s) {
        None
    } else {
        match (position(src, s.lo), position(src, s.hi)) {
            (Some(a), Some(b)) => Some(loc_text(a.0 as nat, a.1 as nat, b.0 as nat, b.1 as nat)),
            _ => None,
        }
    }
}

/// The location of `child` relative to the start of `base`: lines counted
/// from the base's line; columns counted from the base's column on that line
/// and from the line's start on the others.
pub open spec fn relative_loc(src: SourceText, base: Span, child: Span) -> Option<Seq<char>> {
    if is_dummy(base) || is_dummy(child) {
        None
    } else {
        match (position(src, base.lo), position(src, child.lo), position(src, child.hi)) {
            (Some(b), Some(s), Some(e)) => {
                let start_col = if s.0 == b.0 { sat_sub(s.1, b.1) } else { s.1 as nat };
                let end_col = if e.0 == b.0 { sat_sub(e.1, b.1) } else { e.1 as nat };
                Some(loc_text(sat_sub(s.0, b.0), start_col, sat_sub(e.0, b.0), end_col))
            },
            _ => None,
        }
    }
}

/// The source text of a span (empty where there is none).
pub open spec fn snippet(src: SourceText, s: Span) -> Seq<char> {
    if valid_position(src.code, s.lo) && valid_position(src.code, s.hi) && s.lo <= s.hi {
        text_between(src.code, s.lo, s.hi)
    } else {
        Seq::empty()
    }
}

/// Some comment text holds "@component".
pub open spec fn has_component_mark(texts: Seq<Seq<char>>) -> bool {
    exists|k: int| 0 <= k < texts.len() && contains_seq(#[trigger] texts[k], "@component"@)
}

/// A leading comment of the span's start marks a component.
pub open spec fn span_marked(src: SourceText, s: Span) -> bool {
    &&& !is_dummy(s)
    &&& src.comments.contains_key(s.lo)
    &&& has_component_mark(src.comments[s.lo])
}

/// Some of the spans is marked as a component.
pub open spec fn any_marked(src: SourceText, spans: Seq<Span>) -> bool {
    exists|i: int| 0 <= i < spans.len() && span_marked(src, #[trigger] spans[i])
}

pub open spec fn texts_view(v: Seq<Vec<char>>) -> Seq<Seq<char>> {
    v.map_values(|t: Vec<char>| t@)
}

/// The source of a module held in memory: `text` is the text without its byte
/// order mark, and the leading comments are listed as (position, texts) pairs.
pub struct Cx<'a> {
    pub file_name: &'a str,
    pub code: &'a str,
    pub text: &'a str,
    pub comments: Vec<(u32, Vec<Vec<char>>)>,
    pub comment_map: Ghost<Map<u32, Seq<Seq<char>>>>,
}

impl<'a> Cx<'a> {
    pub open spec fn src(&self) -> SourceText {
        SourceText { file_name: self.file_name@, code: self.code@, comments: self.comment_map@ }
    }

    /// The list is the map: each position once, with its texts.
    pub open spec fn wf(&self) -> bool {
        &&& self.text@ == source_text(self.code@)
        &&& forall|i: int, j: int|
            0 <= i < j < self.comments.len() ==> self.comments@[i].0 != self.comments@[j].0
        &&& forall|i: int|
            0 <= i < self.comments.len() ==> {
                &&& #[trigger] self.comment_map@.contains_key(self.comments@[i].0)
                &&& self.comment_map@[self.comments@[i].0] == texts_view(self.comments@[i].1@)
            }
        &&& forall|p: u32| #[trigger]
            self.comment_map@.contains_key(p) ==> exists|i: int|
                0 <= i < self.comments.len() && self.comments@[i].0 == p
    }

    fn position_exec(&self, pos: u32) -> (r: Option<(usize, usize)>)
        requires
            self.wf(),
        ensures
            r == position(self.src(), pos),
    {
        if pos >= 1 && self.text.is_char_boundary((pos - 1) as usize) {
            Some(lookup_position(self.file_name, self.code, pos))
        } else {
            None
        }
    }

    /// The location of a span as text.
    pub fn span_loc_exec(&self, s: Span) -> (r: Option<String>)
        requires
            self.wf(),
        ensures
            opt_string_view(r) == span_loc(self.src(), s),
    {
        if span_is_dummy(s) {
            return None;
        }
        match (self.position_exec(s.lo), self.position_exec(s.hi)) {
            (Some(a), Some(b)) => Some(loc_string(a.0, a.1, b.0, b.1)),
            _ => None,
        }
    }

    /// The location of `child` relative to `base` as text.
    pub fn relative_loc_exec(&self, base: Span, child: Span) -> (r: Option<String>)
        requires
            self.wf(),
        ensures
            opt_string_view(r) == relative_loc(self.src(), base, child),
    {
        if span_is_dummy(base) || span_is_dummy(child) {
            return None;
        }
        match (self.position_exec(base.lo), self.position_exec(child.lo), self.position_exec(child.hi)) {
            (Some(b), Some(s), Some(e)) => {
                let start_col = if s.0 == b.0 { sat_sub_exec(s.1, b.1) } else { s.1 };
                let end_col = if e.0 == b.0 { sat_sub_exec(e.1, b.1) } else { e.1 };
                Some(loc_string(sat_sub_exec(s.0, b.0), start_col, sat_sub_exec(e.0, b.0), end_col))
            },
            _ => None,
        }
    }

    /// The source text of a span.
    pub fn snippet_exec(&self, s: Span) -> (r: String)
        requires
            self.wf(),
        ensures
            r@ == snippet(self.src(), s),
    {
        if s.lo >= 1 && s.hi >= 1 && self.text.is_char_boundary((s.lo - 1) as usize)
            && self.text.is_char_boundary((s.hi - 1) as usize) {
            match lookup_snippet(self.file_name, self.code, s.lo, s.hi) {
                Some(t) => t,
                None => String::new(),
            }
        } else {
            String::new()
        }
    }

    /// Whether a leading comment of the span's start marks a component.
    pub fn span_marked_exec(&self, s: Span) -> (r: bool)
        requires
            self.wf(),
        ensures
            r == span_marked(self.src(), s),
    {
        if span_is_dummy(s) {
            return false;
        }
        let mut i: usize = 0;
        while i < self.comments.len()
            invariant
                self.wf(),
                !is_dummy(s),
                i <= self.comments.len(),
                forall|j: int| 0 <= j < i ==> self.comments@[j].0 != s.lo,
            decreases self.comments.len() - i,
        {
            if self.comments[i].0 == s.lo {
                let texts = &self.comments[i].1;
                let mark = chars_of("@component");
                let mut k: usize = 0;
                while k < texts.len()
                    invariant
                        self.wf(),
                        !is_dummy(s),
                        i < self.comments.len(),
                        self.comments@[i as int].0 == s.lo,
                        texts == self.comments@[i as int].1,
                        mark@ == "@component"@,
                        k <= texts.len(),
                        forall|j: int| 0 <= j < k ==> !contains_seq(#[trigger] texts@[j]@, "@component"@),
                    decreases texts.len() - k,
                {
                    if contains_chars(&texts[k], &mark) {
                        proof {
                            assert(self.comment_map@.contains_key(self.comments@[i as int].0));
                            let m = self.comment_map@[s.lo];
                            assert(m == texts_view(texts@));
                            assert(m[k as int] == texts@[k as int]@);
                        }
                        return true;
                    }
                    k = k + 1;
                }
                proof {
                    assert(self.comment_map@.contains_key(self.comments@[i as int].0));
                    let m = self.comment_map@[s.lo];
                    assert(m == texts_view(texts@));
                    assert forall|j: int| 0 <= j < m.len() implies !contains_seq(#[trigger] m[j], "@component"@) by {
                        assert(m[j] == texts@[j]@);
                    }
                }
                return false;
            }
            i = i + 1;
        }
        false
    }

    /// Whether some of the spans is marked as a component.
    pub fn any_marked_exec(&self, spans: &Vec<Span>) -> (r: bool)
        requires
            self.wf(),
        ensures
            r == any_marked(self.src(), spans@),
    {
        let mut i: usize = 0;
        while i < spans.len()
            invariant
                self.wf(),
                i <= spans.len(),
                forall|j: int| 0 <= j < i ==> !span_marked(self.src(), #[trigger] spans@[j]),
            decreases spans.len() - i,
        {
            if self.span_marked_exec(spans[i]) {
                return true;
            }
            i = i + 1;
        }
        false
    }
}

fn sat_sub_exec(a: usize, b: usize) -> (r: usize)
    ensures
        r as nat == sat_sub(a, b),
{
    if a >= b {
        a - b
    } else {
        0
    }
}

fn loc_string(a: usize, b: usize, c: usize, d: usize) -> (r: String)
    ensures
        r@ == loc_text(a as nat, b as nat, c as nat, d as nat),
{
    let mut out: Vec<char> = Vec::new();
    push_decimal(&mut out, a);
    out.push(',');
    push_decimal(&mut out, b);
    out.push(',');
    push_decimal(&mut out, c);
    out.push(',');
    push_decimal(&mut out, d);
    assert(out@ =~= loc_text(a as nat, b as nat, c as nat, d as nat));
    string_of(&out)
}

} // verus!
