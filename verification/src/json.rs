//! JSON text: its grammar, a reader for it, and lookups into the values read.
use vstd::prelude::*;

use crate::text::{char_of_scalar, chars_eq, chars_of};

verus! {

/// A JSON value as a mathematical object. Numbers keep the text they were
/// written with; an object keeps its keys and its values in two sequences of
/// the same length, in the order in which they were written.
pub enum Json {
    Null,
    Bool(bool),
    Number(Seq<char>),
    Str(Seq<char>),
    Array(Seq<Json>),
    Object(Seq<Seq<char>>, Seq<Json>),
}

/// A JSON value held in memory.
#[derive(Debug)]
pub enum JsonValue {
    Null,
    Bool(bool),
    Number(Vec<char>),
    Str(Vec<char>),
    Array(Vec<JsonValue>),
    Object(Vec<Vec<char>>, Vec<JsonValue>),
}

pub open spec fn json_of(v: JsonValue) -> Json
    decreases v, 1nat,
{
    match v {
        JsonValue::Null => Json::Null,
        JsonValue::Bool(b) => Json::Bool(b),
        JsonValue::Number(t) => Json::Number(t@),
        JsonValue::Str(t) => Json::Str(t@),
        JsonValue::Array(a) => Json::Array(json_seq(a@)),
        JsonValue::Object(ks, vs) => Json::Object(keys_of(ks@), json_seq(vs@)),
    }
}

pub open spec fn json_seq(s: Seq<JsonValue>) -> Seq<Json>
    decreases s, 0nat,
{
    if s.len() == 0 {
        Seq::empty()
    } else {
        json_seq(s.drop_last()).push(json_of(s.last()))
    }
}

pub open spec fn keys_of(ks: Seq<Vec<char>>) -> Seq<Seq<char>> {
    ks.map_values(|k: Vec<char>| k@)
}

impl View for JsonValue {
    type V = Json;

    open spec fn view(&self) -> Json {
        json_of(*self)
    }
}

pub proof fn lemma_char_of_code(c: char, u: int)
    requires
        c as u32 == u,
    ensures
        c == u as char,
{
}

pub proof fn lemma_json_seq_push(s: Seq<JsonValue>, v: JsonValue)
    ensures
        json_seq(s.push(v)) == json_seq(s).push(json_of(v)),
        json_seq(s.push(v)).len() == s.len() + 1,
    decreases s.len(),
{
    assert(s.push(v).drop_last() =~= s);
    lemma_json_seq_len(s);
}

pub proof fn lemma_json_seq_len(s: Seq<JsonValue>)
    ensures
        json_seq(s).len() == s.len(),
    decreases s.len(),
{
    if s.len() > 0 {
        lemma_json_seq_len(s.drop_last());
    }
}

pub proof fn lemma_json_seq_index(s: Seq<JsonValue>, i: int)
    requires
        0 <= i < s.len(),
    ensures
        json_seq(s)[i] == json_of(s[i]),
        json_seq(s).len() == s.len(),
    decreases s.len(),
{
    lemma_json_seq_len(s);
    if i < s.len() - 1 {
        lemma_json_seq_index(s.drop_last(), i);
    }
}

} // verus!

verus! {

// ---------------------------------------------------------------------------
// The grammar (RFC 8259), as functions from a text and a position to what is
// read there and the position after it.
// ---------------------------------------------------------------------------

pub open spec fn is_ws(c: char) -> bool {
    c == ' ' || c == '\t' || c == '\n' || c == '\r'
}

pub open spec fn is_digit(c: char) -> bool {
    '0' <= c && c <= '9'
}

/// The first position at or after `i` that does not hold whitespace.
pub open spec fn skip_ws(s: Seq<char>, i: int) -> int
    decreases s.len() - i,
{
    if 0 <= i < s.len() && is_ws(s[i]) {
        skip_ws(s, i + 1)
    } else {
        i
    }
}

/// The first position at or after `i` that does not hold a decimal digit.
pub open spec fn digits_end(s: Seq<char>, i: int) -> int
    decreases s.len() - i,
{
    if 0 <= i < s.len() && is_digit(s[i]) {
        digits_end(s, i + 1)
    } else {
        i
    }
}

/// The end of the number that starts at `i`:
/// `-? (0 | [1-9][0-9]*) (. [0-9]+)? ([eE] [+-]? [0-9]+)?`.
pub open spec fn number_end(s: Seq<char>, i: int) -> Option<int> {
    let j = if 0 <= i < s.len() && s[i] == '-' { i + 1 } else { i };
    if !(0 <= j < s.len() && is_digit(s[j])) {
        None
    } else {
        let k = if s[j] == '0' { j + 1 } else { digits_end(s, j) };
        let has_frac = k < s.len() && s[k] == '.';
        let f = if has_frac { digits_end(s, k + 1) } else { k };
        if has_frac && f == k + 1 {
            None
        } else if f < s.len() && (s[f] == 'e' || s[f] == 'E') {
            let g = if f + 1 < s.len() && (s[f + 1] == '+' || s[f + 1] == '-') { f + 2 } else { f + 1 };
            if digits_end(s, g) == g {
                None
            } else {
                Some(digits_end(s, g))
            }
        } else {
            Some(f)
        }
    }
}

/// The value of a hexadecimal digit, or -1.
pub open spec fn hex_value(c: char) -> int {
    if '0' <= c && c <= '9' {
        c as int - '0' as int
    } else if 'a' <= c && c <= 'f' {
        c as int - 'a' as int + 10
    } else if 'A' <= c && c <= 'F' {
        c as int - 'A' as int + 10
    } else {
        -1
    }
}

/// The value of the four hexadecimal digits at `i`, or -1.
pub open spec fn hex4(s: Seq<char>, i: int) -> int {
    if 0 <= i && i + 4 <= s.len() && hex_value(s[i]) >= 0 && hex_value(s[i + 1]) >= 0
        && hex_value(s[i + 2]) >= 0 && hex_value(s[i + 3]) >= 0 {
        4096 * hex_value(s[i]) + 256 * hex_value(s[i + 1]) + 16 * hex_value(s[i + 2])
            + hex_value(s[i + 3])
    } else {
        -1
    }
}

/// The character that the escape sequence whose backslash stands at `i`
/// denotes, and the position after the sequence. A `\u` escape of a high
/// surrogate must be followed by one of a low surrogate.
pub open spec fn escape_at(s: Seq<char>, i: int) -> Option<(char, int)> {
    if !(0 <= i && i + 1 < s.len()) {
        None
    } else {
        let e = s[i + 1];
        if e == '"' {
            Some(('"', i + 2))
        } else if e == '\\' {
            Some(('\\', i + 2))
        } else if e == '/' {
            Some(('/', i + 2))
        } else if e == 'b' {
            Some(('\u{8}', i + 2))
        } else if e == 'f' {
            Some(('\u{c}', i + 2))
        } else if e == 'n' {
            Some(('\n', i + 2))
        } else if e == 'r' {
            Some(('\r', i + 2))
        } else if e == 't' {
            Some(('\t', i + 2))
        } else if e == 'u' {
            let u = hex4(s, i + 2);
            if u < 0 {
                None
            } else if 0xD800 <= u && u <= 0xDBFF {
                let low = if i + 7 < s.len() && s[i + 6] == '\\' && s[i + 7] == 'u' {
                    hex4(s, i + 8)
                } else {
                    -1
                };
                if 0xDC00 <= low && low <= 0xDFFF {
                    Some((((u - 0xD800) * 0x400 + (low - 0xDC00) + 0x10000) as char, i + 12))
                } else {
                    None
                }
            } else if 0xDC00 <= u && u <= 0xDFFF {
                None
            } else {
                Some((u as char, i + 6))
            }
        } else {
            None
        }
    }
}

/// The rest of a string literal from `i` (after the opening quote), with
/// `acc` the characters read so far: the contents and the position after the
/// closing quote.
pub open spec fn string_from(s: Seq<char>, i: int, acc: Seq<char>) -> Option<(Seq<char>, int)>
    decreases s.len() - i,
{
    if !(0 <= i < s.len()) {
        None
    } else if s[i] == '"' {
        Some((acc, i + 1))
    } else if s[i] == '\\' {
        match escape_at(s, i) {
            Some((c, j)) => if i < j && j <= s.len() {
                string_from(s, j, acc.push(c))
            } else {
                None
            },
            None => None,
        }
    } else if (s[i] as u32) < 0x20 {
        None
    } else {
        string_from(s, i + 1, acc.push(s[i]))
    }
}

/// The value that starts at `i`, and the position after it.
pub open spec fn value_at(s: Seq<char>, i: int) -> Option<(Json, int)>
    decreases s.len() - i, 0nat,
{
    if !(0 <= i < s.len()) {
        None
    } else {
        let c = s[i];
        if c == 'n' {
            if i + 4 <= s.len() && s[i + 1] == 'u' && s[i + 2] == 'l' && s[i + 3] == 'l' {
                Some((Json::Null, i + 4))
            } else {
                None
            }
        } else if c == 't' {
            if i + 4 <= s.len() && s[i + 1] == 'r' && s[i + 2] == 'u' && s[i + 3] == 'e' {
                Some((Json::Bool(true), i + 4))
            } else {
                None
            }
        } else if c == 'f' {
            if i + 5 <= s.len() && s[i + 1] == 'a' && s[i + 2] == 'l' && s[i + 3] == 's' && s[i
                + 4] == 'e' {
                Some((Json::Bool(false), i + 5))
            } else {
                None
            }
        } else if c == '"' {
            match string_from(s, i + 1, Seq::empty()) {
                Some((t, j)) => Some((Json::Str(t), j)),
                None => None,
            }
        } else if c == '[' {
            let j = skip_ws(s, i + 1);
            if !(i < j && j <= s.len()) {
                None
            } else if j < s.len() && s[j] == ']' {
                Some((Json::Array(Seq::empty()), j + 1))
            } else {
                elements_from(s, j, Seq::empty())
            }
        } else if c == '{' {
            let j = skip_ws(s, i + 1);
            if !(i < j && j <= s.len()) {
                None
            } else if j < s.len() && s[j] == '}' {
                Some((Json::Object(Seq::empty(), Seq::empty()), j + 1))
            } else {
                members_from(s, j, Seq::empty(), Seq::empty())
            }
        } else if c == '-' || is_digit(c) {
            match number_end(s, i) {
                Some(e) => if i < e && e <= s.len() {
                    Some((Json::Number(s.subrange(i, e)), e))
                } else {
                    None
                },
                None => None,
            }
        } else {
            None
        }
    }
}

/// The rest of an array from the element at `i`, with `acc` the elements
/// read so far: the array and the position after its closing bracket.
pub open spec fn elements_from(s: Seq<char>, i: int, acc: Seq<Json>) -> Option<(Json, int)>
    decreases s.len() - i, 1nat,
{
    if !(0 <= i <= s.len()) {
        None
    } else {
        match value_at(s, i) {
            None => None,
            Some((v, j)) => {
                let k = skip_ws(s, j);
                if !(i < j && j <= k && k < s.len()) {
                    None
                } else if s[k] == ',' {
                    let n = skip_ws(s, k + 1);
                    if !(k < n && n <= s.len()) {
                        None
                    } else {
                        elements_from(s, n, acc.push(v))
                    }
                } else if s[k] == ']' {
                    Some((Json::Array(acc.push(v)), k + 1))
                } else {
                    None
                }
            },
        }
    }
}

/// The rest of an object from the member at `i`, with `ks` and `vs` the
/// keys and values read so far: the object and the position after its
/// closing brace.
pub open spec fn members_from(s: Seq<char>, i: int, ks: Seq<Seq<char>>, vs: Seq<Json>) -> Option<
    (Json, int),
>
    decreases s.len() - i, 1nat,
{
    if !(0 <= i < s.len()) || s[i] != '"' {
        None
    } else {
        match string_from(s, i + 1, Seq::empty()) {
            None => None,
            Some((key, j)) => {
                let k = skip_ws(s, j);
                if !(i < j && j <= k && k < s.len() && s[k] == ':') {
                    None
                } else {
                    let m = skip_ws(s, k + 1);
                    if !(k < m && m <= s.len()) {
                        None
                    } else {
                        match value_at(s, m) {
                            None => None,
                            Some((v, n)) => {
                                let p = skip_ws(s, n);
                                if !(m < n && n <= p && p < s.len()) {
                                    None
                                } else if s[p] == ',' {
                                    let q = skip_ws(s, p + 1);
                                    if !(p < q && q <= s.len()) {
                                        None
                                    } else {
                                        members_from(s, q, ks.push(key), vs.push(v))
                                    }
                                } else if s[p] == '}' {
                                    Some((Json::Object(ks.push(key), vs.push(v)), p + 1))
                                } else {
                                    None
                                }
                            },
                        }
                    }
                }
            },
        }
    }
}

/// The JSON document that `s` holds: one value with only whitespace around it.
pub open spec fn parse_json(s: Seq<char>) -> Option<Json> {
    match value_at(s, skip_ws(s, 0)) {
        Some((v, j)) => if skip_ws(s, j) == s.len() {
            Some(v)
        } else {
            None
        },
        None => None,
    }
}

} // verus!

verus! {

// ---------------------------------------------------------------------------
// The reader: each function reads what the grammar function of the same
// name describes.
// ---------------------------------------------------------------------------

fn skip_ws_exec(s: &Vec<char>, i: usize) -> (r: usize)
    requires
        i <= s.len(),
    ensures
        r as int == skip_ws(s@, i as int),
        i <= r <= s.len(),
{
    let mut j = i;
    while j < s.len() && (s[j] == ' ' || s[j] == '\t' || s[j] == '\n' || s[j] == '\r')
        invariant
            i <= j <= s.len(),
            skip_ws(s@, j as int) == skip_ws(s@, i as int),
        decreases s.len() - j,
    {
        j = j + 1;
    }
    j
}

fn digits_end_exec(s: &Vec<char>, i: usize) -> (r: usize)
    requires
        i <= s.len(),
    ensures
        r as int == digits_end(s@, i as int),
        i <= r <= s.len(),
{
    let mut j = i;
    while j < s.len() && '0' <= s[j] && s[j] <= '9'
        invariant
            i <= j <= s.len(),
            digits_end(s@, j as int) == digits_end(s@, i as int),
        decreases s.len() - j,
    {
        j = j + 1;
    }
    j
}

fn number_end_exec(s: &Vec<char>, i: usize) -> (r: Option<usize>)
    requires
        i < s.len(),
    ensures
        r matches Some(e) ==> number_end(s@, i as int) == Some(e as int) && e <= s.len(),
        r is None ==> number_end(s@, i as int) is None,
{
    let j = if s[i] == '-' { i + 1 } else { i };
    if !(j < s.len() && '0' <= s[j] && s[j] <= '9') {
        return None;
    }
    let k = if s[j] == '0' { j + 1 } else { digits_end_exec(s, j) };
    let has_frac = k < s.len() && s[k] == '.';
    let f = if has_frac { digits_end_exec(s, k + 1) } else { k };
    if has_frac && f == k + 1 {
        None
    } else if f < s.len() && (s[f] == 'e' || s[f] == 'E') {
        let g = if f + 1 < s.len() && (s[f + 1] == '+' || s[f + 1] == '-') { f + 2 } else { f + 1 };
        let d = digits_end_exec(s, g);
        if d == g {
            None
        } else {
            Some(d)
        }
    } else {
        Some(f)
    }
}

fn hex_value_exec(c: char) -> (r: Option<u32>)
    ensures
        r matches Some(v) ==> v as int == hex_value(c) && v < 16,
        r is None ==> hex_value(c) < 0,
{
    if '0' <= c && c <= '9' {
        Some((c as u32) - ('0' as u32))
    } else if 'a' <= c && c <= 'f' {
        Some((c as u32) - ('a' as u32) + 10)
    } else if 'A' <= c && c <= 'F' {
        Some((c as u32) - ('A' as u32) + 10)
    } else {
        None
    }
}

fn hex4_exec(s: &Vec<char>, i: usize) -> (r: Option<u32>)
    ensures
        r matches Some(v) ==> v as int == hex4(s@, i as int) && hex4(s@, i as int) >= 0,
        r is None ==> hex4(s@, i as int) < 0,
{
    if i > s.len() || s.len() - i < 4 {
        return None;
    }
    let a = hex_value_exec(s[i]);
    let b = hex_value_exec(s[i + 1]);
    let c = hex_value_exec(s[i + 2]);
    let d = hex_value_exec(s[i + 3]);
    match (a, b, c, d) {
        (Some(a), Some(b), Some(c), Some(d)) => Some(4096 * a + 256 * b + 16 * c + d),
        _ => None,
    }
}

fn escape_exec(s: &Vec<char>, i: usize) -> (r: Option<(char, usize)>)
    ensures
        r matches Some((c, j)) ==> escape_at(s@, i as int) == Some((c, j as int)),
        r is None ==> escape_at(s@, i as int) is None,
{
    if !(i < s.len() && i + 1 < s.len()) {
        return None;
    }
    let e = s[i + 1];
    if e == '"' {
        Some(('"', i + 2))
    } else if e == '\\' {
        Some(('\\', i + 2))
    } else if e == '/' {
        Some(('/', i + 2))
    } else if e == 'b' {
        Some(('\u{8}', i + 2))
    } else if e == 'f' {
        Some(('\u{c}', i + 2))
    } else if e == 'n' {
        Some(('\n', i + 2))
    } else if e == 'r' {
        Some(('\r', i + 2))
    } else if e == 't' {
        Some(('\t', i + 2))
    } else if e == 'u' {
        match hex4_exec(s, i + 2) {
            None => None,
            Some(u) => {
                if 0xD800 <= u && u <= 0xDBFF {
                    let low = if s.len() - i > 7 && s[i + 6] == '\\' && s[i + 7] == 'u' {
                        hex4_exec(s, i + 8)
                    } else {
                        None
                    };
                    match low {
                        Some(low) => if 0xDC00 <= low && low <= 0xDFFF {
                            let code = (u - 0xD800) * 0x400 + (low - 0xDC00) + 0x10000;
                            match char_of_scalar(code) {
                                Some(c) => {
                                    proof {
                                        lemma_char_of_code(c, code as int);
                                    }
                                    Some((c, i + 12))
                                },
                                None => None,
                            }
                        } else {
                            None
                        },
                        None => None,
                    }
                } else if 0xDC00 <= u && u <= 0xDFFF {
                    None
                } else {
                    match char_of_scalar(u) {
                        Some(c) => {
                            proof {
                                lemma_char_of_code(c, u as int);
                            }
                            Some((c, i + 6))
                        },
                        None => None,
                    }
                }
            },
        }
    } else {
        None
    }
}

fn string_exec(s: &Vec<char>, i: usize) -> (r: Option<(Vec<char>, usize)>)
    requires
        i <= s.len(),
    ensures
        r matches Some((t, j)) ==> string_from(s@, i as int, Seq::empty()) == Some((t@, j as int))
            && j <= s.len(),
        r is None ==> string_from(s@, i as int, Seq::empty()) is None,
{
    let mut acc: Vec<char> = Vec::new();
    let mut j = i;
    loop
        invariant
            i <= j <= s.len(),
            string_from(s@, j as int, acc@) == string_from(s@, i as int, Seq::empty()),
        decreases s.len() - j,
    {
        if j >= s.len() {
            return None;
        }
        let c = s[j];
        if c == '"' {
            return Some((acc, j + 1));
        } else if c == '\\' {
            match escape_exec(s, j) {
                None => {
                    return None;
                },
                Some((d, k)) => {
                    if !(j < k && k <= s.len()) {
                        return None;
                    }
                    acc.push(d);
                    j = k;
                },
            }
        } else if (c as u32) < 0x20 {
            return None;
        } else {
            acc.push(c);
            j = j + 1;
        }
    }
}

fn copy_range(s: &Vec<char>, i: usize, e: usize) -> (r: Vec<char>)
    requires
        i <= e <= s.len(),
    ensures
        r@ == s@.subrange(i as int, e as int),
{
    let mut r: Vec<char> = Vec::new();
    let mut k = i;
    while k < e
        invariant
            i <= k <= e <= s.len(),
            r@ == s@.subrange(i as int, k as int),
        decreases e - k,
    {
        r.push(s[k]);
        k = k + 1;
        assert(r@ =~= s@.subrange(i as int, k as int));
    }
    r
}

fn value_exec(s: &Vec<char>, i: usize) -> (r: Option<(JsonValue, usize)>)
    requires
        i <= s.len(),
    ensures
        r matches Some((v, j)) ==> value_at(s@, i as int) == Some((v@, j as int)) && j <= s.len(),
        r is None ==> value_at(s@, i as int) is None,
    decreases s.len() - i, 1nat,
{
    if i >= s.len() {
        return None;
    }
    let c = s[i];
    if c == 'n' {
        if s.len() - i >= 4 && s[i + 1] == 'u' && s[i + 2] == 'l' && s[i + 3] == 'l' {
            Some((JsonValue::Null, i + 4))
        } else {
            None
        }
    } else if c == 't' {
        if s.len() - i >= 4 && s[i + 1] == 'r' && s[i + 2] == 'u' && s[i + 3] == 'e' {
            Some((JsonValue::Bool(true), i + 4))
        } else {
            None
        }
    } else if c == 'f' {
        if s.len() - i >= 5 && s[i + 1] == 'a' && s[i + 2] == 'l' && s[i + 3] == 's' && s[i + 4]
            == 'e' {
            Some((JsonValue::Bool(false), i + 5))
        } else {
            None
        }
    } else if c == '"' {
        match string_exec(s, i + 1) {
            Some((t, j)) => Some((JsonValue::Str(t), j)),
            None => None,
        }
    } else if c == '[' {
        let j = skip_ws_exec(s, i + 1);
        if j < s.len() && s[j] == ']' {
            proof {
                assert(json_seq(Seq::<JsonValue>::empty()) =~= Seq::<Json>::empty());
            }
            Some((JsonValue::Array(Vec::new()), j + 1))
        } else {
            elements_exec(s, j, i)
        }
    } else if c == '{' {
        let j = skip_ws_exec(s, i + 1);
        if j < s.len() && s[j] == '}' {
            proof {
                assert(json_seq(Seq::<JsonValue>::empty()) =~= Seq::<Json>::empty());
                assert(keys_of(Seq::<Vec<char>>::empty()) =~= Seq::<Seq<char>>::empty());
            }
            Some((JsonValue::Object(Vec::new(), Vec::new()), j + 1))
        } else {
            members_exec(s, j, i)
        }
    } else if c == '-' || ('0' <= c && c <= '9') {
        match number_end_exec(s, i) {
            Some(e) => if i < e {
                Some((JsonValue::Number(copy_range(s, i, e)), e))
            } else {
                None
            },
            None => None,
        }
    } else {
        None
    }
}

/// Reads an array from its first element at `i`; `open` is the position of
/// its opening bracket.
fn elements_exec(s: &Vec<char>, i: usize, open: usize) -> (r: Option<(JsonValue, usize)>)
    requires
        open < i <= s.len(),
    ensures
        r matches Some((v, j)) ==> elements_from(s@, i as int, Seq::empty()) == Some(
            (v@, j as int),
        ) && j <= s.len(),
        r is None ==> elements_from(s@, i as int, Seq::empty()) is None,
    decreases s.len() - open, 0nat,
{
    let mut acc: Vec<JsonValue> = Vec::new();
    let mut cur = i;
    proof {
        assert(json_seq(acc@) =~= Seq::<Json>::empty());
    }
    loop
        invariant
            open < i <= cur <= s.len(),
            elements_from(s@, cur as int, json_seq(acc@)) == elements_from(
                s@,
                i as int,
                Seq::empty(),
            ),
        decreases s.len() - cur,
    {
        match value_exec(s, cur) {
            None => {
                return None;
            },
            Some((v, j)) => {
                let k = skip_ws_exec(s, j);
                if !(cur < j && k < s.len()) {
                    return None;
                }
                proof {
                    lemma_json_seq_push(acc@, v);
                }
                if s[k] == ',' {
                    let n = skip_ws_exec(s, k + 1);
                    if !(k < n) {
                        return None;
                    }
                    acc.push(v);
                    cur = n;
                } else if s[k] == ']' {
                    acc.push(v);
                    return Some((JsonValue::Array(acc), k + 1));
                } else {
                    return None;
                }
            },
        }
    }
}

/// Reads an object from its first member at `i`; `open` is the position of
/// its opening brace.
fn members_exec(s: &Vec<char>, i: usize, open: usize) -> (r: Option<(JsonValue, usize)>)
    requires
        open < i <= s.len(),
    ensures
        r matches Some((v, j)) ==> members_from(s@, i as int, Seq::empty(), Seq::empty()) == Some(
            (v@, j as int),
        ) && j <= s.len(),
        r is None ==> members_from(s@, i as int, Seq::empty(), Seq::empty()) is None,
    decreases s.len() - open, 0nat,
{
    let mut ks: Vec<Vec<char>> = Vec::new();
    let mut vs: Vec<JsonValue> = Vec::new();
    let mut cur = i;
    proof {
        assert(json_seq(vs@) =~= Seq::<Json>::empty());
        assert(keys_of(ks@) =~= Seq::<Seq<char>>::empty());
    }
    loop
        invariant
            open < i <= cur <= s.len(),
            members_from(s@, cur as int, keys_of(ks@), json_seq(vs@)) == members_from(
                s@,
                i as int,
                Seq::empty(),
                Seq::empty(),
            ),
        decreases s.len() - cur,
    {
        if cur >= s.len() || s[cur] != '"' {
            return None;
        }
        let (key, j) = match string_exec(s, cur + 1) {
            None => {
                return None;
            },
            Some(p) => p,
        };
        let k = skip_ws_exec(s, j);
        if !(cur < j && k < s.len() && s[k] == ':') {
            return None;
        }
        let m = skip_ws_exec(s, k + 1);
        if !(k < m) {
            return None;
        }
        let (v, n) = match value_exec(s, m) {
            None => {
                return None;
            },
            Some(p) => p,
        };
        let p = skip_ws_exec(s, n);
        if !(m < n && p < s.len()) {
            return None;
        }
        proof {
            lemma_json_seq_push(vs@, v);
            assert(keys_of(ks@.push(key)) =~= keys_of(ks@).push(key@));
        }
        if s[p] == ',' {
            let q = skip_ws_exec(s, p + 1);
            if !(p < q) {
                return None;
            }
            ks.push(key);
            vs.push(v);
            cur = q;
        } else if s[p] == '}' {
            ks.push(key);
            vs.push(v);
            return Some((JsonValue::Object(ks, vs), p + 1));
        } else {
            return None;
        }
    }
}

/// Reads the JSON document in `text`.
pub fn parse_json_chars(text: &Vec<char>) -> (r: Option<JsonValue>)
    ensures
        r matches Some(v) ==> parse_json(text@) == Some(v@),
        r is None ==> parse_json(text@) is None,
{
    let i = skip_ws_exec(text, 0);
    match value_exec(text, i) {
        Some((v, j)) => {
            let k = skip_ws_exec(text, j);
            if k == text.len() {
                Some(v)
            } else {
                None
            }
        },
        None => None,
    }
}

} // verus!

verus! {

// ---------------------------------------------------------------------------
// Lookups.
// ---------------------------------------------------------------------------

/// The index of the first key at or after `from` that equals `key`, or -1.
pub open spec fn first_key_index(ks: Seq<Seq<char>>, key: Seq<char>, from: int) -> int
    decreases ks.len() - from,
{
    if from < 0 || from >= ks.len() {
        -1
    } else if ks[from] == key {
        from
    } else {
        first_key_index(ks, key, from + 1)
    }
}

/// The value of the first member of an object whose key is `key`.
pub open spec fn field(v: Json, key: Seq<char>) -> Option<Json> {
    match v {
        Json::Object(ks, vs) => {
            let i = first_key_index(ks, key, 0);
            if 0 <= i < vs.len() {
                Some(vs[i])
            } else {
                None
            }
        },
        _ => None,
    }
}

/// The string that `v` is, if it is one.
pub open spec fn str_of(v: Json) -> Option<Seq<char>> {
    match v {
        Json::Str(t) => Some(t),
        _ => None,
    }
}

/// The string held in the member `key` of `v`.
pub open spec fn str_field(v: Json, key: Seq<char>) -> Option<Seq<char>> {
    match field(v, key) {
        Some(f) => str_of(f),
        None => None,
    }
}

/// The elements of the array held in the member `key` of `v` (none if it is
/// not an array).
pub open spec fn array_field(v: Json, key: Seq<char>) -> Seq<Json> {
    match field(v, key) {
        Some(Json::Array(a)) => a,
        _ => Seq::empty(),
    }
}

/// The tag of a node: the string in its member "type".
pub open spec fn tag_of(v: Json) -> Option<Seq<char>> {
    str_field(v, "type"@)
}

pub open spec fn has_tag(v: Json, t: Seq<char>) -> bool {
    tag_of(v) == Some(t)
}

/// The children of a value: the elements of an array, the member values of
/// an object.
pub open spec fn children(v: Json) -> Seq<Json> {
    match v {
        Json::Array(a) => a,
        Json::Object(_, vs) => vs,
        _ => Seq::empty(),
    }
}

pub open spec fn digit_value(c: char) -> nat {
    (c as int - '0' as int) as nat
}

/// The value of a nonempty text of decimal digits.
pub open spec fn digits_value(t: Seq<char>) -> nat
    decreases t.len(),
{
    if t.len() == 0 {
        0
    } else {
        digits_value(t.drop_last()) * 10 + digit_value(t.last())
    }
}

/// The `u32` that a number text denotes, if it is made of decimal digits only
/// and fits.
pub open spec fn u32_of_text(t: Seq<char>) -> Option<u32> {
    if t.len() > 0 && (forall|i: int| 0 <= i < t.len() ==> is_digit(#[trigger] t[i]))
        && digits_value(t) <= u32::MAX {
        Some(digits_value(t) as u32)
    } else {
        None
    }
}

/// The `u32` held in the member `key` of `v`, if it holds one.
pub open spec fn u32_field(v: Json, key: Seq<char>) -> Option<u32> {
    match field(v, key) {
        Some(Json::Number(t)) => u32_of_text(t),
        _ => None,
    }
}

pub fn get_field<'a>(v: &'a JsonValue, key: &Vec<char>) -> (r: Option<&'a JsonValue>)
    ensures
        r matches Some(f) ==> field(v@, key@) == Some(f@),
        r is None ==> field(v@, key@) is None,
{
    match v {
        JsonValue::Object(ks, vs) => {
            let ghost kv = keys_of(ks@);
            assert(v@ == Json::Object(kv, json_seq(vs@)));
            let mut i: usize = 0;
            while i < ks.len()
                invariant
                    v@ == Json::Object(kv, json_seq(vs@)),
                    kv == keys_of(ks@),
                    kv.len() == ks.len(),
                    i <= ks.len(),
                    first_key_index(kv, key@, 0) == first_key_index(kv, key@, i as int),
                decreases ks.len() - i,
            {
                proof {
                    assert(kv[i as int] == ks@[i as int]@);
                }
                if chars_eq(&ks[i], key) {
                    proof {
                        lemma_json_seq_len(vs@);
                    }
                    assert(first_key_index(kv, key@, i as int) == i);
                    if i < vs.len() {
                        proof {
                            lemma_json_seq_index(vs@, i as int);
                        }
                        return Some(&vs[i]);
                    } else {
                        return None;
                    }
                }
                i = i + 1;
            }
            None
        },
        _ => None,
    }
}

/// Whether `v` is a node with tag `t`.
pub fn has_tag_exec(v: &JsonValue, t: &str) -> (r: bool)
    ensures
        r == has_tag(v@, t@),
{
    let ty = chars_of("type");
    match get_field(v, &ty) {
        Some(JsonValue::Str(s)) => {
            let want = chars_of(t);
            chars_eq(s, &want)
        },
        _ => false,
    }
}

/// The string held in the member `key` of `v`.
pub fn str_field_exec<'a>(v: &'a JsonValue, key: &str) -> (r: Option<&'a Vec<char>>)
    ensures
        r matches Some(t) ==> str_field(v@, key@) == Some(t@),
        r is None ==> str_field(v@, key@) is None,
{
    let k = chars_of(key);
    match get_field(v, &k) {
        Some(JsonValue::Str(s)) => Some(s),
        _ => None,
    }
}

/// The member `key` of `v`.
pub fn field_exec<'a>(v: &'a JsonValue, key: &str) -> (r: Option<&'a JsonValue>)
    ensures
        r matches Some(f) ==> field(v@, key@) == Some(f@),
        r is None ==> field(v@, key@) is None,
{
    let k = chars_of(key);
    get_field(v, &k)
}

/// The number text of `t` as a `u32`.
pub fn u32_of_text_exec(t: &Vec<char>) -> (r: Option<u32>)
    ensures
        r == u32_of_text(t@),
{
    if t.len() == 0 {
        return None;
    }
    let mut value: u32 = 0;
    let mut i: usize = 0;
    while i < t.len()
        invariant
            i <= t.len(),
            forall|j: int| 0 <= j < i ==> is_digit(#[trigger] t@[j]),
            value as nat == digits_value(t@.subrange(0, i as int)),
        decreases t.len() - i,
    {
        let c = t[i];
        if !('0' <= c && c <= '9') {
            return None;
        }
        let d = (c as u32) - ('0' as u32);
        proof {
            let p = t@.subrange(0, i as int + 1);
            assert(p.drop_last() =~= t@.subrange(0, i as int));
            assert(digits_value(p) == digits_value(t@.subrange(0, i as int)) * 10 + d);
        }
        if value > (u32::MAX - d) / 10 {
            proof {
                if forall|j: int| 0 <= j < t.len() ==> is_digit(#[trigger] t@[j]) {
                    lemma_digits_value_prefix_bound(t@, i as int + 1);
                }
                assert(value * 10 + d > u32::MAX) by (nonlinear_arith)
                    requires
                        value > (u32::MAX - d) / 10,
                        d < 10,
                ;
            }
            return None;
        }
        proof {
            assert(value * 10 + d <= u32::MAX) by (nonlinear_arith)
                requires
                    value <= (u32::MAX - d) / 10,
                    d < 10,
            ;
        }
        value = value * 10 + d;
        i = i + 1;
    }
    assert(t@.subrange(0, t.len() as int) =~= t@);
    Some(value)
}

/// A prefix of a digit text never denotes more than the whole text.
proof fn lemma_digits_value_prefix_bound(t: Seq<char>, k: int)
    requires
        0 <= k <= t.len(),
        forall|j: int| 0 <= j < t.len() ==> is_digit(#[trigger] t[j]),
    ensures
        digits_value(t.subrange(0, k)) <= digits_value(t),
    decreases t.len() - k,
{
    if k < t.len() {
        lemma_digits_value_prefix_bound(t, k + 1);
        let p = t.subrange(0, k + 1);
        assert(p.drop_last() =~= t.subrange(0, k));
        assert(digits_value(p) == digits_value(t.subrange(0, k)) * 10 + digit_value(p.last()));
    } else {
        assert(t.subrange(0, k) =~= t);
    }
}

} // verus!

verus! {

/// A member of an object is smaller than the object.
pub proof fn lemma_field_decreases(v: Json, key: Seq<char>)
    requires
        field(v, key) is Some,
    ensures
        decreases_to!(v => field(v, key)->0),
{
    match v {
        Json::Object(ks, vs) => {
            let i = first_key_index(ks, key, 0);
            assert(decreases_to!(vs => vs[i]));
        },
        _ => {},
    }
}

/// The elements of an array member of an object are smaller than the object.
pub proof fn lemma_array_field_decreases(v: Json, key: Seq<char>, i: int)
    requires
        0 <= i < array_field(v, key).len(),
    ensures
        decreases_to!(v => array_field(v, key)[i]),
{
    lemma_field_decreases(v, key);
    let f = field(v, key)->0;
    match f {
        Json::Array(a) => {
            assert(decreases_to!(a => a[i]));
        },
        _ => {},
    }
}

/// The children of a value are smaller than it.
pub proof fn lemma_child_decreases(v: Json, i: int)
    requires
        0 <= i < children(v).len(),
    ensures
        decreases_to!(v => children(v)[i]),
{
    match v {
        Json::Array(a) => {
            assert(decreases_to!(a => a[i]));
        },
        Json::Object(ks, vs) => {
            assert(decreases_to!(vs => vs[i]));
        },
        _ => {},
    }
}

} // verus!

verus! {

/// The elements of the array held in the member `key` of `v`.
pub fn array_field_exec<'a>(v: &'a JsonValue, key: &str) -> (r: Option<&'a Vec<JsonValue>>)
    ensures
        r matches Some(a) ==> array_field(v@, key@) == json_seq(a@),
        r is None ==> array_field(v@, key@) == Seq::<Json>::empty(),
{
    match field_exec(v, key) {
        Some(JsonValue::Array(a)) => Some(a),
        _ => None,
    }
}

/// The `u32` held in the member `key` of `v`.
pub fn u32_field_exec(v: &JsonValue, key: &str) -> (r: Option<u32>)
    ensures
        r == u32_field(v@, key@),
{
    match field_exec(v, key) {
        Some(JsonValue::Number(t)) => u32_of_text_exec(t),
        _ => None,
    }
}

/// A copy of a value.
pub fn copy_json(v: &JsonValue) -> (r: JsonValue)
    ensures
        r@ == v@,
    decreases v@,
{
    match v {
        JsonValue::Null => JsonValue::Null,
        JsonValue::Bool(b) => JsonValue::Bool(*b),
        JsonValue::Number(t) => JsonValue::Number(t.clone()),
        JsonValue::Str(t) => JsonValue::Str(t.clone()),
        JsonValue::Array(a) => {
            let ghost whole = v@;
            assert(whole == Json::Array(json_seq(a@)));
            let mut out: Vec<JsonValue> = Vec::new();
            let mut i: usize = 0;
            assert(json_seq(out@) =~= json_seq(a@).subrange(0, 0));
            while i < a.len()
                invariant
                    whole == v@,
                    whole == Json::Array(json_seq(a@)),
                    i <= a.len(),
                    json_seq(out@) == json_seq(a@).subrange(0, i as int),
                decreases a.len() - i,
            {
                proof {
                    lemma_json_seq_index(a@, i as int);
                    lemma_child_decreases(whole, i as int);
                }
                let c = copy_json(&a[i]);
                proof {
                    lemma_json_seq_push(out@, c);
                }
                out.push(c);
                i = i + 1;
                assert(json_seq(out@) =~= json_seq(a@).subrange(0, i as int));
            }
            proof {
                lemma_json_seq_len(a@);
            }
            assert(json_seq(out@) =~= json_seq(a@));
            JsonValue::Array(out)
        },
        JsonValue::Object(ks, vs) => {
            let ghost whole = v@;
            assert(whole == Json::Object(keys_of(ks@), json_seq(vs@)));
            let mut out: Vec<JsonValue> = Vec::new();
            let mut i: usize = 0;
            assert(json_seq(out@) =~= json_seq(vs@).subrange(0, 0));
            while i < vs.len()
                invariant
                    whole == v@,
                    whole == Json::Object(keys_of(ks@), json_seq(vs@)),
                    i <= vs.len(),
                    json_seq(out@) == json_seq(vs@).subrange(0, i as int),
                decreases vs.len() - i,
            {
                proof {
                    lemma_json_seq_index(vs@, i as int);
                    lemma_child_decreases(whole, i as int);
                }
                let c = copy_json(&vs[i]);
                proof {
                    lemma_json_seq_push(out@, c);
                }
                out.push(c);
                i = i + 1;
                assert(json_seq(out@) =~= json_seq(vs@).subrange(0, i as int));
            }
            proof {
                lemma_json_seq_len(vs@);
            }
            assert(json_seq(out@) =~= json_seq(vs@));
            let mut keys: Vec<Vec<char>> = Vec::new();
            let mut j: usize = 0;
            while j < ks.len()
                invariant
                    j <= ks.len(),
                    keys.len() == j,
                    forall|k: int| 0 <= k < j ==> (#[trigger] keys@[k])@ == ks@[k]@,
                decreases ks.len() - j,
            {
                let key = ks[j].clone();
                assert(key@ == ks@[j as int]@);
                keys.push(key);
                j = j + 1;
            }
            assert(keys_of(keys@) =~= keys_of(ks@));
            JsonValue::Object(keys, out)
        },
    }
}

} // verus!
