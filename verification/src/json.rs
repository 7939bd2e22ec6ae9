//! The JSON document grammar of schedule files, and a parser for it that
//! returns exactly what the grammar says.
//!
//! The grammar is stated by spec functions over the document's characters:
//! a deterministic recursive descent in which every function either fails
//! or yields the position after what it consumed, together with the parsed
//! tree. Object members keep their file order, duplicates included; the
//! schema layer decides what to make of them.
//!
//! Each recursive step that resumes after a sub-parse does so only if the
//! sub-parse moved strictly forward and stayed inside the document (every
//! real parse does); stating that beside the step keeps termination
//! evident.

use vstd::prelude::*;

use crate::clock::is_digit;
use crate::text::{char_from_u32, push_char, str_chars};

verus! {

/// The mathematical value of a parsed JSON document. Numbers are
/// syntax-checked but carry no value: the schedule schema has none.
pub ghost enum JsonView {
    Null,
    Bool(bool),
    Num,
    Str(Seq<char>),
    Arr(Seq<JsonView>),
    Obj(Seq<(Seq<char>, JsonView)>),
}

/// A parsed JSON document.
#[derive(Debug)]
pub enum JsonValue {
    Null,
    Bool(bool),
    Num,
    Str(String),
    Arr(Vec<JsonValue>),
    Obj(Vec<(String, JsonValue)>),
}

impl View for JsonValue {
    type V = JsonView;

    open spec fn view(&self) -> JsonView
        decreases self,
    {
        match self {
            JsonValue::Null => JsonView::Null,
            JsonValue::Bool(b) => JsonView::Bool(*b),
            JsonValue::Num => JsonView::Num,
            JsonValue::Str(s) => JsonView::Str(s@),
            JsonValue::Arr(v) => {
                proof {
                    assert(decreases_to!(self => v));
                    assert(decreases_to!(v => v@));
                }
                JsonView::Arr(jsons_view(v@))
            },
            JsonValue::Obj(v) => {
                proof {
                    assert(decreases_to!(self => v));
                    assert(decreases_to!(v => v@));
                }
                JsonView::Obj(members_view(v@))
            },
        }
    }
}

/// The element-wise view of a sequence of JSON values.
pub open spec fn jsons_view(v: Seq<JsonValue>) -> Seq<JsonView>
    decreases v,
{
    if v.len() == 0 {
        Seq::empty()
    } else {
        proof {
            assert(decreases_to!(v => v[0]));
        }
        seq![v[0]@] + jsons_view(v.drop_first())
    }
}

/// The element-wise view of a sequence of object members.
pub open spec fn members_view(v: Seq<(String, JsonValue)>) -> Seq<(Seq<char>, JsonView)>
    decreases v,
{
    if v.len() == 0 {
        Seq::empty()
    } else {
        proof {
            assert(decreases_to!(v => v[0]));
            assert(decreases_to!(v[0] => v[0].1));
        }
        seq![(v[0].0@, v[0].1@)] + members_view(v.drop_first())
    }
}

/// `jsons_view` is the element-wise view.
pub broadcast proof fn jsons_view_len(v: Seq<JsonValue>)
    ensures
        (#[trigger] jsons_view(v)).len() == v.len(),
    decreases v.len(),
{
    if v.len() > 0 {
        jsons_view_len(v.drop_first());
        assert(jsons_view(v) == seq![v[0]@] + jsons_view(v.drop_first()));
    } else {
        assert(jsons_view(v) == Seq::<JsonView>::empty());
    }
}

pub broadcast proof fn jsons_view_index(v: Seq<JsonValue>, k: int)
    requires
        0 <= k < v.len(),
    ensures
        #[trigger] jsons_view(v)[k] == v[k]@,
    decreases v.len(),
{
    jsons_view_len(v);
    assert(jsons_view(v) == seq![v[0]@] + jsons_view(v.drop_first()));
    if k > 0 {
        jsons_view_index(v.drop_first(), k - 1);
    }
}

/// `members_view` is the element-wise view.
pub broadcast proof fn members_view_len(v: Seq<(String, JsonValue)>)
    ensures
        (#[trigger] members_view(v)).len() == v.len(),
    decreases v.len(),
{
    if v.len() > 0 {
        members_view_len(v.drop_first());
        assert(members_view(v) == seq![(v[0].0@, v[0].1@)] + members_view(v.drop_first()));
    } else {
        assert(members_view(v) == Seq::<(Seq<char>, JsonView)>::empty());
    }
}

pub broadcast proof fn members_view_index(v: Seq<(String, JsonValue)>, k: int)
    requires
        0 <= k < v.len(),
    ensures
        #[trigger] members_view(v)[k] == (v[k].0@, v[k].1@),
    decreases v.len(),
{
    members_view_len(v);
    assert(members_view(v) == seq![(v[0].0@, v[0].1@)] + members_view(v.drop_first()));
    if k > 0 {
        members_view_index(v.drop_first(), k - 1);
    }
}

pub open spec fn is_ws(c: char) -> bool {
    c == ' ' || c == '\t' || c == '\n' || c == '\r'
}

pub open spec fn is_hex(c: char) -> bool {
    is_digit(c) || (97 <= c as u32 && c as u32 <= 102) || (65 <= c as u32 && c as u32 <= 70)
}

pub open spec fn hex_val(c: char) -> int {
    if is_digit(c) {
        c as u32 - 48
    } else if 97 <= c as u32 && c as u32 <= 102 {
        c as u32 - 87
    } else {
        c as u32 - 55
    }
}

/// The position of the first non-whitespace character at or after `i`.
pub open spec fn spec_ws_end(s: Seq<char>, i: int) -> int
    decreases s.len() - i,
{
    if i < s.len() && is_ws(s[i]) {
        spec_ws_end(s, i + 1)
    } else {
        i
    }
}

/// Four hexadecimal digits starting at `i`, as a number.
pub open spec fn spec_hex4(s: Seq<char>, i: int) -> Option<int> {
    if 0 <= i && i + 4 <= s.len() && is_hex(s[i]) && is_hex(s[i + 1]) && is_hex(s[i + 2])
        && is_hex(s[i + 3]) {
        Some(hex_val(s[i]) * 4096 + hex_val(s[i + 1]) * 256 + hex_val(s[i + 2]) * 16 + hex_val(
            s[i + 3],
        ))
    } else {
        None
    }
}

/// The body of a JSON string, after its opening quote: characters and
/// escapes up to the closing quote, accumulated into `acc`. Unescaped
/// control characters, bad escapes and lone surrogates do not parse.
pub open spec fn spec_string_body(s: Seq<char>, i: int, acc: Seq<char>) -> Option<
    (int, Seq<char>),
>
    decreases s.len() - i,
{
    if i < 0 || i >= s.len() {
        None
    } else if s[i] == '"' {
        Some((i + 1, acc))
    } else if s[i] == '\\' {
        if i + 1 >= s.len() {
            None
        } else {
            let e = s[i + 1];
            if e == '"' || e == '\\' || e == '/' {
                spec_string_body(s, i + 2, acc.push(e))
            } else if e == 'b' {
                spec_string_body(s, i + 2, acc.push('\u{0008}'))
            } else if e == 'f' {
                spec_string_body(s, i + 2, acc.push('\u{000C}'))
            } else if e == 'n' {
                spec_string_body(s, i + 2, acc.push('\n'))
            } else if e == 'r' {
                spec_string_body(s, i + 2, acc.push('\r'))
            } else if e == 't' {
                spec_string_body(s, i + 2, acc.push('\t'))
            } else if e == 'u' {
                match spec_hex4(s, i + 2) {
                    Some(v) => if 0xD800 <= v && v < 0xDC00 {
                        if i + 7 < s.len() && s[i + 6] == '\\' && s[i + 7] == 'u' {
                            match spec_hex4(s, i + 8) {
                                Some(w) => if 0xDC00 <= w && w < 0xE000 {
                                    spec_string_body(
                                        s,
                                        i + 12,
                                        acc.push(
                                            ((0x10000 + (v - 0xD800) * 0x400 + (w
                                                - 0xDC00)) as u32) as char,
                                        ),
                                    )
                                } else {
                                    None
                                },
                                None => None,
                            }
                        } else {
                            None
                        }
                    } else if 0xDC00 <= v && v < 0xE000 {
                        None
                    } else {
                        spec_string_body(s, i + 6, acc.push((v as u32) as char))
                    },
                    None => None,
                }
            } else {
                None
            }
        }
    } else if (s[i] as u32) < 0x20 {
        None
    } else {
        spec_string_body(s, i + 1, acc.push(s[i]))
    }
}

/// A JSON string starting with its opening quote at `i`.
pub open spec fn spec_parse_string(s: Seq<char>, i: int) -> Option<(int, Seq<char>)> {
    if 0 <= i && i < s.len() && s[i] == '"' {
        spec_string_body(s, i + 1, Seq::empty())
    } else {
        None
    }
}

/// The position after the run of decimal digits starting at `i`.
pub open spec fn spec_digits_end(s: Seq<char>, i: int) -> int
    decreases s.len() - i,
{
    if i < s.len() && is_digit(s[i]) {
        spec_digits_end(s, i + 1)
    } else {
        i
    }
}

/// A JSON number starting at `i`: optional minus, an integer part with no
/// leading zero, an optional fraction and an optional exponent. Yields the
/// position after it.
pub open spec fn spec_skip_number(s: Seq<char>, i: int) -> Option<int> {
    let p = if i < s.len() && s[i] == '-' {
        i + 1
    } else {
        i
    };
    if p >= s.len() || !is_digit(s[p]) {
        None
    } else {
        let q = if s[p] == '0' {
            p + 1
        } else {
            spec_digits_end(s, p)
        };
        let r = if q < s.len() && s[q] == '.' {
            if q + 1 < s.len() && is_digit(s[q + 1]) {
                spec_digits_end(s, q + 1)
            } else {
                -1
            }
        } else {
            q
        };
        if r < 0 {
            None
        } else if r < s.len() && (s[r] == 'e' || s[r] == 'E') {
            let t = if r + 1 < s.len() && (s[r + 1] == '+' || s[r + 1] == '-') {
                r + 2
            } else {
                r + 1
            };
            if t < s.len() && is_digit(s[t]) {
                Some(spec_digits_end(s, t))
            } else {
                None
            }
        } else {
            Some(r)
        }
    }
}

/// A JSON value starting at `i` (no leading whitespace).
pub open spec fn spec_parse_value(s: Seq<char>, i: int) -> Option<(int, JsonView)>
    decreases s.len() - i, 0int,
{
    if i < 0 || i >= s.len() {
        None
    } else if s[i] == '"' {
        match spec_parse_string(s, i) {
            Some((j, t)) => Some((j, JsonView::Str(t))),
            None => None,
        }
    } else if s[i] == 't' {
        if i + 4 <= s.len() && s[i + 1] == 'r' && s[i + 2] == 'u' && s[i + 3] == 'e' {
            Some((i + 4, JsonView::Bool(true)))
        } else {
            None
        }
    } else if s[i] == 'f' {
        if i + 5 <= s.len() && s[i + 1] == 'a' && s[i + 2] == 'l' && s[i + 3] == 's' && s[i + 4]
            == 'e' {
            Some((i + 5, JsonView::Bool(false)))
        } else {
            None
        }
    } else if s[i] == 'n' {
        if i + 4 <= s.len() && s[i + 1] == 'u' && s[i + 2] == 'l' && s[i + 3] == 'l' {
            Some((i + 4, JsonView::Null))
        } else {
            None
        }
    } else if s[i] == '-' || is_digit(s[i]) {
        match spec_skip_number(s, i) {
            Some(j) => Some((j, JsonView::Num)),
            None => None,
        }
    } else if s[i] == '[' {
        match spec_parse_array_first(s, i + 1) {
            Some((j, elems)) => Some((j, JsonView::Arr(elems))),
            None => None,
        }
    } else if s[i] == '{' {
        match spec_parse_object_first(s, i + 1) {
            Some((j, members)) => Some((j, JsonView::Obj(members))),
            None => None,
        }
    } else {
        None
    }
}

/// Inside an array, before its first element or closing bracket.
pub open spec fn spec_parse_array_first(s: Seq<char>, i: int) -> Option<(int, Seq<JsonView>)>
    decreases s.len() - i, 1int,
{
    if i < 0 || i >= s.len() {
        None
    } else if is_ws(s[i]) {
        spec_parse_array_first(s, i + 1)
    } else if s[i] == ']' {
        Some((i + 1, Seq::empty()))
    } else {
        match spec_parse_value(s, i) {
            Some((j, v)) => if i < j && j <= s.len() {
                spec_parse_array_rest(s, j, seq![v])
            } else {
                None
            },
            None => None,
        }
    }
}

/// Inside an array, after an element: a comma and more elements, or the
/// closing bracket.
pub open spec fn spec_parse_array_rest(s: Seq<char>, i: int, acc: Seq<JsonView>) -> Option<
    (int, Seq<JsonView>),
>
    decreases s.len() - i, 1int,
{
    if i < 0 || i >= s.len() {
        None
    } else if is_ws(s[i]) {
        spec_parse_array_rest(s, i + 1, acc)
    } else if s[i] == ']' {
        Some((i + 1, acc))
    } else if s[i] == ',' {
        spec_parse_array_elem(s, i + 1, acc)
    } else {
        None
    }
}

/// Inside an array, after a comma: exactly one more element must follow.
pub open spec fn spec_parse_array_elem(s: Seq<char>, i: int, acc: Seq<JsonView>) -> Option<
    (int, Seq<JsonView>),
>
    decreases s.len() - i, 1int,
{
    if i < 0 || i >= s.len() {
        None
    } else if is_ws(s[i]) {
        spec_parse_array_elem(s, i + 1, acc)
    } else {
        match spec_parse_value(s, i) {
            Some((j, v)) => if i < j && j <= s.len() {
                spec_parse_array_rest(s, j, acc.push(v))
            } else {
                None
            },
            None => None,
        }
    }
}

/// Inside an object, before its first member or closing brace.
pub open spec fn spec_parse_object_first(s: Seq<char>, i: int) -> Option<
    (int, Seq<(Seq<char>, JsonView)>),
>
    decreases s.len() - i, 1int,
{
    if i < 0 || i >= s.len() {
        None
    } else if is_ws(s[i]) {
        spec_parse_object_first(s, i + 1)
    } else if s[i] == '}' {
        Some((i + 1, Seq::empty()))
    } else if s[i] == '"' {
        match spec_parse_string(s, i) {
            Some((j, k)) => if i < j && j <= s.len() {
                spec_parse_object_colon(s, j, Seq::empty(), k)
            } else {
                None
            },
            None => None,
        }
    } else {
        None
    }
}

/// Inside an object, after a member's key: a colon, then its value.
pub open spec fn spec_parse_object_colon(
    s: Seq<char>,
    i: int,
    acc: Seq<(Seq<char>, JsonView)>,
    key: Seq<char>,
) -> Option<(int, Seq<(Seq<char>, JsonView)>)>
    decreases s.len() - i, 1int,
{
    if i < 0 || i >= s.len() {
        None
    } else if is_ws(s[i]) {
        spec_parse_object_colon(s, i + 1, acc, key)
    } else if s[i] == ':' {
        spec_parse_object_value(s, i + 1, acc, key)
    } else {
        None
    }
}

/// Inside an object, after a member's colon: the member's value.
pub open spec fn spec_parse_object_value(
    s: Seq<char>,
    i: int,
    acc: Seq<(Seq<char>, JsonView)>,
    key: Seq<char>,
) -> Option<(int, Seq<(Seq<char>, JsonView)>)>
    decreases s.len() - i, 1int,
{
    if i < 0 || i >= s.len() {
        None
    } else if is_ws(s[i]) {
        spec_parse_object_value(s, i + 1, acc, key)
    } else {
        match spec_parse_value(s, i) {
            Some((j, v)) => if i < j && j <= s.len() {
                spec_parse_object_rest(s, j, acc.push((key, v)))
            } else {
                None
            },
            None => None,
        }
    }
}

/// Inside an object, after a member: a comma and more members, or the
/// closing brace.
pub open spec fn spec_parse_object_rest(
    s: Seq<char>,
    i: int,
    acc: Seq<(Seq<char>, JsonView)>,
) -> Option<(int, Seq<(Seq<char>, JsonView)>)>
    decreases s.len() - i, 1int,
{
    if i < 0 || i >= s.len() {
        None
    } else if is_ws(s[i]) {
        spec_parse_object_rest(s, i + 1, acc)
    } else if s[i] == '}' {
        Some((i + 1, acc))
    } else if s[i] == ',' {
        spec_parse_object_key(s, i + 1, acc)
    } else {
        None
    }
}

/// Inside an object, after a comma: exactly one more member must follow.
pub open spec fn spec_parse_object_key(
    s: Seq<char>,
    i: int,
    acc: Seq<(Seq<char>, JsonView)>,
) -> Option<(int, Seq<(Seq<char>, JsonView)>)>
    decreases s.len() - i, 1int,
{
    if i < 0 || i >= s.len() {
        None
    } else if is_ws(s[i]) {
        spec_parse_object_key(s, i + 1, acc)
    } else if s[i] == '"' {
        match spec_parse_string(s, i) {
            Some((j, k)) => if i < j && j <= s.len() {
                spec_parse_object_colon(s, j, acc, k)
            } else {
                None
            },
            None => None,
        }
    } else {
        None
    }
}

/// A whole JSON document: one value, possibly surrounded by whitespace,
/// with nothing after it.
pub open spec fn spec_parse_document(s: Seq<char>) -> Option<JsonView> {
    match spec_parse_value(s, spec_ws_end(s, 0)) {
        Some((j, v)) => if spec_ws_end(s, j) == s.len() {
            Some(v)
        } else {
            None
        },
        None => None,
    }
}

fn ws_char(c: char) -> (r: bool)
    ensures
        r == is_ws(c),
{
    c == ' ' || c == '\t' || c == '\n' || c == '\r'
}

fn ws_end(cs: &Vec<char>, i: usize) -> (r: usize)
    requires
        i <= cs@.len(),
    ensures
        r as int == spec_ws_end(cs@, i as int),
        i <= r <= cs@.len(),
{
    let mut j = i;
    while j < cs.len() && ws_char(cs[j])
        invariant
            i <= j <= cs@.len(),
            spec_ws_end(cs@, i as int) == spec_ws_end(cs@, j as int),
        decreases cs@.len() - j,
    {
        j = j + 1;
    }
    j
}

fn hex_digit(c: char) -> (r: Option<u32>)
    ensures
        is_hex(c) ==> (r matches Some(d) && d as int == hex_val(c)),
        !is_hex(c) ==> r is None,
{
    let u = c as u32;
    if 48 <= u && u <= 57 {
        Some(u - 48)
    } else if 97 <= u && u <= 102 {
        Some(u - 87)
    } else if 65 <= u && u <= 70 {
        Some(u - 55)
    } else {
        None
    }
}

fn hex4(cs: &Vec<char>, i: usize) -> (r: Option<u32>)
    requires
        i <= cs@.len(),
    ensures
        match spec_hex4(cs@, i as int) {
            Some(v) => r matches Some(x) && x as int == v,
            None => r is None,
        },
{
    if cs.len() - i < 4 {
        return None;
    }
    let d0 = hex_digit(cs[i]);
    let d1 = hex_digit(cs[i + 1]);
    let d2 = hex_digit(cs[i + 2]);
    let d3 = hex_digit(cs[i + 3]);
    match (d0, d1, d2, d3) {
        (Some(a), Some(b), Some(c), Some(d)) => Some(a * 4096 + b * 256 + c * 16 + d),
        _ => None,
    }
}

fn string_body(cs: &Vec<char>, i: usize, acc: String) -> (r: Option<(usize, String)>)
    requires
        i <= cs@.len(),
    ensures
        match spec_string_body(cs@, i as int, acc@) {
            Some(q) => r matches Some(p) && p.0 as int == q.0 && p.1@ == q.1,
            None => r is None,
        },
    decreases cs@.len() - i,
{
    if i >= cs.len() {
        return None;
    }
    let c = cs[i];
    if c == '"' {
        Some((i + 1, acc))
    } else if c == '\\' {
        if i + 1 >= cs.len() {
            return None;
        }
        let e = cs[i + 1];
        if e == '"' || e == '\\' || e == '/' {
            let mut acc = acc;
            push_char(&mut acc, e);
            string_body(cs, i + 2, acc)
        } else if e == 'b' {
            let mut acc = acc;
            push_char(&mut acc, '\u{0008}');
            string_body(cs, i + 2, acc)
        } else if e == 'f' {
            let mut acc = acc;
            push_char(&mut acc, '\u{000C}');
            string_body(cs, i + 2, acc)
        } else if e == 'n' {
            let mut acc = acc;
            push_char(&mut acc, '\n');
            string_body(cs, i + 2, acc)
        } else if e == 'r' {
            let mut acc = acc;
            push_char(&mut acc, '\r');
            string_body(cs, i + 2, acc)
        } else if e == 't' {
            let mut acc = acc;
            push_char(&mut acc, '\t');
            string_body(cs, i + 2, acc)
        } else if e == 'u' {
            let v = match hex4(cs, i + 2) {
                Some(v) => v,
                None => {
                    return None;
                },
            };
            if 0xD800 <= v && v < 0xDC00 {
                if cs.len() - i > 7 && cs[i + 6] == '\\' && cs[i + 7] == 'u' {
                    let w = match hex4(cs, i + 8) {
                        Some(w) => w,
                        None => {
                            return None;
                        },
                    };
                    if 0xDC00 <= w && w < 0xE000 {
                        let combined: u32 = 0x10000 + (v - 0xD800) * 0x400 + (w - 0xDC00);
                        let mut acc = acc;
                        push_char(&mut acc, char_from_u32(combined));
                        string_body(cs, i + 12, acc)
                    } else {
                        None
                    }
                } else {
                    None
                }
            } else if 0xDC00 <= v && v < 0xE000 {
                None
            } else {
                let mut acc = acc;
                push_char(&mut acc, char_from_u32(v));
                string_body(cs, i + 6, acc)
            }
        } else {
            None
        }
    } else if (c as u32) < 0x20 {
        None
    } else {
        let mut acc = acc;
        push_char(&mut acc, c);
        string_body(cs, i + 1, acc)
    }
}

fn parse_string(cs: &Vec<char>, i: usize) -> (r: Option<(usize, String)>)
    requires
        i <= cs@.len(),
    ensures
        match spec_parse_string(cs@, i as int) {
            Some(q) => r matches Some(p) && p.0 as int == q.0 && p.1@ == q.1,
            None => r is None,
        },
{
    if i < cs.len() && cs[i] == '"' {
        string_body(cs, i + 1, String::new())
    } else {
        None
    }
}

fn digit_char(cs: &Vec<char>, i: usize) -> (r: bool)
    requires
        i < cs@.len(),
    ensures
        r == is_digit(cs@[i as int]),
{
    let u = cs[i] as u32;
    48 <= u && u <= 57
}

fn digits_end(cs: &Vec<char>, i: usize) -> (r: usize)
    requires
        i <= cs@.len(),
    ensures
        r as int == spec_digits_end(cs@, i as int),
        i <= r <= cs@.len(),
{
    let mut j = i;
    while j < cs.len() && digit_char(cs, j)
        invariant
            i <= j <= cs@.len(),
            spec_digits_end(cs@, i as int) == spec_digits_end(cs@, j as int),
        decreases cs@.len() - j,
    {
        j = j + 1;
    }
    j
}

fn skip_number(cs: &Vec<char>, i: usize) -> (r: Option<usize>)
    requires
        i <= cs@.len(),
    ensures
        match spec_skip_number(cs@, i as int) {
            Some(q) => r matches Some(p) && p as int == q,
            None => r is None,
        },
{
    let p = if i < cs.len() && cs[i] == '-' {
        i + 1
    } else {
        i
    };
    if p >= cs.len() || !digit_char(cs, p) {
        return None;
    }
    let q = if cs[p] == '0' {
        p + 1
    } else {
        digits_end(cs, p)
    };
    let r2 = if q < cs.len() && cs[q] == '.' {
        if q + 1 < cs.len() && digit_char(cs, q + 1) {
            digits_end(cs, q + 1)
        } else {
            return None;
        }
    } else {
        q
    };
    if r2 < cs.len() && (cs[r2] == 'e' || cs[r2] == 'E') {
        let t = if r2 + 1 < cs.len() && (cs[r2 + 1] == '+' || cs[r2 + 1] == '-') {
            r2 + 2
        } else {
            r2 + 1
        };
        if t < cs.len() && digit_char(cs, t) {
            Some(digits_end(cs, t))
        } else {
            None
        }
    } else {
        Some(r2)
    }
}

fn parse_value(cs: &Vec<char>, i: usize) -> (r: Option<(usize, JsonValue)>)
    requires
        i <= cs@.len(),
    ensures
        match spec_parse_value(cs@, i as int) {
            Some(q) => r matches Some(p) && p.0 as int == q.0 && p.1@ == q.1,
            None => r is None,
        },
    decreases cs@.len() - i, 0int,
{
    if i >= cs.len() {
        return None;
    }
    let c = cs[i];
    if c == '"' {
        match parse_string(cs, i) {
            Some((j, t)) => Some((j, JsonValue::Str(t))),
            None => None,
        }
    } else if c == 't' {
        if cs.len() - i >= 4 && cs[i + 1] == 'r' && cs[i + 2] == 'u' && cs[i + 3] == 'e' {
            Some((i + 4, JsonValue::Bool(true)))
        } else {
            None
        }
    } else if c == 'f' {
        if cs.len() - i >= 5 && cs[i + 1] == 'a' && cs[i + 2] == 'l' && cs[i + 3] == 's' && cs[i
            + 4] == 'e' {
            Some((i + 5, JsonValue::Bool(false)))
        } else {
            None
        }
    } else if c == 'n' {
        if cs.len() - i >= 4 && cs[i + 1] == 'u' && cs[i + 2] == 'l' && cs[i + 3] == 'l' {
            Some((i + 4, JsonValue::Null))
        } else {
            None
        }
    } else if c == '-' || digit_char(cs, i) {
        match skip_number(cs, i) {
            Some(j) => Some((j, JsonValue::Num)),
            None => None,
        }
    } else if c == '[' {
        match parse_array_first(cs, i + 1) {
            Some((j, elems)) => Some((j, JsonValue::Arr(elems))),
            None => None,
        }
    } else if c == '{' {
        match parse_object_first(cs, i + 1) {
            Some((j, members)) => Some((j, JsonValue::Obj(members))),
            None => None,
        }
    } else {
        None
    }
}

fn parse_array_first(cs: &Vec<char>, i: usize) -> (r: Option<(usize, Vec<JsonValue>)>)
    requires
        i <= cs@.len(),
    ensures
        match spec_parse_array_first(cs@, i as int) {
            Some(q) => r matches Some(p) && p.0 as int == q.0 && jsons_view(p.1@) == q.1,
            None => r is None,
        },
    decreases cs@.len() - i, 1int,
{
    broadcast use jsons_view_len, jsons_view_index;

    if i >= cs.len() {
        return None;
    }
    if ws_char(cs[i]) {
        return parse_array_first(cs, i + 1);
    }
    if cs[i] == ']' {
        let elems: Vec<JsonValue> = Vec::new();
        assert(jsons_view(elems@) =~= Seq::<JsonView>::empty());
        return Some((i + 1, elems));
    }
    match parse_value(cs, i) {
        Some((j, v)) => {
            if i < j && j <= cs.len() {
                let ghost sv = v@;
                let mut elems: Vec<JsonValue> = Vec::new();
                elems.push(v);
                assert(jsons_view(elems@) =~= seq![sv]);
                parse_array_rest(cs, j, elems)
            } else {
                None
            }
        },
        None => None,
    }
}

fn parse_array_rest(cs: &Vec<char>, i: usize, acc: Vec<JsonValue>) -> (r: Option<
    (usize, Vec<JsonValue>),
>)
    requires
        i <= cs@.len(),
    ensures
        match spec_parse_array_rest(cs@, i as int, jsons_view(acc@)) {
            Some(q) => r matches Some(p) && p.0 as int == q.0 && jsons_view(p.1@) == q.1,
            None => r is None,
        },
    decreases cs@.len() - i, 1int,
{
    if i >= cs.len() {
        return None;
    }
    if ws_char(cs[i]) {
        return parse_array_rest(cs, i + 1, acc);
    }
    if cs[i] == ']' {
        return Some((i + 1, acc));
    }
    if cs[i] == ',' {
        parse_array_elem(cs, i + 1, acc)
    } else {
        None
    }
}

fn parse_array_elem(cs: &Vec<char>, i: usize, acc: Vec<JsonValue>) -> (r: Option<
    (usize, Vec<JsonValue>),
>)
    requires
        i <= cs@.len(),
    ensures
        match spec_parse_array_elem(cs@, i as int, jsons_view(acc@)) {
            Some(q) => r matches Some(p) && p.0 as int == q.0 && jsons_view(p.1@) == q.1,
            None => r is None,
        },
    decreases cs@.len() - i, 1int,
{
    broadcast use jsons_view_len, jsons_view_index;

    if i >= cs.len() {
        return None;
    }
    if ws_char(cs[i]) {
        return parse_array_elem(cs, i + 1, acc);
    }
    match parse_value(cs, i) {
        Some((j, v)) => {
            if i < j && j <= cs.len() {
                let ghost sv = v@;
                let ghost acc0 = acc@;
                let mut acc = acc;
                acc.push(v);
                assert(jsons_view(acc@) =~= jsons_view(acc0).push(sv));
                parse_array_rest(cs, j, acc)
            } else {
                None
            }
        },
        None => None,
    }
}

fn parse_object_first(cs: &Vec<char>, i: usize) -> (r: Option<
    (usize, Vec<(String, JsonValue)>),
>)
    requires
        i <= cs@.len(),
    ensures
        match spec_parse_object_first(cs@, i as int) {
            Some(q) => r matches Some(p) && p.0 as int == q.0 && members_view(p.1@) == q.1,
            None => r is None,
        },
    decreases cs@.len() - i, 1int,
{
    if i >= cs.len() {
        return None;
    }
    if ws_char(cs[i]) {
        return parse_object_first(cs, i + 1);
    }
    if cs[i] == '}' {
        let members: Vec<(String, JsonValue)> = Vec::new();
        assert(members_view(members@) =~= Seq::<(Seq<char>, JsonView)>::empty());
        return Some((i + 1, members));
    }
    if cs[i] == '"' {
        match parse_string(cs, i) {
            Some((j, k)) => {
                if i < j && j <= cs.len() {
                    let members: Vec<(String, JsonValue)> = Vec::new();
                    assert(members_view(members@) =~= Seq::<(Seq<char>, JsonView)>::empty());
                    parse_object_colon(cs, j, members, k)
                } else {
                    None
                }
            },
            None => None,
        }
    } else {
        None
    }
}

fn parse_object_colon(cs: &Vec<char>, i: usize, acc: Vec<(String, JsonValue)>, key: String) -> (r:
    Option<(usize, Vec<(String, JsonValue)>)>)
    requires
        i <= cs@.len(),
    ensures
        match spec_parse_object_colon(cs@, i as int, members_view(acc@), key@) {
            Some(q) => r matches Some(p) && p.0 as int == q.0 && members_view(p.1@) == q.1,
            None => r is None,
        },
    decreases cs@.len() - i, 1int,
{
    if i >= cs.len() {
        return None;
    }
    if ws_char(cs[i]) {
        return parse_object_colon(cs, i + 1, acc, key);
    }
    if cs[i] == ':' {
        parse_object_value(cs, i + 1, acc, key)
    } else {
        None
    }
}

fn parse_object_value(cs: &Vec<char>, i: usize, acc: Vec<(String, JsonValue)>, key: String) -> (r:
    Option<(usize, Vec<(String, JsonValue)>)>)
    requires
        i <= cs@.len(),
    ensures
        match spec_parse_object_value(cs@, i as int, members_view(acc@), key@) {
            Some(q) => r matches Some(p) && p.0 as int == q.0 && members_view(p.1@) == q.1,
            None => r is None,
        },
    decreases cs@.len() - i, 1int,
{
    broadcast use members_view_len, members_view_index;

    if i >= cs.len() {
        return None;
    }
    if ws_char(cs[i]) {
        return parse_object_value(cs, i + 1, acc, key);
    }
    match parse_value(cs, i) {
        Some((j, v)) => {
            if i < j && j <= cs.len() {
                let ghost sv = v@;
                let ghost skey = key@;
                let ghost acc0 = acc@;
                let mut acc = acc;
                acc.push((key, v));
                assert(members_view(acc@) =~= members_view(acc0).push((skey, sv)));
                parse_object_rest(cs, j, acc)
            } else {
                None
            }
        },
        None => None,
    }
}

fn parse_object_rest(cs: &Vec<char>, i: usize, acc: Vec<(String, JsonValue)>) -> (r: Option<
    (usize, Vec<(String, JsonValue)>),
>)
    requires
        i <= cs@.len(),
    ensures
        match spec_parse_object_rest(cs@, i as int, members_view(acc@)) {
            Some(q) => r matches Some(p) && p.0 as int == q.0 && members_view(p.1@) == q.1,
            None => r is None,
        },
    decreases cs@.len() - i, 1int,
{
    if i >= cs.len() {
        return None;
    }
    if ws_char(cs[i]) {
        return parse_object_rest(cs, i + 1, acc);
    }
    if cs[i] == '}' {
        return Some((i + 1, acc));
    }
    if cs[i] == ',' {
        parse_object_key(cs, i + 1, acc)
    } else {
        None
    }
}

fn parse_object_key(cs: &Vec<char>, i: usize, acc: Vec<(String, JsonValue)>) -> (r: Option<
    (usize, Vec<(String, JsonValue)>),
>)
    requires
        i <= cs@.len(),
    ensures
        match spec_parse_object_key(cs@, i as int, members_view(acc@)) {
            Some(q) => r matches Some(p) && p.0 as int == q.0 && members_view(p.1@) == q.1,
            None => r is None,
        },
    decreases cs@.len() - i, 1int,
{
    if i >= cs.len() {
        return None;
    }
    if ws_char(cs[i]) {
        return parse_object_key(cs, i + 1, acc);
    }
    if cs[i] == '"' {
        match parse_string(cs, i) {
            Some((j, k)) => {
                if i < j && j <= cs.len() {
                    parse_object_colon(cs, j, acc, k)
                } else {
                    None
                }
            },
            None => None,
        }
    } else {
        None
    }
}

/// Parses a whole JSON document given as characters; returns exactly what
/// [`spec_parse_document`] says.
pub fn parse_document_chars(cs: &Vec<char>) -> (r: Option<JsonValue>)
    ensures
        match spec_parse_document(cs@) {
            Some(q) => r matches Some(p) && p@ == q,
            None => r is None,
        },
{
    let start = ws_end(cs, 0);
    match parse_value(cs, start) {
        Some((j, v)) => {
            if j <= cs.len() && ws_end(cs, j) == cs.len() {
                Some(v)
            } else {
                None
            }
        },
        None => None,
    }
}

/// Parses a whole JSON document; returns exactly what
/// [`spec_parse_document`] says of the string's characters.
pub fn parse_document(s: &str) -> (r: Option<JsonValue>)
    ensures
        match spec_parse_document(s@) {
            Some(q) => r matches Some(p) && p@ == q,
            None => r is None,
        },
{
    let cs = str_chars(s);
    parse_document_chars(&cs)
}

} // verus!
