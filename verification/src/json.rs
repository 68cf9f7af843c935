//! The wire format of the trainer protocol: one JSON object per line,
//! with scalar fields (strings, numbers, booleans, null).
//!
//! The grammar is defined here as specification functions over character
//! sequences, and the parser is proved to return exactly what the grammar
//! says. A line outside the grammar (nested values, unsupported escapes,
//! trailing garbage) parses to `None`, and the decoder falls back to a
//! plain log event.

use vstd::prelude::*;

use crate::strutil::chars_to_string;

verus! {

/// A scalar field value. Numbers keep their source text, so nothing is
/// lost to rounding; callers convert when they need arithmetic.
#[derive(Debug, Clone)]
pub enum JsonField {
    S(String),
    N(String),
    B(bool),
    Null,
}

/// Mathematical image of a `JsonField`.
pub enum JsonFieldV {
    S(Seq<char>),
    N(Seq<char>),
    B(bool),
    Null,
}

impl View for JsonField {
    type V = JsonFieldV;

    open spec fn view(&self) -> JsonFieldV {
        match self {
            JsonField::S(s) => JsonFieldV::S(s@),
            JsonField::N(s) => JsonFieldV::N(s@),
            JsonField::B(b) => JsonFieldV::B(*b),
            JsonField::Null => JsonFieldV::Null,
        }
    }
}

/// The views of a field list, in order.
pub open spec fn pairs_view(s: Seq<(String, JsonField)>) -> Seq<(Seq<char>, JsonFieldV)> {
    Seq::new(s.len(), |i: int| (s[i].0@, s[i].1@))
}

/// JSON insignificant whitespace.
pub open spec fn is_ws(c: char) -> bool {
    c == ' ' || c == '\t' || c == '\n' || c == '\r'
}

/// A decimal digit.
pub open spec fn is_digit(c: char) -> bool {
    '0' <= c && c <= '9'
}

/// The first position at or after `i` holding no whitespace.
pub open spec fn spec_ws(s: Seq<char>, i: int) -> int
    decreases s.len() - i,
{
    if i < 0 {
        i
    } else if i < s.len() && is_ws(s[i]) {
        spec_ws(s, i + 1)
    } else {
        i
    }
}

pub proof fn lemma_ws_bounds(s: Seq<char>, i: int)
    requires
        0 <= i <= s.len(),
    ensures
        i <= spec_ws(s, i) <= s.len(),
    decreases s.len() - i,
{
    if i < s.len() && is_ws(s[i]) {
        lemma_ws_bounds(s, i + 1);
    }
}

/// What a backslash escape denotes, if it is supported.
pub open spec fn spec_unescape(c: char) -> Option<char> {
    if c == '"' {
        Some('"')
    } else if c == '\\' {
        Some('\\')
    } else if c == '/' {
        Some('/')
    } else if c == 'n' {
        Some('\n')
    } else if c == 't' {
        Some('\t')
    } else if c == 'r' {
        Some('\r')
    } else if c == 'b' {
        Some('\u{0008}')
    } else if c == 'f' {
        Some('\u{000C}')
    } else {
        None
    }
}

/// The body of a string literal, from just after the opening quote: the
/// unescaped content and the position just after the closing quote.
/// Unsupported escapes (including `\u`) and raw control characters make
/// the string — and so the line — unparseable.
pub open spec fn spec_string_body(s: Seq<char>, i: int) -> Option<(Seq<char>, int)>
    decreases s.len() - i,
{
    if i < 0 || i >= s.len() {
        None
    } else if s[i] == '"' {
        Some((Seq::empty(), i + 1))
    } else if s[i] == '\\' {
        if i + 1 < s.len() {
            match spec_unescape(s[i + 1]) {
                Some(c) => match spec_string_body(s, i + 2) {
                    Some((rest, j)) => Some((seq![c] + rest, j)),
                    None => None,
                },
                None => None,
            }
        } else {
            None
        }
    } else if (s[i] as u32) < 0x20 {
        None
    } else {
        match spec_string_body(s, i + 1) {
            Some((rest, j)) => Some((seq![s[i]] + rest, j)),
            None => None,
        }
    }
}

pub proof fn lemma_string_body_pos(s: Seq<char>, i: int)
    requires
        0 <= i <= s.len(),
        spec_string_body(s, i) is Some,
    ensures
        i < (spec_string_body(s, i)->0).1 <= s.len(),
    decreases s.len() - i,
{
    if i < s.len() && s[i] == '"' {
    } else if i < s.len() && s[i] == '\\' {
        lemma_string_body_pos(s, i + 2);
    } else if i < s.len() {
        lemma_string_body_pos(s, i + 1);
    }
}

/// A whole string literal at `i`: content and position after it.
pub open spec fn spec_parse_string(s: Seq<char>, i: int) -> Option<(Seq<char>, int)> {
    if 0 <= i < s.len() && s[i] == '"' {
        spec_string_body(s, i + 1)
    } else {
        None
    }
}

pub proof fn lemma_parse_string_pos(s: Seq<char>, i: int)
    requires
        0 <= i <= s.len(),
        spec_parse_string(s, i) is Some,
    ensures
        i + 1 < (spec_parse_string(s, i)->0).1 <= s.len(),
{
    lemma_string_body_pos(s, i + 1);
}

/// The end of a run of digits starting at `i`.
pub open spec fn spec_digits_end(s: Seq<char>, i: int) -> int
    decreases s.len() - i,
{
    if i < 0 {
        i
    } else if i < s.len() && is_digit(s[i]) {
        spec_digits_end(s, i + 1)
    } else {
        i
    }
}

pub proof fn lemma_digits_end_bounds(s: Seq<char>, i: int)
    requires
        0 <= i <= s.len(),
    ensures
        i <= spec_digits_end(s, i) <= s.len(),
    decreases s.len() - i,
{
    if i < s.len() && is_digit(s[i]) {
        lemma_digits_end_bounds(s, i + 1);
    }
}

/// The end of the integer part of a number whose digits start at `i`:
/// a single `0`, or a nonzero digit followed by more digits.
pub open spec fn spec_int_end(s: Seq<char>, i: int) -> Option<int> {
    if 0 <= i < s.len() && is_digit(s[i]) {
        if s[i] == '0' {
            Some(i + 1)
        } else {
            Some(spec_digits_end(s, i))
        }
    } else {
        None
    }
}

/// The end of the fraction part, if one starts at `i` (else `i` itself).
pub open spec fn spec_frac_end(s: Seq<char>, i: int) -> Option<int> {
    if 0 <= i < s.len() && s[i] == '.' {
        if i + 1 < s.len() && is_digit(s[i + 1]) {
            Some(spec_digits_end(s, i + 1))
        } else {
            None
        }
    } else {
        Some(i)
    }
}

/// The end of the exponent part, if one starts at `i` (else `i` itself).
pub open spec fn spec_exp_end(s: Seq<char>, i: int) -> Option<int> {
    if 0 <= i < s.len() && (s[i] == 'e' || s[i] == 'E') {
        let j = if i + 1 < s.len() && (s[i + 1] == '+' || s[i + 1] == '-') {
            i + 2
        } else {
            i + 1
        };
        if j < s.len() && is_digit(s[j]) {
            Some(spec_digits_end(s, j))
        } else {
            None
        }
    } else {
        Some(i)
    }
}

/// A number at `i`: its source text and the position after it.
pub open spec fn spec_parse_number(s: Seq<char>, i: int) -> Option<(Seq<char>, int)> {
    if 0 <= i <= s.len() {
        let d = if i < s.len() && s[i] == '-' {
            i + 1
        } else {
            i
        };
        match spec_int_end(s, d) {
            Some(ie) => match spec_frac_end(s, ie) {
                Some(fe) => match spec_exp_end(s, fe) {
                    Some(ee) => Some((s.subrange(i, ee), ee)),
                    None => None,
                },
                None => None,
            },
            None => None,
        }
    } else {
        None
    }
}

pub proof fn lemma_parse_number_pos(s: Seq<char>, i: int)
    requires
        0 <= i <= s.len(),
        spec_parse_number(s, i) is Some,
    ensures
        i < (spec_parse_number(s, i)->0).1 <= s.len(),
{
    let d = if i < s.len() && s[i] == '-' {
        i + 1
    } else {
        i
    };
    let ie = spec_int_end(s, d)->0;
    lemma_digits_end_bounds(s, d);
    if s[d] != '0' {
        lemma_digits_end_bounds(s, d + 1);
        assert(spec_digits_end(s, d) == spec_digits_end(s, d + 1));
        assert(ie == spec_digits_end(s, d));
    }
    assert(d < ie <= s.len());
    let fe = spec_frac_end(s, ie)->0;
    if ie < s.len() && s[ie] == '.' {
        lemma_digits_end_bounds(s, ie + 1);
    }
    assert(ie <= fe <= s.len());
    let ee = spec_exp_end(s, fe)->0;
    if fe < s.len() && (s[fe] == 'e' || s[fe] == 'E') {
        let j = if fe + 1 < s.len() && (s[fe + 1] == '+' || s[fe + 1] == '-') {
            fe + 2
        } else {
            fe + 1
        };
        lemma_digits_end_bounds(s, j);
    }
    assert(fe <= ee <= s.len());
}

/// A scalar value at `i`: a string, a number, `true`, `false` or `null`.
/// Anything else — in particular a nested object or array — is outside
/// the wire format.
pub open spec fn spec_parse_value(s: Seq<char>, i: int) -> Option<(JsonFieldV, int)> {
    if 0 <= i < s.len() {
        if s[i] == '"' {
            match spec_parse_string(s, i) {
                Some((t, j)) => Some((JsonFieldV::S(t), j)),
                None => None,
            }
        } else if s[i] == '-' || is_digit(s[i]) {
            match spec_parse_number(s, i) {
                Some((t, j)) => Some((JsonFieldV::N(t), j)),
                None => None,
            }
        } else if s[i] == 't' {
            if i + 4 <= s.len() && s[i + 1] == 'r' && s[i + 2] == 'u' && s[i + 3] == 'e' {
                Some((JsonFieldV::B(true), i + 4))
            } else {
                None
            }
        } else if s[i] == 'f' {
            if i + 5 <= s.len() && s[i + 1] == 'a' && s[i + 2] == 'l' && s[i + 3] == 's' && s[i + 4]
                == 'e' {
                Some((JsonFieldV::B(false), i + 5))
            } else {
                None
            }
        } else if s[i] == 'n' {
            if i + 4 <= s.len() && s[i + 1] == 'u' && s[i + 2] == 'l' && s[i + 3] == 'l' {
                Some((JsonFieldV::Null, i + 4))
            } else {
                None
            }
        } else {
            None
        }
    } else {
        None
    }
}

pub proof fn lemma_parse_value_pos(s: Seq<char>, i: int)
    requires
        0 <= i <= s.len(),
        spec_parse_value(s, i) is Some,
    ensures
        i < (spec_parse_value(s, i)->0).1 <= s.len(),
{
    if s[i] == '"' {
        lemma_parse_string_pos(s, i);
    } else if s[i] == '-' || is_digit(s[i]) {
        lemma_parse_number_pos(s, i);
    }
}

/// One `"key": value` pair at `i` (whitespace allowed around the colon):
/// the key, the value, and the position after the value.
pub open spec fn spec_parse_pair(s: Seq<char>, i: int) -> Option<((Seq<char>, JsonFieldV), int)> {
    match spec_parse_string(s, i) {
        Some((k, j)) => {
            let j1 = spec_ws(s, j);
            if j1 < s.len() && s[j1] == ':' {
                match spec_parse_value(s, spec_ws(s, j1 + 1)) {
                    Some((v, j2)) => Some(((k, v), j2)),
                    None => None,
                }
            } else {
                None
            }
        },
        None => None,
    }
}

pub proof fn lemma_parse_pair_pos(s: Seq<char>, i: int)
    requires
        0 <= i <= s.len(),
        spec_parse_pair(s, i) is Some,
    ensures
        i < (spec_parse_pair(s, i)->0).1 <= s.len(),
{
    lemma_parse_string_pos(s, i);
    let j = (spec_parse_string(s, i)->0).1;
    lemma_ws_bounds(s, j);
    let j1 = spec_ws(s, j);
    lemma_ws_bounds(s, j1 + 1);
    lemma_parse_value_pos(s, spec_ws(s, j1 + 1));
}

/// The members of an object, from the first key at `i`: the pairs in
/// order, and the position just after the closing brace.
pub open spec fn spec_parse_members(s: Seq<char>, i: int) -> Option<(
    Seq<(Seq<char>, JsonFieldV)>,
    int,
)>
    decreases s.len() - i,
    when 0 <= i <= s.len()
    via check_parse_members
{
    match spec_parse_pair(s, i) {
        Some((p, j)) => {
            let j1 = spec_ws(s, j);
            if j1 < s.len() && s[j1] == ',' {
                let j2 = spec_ws(s, j1 + 1);
                match spec_parse_members(s, j2) {
                    Some((rest, k)) => Some((seq![p] + rest, k)),
                    None => None,
                }
            } else if j1 < s.len() && s[j1] == '}' {
                Some((seq![p], j1 + 1))
            } else {
                None
            }
        },
        None => None,
    }
}

#[via_fn]
proof fn check_parse_members(s: Seq<char>, i: int) {
    if spec_parse_pair(s, i) is Some {
        lemma_parse_pair_pos(s, i);
        let j = (spec_parse_pair(s, i)->0).1;
        lemma_ws_bounds(s, j);
        let j1 = spec_ws(s, j);
        if j1 < s.len() && s[j1] == ',' {
            lemma_ws_bounds(s, j1 + 1);
        }
    }
}

/// A whole line holding one object and nothing else: its fields, in
/// source order. Duplicate keys are taken as written; lookups use the
/// first occurrence.
pub open spec fn spec_parse_object(s: Seq<char>) -> Option<Seq<(Seq<char>, JsonFieldV)>> {
    let i = spec_ws(s, 0);
    if i < s.len() && s[i] == '{' {
        let j = spec_ws(s, i + 1);
        if j < s.len() && s[j] == '}' {
            if spec_ws(s, j + 1) == s.len() {
                Some(Seq::empty())
            } else {
                None
            }
        } else {
            match spec_parse_members(s, j) {
                Some((fields, k)) => if spec_ws(s, k) == s.len() {
                    Some(fields)
                } else {
                    None
                },
                None => None,
            }
        }
    } else {
        None
    }
}

} // verus!

verus! {

/// `is_ws`, executably.
fn is_ws_exec(c: char) -> (r: bool)
    ensures
        r == is_ws(c),
{
    c == ' ' || c == '\t' || c == '\n' || c == '\r'
}

/// `is_digit`, executably.
fn is_digit_exec(c: char) -> (r: bool)
    ensures
        r == is_digit(c),
{
    '0' <= c && c <= '9'
}

/// Skip insignificant whitespace.
fn skip_ws(s: &Vec<char>, i: usize) -> (r: usize)
    requires
        i <= s@.len(),
    ensures
        r as int == spec_ws(s@, i as int),
        i <= r <= s@.len(),
    decreases s@.len() - i,
{
    if i < s.len() && is_ws_exec(s[i]) {
        skip_ws(s, i + 1)
    } else {
        i
    }
}

/// `spec_unescape`, executably.
fn unescape_exec(c: char) -> (r: Option<char>)
    ensures
        r == spec_unescape(c),
{
    if c == '"' {
        Some('"')
    } else if c == '\\' {
        Some('\\')
    } else if c == '/' {
        Some('/')
    } else if c == 'n' {
        Some('\n')
    } else if c == 't' {
        Some('\t')
    } else if c == 'r' {
        Some('\r')
    } else if c == 'b' {
        Some('\u{0008}')
    } else if c == 'f' {
        Some('\u{000C}')
    } else {
        None
    }
}

/// Parse a string body from just after the opening quote.
fn parse_string_body(s: &Vec<char>, i: usize) -> (r: Option<(Vec<char>, usize)>)
    requires
        i <= s@.len(),
    ensures
        match r {
            Some((v, j)) => {
                &&& spec_string_body(s@, i as int) == Some((v@, j as int))
                &&& i < j <= s@.len()
            },
            None => spec_string_body(s@, i as int) is None,
        },
    decreases s@.len() - i,
{
    if i >= s.len() {
        None
    } else if s[i] == '"' {
        let empty: Vec<char> = Vec::new();
        proof {
            assert(empty@ =~= Seq::<char>::empty());
        }
        Some((empty, i + 1))
    } else if s[i] == '\\' {
        if i + 1 < s.len() {
            match unescape_exec(s[i + 1]) {
                Some(c) => match parse_string_body(s, i + 2) {
                    Some((mut rest, j)) => {
                        let ghost restv = rest@;
                        rest.insert(0, c);
                        proof {
                            assert(rest@ =~= seq![c] + restv);
                        }
                        Some((rest, j))
                    },
                    None => None,
                },
                None => None,
            }
        } else {
            None
        }
    } else if (s[i] as u32) < 0x20 {
        None
    } else {
        let c = s[i];
        match parse_string_body(s, i + 1) {
            Some((mut rest, j)) => {
                let ghost restv = rest@;
                rest.insert(0, c);
                proof {
                    assert(rest@ =~= seq![c] + restv);
                }
                Some((rest, j))
            },
            None => None,
        }
    }
}

/// Parse a whole string literal at `i`.
fn parse_string(s: &Vec<char>, i: usize) -> (r: Option<(String, usize)>)
    requires
        i <= s@.len(),
    ensures
        match r {
            Some((v, j)) => {
                &&& spec_parse_string(s@, i as int) == Some((v@, j as int))
                &&& i < j <= s@.len()
            },
            None => spec_parse_string(s@, i as int) is None,
        },
{
    if i < s.len() && s[i] == '"' {
        match parse_string_body(s, i + 1) {
            Some((v, j)) => Some((chars_to_string(&v), j)),
            None => None,
        }
    } else {
        None
    }
}

/// The end of a run of digits.
fn digits_end(s: &Vec<char>, i: usize) -> (r: usize)
    requires
        i <= s@.len(),
    ensures
        r as int == spec_digits_end(s@, i as int),
        i <= r <= s@.len(),
    decreases s@.len() - i,
{
    if i < s.len() && is_digit_exec(s[i]) {
        digits_end(s, i + 1)
    } else {
        i
    }
}

/// Parse a number at `i`, keeping its source text.
fn parse_number(s: &Vec<char>, i: usize) -> (r: Option<(String, usize)>)
    requires
        i <= s@.len(),
    ensures
        match r {
            Some((v, j)) => {
                &&& spec_parse_number(s@, i as int) == Some((v@, j as int))
                &&& i < j <= s@.len()
            },
            None => spec_parse_number(s@, i as int) is None,
        },
{
    let d = if i < s.len() && s[i] == '-' {
        i + 1
    } else {
        i
    };
    if !(d < s.len() && is_digit_exec(s[d])) {
        return None;
    }
    let ie = if s[d] == '0' {
        d + 1
    } else {
        digits_end(s, d)
    };
    proof {
        lemma_digits_end_bounds(s@, d as int);
        if s@[d as int] != '0' {
            lemma_digits_end_bounds(s@, d + 1);
            assert(spec_digits_end(s@, d as int) == spec_digits_end(s@, d + 1));
        }
        assert(spec_int_end(s@, d as int) == Some(ie as int));
        assert(d < ie <= s@.len());
    }
    let fe = if ie < s.len() && s[ie] == '.' {
        if ie + 1 < s.len() && is_digit_exec(s[ie + 1]) {
            digits_end(s, ie + 1)
        } else {
            return None;
        }
    } else {
        ie
    };
    proof {
        assert(spec_frac_end(s@, ie as int) == Some(fe as int));
    }
    let ee = if fe < s.len() && (s[fe] == 'e' || s[fe] == 'E') {
        let j = if fe + 1 < s.len() && (s[fe + 1] == '+' || s[fe + 1] == '-') {
            fe + 2
        } else {
            fe + 1
        };
        if j < s.len() && is_digit_exec(s[j]) {
            digits_end(s, j)
        } else {
            return None;
        }
    } else {
        fe
    };
    proof {
        assert(spec_exp_end(s@, fe as int) == Some(ee as int));
    }
    let raw = crate::strutil::chars_range(s, i, ee);
    Some((chars_to_string(&raw), ee))
}

/// Parse a scalar value at `i`.
fn parse_value(s: &Vec<char>, i: usize) -> (r: Option<(JsonField, usize)>)
    requires
        i <= s@.len(),
    ensures
        match r {
            Some((v, j)) => {
                &&& spec_parse_value(s@, i as int) == Some((v@, j as int))
                &&& i < j <= s@.len()
            },
            None => spec_parse_value(s@, i as int) is None,
        },
{
    if i >= s.len() {
        return None;
    }
    let c = s[i];
    if c == '"' {
        match parse_string(s, i) {
            Some((t, j)) => Some((JsonField::S(t), j)),
            None => None,
        }
    } else if c == '-' || is_digit_exec(c) {
        match parse_number(s, i) {
            Some((t, j)) => Some((JsonField::N(t), j)),
            None => None,
        }
    } else if c == 't' {
        if s.len() - i >= 4 && s[i + 1] == 'r' && s[i + 2] == 'u' && s[i + 3] == 'e' {
            Some((JsonField::B(true), i + 4))
        } else {
            None
        }
    } else if c == 'f' {
        if s.len() - i >= 5 && s[i + 1] == 'a' && s[i + 2] == 'l' && s[i + 3] == 's' && s[i + 4]
            == 'e' {
            Some((JsonField::B(false), i + 5))
        } else {
            None
        }
    } else if c == 'n' {
        if s.len() - i >= 4 && s[i + 1] == 'u' && s[i + 2] == 'l' && s[i + 3] == 'l' {
            Some((JsonField::Null, i + 4))
        } else {
            None
        }
    } else {
        None
    }
}

/// Parse one `"key": value` pair at `i`.
fn parse_pair(s: &Vec<char>, i: usize) -> (r: Option<((String, JsonField), usize)>)
    requires
        i <= s@.len(),
    ensures
        match r {
            Some(((k, v), j)) => {
                &&& spec_parse_pair(s@, i as int) == Some(((k@, v@), j as int))
                &&& i < j <= s@.len()
            },
            None => spec_parse_pair(s@, i as int) is None,
        },
{
    match parse_string(s, i) {
        Some((k, j)) => {
            let j1 = skip_ws(s, j);
            if j1 < s.len() && s[j1] == ':' {
                match parse_value(s, skip_ws(s, j1 + 1)) {
                    Some((v, j2)) => Some(((k, v), j2)),
                    None => None,
                }
            } else {
                None
            }
        },
        None => None,
    }
}

/// Parse the members of an object from the first key at `i`.
fn parse_members(s: &Vec<char>, i: usize) -> (r: Option<(Vec<(String, JsonField)>, usize)>)
    requires
        i <= s@.len(),
    ensures
        match r {
            Some((v, j)) => {
                &&& spec_parse_members(s@, i as int) == Some((pairs_view(v@), j as int))
                &&& i < j <= s@.len()
            },
            None => spec_parse_members(s@, i as int) is None,
        },
    decreases s@.len() - i,
{
    match parse_pair(s, i) {
        Some((p, j)) => {
            let j1 = skip_ws(s, j);
            if j1 < s.len() && s[j1] == ',' {
                let j2 = skip_ws(s, j1 + 1);
                match parse_members(s, j2) {
                    Some((mut rest, k)) => {
                        let ghost restv = rest@;
                        let ghost pv = (p.0@, p.1@);
                        rest.insert(0, p);
                        proof {
                            assert(pairs_view(rest@) =~= seq![pv] + pairs_view(restv));
                        }
                        Some((rest, k))
                    },
                    None => None,
                }
            } else if j1 < s.len() && s[j1] == '}' {
                let ghost pv = (p.0@, p.1@);
                let mut one: Vec<(String, JsonField)> = Vec::new();
                one.push(p);
                proof {
                    assert(pairs_view(one@) =~= seq![pv]);
                }
                Some((one, j1 + 1))
            } else {
                None
            }
        },
        None => None,
    }
}

/// Parse a line holding one object and nothing else, to its fields in
/// source order.
pub fn parse_object_line(line: &str) -> (r: Option<Vec<(String, JsonField)>>)
    ensures
        match r {
            Some(v) => spec_parse_object(line@) == Some(pairs_view(v@)),
            None => spec_parse_object(line@) is None,
        },
{
    let s = crate::strutil::str_to_chars(line);
    let i = skip_ws(&s, 0);
    if i < s.len() && s[i] == '{' {
        let j = skip_ws(&s, i + 1);
        if j < s.len() && s[j] == '}' {
            if skip_ws(&s, j + 1) == s.len() {
                let empty: Vec<(String, JsonField)> = Vec::new();
                proof {
                    assert(pairs_view(empty@) =~= Seq::<(Seq<char>, JsonFieldV)>::empty());
                }
                Some(empty)
            } else {
                None
            }
        } else {
            match parse_members(&s, j) {
                Some((fields, k)) => {
                    if skip_ws(&s, k) == s.len() {
                        Some(fields)
                    } else {
                        None
                    }
                },
                None => None,
            }
        }
    } else {
        None
    }
}

/// The first field carrying `key`, if any.
pub open spec fn spec_lookup(fields: Seq<(Seq<char>, JsonFieldV)>, key: Seq<char>) -> Option<
    JsonFieldV,
>
    decreases fields.len(),
{
    if fields.len() == 0 {
        None
    } else if fields[0].0 == key {
        Some(fields[0].1)
    } else {
        spec_lookup(fields.drop_first(), key)
    }
}

/// A copy of a field value.
fn clone_field(f: &JsonField) -> (r: JsonField)
    ensures
        r@ == f@,
{
    match f {
        JsonField::S(s) => JsonField::S(s.clone()),
        JsonField::N(s) => JsonField::N(s.clone()),
        JsonField::B(b) => JsonField::B(*b),
        JsonField::Null => JsonField::Null,
    }
}

/// Look up the first field carrying `key`.
pub fn lookup(fields: &Vec<(String, JsonField)>, key: &str) -> (r: Option<JsonField>)
    ensures
        match r {
            Some(f) => spec_lookup(pairs_view(fields@), key@) == Some(f@),
            None => spec_lookup(pairs_view(fields@), key@) is None,
        },
{
    let ghost full = pairs_view(fields@);
    proof {
        assert(full.skip(0) =~= full);
    }
    let n = fields.len();
    let mut i: usize = 0;
    while i < n
        invariant
            full == pairs_view(fields@),
            n == fields@.len(),
            i <= n,
            spec_lookup(full, key@) == spec_lookup(full.skip(i as int), key@),
        decreases n - i,
    {
        if crate::strutil::str_eq(fields[i].0.as_str(), key) {
            proof {
                assert(full.skip(i as int)[0] == full[i as int]);
            }
            return Some(clone_field(&fields[i].1));
        }
        proof {
            assert(full.skip(i as int)[0] == full[i as int]);
            assert(full.skip(i as int).drop_first() =~= full.skip(i + 1));
        }
        i = i + 1;
    }
    None
}

} // verus!

verus! {

/// The value of a decimal digit.
pub open spec fn digit_val(c: char) -> int {
    (c as u32) - 48
}

/// The value of a run of digits, most significant first.
pub open spec fn spec_digits_val(d: Seq<char>) -> int
    decreases d.len(),
{
    if d.len() == 0 {
        0
    } else {
        spec_digits_val(d.drop_last()) * 10 + digit_val(d.last())
    }
}

/// Every character is a decimal digit.
pub open spec fn spec_all_digits(d: Seq<char>) -> bool {
    forall|k: int| 0 <= k < d.len() ==> is_digit(#[trigger] d[k])
}

/// An optional minus sign followed by one or more digits.
pub open spec fn spec_is_int_text(t: Seq<char>) -> bool {
    if t.len() > 0 && t[0] == '-' {
        t.len() > 1 && spec_all_digits(t.drop_first())
    } else {
        t.len() > 0 && spec_all_digits(t)
    }
}

/// The integer an integer text denotes.
pub open spec fn spec_int_val(t: Seq<char>) -> int {
    if t.len() > 0 && t[0] == '-' {
        -spec_digits_val(t.drop_first())
    } else {
        spec_digits_val(t)
    }
}

proof fn lemma_digits_val_nonneg(d: Seq<char>)
    requires
        spec_all_digits(d),
    ensures
        spec_digits_val(d) >= 0,
    decreases d.len(),
{
    if d.len() > 0 {
        assert(spec_all_digits(d.drop_last()));
        lemma_digits_val_nonneg(d.drop_last());
        assert(is_digit(d.last()));
    }
}

proof fn lemma_digits_val_prefix(d: Seq<char>, k: int)
    requires
        spec_all_digits(d),
        0 <= k <= d.len(),
    ensures
        spec_digits_val(d.subrange(0, k)) <= spec_digits_val(d),
    decreases d.len(),
{
    if k == d.len() {
        assert(d.subrange(0, k) =~= d);
    } else {
        assert(spec_all_digits(d.drop_last()));
        assert(d.drop_last().subrange(0, k) =~= d.subrange(0, k));
        lemma_digits_val_prefix(d.drop_last(), k);
        lemma_digits_val_nonneg(d.drop_last());
        assert(is_digit(d.last()));
        assert(spec_digits_val(d) >= spec_digits_val(d.drop_last()));
    }
}

/// Parse an integer text into an `i32`: succeeds exactly on integer
/// texts whose value fits.
pub fn parse_i32(t: &str) -> (r: Option<i32>)
    ensures
        match r {
            Some(v) => {
                &&& spec_is_int_text(t@)
                &&& -2147483648 <= spec_int_val(t@) <= 2147483647
                &&& v as int == spec_int_val(t@)
            },
            None => !(spec_is_int_text(t@) && -2147483648 <= spec_int_val(t@) <= 2147483647),
        },
{
    let ch = crate::strutil::str_to_chars(t);
    let n = ch.len();
    let neg = n > 0 && ch[0] == '-';
    let start: usize = if neg {
        1
    } else {
        0
    };
    let ghost d = if neg {
        t@.drop_first()
    } else {
        t@
    };
    if start >= n {
        return None;
    }
    proof {
        assert(d.subrange(0, 0) =~= Seq::<char>::empty());
    }
    let mut acc: i64 = 0;
    let mut k: usize = start;
    while k < n
        invariant
            ch@ == t@,
            n == ch@.len(),
            d == if neg {
                t@.drop_first()
            } else {
                t@
            },
            neg == (n > 0 && t@[0] == '-'),
            start == if neg {
                1int
            } else {
                0int
            },
            start <= k <= n,
            d.len() == n - start,
            spec_all_digits(d.subrange(0, k - start)),
            acc == spec_digits_val(d.subrange(0, k - start)),
            0 <= acc <= 2147483648,
        decreases n - k,
    {
        let c = ch[k];
        proof {
            assert(d[k - start] == t@[k as int]);
        }
        if !is_digit_exec(c) {
            proof {
                if spec_is_int_text(t@) {
                    assert(is_digit(d[k - start]));
                }
            }
            return None;
        }
        acc = acc * 10 + ((c as u32) as i64 - 48);
        proof {
            assert(d.subrange(0, k - start + 1).drop_last() =~= d.subrange(0, k - start));
            assert(d.subrange(0, k - start + 1).last() == d[k - start]);
            assert(spec_all_digits(d.subrange(0, k - start + 1)));
        }
        if acc > 2147483648 {
            proof {
                if spec_is_int_text(t@) {
                    lemma_digits_val_prefix(d, k - start + 1);
                    lemma_digits_val_nonneg(d);
                    assert(spec_digits_val(d) >= acc);
                    if neg {
                        assert(spec_int_val(t@) == -spec_digits_val(d));
                    } else {
                        assert(spec_int_val(t@) == spec_digits_val(d));
                    }
                }
            }
            return None;
        }
        k = k + 1;
    }
    proof {
        assert(d.subrange(0, n - start) =~= d);
        assert(spec_is_int_text(t@));
    }
    if neg {
        if acc == 2147483648 {
            Some(-2147483648i32)
        } else {
            Some(-(acc as i32))
        }
    } else {
        if acc > 2147483647 {
            proof {
                assert(spec_int_val(t@) == spec_digits_val(d));
            }
            None
        } else {
            Some(acc as i32)
        }
    }
}

} // verus!

verus! {

/// How a character is written inside a JSON string literal: the named
/// escapes for the common control characters and the two specials, the
/// `\u00..` form for the rest of the control range, the character
/// itself otherwise.
pub open spec fn spec_escape_char(c: char) -> Seq<char> {
    if c == '"' {
        seq!['\\', '"']
    } else if c == '\\' {
        seq!['\\', '\\']
    } else if c == '\n' {
        seq!['\\', 'n']
    } else if c == '\t' {
        seq!['\\', 't']
    } else if c == '\r' {
        seq!['\\', 'r']
    } else if c == '\u{0008}' {
        seq!['\\', 'b']
    } else if c == '\u{000C}' {
        seq!['\\', 'f']
    } else if (c as u32) < 0x20 {
        seq!['\\', 'u', '0', '0'] + seq![
            crate::fingerprint::hex_digit(((c as u32) >> 4) as int),
            crate::fingerprint::hex_digit(((c as u32) & 0xf) as int),
        ]
    } else {
        seq![c]
    }
}

/// A whole string, escaped for a JSON string literal.
pub open spec fn spec_escape(s: Seq<char>) -> Seq<char>
    decreases s.len(),
{
    if s.len() == 0 {
        Seq::empty()
    } else {
        spec_escape(s.drop_last()) + spec_escape_char(s.last())
    }
}

/// The lower-case hex digit for a nibble, executably.
fn hex_digit_exec(n: u32) -> (c: char)
    requires
        n < 16,
    ensures
        c == crate::fingerprint::hex_digit(n as int),
{
    proof {
        reveal_strlit("0123456789abcdef");
    }
    if n == 0 {
        '0'
    } else if n == 1 {
        '1'
    } else if n == 2 {
        '2'
    } else if n == 3 {
        '3'
    } else if n == 4 {
        '4'
    } else if n == 5 {
        '5'
    } else if n == 6 {
        '6'
    } else if n == 7 {
        '7'
    } else if n == 8 {
        '8'
    } else if n == 9 {
        '9'
    } else if n == 10 {
        'a'
    } else if n == 11 {
        'b'
    } else if n == 12 {
        'c'
    } else if n == 13 {
        'd'
    } else if n == 14 {
        'e'
    } else {
        'f'
    }
}

/// Append one character's JSON escape.
fn push_escaped_char(out: &mut Vec<char>, c: char)
    ensures
        final(out)@ == old(out)@ + spec_escape_char(c),
{
    if c == '"' {
        out.push('\\');
        out.push('"');
    } else if c == '\\' {
        out.push('\\');
        out.push('\\');
    } else if c == '\n' {
        out.push('\\');
        out.push('n');
    } else if c == '\t' {
        out.push('\\');
        out.push('t');
    } else if c == '\r' {
        out.push('\\');
        out.push('r');
    } else if c == '\u{0008}' {
        out.push('\\');
        out.push('b');
    } else if c == '\u{000C}' {
        out.push('\\');
        out.push('f');
    } else if (c as u32) < 0x20 {
        out.push('\\');
        out.push('u');
        out.push('0');
        out.push('0');
        let u: u32 = c as u32;
        proof {
            assert((u >> 4) < 16 && (u & 0xf) < 16) by (bit_vector)
                requires
                    u < 0x20,
            ;
        }
        out.push(hex_digit_exec(u >> 4));
        out.push(hex_digit_exec(u & 0xf));
    } else {
        out.push(c);
    }
    proof {
        assert(final(out)@ =~= old(out)@ + spec_escape_char(c));
    }
}

/// Escape a whole string for a JSON string literal.
pub fn escape_string(s: &str) -> (r: String)
    ensures
        r@ == spec_escape(s@),
{
    let ch = crate::strutil::str_to_chars(s);
    let n = ch.len();
    let mut out: Vec<char> = Vec::new();
    proof {
        assert(ch@.subrange(0, 0) =~= Seq::<char>::empty());
    }
    let mut i: usize = 0;
    while i < n
        invariant
            ch@ == s@,
            n == ch@.len(),
            i <= n,
            out@ == spec_escape(ch@.subrange(0, i as int)),
        decreases n - i,
    {
        push_escaped_char(&mut out, ch[i]);
        proof {
            assert(ch@.subrange(0, i + 1).drop_last() =~= ch@.subrange(0, i as int));
            assert(ch@.subrange(0, i + 1).last() == ch@[i as int]);
        }
        i = i + 1;
    }
    proof {
        assert(ch@.subrange(0, n as int) =~= ch@);
    }
    chars_to_string(&out)
}

} // verus!

verus! {

proof fn lemma_escape_first(s: Seq<char>)
    requires
        s.len() > 0,
    ensures
        spec_escape(s) == spec_escape_char(s[0]) + spec_escape(s.drop_first()),
    decreases s.len(),
{
    if s.len() == 1 {
        assert(s.drop_last().len() == 0);
        assert(s.drop_first().len() == 0);
        assert(s.last() == s[0]);
        assert(spec_escape(s.drop_last()) =~= Seq::<char>::empty());
        assert(spec_escape(s.drop_first()) =~= Seq::<char>::empty());
        assert(spec_escape(s) =~= spec_escape_char(s[0]) + spec_escape(s.drop_first()));
    } else {
        lemma_escape_first(s.drop_last());
        assert(s.drop_last().drop_first() =~= s.drop_first().drop_last());
        assert(s.drop_first().last() == s.last());
        assert(s.drop_last()[0] == s[0]);
        assert(spec_escape(s) =~= spec_escape_char(s[0]) + spec_escape(s.drop_first()));
    }
}

proof fn lemma_parse_escaped(s: Seq<char>, buf: Seq<char>, i: int)
    requires
        0 <= i,
        i + spec_escape(s).len() + 1 <= buf.len(),
        buf.subrange(i, i + spec_escape(s).len() as int) == spec_escape(s),
        buf[i + spec_escape(s).len() as int] == '"',
        forall|k: int| 0 <= k < s.len() ==> (#[trigger] s[k] as u32) >= 0x20,
    ensures
        spec_string_body(buf, i) == Some((s, i + spec_escape(s).len() + 1)),
    decreases s.len(),
{
    let e = spec_escape(s);
    if s.len() == 0 {
        assert(e.len() == 0);
        assert(buf[i] == '"');
        assert(spec_string_body(buf, i) == Some((Seq::<char>::empty(), i + 1)));
        assert(Seq::<char>::empty() =~= s);
    } else {
        let c = s[0];
        let rest = s.drop_first();
        lemma_escape_first(s);
        let ec = spec_escape_char(c);
        let e2 = spec_escape(rest);
        assert((c as u32) >= 0x20);
        assert(forall|k: int| 0 <= k < rest.len() ==> (#[trigger] rest[k] as u32) >= 0x20);
        let i2 = i + ec.len() as int;
        assert(buf.subrange(i2, i2 + e2.len() as int) =~= e2) by {
            assert forall|m: int| 0 <= m < e2.len() implies buf.subrange(
                i2,
                i2 + e2.len() as int,
            )[m] == e2[m] by {
                assert(buf.subrange(i, i + e.len() as int)[ec.len() + m] == e[ec.len() + m]);
            }
        }
        assert(buf[i2 + e2.len() as int] == '"');
        lemma_parse_escaped(rest, buf, i2);
        if c == '"' || c == '\\' {
            assert(ec.len() == 2);
            assert(buf[i] == e[0]);
            assert(buf[i + 1] == e[1]);
            assert(e[0] == '\\');
            assert(spec_unescape(e[1]) == Some(c));
            assert(spec_string_body(buf, i) == Some((seq![c] + rest, i2 + e2.len() + 1)));
        } else {
            assert(ec =~= seq![c]);
            assert(buf[i] == e[0]);
            assert(e[0] == c);
            assert(c != '"' && c != '\\' && (c as u32) >= 0x20);
            assert(spec_string_body(buf, i) == Some((seq![c] + rest, i2 + e2.len() + 1)));
        }
        assert(seq![c] + rest =~= s);
    }
}

/// The escaper and the parser agree: any text free of control
/// characters, written out as a JSON string literal, is read back
/// verbatim. (A control character is written in the `\u00..` form,
/// which the line parser deliberately leaves outside its grammar.)
pub proof fn lemma_escape_roundtrip(s: Seq<char>)
    requires
        forall|k: int| 0 <= k < s.len() ==> (#[trigger] s[k] as u32) >= 0x20,
    ensures
        ({
            let lit = seq!['"'] + spec_escape(s) + seq!['"'];
            spec_parse_string(lit, 0) == Some((s, lit.len() as int))
        }),
{
    let e = spec_escape(s);
    let lit = seq!['"'] + e + seq!['"'];
    assert(lit[0] == '"');
    assert(lit.subrange(1, 1 + e.len() as int) =~= e);
    assert(lit[1 + e.len() as int] == '"');
    lemma_parse_escaped(s, lit, 1);
}

} // verus!
