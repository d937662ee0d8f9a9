use vstd::prelude::*;
use crate::json::{arr_view, lemma_arr_view_push, lemma_obj_view_push, obj_view, Json, JsonV};
use crate::text::{char_from_u32, chars_to_string, str_chars};

verus! {

// The functions `sp_*` below define, as one deterministic mathematical
// function, which character sequences are well-formed JSON and what value
// each one denotes. They are the reference that the executable parser is
// proved against. Recursion is bounded by an explicit fuel; one unit is
// spent per container the parser descends into and per element it passes,
// and every such step stands at least one character further into the
// input, so the fuel the whole-text parse runs with (the input length
// plus two) outlasts any well-formed input.

/// JSON insignificant whitespace.
pub open spec fn is_ws(c: char) -> bool {
    c == ' ' || c == '\t' || c == '\n' || c == '\r'
}

/// A decimal digit.
pub open spec fn is_digit(c: char) -> bool {
    '0' <= c && c <= '9'
}

/// The first position at or after `i` holding no whitespace.
pub open spec fn sp_ws(s: Seq<char>, i: int) -> int
    decreases s.len() - i,
{
    if 0 <= i && i < s.len() && is_ws(s[i]) {
        sp_ws(s, i + 1)
    } else {
        i
    }
}

/// The value of a hexadecimal digit, or a negative number for any other
/// character.
pub open spec fn hex_val(c: char) -> int {
    if '0' <= c && c <= '9' {
        c as int - '0' as int
    } else if 'a' <= c && c <= 'f' {
        c as int - 'a' as int + 10
    } else if 'A' <= c && c <= 'F' {
        c as int - 'A' as int + 10
    } else {
        -1
    }
}

/// Four hexadecimal digits starting at `i`, as one number.
pub open spec fn sp_hex4(s: Seq<char>, i: int) -> Option<int> {
    if 0 <= i && i + 4 <= s.len() && hex_val(s[i]) >= 0 && hex_val(s[i + 1]) >= 0 && hex_val(
        s[i + 2],
    ) >= 0 && hex_val(s[i + 3]) >= 0 {
        Some(hex_val(s[i]) * 4096 + hex_val(s[i + 1]) * 256 + hex_val(s[i + 2]) * 16 + hex_val(
            s[i + 3],
        ))
    } else {
        None
    }
}

/// Whether a `\u` escape introducer stands at `i`.
pub open spec fn sp_is_u_escape(s: Seq<char>, i: int) -> bool {
    0 <= i && i + 2 <= s.len() && s[i] == '\\' && s[i + 1] == 'u'
}

/// The scalar value named by a surrogate pair.
pub open spec fn surrogate_scalar(h: int, l: int) -> int {
    0x10000 + (h - 0xD800) * 0x400 + (l - 0xDC00)
}

/// The content of a JSON string whose opening quote stands just before
/// `i`, together with the position after the closing quote: characters
/// stand for themselves, the short escapes and `\u` escapes (with
/// surrogate pairs) are decoded, and an unterminated string, an unknown
/// escape, a lone surrogate or a raw control character is refused.
pub open spec fn sp_string_body(s: Seq<char>, i: int, acc: Seq<char>) -> Option<(Seq<char>, int)>
    decreases s.len() - i,
{
    if i < 0 || i >= s.len() {
        None
    } else {
        let c = s[i];
        if c == '"' {
            Some((acc, i + 1))
        } else if c == '\\' {
            if i + 1 >= s.len() {
                None
            } else {
                let e = s[i + 1];
                if e == '"' {
                    sp_string_body(s, i + 2, acc.push('"'))
                } else if e == '\\' {
                    sp_string_body(s, i + 2, acc.push('\\'))
                } else if e == '/' {
                    sp_string_body(s, i + 2, acc.push('/'))
                } else if e == 'b' {
                    sp_string_body(s, i + 2, acc.push('\u{8}'))
                } else if e == 'f' {
                    sp_string_body(s, i + 2, acc.push('\u{c}'))
                } else if e == 'n' {
                    sp_string_body(s, i + 2, acc.push('\n'))
                } else if e == 'r' {
                    sp_string_body(s, i + 2, acc.push('\r'))
                } else if e == 't' {
                    sp_string_body(s, i + 2, acc.push('\t'))
                } else if e == 'u' {
                    match sp_hex4(s, i + 2) {
                        None => None,
                        Some(h) => {
                            if 0xD800 <= h && h <= 0xDBFF {
                                if sp_is_u_escape(s, i + 6) {
                                    match sp_hex4(s, i + 8) {
                                        None => None,
                                        Some(l) => {
                                            if 0xDC00 <= l && l <= 0xDFFF {
                                                sp_string_body(
                                                    s,
                                                    i + 12,
                                                    acc.push(
                                                        ((surrogate_scalar(h, l) as u32) as char),
                                                    ),
                                                )
                                            } else {
                                                None
                                            }
                                        },
                                    }
                                } else {
                                    None
                                }
                            } else if 0xDC00 <= h && h <= 0xDFFF {
                                None
                            } else {
                                sp_string_body(s, i + 6, acc.push(((h as u32) as char)))
                            }
                        },
                    }
                } else {
                    None
                }
            }
        } else if (c as u32) < 0x20 {
            None
        } else {
            sp_string_body(s, i + 1, acc.push(c))
        }
    }
}

/// The end of the run of digits starting at `i`.
pub open spec fn sp_digits(s: Seq<char>, i: int) -> int
    decreases s.len() - i,
{
    if 0 <= i && i < s.len() && is_digit(s[i]) {
        sp_digits(s, i + 1)
    } else {
        i
    }
}

/// The end of an optional fraction part starting at `k`.
pub open spec fn sp_frac_end(s: Seq<char>, k: int) -> Option<int> {
    if 0 <= k && k < s.len() && s[k] == '.' {
        if k + 1 < s.len() && is_digit(s[k + 1]) {
            Some(sp_digits(s, k + 1))
        } else {
            None
        }
    } else {
        Some(k)
    }
}

/// The end of an optional exponent part starting at `k`.
pub open spec fn sp_exp_end(s: Seq<char>, k: int) -> Option<int> {
    if 0 <= k && k < s.len() && (s[k] == 'e' || s[k] == 'E') {
        let m = if k + 2 <= s.len() && (s[k + 1] == '+' || s[k + 1] == '-') {
            k + 2
        } else {
            k + 1
        };
        if m < s.len() && is_digit(s[m]) {
            Some(sp_digits(s, m))
        } else {
            None
        }
    } else {
        Some(k)
    }
}

/// The end of a JSON number starting at `i`: an optional minus sign, an
/// integer part with no superfluous leading zero, an optional fraction
/// and an optional exponent.
pub open spec fn sp_number_end(s: Seq<char>, i: int) -> Option<int> {
    let j = if 0 <= i && i < s.len() && s[i] == '-' {
        i + 1
    } else {
        i
    };
    if 0 <= j && j < s.len() && is_digit(s[j]) {
        let k = if s[j] == '0' {
            j + 1
        } else {
            sp_digits(s, j)
        };
        match sp_frac_end(s, k) {
            None => None,
            Some(k2) => sp_exp_end(s, k2),
        }
    } else {
        None
    }
}

/// Whether the word `w` stands at position `i` of `s`.
pub open spec fn sp_matches_at(s: Seq<char>, i: int, w: Seq<char>) -> bool {
    0 <= i && i + w.len() <= s.len() && s.subrange(i, i + w.len()) == w
}

/// The JSON value starting at `i`, with the position just after it.
pub open spec fn sp_value(s: Seq<char>, i: int, fuel: nat) -> Option<(JsonV, int)>
    decreases fuel, 0int,
{
    if fuel == 0 {
        None
    } else if i < 0 || i >= s.len() {
        None
    } else {
        let c = s[i];
        if c == 'n' {
            if sp_matches_at(s, i, "null"@) {
                Some((JsonV::Null, i + 4))
            } else {
                None
            }
        } else if c == 't' {
            if sp_matches_at(s, i, "true"@) {
                Some((JsonV::Bool(true), i + 4))
            } else {
                None
            }
        } else if c == 'f' {
            if sp_matches_at(s, i, "false"@) {
                Some((JsonV::Bool(false), i + 5))
            } else {
                None
            }
        } else if c == '"' {
            match sp_string_body(s, i + 1, Seq::empty()) {
                Some(p) => Some((JsonV::Str(p.0), p.1)),
                None => None,
            }
        } else if c == '[' {
            let j = sp_ws(s, i + 1);
            if j < s.len() && s[j] == ']' {
                Some((JsonV::Arr(Seq::empty()), j + 1))
            } else {
                match sp_elements(s, j, Seq::empty(), (fuel - 1) as nat) {
                    Some(p) => Some((JsonV::Arr(p.0), p.1)),
                    None => None,
                }
            }
        } else if c == '{' {
            let j = sp_ws(s, i + 1);
            if j < s.len() && s[j] == '}' {
                Some((JsonV::Obj(Seq::empty()), j + 1))
            } else {
                match sp_members(s, j, Seq::empty(), (fuel - 1) as nat) {
                    Some(p) => Some((JsonV::Obj(p.0), p.1)),
                    None => None,
                }
            }
        } else if c == '-' || is_digit(c) {
            match sp_number_end(s, i) {
                Some(j) => Some((JsonV::Num(s.subrange(i, j)), j)),
                None => None,
            }
        } else {
            None
        }
    }
}

/// The elements of an array from the first element at `i` to the closing
/// bracket, appended to `acc`.
pub open spec fn sp_elements(s: Seq<char>, i: int, acc: Seq<JsonV>, fuel: nat) -> Option<
    (Seq<JsonV>, int),
>
    decreases fuel, 1int,
{
    match sp_value(s, i, fuel) {
        None => None,
        Some((v, j)) => {
            let k = sp_ws(s, j);
            if 0 <= k && k < s.len() && s[k] == ',' {
                if fuel == 0 {
                    None
                } else {
                    sp_elements(s, sp_ws(s, k + 1), acc.push(v), (fuel - 1) as nat)
                }
            } else if 0 <= k && k < s.len() && s[k] == ']' {
                Some((acc.push(v), k + 1))
            } else {
                None
            }
        },
    }
}

/// The members of an object from the first key at `i` to the closing
/// brace, appended to `acc`.
pub open spec fn sp_members(
    s: Seq<char>,
    i: int,
    acc: Seq<(Seq<char>, JsonV)>,
    fuel: nat,
) -> Option<(Seq<(Seq<char>, JsonV)>, int)>
    decreases fuel, 1int,
{
    if !(0 <= i && i < s.len() && s[i] == '"') {
        None
    } else {
        match sp_string_body(s, i + 1, Seq::empty()) {
            None => None,
            Some((key, j)) => {
                let k = sp_ws(s, j);
                if !(0 <= k && k < s.len() && s[k] == ':') {
                    None
                } else {
                    match sp_value(s, sp_ws(s, k + 1), fuel) {
                        None => None,
                        Some((v, m)) => {
                            let n = sp_ws(s, m);
                            if 0 <= n && n < s.len() && s[n] == ',' {
                                if fuel == 0 {
                                    None
                                } else {
                                    sp_members(
                                        s,
                                        sp_ws(s, n + 1),
                                        acc.push((key, v)),
                                        (fuel - 1) as nat,
                                    )
                                }
                            } else if 0 <= n && n < s.len() && s[n] == '}' {
                                Some((acc.push((key, v)), n + 1))
                            } else {
                                None
                            }
                        },
                    }
                }
            },
        }
    }
}

/// The fuel that the whole-text parse runs with: the input length plus
/// two, capped at the machine word, which no input that fits in memory
/// reaches.
pub open spec fn parse_fuel(s: Seq<char>) -> nat {
    if s.len() + 2 <= usize::MAX {
        (s.len() + 2) as nat
    } else {
        usize::MAX as nat
    }
}

/// The JSON value denoted by the whole text, if the text is one
/// well-formed JSON value surrounded by nothing but whitespace.
pub open spec fn sp_parse_text(s: Seq<char>) -> Option<JsonV> {
    let i = sp_ws(s, 0);
    match sp_value(s, i, parse_fuel(s)) {
        None => None,
        Some((v, j)) => {
            if sp_ws(s, j) == s.len() {
                Some(v)
            } else {
                None
            }
        },
    }
}

// ---- the executable parser, proved equal to the functions above ----

/// How an executable parse outcome corresponds to the mathematical one.
pub open spec fn val_rel(r: Option<(Json, usize)>, sr: Option<(JsonV, int)>) -> bool {
    match r {
        Some(p) => sr == Some((p.0@, p.1 as int)),
        None => sr is None,
    }
}

/// Whether `c` is JSON whitespace.
fn is_ws_exec(c: char) -> (r: bool)
    ensures
        r == is_ws(c),
{
    c == ' ' || c == '\t' || c == '\n' || c == '\r'
}

/// Whether `c` is a decimal digit.
fn is_digit_exec(c: char) -> (r: bool)
    ensures
        r == is_digit(c),
{
    '0' <= c && c <= '9'
}

/// Skips whitespace from `i`.
fn ws(s: &Vec<char>, i: usize) -> (r: usize)
    requires
        i <= s@.len(),
    ensures
        r as int == sp_ws(s@, i as int),
        i <= r <= s@.len(),
{
    let mut j = i;
    while j < s.len() && is_ws_exec(s[j])
        invariant
            i <= j <= s@.len(),
            sp_ws(s@, i as int) == sp_ws(s@, j as int),
        decreases s@.len() - j,
    {
        proof {
            assert(sp_ws(s@, j as int) == sp_ws(s@, j + 1 as int));
        }
        j = j + 1;
    }
    j
}

/// Skips the run of digits from `i`.
fn digits_end(s: &Vec<char>, i: usize) -> (r: usize)
    requires
        i <= s@.len(),
    ensures
        r as int == sp_digits(s@, i as int),
        i <= r <= s@.len(),
{
    let mut j = i;
    while j < s.len() && is_digit_exec(s[j])
        invariant
            i <= j <= s@.len(),
            sp_digits(s@, i as int) == sp_digits(s@, j as int),
        decreases s@.len() - j,
    {
        proof {
            assert(sp_digits(s@, j as int) == sp_digits(s@, j + 1 as int));
        }
        j = j + 1;
    }
    j
}

/// The value of a hexadecimal digit character.
fn hex_val_exec(c: char) -> (r: Option<u32>)
    ensures
        (match r {
            Some(v) => hex_val(c) == v as int && v < 16,
            None => hex_val(c) < 0,
        }),
{
    if '0' <= c && c <= '9' {
        Some(c as u32 - '0' as u32)
    } else if 'a' <= c && c <= 'f' {
        Some(c as u32 - 'a' as u32 + 10)
    } else if 'A' <= c && c <= 'F' {
        Some(c as u32 - 'A' as u32 + 10)
    } else {
        None
    }
}

/// Reads four hexadecimal digits at `i`.
fn hex4(s: &Vec<char>, i: usize) -> (r: Option<u32>)
    requires
        i <= s@.len(),
    ensures
        (match r {
            Some(h) => sp_hex4(s@, i as int) == Some(h as int) && h <= 0xFFFF,
            None => sp_hex4(s@, i as int) is None,
        }),
{
    if s.len() - i < 4 {
        return None;
    }
    let h0 = hex_val_exec(s[i]);
    let h1 = hex_val_exec(s[i + 1]);
    let h2 = hex_val_exec(s[i + 2]);
    let h3 = hex_val_exec(s[i + 3]);
    match (h0, h1, h2, h3) {
        (Some(a), Some(b), Some(c), Some(d)) => Some(a * 4096 + b * 256 + c * 16 + d),
        _ => None,
    }
}

/// Finds the end of a number starting at `i`.
fn number_end(s: &Vec<char>, i: usize) -> (r: Option<usize>)
    requires
        i <= s@.len(),
    ensures
        (match r {
            Some(j) => sp_number_end(s@, i as int) == Some(j as int) && i <= j <= s@.len(),
            None => sp_number_end(s@, i as int) is None,
        }),
{
    let j = if i < s.len() && s[i] == '-' {
        i + 1
    } else {
        i
    };
    if !(j < s.len() && is_digit_exec(s[j])) {
        return None;
    }
    let k = if s[j] == '0' {
        j + 1
    } else {
        digits_end(s, j)
    };
    let k2 = if k < s.len() && s[k] == '.' {
        if s.len() - k >= 2 && is_digit_exec(s[k + 1]) {
            digits_end(s, k + 1)
        } else {
            return None;
        }
    } else {
        k
    };
    proof {
        assert(sp_frac_end(s@, k as int) == Some(k2 as int));
    }
    if k2 < s.len() && (s[k2] == 'e' || s[k2] == 'E') {
        let m = if s.len() - k2 >= 2 && (s[k2 + 1] == '+' || s[k2 + 1] == '-') {
            k2 + 2
        } else {
            k2 + 1
        };
        if m < s.len() && is_digit_exec(s[m]) {
            let e = digits_end(s, m);
            proof {
                assert(sp_exp_end(s@, k2 as int) == Some(e as int));
            }
            Some(e)
        } else {
            None
        }
    } else {
        Some(k2)
    }
}

/// Decodes a string body whose opening quote stands just before `start`.
fn string_body(s: &Vec<char>, start: usize) -> (r: Option<(Vec<char>, usize)>)
    requires
        start <= s@.len(),
    ensures
        (match r {
            Some(p) => sp_string_body(s@, start as int, Seq::empty()) == Some((p.0@, p.1 as int))
                && p.1 <= s@.len(),
            None => sp_string_body(s@, start as int, Seq::empty()) is None,
        }),
{
    let mut i = start;
    let mut acc: Vec<char> = Vec::new();
    loop
        invariant
            i <= s@.len(),
            sp_string_body(s@, start as int, Seq::empty()) == sp_string_body(s@, i as int, acc@),
        decreases s@.len() - i,
    {
        if i >= s.len() {
            return None;
        }
        let c = s[i];
        if c == '"' {
            return Some((acc, i + 1));
        } else if c == '\\' {
            if i + 1 >= s.len() {
                return None;
            }
            let e = s[i + 1];
            let ghost i0 = i as int;
            let ghost acc0 = acc@;
            if e == '"' {
                acc.push('"');
                i = i + 2;
            } else if e == '\\' {
                acc.push('\\');
                i = i + 2;
            } else if e == '/' {
                acc.push('/');
                i = i + 2;
            } else if e == 'b' {
                acc.push('\u{8}');
                i = i + 2;
            } else if e == 'f' {
                acc.push('\u{c}');
                i = i + 2;
            } else if e == 'n' {
                acc.push('\n');
                i = i + 2;
            } else if e == 'r' {
                acc.push('\r');
                i = i + 2;
            } else if e == 't' {
                acc.push('\t');
                i = i + 2;
            } else if e == 'u' {
                match hex4(s, i + 2) {
                    None => {
                        return None;
                    },
                    Some(h) => {
                        if 0xD800 <= h && h <= 0xDBFF {
                            if !(s.len() - (i + 6) >= 2 && s[i + 6] == '\\' && s[i + 7] == 'u') {
                                return None;
                            }
                            match hex4(s, i + 8) {
                                None => {
                                    return None;
                                },
                                Some(l) => {
                                    if 0xDC00 <= l && l <= 0xDFFF {
                                        let code = 0x10000 + (h - 0xD800) * 0x400 + (l - 0xDC00);
                                        proof {
                                            assert(code as int == surrogate_scalar(
                                                h as int,
                                                l as int,
                                            ));
                                        }
                                        match char_from_u32(code) {
                                            Some(ch) => {
                                                acc.push(ch);
                                                i = i + 12;
                                            },
                                            None => {
                                                proof {
                                                    assert(false);
                                                }
                                                return None;
                                            },
                                        }
                                    } else {
                                        return None;
                                    }
                                },
                            }
                        } else if 0xDC00 <= h && h <= 0xDFFF {
                            return None;
                        } else {
                            match char_from_u32(h) {
                                Some(ch) => {
                                    acc.push(ch);
                                    i = i + 6;
                                },
                                None => {
                                    proof {
                                        assert(false);
                                    }
                                    return None;
                                },
                            }
                        }
                    },
                }
            } else {
                return None;
            }
            proof {
                assert(sp_string_body(s@, start as int, Seq::empty()) == sp_string_body(
                    s@,
                    i as int,
                    acc@,
                ));
            }
        } else if (c as u32) < 0x20 {
            return None;
        } else {
            acc.push(c);
            i = i + 1;
        }
    }
}

/// Copies `s[i..j]` into a fresh vector.
fn slice_chars(s: &Vec<char>, i: usize, j: usize) -> (r: Vec<char>)
    requires
        i <= j && j <= s@.len(),
    ensures
        r@ == s@.subrange(i as int, j as int),
{
    let mut r: Vec<char> = Vec::new();
    let mut k = i;
    while k < j
        invariant
            i <= k <= j <= s@.len(),
            r@ == s@.subrange(i as int, k as int),
        decreases j - k,
    {
        r.push(s[k]);
        proof {
            assert(s@.subrange(i as int, k + 1 as int) =~= s@.subrange(i as int, k as int).push(
                s@[k as int],
            ));
        }
        k = k + 1;
    }
    r
}

/// Parses one JSON value starting at `i`.
fn parse_value_at(s: &Vec<char>, i: usize, fuel: usize) -> (r: Option<(Json, usize)>)
    requires
        i <= s@.len(),
    ensures
        val_rel(r, sp_value(s@, i as int, fuel as nat)),
        r matches Some(p) ==> p.1 <= s@.len(),
    decreases fuel, 0int,
{
    if fuel == 0 {
        return None;
    }
    if i >= s.len() {
        return None;
    }
    let c = s[i];
    if c == 'n' {
        let ok = s.len() - i >= 4 && s[i + 1] == 'u' && s[i + 2] == 'l' && s[i + 3] == 'l';
        proof {
            reveal_strlit("null");
            if ok {
                assert(s@.subrange(i as int, i as int + 4) =~= "null"@);
            } else if sp_matches_at(s@, i as int, "null"@) {
                assert(s@.subrange(i as int, i as int + 4)[1] == s@[i as int + 1]);
                assert(s@.subrange(i as int, i as int + 4)[2] == s@[i as int + 2]);
                assert(s@.subrange(i as int, i as int + 4)[3] == s@[i as int + 3]);
                assert(false);
            }
        }
        if ok {
            Some((Json::Null, i + 4))
        } else {
            None
        }
    } else if c == 't' {
        let ok = s.len() - i >= 4 && s[i + 1] == 'r' && s[i + 2] == 'u' && s[i + 3] == 'e';
        proof {
            reveal_strlit("true");
            if ok {
                assert(s@.subrange(i as int, i as int + 4) =~= "true"@);
            } else if sp_matches_at(s@, i as int, "true"@) {
                assert(s@.subrange(i as int, i as int + 4)[1] == s@[i as int + 1]);
                assert(s@.subrange(i as int, i as int + 4)[2] == s@[i as int + 2]);
                assert(s@.subrange(i as int, i as int + 4)[3] == s@[i as int + 3]);
                assert(false);
            }
        }
        if ok {
            Some((Json::Bool(true), i + 4))
        } else {
            None
        }
    } else if c == 'f' {
        let ok = s.len() - i >= 5 && s[i + 1] == 'a' && s[i + 2] == 'l' && s[i + 3] == 's' && s[i
            + 4] == 'e';
        proof {
            reveal_strlit("false");
            if ok {
                assert(s@.subrange(i as int, i as int + 5) =~= "false"@);
            } else if sp_matches_at(s@, i as int, "false"@) {
                assert(s@.subrange(i as int, i as int + 5)[1] == s@[i as int + 1]);
                assert(s@.subrange(i as int, i as int + 5)[2] == s@[i as int + 2]);
                assert(s@.subrange(i as int, i as int + 5)[3] == s@[i as int + 3]);
                assert(s@.subrange(i as int, i as int + 5)[4] == s@[i as int + 4]);
                assert(false);
            }
        }
        if ok {
            Some((Json::Bool(false), i + 5))
        } else {
            None
        }
    } else if c == '"' {
        match string_body(s, i + 1) {
            Some(p) => Some((Json::Str(chars_to_string(&p.0)), p.1)),
            None => None,
        }
    } else if c == '[' {
        let j = ws(s, i + 1);
        if j < s.len() && s[j] == ']' {
            proof {
                assert(arr_view(Seq::<Json>::empty()) =~= Seq::<JsonV>::empty());
            }
            Some((Json::Arr(Vec::new()), j + 1))
        } else {
            match parse_elements_at(s, j, fuel - 1) {
                Some(p) => Some((Json::Arr(p.0), p.1)),
                None => None,
            }
        }
    } else if c == '{' {
        let j = ws(s, i + 1);
        if j < s.len() && s[j] == '}' {
            proof {
                assert(obj_view(Seq::<(String, Json)>::empty()) =~= Seq::<
                    (Seq<char>, JsonV),
                >::empty());
            }
            Some((Json::Obj(Vec::new()), j + 1))
        } else {
            match parse_members_at(s, j, fuel - 1) {
                Some(p) => Some((Json::Obj(p.0), p.1)),
                None => None,
            }
        }
    } else if c == '-' || is_digit_exec(c) {
        match number_end(s, i) {
            Some(j) => {
                let lex = slice_chars(s, i, j);
                Some((Json::Num(chars_to_string(&lex)), j))
            },
            None => None,
        }
    } else {
        None
    }
}

/// Parses the elements of an array from the first element at `i`.
fn parse_elements_at(s: &Vec<char>, i: usize, fuel: usize) -> (r: Option<(Vec<Json>, usize)>)
    requires
        i <= s@.len(),
    ensures
        (match r {
            Some(p) => sp_elements(s@, i as int, Seq::empty(), fuel as nat) == Some(
                (arr_view(p.0@), p.1 as int),
            ) && p.1 <= s@.len(),
            None => sp_elements(s@, i as int, Seq::empty(), fuel as nat) is None,
        }),
    decreases fuel, 1int,
{
    let mut pos = i;
    let mut cur_fuel = fuel;
    let mut acc: Vec<Json> = Vec::new();
    proof {
        assert(arr_view(Seq::<Json>::empty()) =~= Seq::<JsonV>::empty());
    }
    loop
        invariant
            pos <= s@.len(),
            cur_fuel <= fuel,
            sp_elements(s@, i as int, Seq::empty(), fuel as nat) == sp_elements(
                s@,
                pos as int,
                arr_view(acc@),
                cur_fuel as nat,
            ),
        decreases cur_fuel,
    {
        let ghost pos0 = pos as int;
        let ghost fuel0 = cur_fuel as nat;
        let ghost accv0 = arr_view(acc@);
        match parse_value_at(s, pos, cur_fuel) {
            None => {
                return None;
            },
            Some(p) => {
                let ghost vv = p.0@;
                let j = p.1;
                let k = ws(s, j);
                if k < s.len() && s[k] == ',' {
                    proof {
                        if cur_fuel == 0 {
                            assert(sp_value(s@, pos0, 0nat) is None);
                            assert(false);
                        }
                        lemma_arr_view_push(acc@, p.0);
                    }
                    acc.push(p.0);
                    pos = ws(s, k + 1);
                    cur_fuel = cur_fuel - 1;
                    proof {
                        assert(sp_elements(s@, pos0, accv0, fuel0) == sp_elements(
                            s@,
                            pos as int,
                            arr_view(acc@),
                            cur_fuel as nat,
                        ));
                    }
                } else if k < s.len() && s[k] == ']' {
                    proof {
                        lemma_arr_view_push(acc@, p.0);
                    }
                    acc.push(p.0);
                    return Some((acc, k + 1));
                } else {
                    return None;
                }
            },
        }
    }
}

/// Parses the members of an object from the first key at `i`.
fn parse_members_at(s: &Vec<char>, i: usize, fuel: usize) -> (r: Option<
    (Vec<(String, Json)>, usize),
>)
    requires
        i <= s@.len(),
    ensures
        (match r {
            Some(p) => sp_members(s@, i as int, Seq::empty(), fuel as nat) == Some(
                (obj_view(p.0@), p.1 as int),
            ) && p.1 <= s@.len(),
            None => sp_members(s@, i as int, Seq::empty(), fuel as nat) is None,
        }),
    decreases fuel, 1int,
{
    let mut pos = i;
    let mut cur_fuel = fuel;
    let mut acc: Vec<(String, Json)> = Vec::new();
    proof {
        assert(obj_view(Seq::<(String, Json)>::empty()) =~= Seq::<(Seq<char>, JsonV)>::empty());
    }
    loop
        invariant
            pos <= s@.len(),
            cur_fuel <= fuel,
            sp_members(s@, i as int, Seq::empty(), fuel as nat) == sp_members(
                s@,
                pos as int,
                obj_view(acc@),
                cur_fuel as nat,
            ),
        decreases cur_fuel,
    {
        let ghost pos0 = pos as int;
        let ghost fuel0 = cur_fuel as nat;
        let ghost accv0 = obj_view(acc@);
        if !(pos < s.len() && s[pos] == '"') {
            return None;
        }
        match string_body(s, pos + 1) {
            None => {
                return None;
            },
            Some(kp) => {
                let key = chars_to_string(&kp.0);
                let k = ws(s, kp.1);
                if !(k < s.len() && s[k] == ':') {
                    return None;
                }
                let vstart = ws(s, k + 1);
                match parse_value_at(s, vstart, cur_fuel) {
                    None => {
                        return None;
                    },
                    Some(p) => {
                        let n = ws(s, p.1);
                        if n < s.len() && s[n] == ',' {
                            proof {
                                if cur_fuel == 0 {
                                    assert(sp_value(s@, vstart as int, 0nat) is None);
                                    assert(false);
                                }
                                lemma_obj_view_push(acc@, (key, p.0));
                            }
                            acc.push((key, p.0));
                            pos = ws(s, n + 1);
                            cur_fuel = cur_fuel - 1;
                            proof {
                                assert(sp_members(s@, pos0, accv0, fuel0) == sp_members(
                                    s@,
                                    pos as int,
                                    obj_view(acc@),
                                    cur_fuel as nat,
                                ));
                            }
                        } else if n < s.len() && s[n] == '}' {
                            proof {
                                lemma_obj_view_push(acc@, (key, p.0));
                            }
                            acc.push((key, p.0));
                            return Some((acc, n + 1));
                        } else {
                            return None;
                        }
                    },
                }
            },
        }
    }
}

/// Parses a whole text as one JSON value: `Some` exactly on the texts that
/// are one well-formed JSON value surrounded by nothing but whitespace,
/// and then the denoted value.
pub fn parse_json_text(body: &str) -> (r: Option<Json>)
    ensures
        (match r {
            Some(v) => sp_parse_text(body@) == Some(v@),
            None => sp_parse_text(body@) is None,
        }),
{
    let chars = str_chars(body);
    let fuel = if chars.len() <= usize::MAX - 2 {
        chars.len() + 2
    } else {
        usize::MAX
    };
    proof {
        assert(fuel as nat == parse_fuel(body@));
    }
    let i = ws(&chars, 0);
    match parse_value_at(&chars, i, fuel) {
        None => None,
        Some(p) => {
            let end = ws(&chars, p.1);
            if end == chars.len() {
                Some(p.0)
            } else {
                None
            }
        },
    }
}

} // verus!
