//! Well-formedness of the caller-supplied attribute payload: a JSON object
//! mapping names to strings, numbers, booleans or nested objects, with
//! whitespace permitted between tokens inside the object.

use vstd::prelude::*;

use crate::codec::{
    parse_quoted, spec_digit_val, spec_eat_lit, spec_parse_quoted, str_to_chars, eat_lit,
};

verus! {

/// The end of the maximal run of decimal digits starting at `i`.
pub open spec fn spec_digit_run_end(s: Seq<char>, i: int) -> int
    decreases s.len() - i,
    when 0 <= i <= s.len()
{
    if i < s.len() && spec_digit_val(s[i]) is Some {
        spec_digit_run_end(s, i + 1)
    } else {
        i
    }
}

/// Skips a JSON number at `i`: an optional minus sign, an integer part, an
/// optional fraction, and an optional exponent.
pub open spec fn spec_skip_number(s: Seq<char>, i: int) -> Option<int> {
    if 0 <= i <= s.len() {
        let j = if i < s.len() && s[i] == '-' {
            i + 1
        } else {
            i
        };
        if j < s.len() && spec_digit_val(s[j]) is Some {
            let k = spec_digit_run_end(s, j);
            let k2 = if k < s.len() && s[k] == '.' && k + 1 < s.len() && spec_digit_val(
                s[k + 1],
            ) is Some {
                spec_digit_run_end(s, k + 1)
            } else {
                k
            };
            if k2 < s.len() && (s[k2] == 'e' || s[k2] == 'E') {
                let m = if k2 + 1 < s.len() && (s[k2 + 1] == '+' || s[k2 + 1] == '-') {
                    k2 + 2
                } else {
                    k2 + 1
                };
                if m < s.len() && spec_digit_val(s[m]) is Some {
                    Some(spec_digit_run_end(s, m))
                } else {
                    None
                }
            } else {
                Some(k2)
            }
        } else {
            None
        }
    } else {
        None
    }
}

/// Skips one attribute value at `i`: a string, `true`, `false`, a nested
/// object, or a number.  Whitespace around a value belongs to the member
/// that holds it.
pub open spec fn spec_skip_value(s: Seq<char>, i: int) -> Option<int>
    decreases s.len() - i, 1int,
    when 0 <= i <= s.len()
{
    if i >= s.len() {
        None
    } else if s[i] == '"' {
        match spec_parse_quoted(s, i) {
            Some((x, j)) => Some(j),
            None => None,
        }
    } else if s[i] == 't' {
        spec_eat_lit(s, i, "true"@)
    } else if s[i] == 'f' {
        spec_eat_lit(s, i, "false"@)
    } else if s[i] == '{' {
        spec_skip_object(s, i)
    } else {
        spec_skip_number(s, i)
    }
}

/// JSON whitespace.
pub open spec fn spec_is_ws(c: char) -> bool {
    c == ' ' || c == '\t' || c == '\n' || c == '\r'
}

/// The end of the maximal run of whitespace starting at `i`.
pub open spec fn spec_ws_end(s: Seq<char>, i: int) -> int
    decreases s.len() - i,
    when 0 <= i <= s.len()
{
    if i < s.len() && spec_is_ws(s[i]) {
        spec_ws_end(s, i + 1)
    } else {
        i
    }
}

/// Skips a JSON object at `i`; whitespace may stand between its tokens.
pub open spec fn spec_skip_object(s: Seq<char>, i: int) -> Option<int>
    decreases s.len() - i, 0int,
    when 0 <= i <= s.len()
{
    if i < s.len() && s[i] == '{' {
        let j = spec_ws_end(s, i + 1);
        if i + 1 <= j && j < s.len() {
            if s[j] == '}' {
                Some(j + 1)
            } else {
                spec_skip_members(s, j)
            }
        } else {
            None
        }
    } else {
        None
    }
}

/// Skips one or more `"name":value` members followed by the closing brace;
/// whitespace may stand around the separators.
pub open spec fn spec_skip_members(s: Seq<char>, i: int) -> Option<int>
    decreases s.len() - i, 2int,
    when 0 <= i <= s.len()
{
    if i < s.len() && s[i] == '"' {
        match spec_parse_quoted(s, i) {
            Some((key, j)) => if i < j && j <= s.len() {
                let j2 = spec_ws_end(s, j);
                if j <= j2 && j2 < s.len() && s[j2] == ':' {
                    let j3 = spec_ws_end(s, j2 + 1);
                    if j2 + 1 <= j3 && j3 <= s.len() {
                        match spec_skip_value(s, j3) {
                            Some(k) => if j3 <= k && k <= s.len() {
                                let k2 = spec_ws_end(s, k);
                                if k <= k2 && k2 < s.len() {
                                    if s[k2] == ',' {
                                        let k3 = spec_ws_end(s, k2 + 1);
                                        if k2 + 1 <= k3 && k3 <= s.len() {
                                            spec_skip_members(s, k3)
                                        } else {
                                            None
                                        }
                                    } else if s[k2] == '}' {
                                        Some(k2 + 1)
                                    } else {
                                        None
                                    }
                                } else {
                                    None
                                }
                            } else {
                                None
                            },
                            None => None,
                        }
                    } else {
                        None
                    }
                } else {
                    None
                }
            } else {
                None
            },
            None => None,
        }
    } else {
        None
    }
}

/// The attribute payload is accepted when it is exactly one object, with
/// nothing before or after it.
pub open spec fn spec_valid_attrs(s: Seq<char>) -> bool {
    spec_skip_object(s, 0) == Some(s.len() as int)
}

fn digit_run_end(s: &Vec<char>, i: usize) -> (j: usize)
    requires
        i <= s@.len(),
    ensures
        j == spec_digit_run_end(s@, i as int),
        i <= j <= s@.len(),
{
    let mut j: usize = i;
    loop
        invariant
            i <= j <= s@.len(),
            spec_digit_run_end(s@, i as int) == spec_digit_run_end(s@, j as int),
        ensures
            i <= j <= s@.len(),
            spec_digit_run_end(s@, i as int) == j,
        decreases s@.len() - j,
    {
        if j < s.len() {
            let c = s[j];
            if c == '0' || c == '1' || c == '2' || c == '3' || c == '4' || c == '5' || c == '6'
                || c == '7' || c == '8' || c == '9' {
                j += 1;
            } else {
                break ;
            }
        } else {
            break ;
        }
    }
    j
}

fn is_digit(c: char) -> (r: bool)
    ensures
        r == (spec_digit_val(c) is Some),
{
    c == '0' || c == '1' || c == '2' || c == '3' || c == '4' || c == '5' || c == '6' || c == '7'
        || c == '8' || c == '9'
}

fn skip_number(s: &Vec<char>, i: usize) -> (r: Option<usize>)
    requires
        i <= s@.len(),
    ensures
        match r {
            Some(j) => spec_skip_number(s@, i as int) == Some(j as int) && i <= j <= s@.len(),
            None => spec_skip_number(s@, i as int) is None,
        },
{
    let j = if i < s.len() && s[i] == '-' {
        i + 1
    } else {
        i
    };
    if !(j < s.len() && is_digit(s[j])) {
        return None;
    }
    let k = digit_run_end(s, j);
    let k2 = if k < s.len() && s[k] == '.' && k + 1 < s.len() && is_digit(s[k + 1]) {
        digit_run_end(s, k + 1)
    } else {
        k
    };
    if k2 < s.len() && (s[k2] == 'e' || s[k2] == 'E') {
        let m = if k2 + 1 < s.len() && (s[k2 + 1] == '+' || s[k2 + 1] == '-') {
            k2 + 2
        } else {
            k2 + 1
        };
        if m < s.len() && is_digit(s[m]) {
            Some(digit_run_end(s, m))
        } else {
            None
        }
    } else {
        Some(k2)
    }
}

fn skip_value(s: &Vec<char>, i: usize) -> (r: Option<usize>)
    requires
        i <= s@.len(),
    ensures
        match r {
            Some(j) => spec_skip_value(s@, i as int) == Some(j as int) && i <= j <= s@.len(),
            None => spec_skip_value(s@, i as int) is None,
        },
    decreases s@.len() - i, 1int,
{
    if i >= s.len() {
        return None;
    }
    let c = s[i];
    if c == '"' {
        match parse_quoted(s, i) {
            Some((_x, j)) => Some(j),
            None => None,
        }
    } else if c == 't' {
        eat_lit(s, i, "true")
    } else if c == 'f' {
        eat_lit(s, i, "false")
    } else if c == '{' {
        skip_object(s, i)
    } else {
        skip_number(s, i)
    }
}

fn is_ws(c: char) -> (r: bool)
    ensures
        r == spec_is_ws(c),
{
    c == ' ' || c == '\t' || c == '\n' || c == '\r'
}

fn ws_end(s: &Vec<char>, i: usize) -> (j: usize)
    requires
        i <= s@.len(),
    ensures
        j == spec_ws_end(s@, i as int),
        i <= j <= s@.len(),
{
    let mut j: usize = i;
    loop
        invariant
            i <= j <= s@.len(),
            spec_ws_end(s@, i as int) == spec_ws_end(s@, j as int),
        ensures
            i <= j <= s@.len(),
            spec_ws_end(s@, i as int) == j,
        decreases s@.len() - j,
    {
        if j < s.len() && is_ws(s[j]) {
            j += 1;
        } else {
            break ;
        }
    }
    j
}

fn skip_object(s: &Vec<char>, i: usize) -> (r: Option<usize>)
    requires
        i <= s@.len(),
    ensures
        match r {
            Some(j) => spec_skip_object(s@, i as int) == Some(j as int) && i <= j <= s@.len(),
            None => spec_skip_object(s@, i as int) is None,
        },
    decreases s@.len() - i, 0int,
{
    if !(i < s.len() && s[i] == '{') {
        return None;
    }
    let j = ws_end(s, i + 1);
    if !(j < s.len()) {
        return None;
    }
    if s[j] == '}' {
        Some(j + 1)
    } else {
        skip_members(s, j)
    }
}

fn skip_members(s: &Vec<char>, i: usize) -> (r: Option<usize>)
    requires
        i <= s@.len(),
    ensures
        match r {
            Some(j) => spec_skip_members(s@, i as int) == Some(j as int) && i <= j <= s@.len(),
            None => spec_skip_members(s@, i as int) is None,
        },
    decreases s@.len() - i, 2int,
{
    if !(i < s.len() && s[i] == '"') {
        return None;
    }
    let (_key, j) = match parse_quoted(s, i) {
        Some(p) => p,
        None => {
            return None;
        },
    };
    let j2 = ws_end(s, j);
    if !(j2 < s.len() && s[j2] == ':') {
        return None;
    }
    let j3 = ws_end(s, j2 + 1);
    let k = match skip_value(s, j3) {
        Some(k) => k,
        None => {
            return None;
        },
    };
    let k2 = ws_end(s, k);
    if !(k2 < s.len()) {
        return None;
    }
    if s[k2] == ',' {
        let k3 = ws_end(s, k2 + 1);
        skip_members(s, k3)
    } else if s[k2] == '}' {
        Some(k2 + 1)
    } else {
        None
    }
}

/// Accepts exactly the attribute payloads that form one JSON object.
pub fn valid_attrs(text: &str) -> (r: bool)
    ensures
        r == spec_valid_attrs(text@),
{
    let s = str_to_chars(text);
    match skip_object(&s, 0) {
        Some(j) => j == s.len(),
        None => false,
    }
}

} // verus!
