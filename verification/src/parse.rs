//! The table parser: deserializes text into a color table.
//!
//! The accepted format is a JSON object that maps color-name strings to
//! objects with exactly the members `"r"`, `"g"` and `"b"`, each a plain
//! integer between 0 and 255. Member order inside a color object is free;
//! whitespace is free; escape sequences inside strings are not part of the
//! format. Names are normalized to lowercase as they are inserted, and a
//! later entry overrides an earlier one whose name normalizes the same way.
//!
//! The grammar is written out as the `spec_*` functions below; the executable
//! parser returns exactly what they denote, including the character offset at
//! which decoding fails.

use crate::colors::Color;
use crate::norm::lower_of;
use crate::norm::lowercase;
use crate::norm::normalized;
use crate::table::ColorTable;
use vstd::prelude::*;

verus! {

/// Whitespace accepted between tokens.
pub open spec fn is_ws(c: char) -> bool {
    c == ' ' || c == '\n' || c == '\t' || c == '\r'
}

/// A character allowed inside a name string: anything but the closing
/// quote, the escape character, and control characters.
pub open spec fn is_name_char(c: char) -> bool {
    c != '"' && c != '\\' && (c as u32) >= 32
}

/// A decimal digit.
pub open spec fn is_digit(c: char) -> bool {
    48 <= (c as u32) <= 57
}

/// The numeric value of a decimal digit.
pub open spec fn digit_val(c: char) -> int {
    (c as u32) - 48
}

/// The first position at or after `i` that does not hold whitespace.
pub open spec fn spec_skip_ws(s: Seq<char>, i: int) -> int
    recommends
        0 <= i <= s.len(),
    decreases s.len() - i,
{
    if 0 <= i < s.len() && is_ws(s[i]) {
        spec_skip_ws(s, i + 1)
    } else {
        i
    }
}

pub proof fn lemma_skip_ws_bounds(s: Seq<char>, i: int)
    requires
        0 <= i <= s.len(),
    ensures
        i <= spec_skip_ws(s, i) <= s.len(),
    decreases s.len() - i,
{
    if i < s.len() && is_ws(s[i]) {
        lemma_skip_ws_bounds(s, i + 1);
    }
}

/// The first position at or after `i` that does not hold a name character.
pub open spec fn spec_scan_name(s: Seq<char>, i: int) -> int
    recommends
        0 <= i <= s.len(),
    decreases s.len() - i,
{
    if 0 <= i < s.len() && is_name_char(s[i]) {
        spec_scan_name(s, i + 1)
    } else {
        i
    }
}

pub proof fn lemma_scan_name_bounds(s: Seq<char>, i: int)
    requires
        0 <= i <= s.len(),
    ensures
        i <= spec_scan_name(s, i) <= s.len(),
    decreases s.len() - i,
{
    if i < s.len() && is_name_char(s[i]) {
        lemma_scan_name_bounds(s, i + 1);
    }
}

/// The first position at or after `i` that does not hold a digit.
pub open spec fn spec_scan_digits(s: Seq<char>, i: int) -> int
    recommends
        0 <= i <= s.len(),
    decreases s.len() - i,
{
    if 0 <= i < s.len() && is_digit(s[i]) {
        spec_scan_digits(s, i + 1)
    } else {
        i
    }
}

pub proof fn lemma_scan_digits_bounds(s: Seq<char>, i: int)
    requires
        0 <= i <= s.len(),
    ensures
        i <= spec_scan_digits(s, i) <= s.len(),
    decreases s.len() - i,
{
    if i < s.len() && is_digit(s[i]) {
        lemma_scan_digits_bounds(s, i + 1);
    }
}

/// A string: a quote, name characters, a closing quote. On success the
/// result carries the characters between the quotes and the position just
/// past the closing quote; on failure, the offending position.
pub open spec fn spec_parse_string(s: Seq<char>, i: int) -> Result<(Seq<char>, int), int> {
    if !(0 <= i < s.len() && s[i] == '"') {
        Err(i)
    } else {
        let j = spec_scan_name(s, i + 1);
        if j < s.len() && s[j] == '"' {
            Ok((s.subrange(i + 1, j), j + 1))
        } else {
            Err(j)
        }
    }
}

pub proof fn lemma_parse_string_progress(s: Seq<char>, i: int)
    requires
        0 <= i <= s.len(),
    ensures
        spec_parse_string(s, i) matches Ok(p) ==> i + 2 <= p.1 <= s.len(),
        spec_parse_string(s, i) matches Err(e) ==> i <= e <= s.len(),
{
    if 0 <= i < s.len() && s[i] == '"' {
        lemma_scan_name_bounds(s, i + 1);
    }
}

/// The value of the decimal digits `s[i..j]`, most significant first.
pub open spec fn spec_digits_value(s: Seq<char>, i: int, j: int) -> int
    recommends
        0 <= i <= j <= s.len(),
    decreases j - i,
{
    if j <= i {
        0
    } else {
        spec_digits_value(s, i, j - 1) * 10 + digit_val(s[j - 1])
    }
}

/// A run of up to three digits denotes a value below one thousand.
pub proof fn lemma_digits_value_small(s: Seq<char>, i: int, j: int)
    requires
        0 <= i <= j <= s.len(),
        j - i <= 3,
        forall|k: int| i <= k < j ==> is_digit(s[k]),
    ensures
        0 <= spec_digits_value(s, i, j),
        j - i == 0 ==> spec_digits_value(s, i, j) == 0,
        j - i == 1 ==> spec_digits_value(s, i, j) <= 9,
        j - i == 2 ==> spec_digits_value(s, i, j) <= 99,
        j - i == 3 ==> spec_digits_value(s, i, j) <= 999,
    decreases j - i,
{
    if j > i {
        lemma_digits_value_small(s, i, j - 1);
        assert(is_digit(s[j - 1]));
        assert(digit_val(s[j - 1]) <= 9);
    }
}

/// A number: one to three digits, no leading zero, value at most 255. On
/// failure the offending position is the start of the number, except that a
/// missing number fails at `i` itself.
pub open spec fn spec_parse_number(s: Seq<char>, i: int) -> Result<(u8, int), int> {
    let j = spec_scan_digits(s, i);
    if j == i {
        Err(i)
    } else if j - i > 3 {
        Err(i)
    } else if j - i > 1 && s[i] == '0' {
        Err(i)
    } else {
        let v = spec_digits_value(s, i, j);
        if v <= 255 {
            Ok((v as u8, j))
        } else {
            Err(i)
        }
    }
}

pub proof fn lemma_parse_number_progress(s: Seq<char>, i: int)
    requires
        0 <= i <= s.len(),
    ensures
        spec_parse_number(s, i) matches Ok(p) ==> i + 1 <= p.1 <= s.len(),
        spec_parse_number(s, i) matches Err(e) ==> i <= e <= s.len(),
{
    lemma_scan_digits_bounds(s, i);
}

/// The members of a color object, starting at a member key. `ro`, `go` and
/// `bo` hold the channel values already seen. Each of `"r"`, `"g"` and
/// `"b"` must appear exactly once; the list ends with `}`.
pub open spec fn spec_parse_members(
    s: Seq<char>,
    i: int,
    ro: Option<u8>,
    go: Option<u8>,
    bo: Option<u8>,
) -> Result<(Color, int), int>
    recommends
        0 <= i <= s.len(),
    decreases s.len() - i,
{
    if !(0 <= i < s.len() && s[i] == '"') {
        Err(i)
    } else if !(i + 1 < s.len() && (s[i + 1] == 'r' || s[i + 1] == 'g' || s[i + 1] == 'b')) {
        Err(i + 1)
    } else if !(i + 2 < s.len() && s[i + 2] == '"') {
        Err(i + 2)
    } else if (s[i + 1] == 'r' && ro is Some) || (s[i + 1] == 'g' && go is Some) || (s[i + 1]
        == 'b' && bo is Some) {
        Err(i + 1)
    } else {
        let j = spec_skip_ws(s, i + 3);
        proof {
            lemma_skip_ws_bounds(s, i + 3);
        }
        if !(j < s.len() && s[j] == ':') {
            Err(j)
        } else {
            let j1 = spec_skip_ws(s, j + 1);
            proof {
                lemma_skip_ws_bounds(s, j + 1);
            }
            match spec_parse_number(s, j1) {
                Err(e) => Err(e),
                Ok((v, j2)) => {
                    proof {
                        lemma_parse_number_progress(s, j1);
                    }
                    let r2 = if s[i + 1] == 'r' {
                        Some(v)
                    } else {
                        ro
                    };
                    let g2 = if s[i + 1] == 'g' {
                        Some(v)
                    } else {
                        go
                    };
                    let b2 = if s[i + 1] == 'b' {
                        Some(v)
                    } else {
                        bo
                    };
                    let j3 = spec_skip_ws(s, j2);
                    proof {
                        lemma_skip_ws_bounds(s, j2);
                    }
                    if j3 < s.len() && s[j3] == ',' {
                        let j4 = spec_skip_ws(s, j3 + 1);
                        proof {
                            lemma_skip_ws_bounds(s, j3 + 1);
                        }
                        spec_parse_members(s, j4, r2, g2, b2)
                    } else if j3 < s.len() && s[j3] == '}' {
                        match (r2, g2, b2) {
                            (Some(r), Some(g), Some(b)) => Ok((Color { r, g, b }, j3 + 1)),
                            _ => Err(j3),
                        }
                    } else {
                        Err(j3)
                    }
                },
            }
        }
    }
}

pub proof fn lemma_parse_members_progress(
    s: Seq<char>,
    i: int,
    ro: Option<u8>,
    go: Option<u8>,
    bo: Option<u8>,
)
    requires
        0 <= i <= s.len(),
    ensures
        spec_parse_members(s, i, ro, go, bo) matches Ok(p) ==> i + 1 <= p.1 <= s.len(),
        spec_parse_members(s, i, ro, go, bo) matches Err(e) ==> i <= e <= s.len(),
    decreases s.len() - i,
{
    if !(0 <= i < s.len() && s[i] == '"') {
    } else if !(i + 1 < s.len() && (s[i + 1] == 'r' || s[i + 1] == 'g' || s[i + 1] == 'b')) {
    } else if !(i + 2 < s.len() && s[i + 2] == '"') {
    } else if (s[i + 1] == 'r' && ro is Some) || (s[i + 1] == 'g' && go is Some) || (s[i + 1]
        == 'b' && bo is Some) {
    } else {
        let j = spec_skip_ws(s, i + 3);
        lemma_skip_ws_bounds(s, i + 3);
        if !(j < s.len() && s[j] == ':') {
        } else {
            let j1 = spec_skip_ws(s, j + 1);
            lemma_skip_ws_bounds(s, j + 1);
            lemma_parse_number_progress(s, j1);
            match spec_parse_number(s, j1) {
                Err(e) => {},
                Ok((v, j2)) => {
                    let r2 = if s[i + 1] == 'r' {
                        Some(v)
                    } else {
                        ro
                    };
                    let g2 = if s[i + 1] == 'g' {
                        Some(v)
                    } else {
                        go
                    };
                    let b2 = if s[i + 1] == 'b' {
                        Some(v)
                    } else {
                        bo
                    };
                    let j3 = spec_skip_ws(s, j2);
                    lemma_skip_ws_bounds(s, j2);
                    if j3 < s.len() && s[j3] == ',' {
                        let j4 = spec_skip_ws(s, j3 + 1);
                        lemma_skip_ws_bounds(s, j3 + 1);
                        lemma_parse_members_progress(s, j4, r2, g2, b2);
                    }
                },
            }
        }
    }
}

/// A color object: `{`, members, `}`. An empty object fails (its channel
/// members are missing).
pub open spec fn spec_parse_color(s: Seq<char>, i: int) -> Result<(Color, int), int>
    recommends
        0 <= i <= s.len(),
{
    if !(0 <= i < s.len() && s[i] == '{') {
        Err(i)
    } else {
        let j = spec_skip_ws(s, i + 1);
        spec_parse_members(s, j, None, None, None)
    }
}

pub proof fn lemma_parse_color_progress(s: Seq<char>, i: int)
    requires
        0 <= i <= s.len(),
    ensures
        spec_parse_color(s, i) matches Ok(p) ==> i + 1 <= p.1 <= s.len(),
        spec_parse_color(s, i) matches Err(e) ==> i <= e <= s.len(),
{
    if 0 <= i < s.len() && s[i] == '{' {
        lemma_skip_ws_bounds(s, i + 1);
        lemma_parse_members_progress(s, spec_skip_ws(s, i + 1), None, None, None);
    }
}

/// The entry list of a table, starting at a name string: entries separated
/// by commas, ended by `}`. Each parsed name is normalized to lowercase and
/// inserted into `m`; a later entry overrides an earlier one.
pub open spec fn spec_parse_pairs(s: Seq<char>, i: int, m: Map<Seq<char>, Color>) -> Result<
    (Map<Seq<char>, Color>, int),
    int,
>
    recommends
        0 <= i <= s.len(),
    decreases s.len() - i,
{
    match spec_parse_string(s, i) {
        Err(e) => Err(e),
        Ok((name, j)) => {
            proof {
                if 0 <= i <= s.len() {
                    lemma_parse_string_progress(s, i);
                }
            }
            let j1 = spec_skip_ws(s, j);
            if !(j1 < s.len() && s[j1] == ':') {
                Err(j1)
            } else {
                let j2 = spec_skip_ws(s, j1 + 1);
                match spec_parse_color(s, j2) {
                    Err(e) => Err(e),
                    Ok((c, j3)) => {
                        let m2 = m.insert(lower_of(name), c);
                        let j4 = spec_skip_ws(s, j3);
                        if j4 < s.len() && s[j4] == ',' {
                            let j5 = spec_skip_ws(s, j4 + 1);
                            proof {
                                if 0 <= i <= s.len() {
                                    lemma_skip_ws_bounds(s, j);
                                    lemma_skip_ws_bounds(s, j1 + 1);
                                    lemma_parse_color_progress(s, j2);
                                    lemma_skip_ws_bounds(s, j3);
                                    lemma_skip_ws_bounds(s, j4 + 1);
                                }
                            }
                            spec_parse_pairs(s, j5, m2)
                        } else if j4 < s.len() && s[j4] == '}' {
                            Ok((m2, j4 + 1))
                        } else {
                            Err(j4)
                        }
                    },
                }
            }
        },
    }
}

pub proof fn lemma_parse_pairs_progress(s: Seq<char>, i: int, m: Map<Seq<char>, Color>)
    requires
        0 <= i <= s.len(),
    ensures
        spec_parse_pairs(s, i, m) matches Ok(p) ==> i + 1 <= p.1 <= s.len(),
        spec_parse_pairs(s, i, m) matches Err(e) ==> i <= e <= s.len(),
    decreases s.len() - i,
{
    lemma_parse_string_progress(s, i);
    match spec_parse_string(s, i) {
        Err(e) => {},
        Ok((name, j)) => {
            let j1 = spec_skip_ws(s, j);
            lemma_skip_ws_bounds(s, j);
            if j1 < s.len() && s[j1] == ':' {
                let j2 = spec_skip_ws(s, j1 + 1);
                lemma_skip_ws_bounds(s, j1 + 1);
                lemma_parse_color_progress(s, j2);
                match spec_parse_color(s, j2) {
                    Err(e) => {},
                    Ok((c, j3)) => {
                        let j4 = spec_skip_ws(s, j3);
                        lemma_skip_ws_bounds(s, j3);
                        if j4 < s.len() && s[j4] == ',' {
                            let j5 = spec_skip_ws(s, j4 + 1);
                            lemma_skip_ws_bounds(s, j4 + 1);
                            lemma_parse_pairs_progress(s, j5, m.insert(lower_of(name), c));
                        }
                    },
                }
            }
        },
    }
}

/// A whole table: whitespace, `{`, an optional entry list, `}`, whitespace,
/// end of input. On success the denoted mapping is returned; on failure,
/// the character offset at which decoding failed.
pub open spec fn spec_parse_table(s: Seq<char>) -> Result<Map<Seq<char>, Color>, int> {
    let i = spec_skip_ws(s, 0);
    if !(i < s.len() && s[i] == '{') {
        Err(i)
    } else {
        let j = spec_skip_ws(s, i + 1);
        if j < s.len() && s[j] == '}' {
            let k = spec_skip_ws(s, j + 1);
            if k == s.len() {
                Ok(Map::empty())
            } else {
                Err(k)
            }
        } else {
            match spec_parse_pairs(s, j, Map::empty()) {
                Err(e) => Err(e),
                Ok((m, j2)) => {
                    let k = spec_skip_ws(s, j2);
                    if k == s.len() {
                        Ok(m)
                    } else {
                        Err(k)
                    }
                },
            }
        }
    }
}

/// Every character of a digit run is a digit.
pub proof fn lemma_scan_digits_chars(s: Seq<char>, i: int)
    requires
        0 <= i <= s.len(),
    ensures
        forall|k: int| i <= k < spec_scan_digits(s, i) ==> is_digit(s[k]),
    decreases s.len() - i,
{
    if i < s.len() && is_digit(s[i]) {
        lemma_scan_digits_chars(s, i + 1);
    }
}

fn ws_char(c: char) -> (b: bool)
    ensures
        b == is_ws(c),
{
    c == ' ' || c == '\n' || c == '\t' || c == '\r'
}

fn name_char(c: char) -> (b: bool)
    ensures
        b == is_name_char(c),
{
    c != '"' && c != '\\' && (c as u32) >= 32
}

fn digit_char(c: char) -> (b: bool)
    ensures
        b == is_digit(c),
{
    let u = c as u32;
    48 <= u && u <= 57
}

#[verifier::loop_isolation(false)]
fn skip_ws(s: &str, n: usize, i: usize) -> (r: usize)
    requires
        n == s@.len(),
        i <= n,
    ensures
        r == spec_skip_ws(s@, i as int),
        i <= r <= n,
{
    let mut k = i;
    while k < n
        invariant
            i <= k <= n,
            spec_skip_ws(s@, i as int) == spec_skip_ws(s@, k as int),
        decreases n - k,
    {
        if !ws_char(s.get_char(k)) {
            return k;
        }
        k += 1;
    }
    k
}

#[verifier::loop_isolation(false)]
fn scan_name(s: &str, n: usize, i: usize) -> (r: usize)
    requires
        n == s@.len(),
        i <= n,
    ensures
        r == spec_scan_name(s@, i as int),
        i <= r <= n,
{
    let mut k = i;
    while k < n
        invariant
            i <= k <= n,
            spec_scan_name(s@, i as int) == spec_scan_name(s@, k as int),
        decreases n - k,
    {
        if !name_char(s.get_char(k)) {
            return k;
        }
        k += 1;
    }
    k
}

#[verifier::loop_isolation(false)]
fn scan_digits(s: &str, n: usize, i: usize) -> (r: usize)
    requires
        n == s@.len(),
        i <= n,
    ensures
        r == spec_scan_digits(s@, i as int),
        i <= r <= n,
{
    let mut k = i;
    while k < n
        invariant
            i <= k <= n,
            spec_scan_digits(s@, i as int) == spec_scan_digits(s@, k as int),
        decreases n - k,
    {
        if !digit_char(s.get_char(k)) {
            return k;
        }
        k += 1;
    }
    k
}

fn parse_string(s: &str, n: usize, i: usize) -> (r: Result<(String, usize), usize>)
    requires
        n == s@.len(),
        i <= n,
    ensures
        spec_parse_string(s@, i as int) matches Ok(p) ==> (r matches Ok(q) && q.0@ == p.0 && q.1
            == p.1),
        spec_parse_string(s@, i as int) matches Err(e) ==> (r matches Err(u) && u == e),
{
    if !(i < n) {
        return Err(i);
    }
    if s.get_char(i) != '"' {
        return Err(i);
    }
    let j = scan_name(s, n, i + 1);
    if j < n && s.get_char(j) == '"' {
        let key = s.substring_char(i + 1, j).to_owned();
        Ok((key, j + 1))
    } else {
        Err(j)
    }
}

#[verifier::loop_isolation(false)]
fn parse_number(s: &str, n: usize, i: usize) -> (r: Result<(u8, usize), usize>)
    requires
        n == s@.len(),
        i <= n,
    ensures
        spec_parse_number(s@, i as int) matches Ok(p) ==> (r matches Ok(q) && q.0 == p.0 && q.1
            == p.1),
        spec_parse_number(s@, i as int) matches Err(e) ==> (r matches Err(u) && u == e),
{
    let j = scan_digits(s, n, i);
    proof {
        lemma_scan_digits_chars(s@, i as int);
    }
    if j == i {
        return Err(i);
    }
    if j - i > 3 {
        return Err(i);
    }
    if j - i > 1 && s.get_char(i) == '0' {
        return Err(i);
    }
    let mut v: u32 = 0;
    let mut k = i;
    while k < j
        invariant
            i <= k <= j,
            v == spec_digits_value(s@, i as int, k as int),
            v <= 999,
        decreases j - k,
    {
        proof {
            lemma_digits_value_small(s@, i as int, k as int);
        }
        let c = s.get_char(k);
        let d: u32 = (c as u32) - 48;
        v = v * 10 + d;
        k += 1;
        proof {
            lemma_digits_value_small(s@, i as int, k as int);
        }
    }
    if v <= 255 {
        Ok((v as u8, j))
    } else {
        Err(i)
    }
}

fn parse_members(s: &str, n: usize, i: usize, ro: Option<u8>, go: Option<u8>, bo: Option<u8>) -> (r:
    Result<(Color, usize), usize>)
    requires
        n == s@.len(),
        i <= n,
    ensures
        spec_parse_members(s@, i as int, ro, go, bo) matches Ok(p) ==> (r matches Ok(q) && q.0
            == p.0 && q.1 == p.1),
        spec_parse_members(s@, i as int, ro, go, bo) matches Err(e) ==> (r matches Err(u) && u
            == e),
    decreases n - i,
{
    if !(i < n) {
        return Err(i);
    }
    if s.get_char(i) != '"' {
        return Err(i);
    }
    if !(i + 1 < n) {
        return Err(i + 1);
    }
    let key = s.get_char(i + 1);
    if !(key == 'r' || key == 'g' || key == 'b') {
        return Err(i + 1);
    }
    if !(i + 2 < n) {
        return Err(i + 2);
    }
    if s.get_char(i + 2) != '"' {
        return Err(i + 2);
    }
    if (key == 'r' && ro.is_some()) || (key == 'g' && go.is_some()) || (key == 'b'
        && bo.is_some()) {
        return Err(i + 1);
    }
    let j = skip_ws(s, n, i + 3);
    if !(j < n) {
        return Err(j);
    }
    if s.get_char(j) != ':' {
        return Err(j);
    }
    let j1 = skip_ws(s, n, j + 1);
    match parse_number(s, n, j1) {
        Err(e) => Err(e),
        Ok((v, j2)) => {
            proof {
                lemma_parse_number_progress(s@, j1 as int);
            }
            let r2 = if key == 'r' {
                Some(v)
            } else {
                ro
            };
            let g2 = if key == 'g' {
                Some(v)
            } else {
                go
            };
            let b2 = if key == 'b' {
                Some(v)
            } else {
                bo
            };
            let j3 = skip_ws(s, n, j2);
            if j3 < n {
                let c = s.get_char(j3);
                if c == ',' {
                    let j4 = skip_ws(s, n, j3 + 1);
                    parse_members(s, n, j4, r2, g2, b2)
                } else if c == '}' {
                    match (r2, g2, b2) {
                        (Some(r), Some(g), Some(b)) => Ok((Color { r, g, b }, j3 + 1)),
                        _ => Err(j3),
                    }
                } else {
                    Err(j3)
                }
            } else {
                Err(j3)
            }
        },
    }
}

fn parse_color(s: &str, n: usize, i: usize) -> (r: Result<(Color, usize), usize>)
    requires
        n == s@.len(),
        i <= n,
    ensures
        spec_parse_color(s@, i as int) matches Ok(p) ==> (r matches Ok(q) && q.0 == p.0 && q.1
            == p.1),
        spec_parse_color(s@, i as int) matches Err(e) ==> (r matches Err(u) && u == e),
{
    if !(i < n) {
        return Err(i);
    }
    if s.get_char(i) != '{' {
        return Err(i);
    }
    let j = skip_ws(s, n, i + 1);
    parse_members(s, n, j, None, None, None)
}

fn parse_pairs(s: &str, n: usize, i: usize, t: &mut ColorTable) -> (r: Result<usize, usize>)
    requires
        n == s@.len(),
        i <= n,
        old(t).wf(),
    ensures
        final(t).wf(),
        spec_parse_pairs(s@, i as int, old(t)@) matches Ok(p) ==> (r matches Ok(j) && j == p.1
            && final(t)@ == p.0),
        spec_parse_pairs(s@, i as int, old(t)@) matches Err(e) ==> (r matches Err(u) && u == e),
    decreases n - i,
{
    match parse_string(s, n, i) {
        Err(e) => Err(e),
        Ok((name, j)) => {
            proof {
                lemma_parse_string_progress(s@, i as int);
            }
            let j1 = skip_ws(s, n, j);
            if !(j1 < n) {
                return Err(j1);
            }
            if s.get_char(j1) != ':' {
                return Err(j1);
            }
            let j2 = skip_ws(s, n, j1 + 1);
            match parse_color(s, n, j2) {
                Err(e) => Err(e),
                Ok((c, j3)) => {
                    proof {
                        lemma_parse_color_progress(s@, j2 as int);
                    }
                    let lowered = lowercase(name.as_str());
                    proof {
                        assert(normalized(lowered@));
                    }
                    t.set(lowered, c);
                    let j4 = skip_ws(s, n, j3);
                    if j4 < n {
                        let ch = s.get_char(j4);
                        if ch == ',' {
                            let j5 = skip_ws(s, n, j4 + 1);
                            parse_pairs(s, n, j5, t)
                        } else if ch == '}' {
                            Ok(j4 + 1)
                        } else {
                            Err(j4)
                        }
                    } else {
                        Err(j4)
                    }
                },
            }
        },
    }
}

/// Parses a whole table, returning the character offset of the first
/// decoding failure on malformed input.
pub fn parse_table(s: &str) -> (r: Result<ColorTable, usize>)
    ensures
        spec_parse_table(s@) matches Ok(m) ==> (r matches Ok(t) && t.wf() && t@ == m),
        spec_parse_table(s@) matches Err(e) ==> (r matches Err(u) && u == e),
{
    let n = s.unicode_len();
    let i = skip_ws(s, n, 0);
    if !(i < n) {
        return Err(i);
    }
    if s.get_char(i) != '{' {
        return Err(i);
    }
    let j = skip_ws(s, n, i + 1);
    if j < n {
        let ch = s.get_char(j);
        if ch == '}' {
            let k = skip_ws(s, n, j + 1);
            if k == n {
                return Ok(ColorTable::new());
            } else {
                return Err(k);
            }
        }
    }
    let mut t = ColorTable::new();
    proof {
        lemma_parse_pairs_progress(s@, j as int, Map::empty());
    }
    match parse_pairs(s, n, j, &mut t) {
        Err(e) => Err(e),
        Ok(j2) => {
            let k = skip_ws(s, n, j2);
            if k == n {
                Ok(t)
            } else {
                Err(k)
            }
        },
    }
}

} // verus!
