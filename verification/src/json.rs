//! JSON values and a verified parser for the gateway's text frames.
//!
//! The gateway speaks JSON over WebSocket text frames. The parser here
//! accepts the full grammar — objects, arrays, strings with escapes,
//! numbers, literals — and is specified against a recursive spec-level
//! parser over the frame's characters. Numbers that are integers fitting
//! a signed 64-bit word keep their value; any other syntactically valid
//! number is kept as [`Json::NumOther`], since no protocol field reads
//! one.

use vstd::prelude::*;
use vstd::string::StrSliceExecFns;
use vstd::string::StringExecFns;

verus! {

/// A parsed JSON value.
#[derive(Debug)]
pub enum Json {
    Null,
    Bool(bool),
    /// A number written as an integer that fits in `i64`.
    Int(i64),
    /// Any other syntactically valid number (fractional, exponent, or out
    /// of `i64` range); its numeric value is not kept.
    NumOther,
    Str(String),
    Arr(Vec<Json>),
    Obj(Vec<(String, Json)>),
}

/// Spec-level image of a JSON value.
pub enum JsonV {
    Null,
    Bool(bool),
    Int(int),
    NumOther,
    Str(Seq<char>),
    Arr(Seq<JsonV>),
    Obj(Seq<(Seq<char>, JsonV)>),
}

impl View for Json {
    type V = JsonV;

    open spec fn view(&self) -> JsonV
        decreases self,
    {
        match self {
            Json::Null => JsonV::Null,
            Json::Bool(b) => JsonV::Bool(*b),
            Json::Int(n) => JsonV::Int(*n as int),
            Json::NumOther => JsonV::NumOther,
            Json::Str(s) => JsonV::Str(s@),
            Json::Arr(items) => JsonV::Arr(views(items@)),
            Json::Obj(fields) => JsonV::Obj(field_views(fields@)),
        }
    }
}

/// The views of a sequence of parsed values.
pub open spec fn views(items: Seq<Json>) -> Seq<JsonV>
    decreases items,
{
    Seq::new(
        items.len(),
        |k: int|
            if 0 <= k < items.len() {
                items[k]@
            } else {
                JsonV::Null
            },
    )
}

/// The views of a sequence of parsed object fields.
pub open spec fn field_views(fields: Seq<(String, Json)>) -> Seq<(Seq<char>, JsonV)>
    decreases fields,
{
    Seq::new(
        fields.len(),
        |k: int|
            if 0 <= k < fields.len() {
                (fields[k].0@, fields[k].1@)
            } else {
                (Seq::empty(), JsonV::Null)
            },
    )
}

/// Look a key up in an object's fields; the first match wins.
pub open spec fn obj_get(fields: Seq<(Seq<char>, JsonV)>, key: Seq<char>) -> Option<JsonV>
    decreases fields.len(),
{
    if fields.len() == 0 {
        None
    } else if fields[0].0 == key {
        Some(fields[0].1)
    } else {
        obj_get(fields.skip(1), key)
    }
}

/// JSON whitespace.
pub open spec fn is_ws(c: char) -> bool {
    c == ' ' || c == '\t' || c == '\n' || c == '\r'
}

/// How many whitespace characters run from position `i`.
pub open spec fn ws_count(s: Seq<char>, i: int) -> nat
    decreases s.len() - i,
{
    if 0 <= i < s.len() && is_ws(s[i]) {
        1 + ws_count(s, i + 1)
    } else {
        0
    }
}

/// Advance past JSON whitespace.
fn skip_ws(s: &Vec<char>, i: usize) -> (j: usize)
    requires
        i <= s@.len(),
    ensures
        j == i + ws_count(s@, i as int),
        i <= j <= s@.len(),
{
    let n: usize = s.len();
    let mut j: usize = i;
    while j < n && is_ws_exec(s[j])
        invariant
            i <= j <= n == s@.len(),
            i + ws_count(s@, i as int) == j + ws_count(s@, j as int),
        decreases n - j,
    {
        j = j + 1;
    }
    proof {
        assert(ws_count(s@, j as int) == 0);
    }
    j
}

/// Whether `c` is JSON whitespace.
fn is_ws_exec(c: char) -> (r: bool)
    ensures
        r == is_ws(c),
{
    c == ' ' || c == '\t' || c == '\n' || c == '\r'
}

/// The numeric value of a hex digit, or -1.
pub open spec fn hex_val(c: char) -> int {
    if '0' <= c && c <= '9' {
        c as int - '0' as int
    } else if 'a' <= c && c <= 'f' {
        c as int - 'a' as int + 10
    } else if 'A' <= c && c <= 'F' {
        c as int - 'A' as int + 10
    } else {
        -1
    }
}

/// The value of the four hex digits at `i`, or -1 when any is not hex.
/// The positions must be in bounds.
pub open spec fn hex4_val(s: Seq<char>, i: int) -> int {
    let a = hex_val(s[i]);
    let b = hex_val(s[i + 1]);
    let c = hex_val(s[i + 2]);
    let d = hex_val(s[i + 3]);
    if a < 0 || b < 0 || c < 0 || d < 0 {
        -1
    } else {
        a * 0x1000 + b * 0x100 + c * 0x10 + d
    }
}

fn hex_val_exec(c: char) -> (r: i32)
    ensures
        r == hex_val(c),
{
    let u: u32 = c as u32;
    if u >= '0' as u32 && u <= '9' as u32 {
        (u - '0' as u32) as i32
    } else if u >= 'a' as u32 && u <= 'f' as u32 {
        (u - 'a' as u32 + 10) as i32
    } else if u >= 'A' as u32 && u <= 'F' as u32 {
        (u - 'A' as u32 + 10) as i32
    } else {
        -1
    }
}

fn hex4_exec(s: &Vec<char>, i: usize) -> (r: i32)
    requires
        i + 4 <= s@.len(),
    ensures
        r == hex4_val(s@, i as int),
{
    let n: usize = s.len();
    let a: i32 = hex_val_exec(s[i]);
    let b: i32 = hex_val_exec(s[i + 1]);
    let c: i32 = hex_val_exec(s[i + 2]);
    let d: i32 = hex_val_exec(s[i + 3]);
    if a < 0 || b < 0 || c < 0 || d < 0 {
        -1
    } else {
        a * 0x1000 + b * 0x100 + c * 0x10 + d
    }
}

/// Relies on `String::push`: appends exactly the one character.
#[verifier::external_body]
fn push_char(s: &mut String, c: char)
    ensures
        final(s)@ == old(s)@.push(c),
{
    s.push(c);
}

/// Relies on `char::from_u32`: `Some` exactly on the code points that are
/// not surrogates and not above the maximum, and then the returned
/// character has that code.
#[verifier::external_body]
fn char_of_u32(x: u32) -> (r: Option<char>)
    ensures
        (r is Some) == (x < 0xD800 || (0xDFFF < x && x <= 0x10FFFF)),
        r matches Some(c) ==> c as u32 == x && c == x as char,
{
    char::from_u32(x)
}

/// The character an escaped `\X` stands for, or none when `X` is not a
/// valid single-character escape.
pub open spec fn escape_char(c: char) -> Option<char> {
    if c == '"' {
        Some('"')
    } else if c == '\\' {
        Some('\\')
    } else if c == '/' {
        Some('/')
    } else if c == 'b' {
        Some('\u{0008}')
    } else if c == 'f' {
        Some('\u{000C}')
    } else if c == 'n' {
        Some('\n')
    } else if c == 'r' {
        Some('\r')
    } else if c == 't' {
        Some('\t')
    } else {
        None
    }
}

fn escape_char_exec(c: char) -> (r: Option<char>)
    ensures
        r == escape_char(c),
{
    match c {
        '"' => Some('"'),
        '\\' => Some('\\'),
        '/' => Some('/'),
        'b' => Some('\u{0008}'),
        'f' => Some('\u{000C}'),
        'n' => Some('\n'),
        'r' => Some('\r'),
        't' => Some('\t'),
        _ => None,
    }
}

/// Parse a string body starting just after the opening quote: the content
/// up to the closing quote, and the position just after it. Control
/// characters must be escaped; `\uXXXX` escapes cover the basic plane
/// directly and supplementary characters as surrogate pairs.
pub open spec fn sp_str_body(s: Seq<char>, i: int) -> Option<(Seq<char>, int)>
    decreases s.len() - i, 0int,
{
    if i < 0 || i >= s.len() {
        None
    } else if s[i] == '"' {
        Some((Seq::empty(), i + 1))
    } else if s[i] == '\\' {
        if i + 2 > s.len() {
            None
        } else if s[i + 1] == 'u' {
            if i + 6 > s.len() {
                None
            } else {
                let code = hex4_val(s, i + 2);
                if code < 0 {
                    None
                } else if 0xD800 <= code < 0xDC00 {
                    // high surrogate: a low surrogate escape must follow
                    if i + 12 > s.len() {
                        None
                    } else if s[i + 6] != '\\' || s[i + 7] != 'u' {
                        None
                    } else {
                        let lo = hex4_val(s, i + 8);
                        if !(0xDC00 <= lo < 0xE000) {
                            None
                        } else {
                            let cp = 0x10000 + (code - 0xD800) * 0x400 + (lo - 0xDC00);
                            match sp_str_body(s, i + 12) {
                                Some((tail, j)) => Some((seq![cp as char].add(tail), j)),
                                None => None,
                            }
                        }
                    }
                } else if 0xDC00 <= code < 0xE000 {
                    // lone low surrogate
                    None
                } else {
                    match sp_str_body(s, i + 6) {
                        Some((tail, j)) => Some((seq![code as char].add(tail), j)),
                        None => None,
                    }
                }
            }
        } else {
            match escape_char(s[i + 1]) {
                Some(c) => match sp_str_body(s, i + 2) {
                    Some((tail, j)) => Some((seq![c].add(tail), j)),
                    None => None,
                },
                None => None,
            }
        }
    } else if (s[i] as u32) < 0x20 {
        None
    } else {
        match sp_str_body(s, i + 1) {
            Some((tail, j)) => Some((seq![s[i]].add(tail), j)),
            None => None,
        }
    }
}

/// Executable mirror of [`sp_str_body`].
fn parse_str_body(s: &Vec<char>, i: usize) -> (r: Option<(String, usize)>)
    requires
        i <= s@.len(),
    ensures
        (r is Some) == (sp_str_body(s@, i as int) is Some),
        r matches Some((body, j)) ==> sp_str_body(s@, i as int) == Some((body@, j as int)) && i
            < j <= s@.len(),
    decreases s@.len() - i, 0int,
{
    let n: usize = s.len();
    if i >= n {
        return None;
    }
    let c: char = s[i];
    if c == '"' {
        let out = String::new();
        proof {
            assert(out@ =~= Seq::<char>::empty());
        }
        return Some((out, i + 1));
    }
    if c == '\\' {
        if n - i < 2 {
            return None;
        }
        let e: char = s[i + 1];
        if e == 'u' {
            if n - i < 6 {
                return None;
            }
            let code: i32 = hex4_exec(s, i + 2);
            if code < 0 {
                return None;
            }
            if 0xD800 <= code && code < 0xDC00 {
                if n - i < 12 {
                    return None;
                }
                if s[i + 6] != '\\' || s[i + 7] != 'u' {
                    return None;
                }
                let lo: i32 = hex4_exec(s, i + 8);
                if !(0xDC00 <= lo && lo < 0xE000) {
                    return None;
                }
                let cp: u32 = 0x10000 + (code as u32 - 0xD800) * 0x400 + (lo as u32 - 0xDC00);
                let ch: char = match char_of_u32(cp) {
                    Some(ch) => ch,
                    None => {
                        // This branch is proved unreachable: the code
                        // point was checked to be a valid character.
                        proof {
                            assert(false);
                        }
                        ' '
                    },
                };
                match parse_str_body(s, i + 12) {
                    Some((tail, j)) => {
                        let mut out = String::new();
                        push_char(&mut out, ch);
                        out.append(tail.as_str());
                        proof {
                            assert(out@ =~= seq![cp as char].add(tail@));
                        }
                        Some((out, j))
                    },
                    None => None,
                }
            } else if 0xDC00 <= code && code < 0xE000 {
                None
            } else {
                let ch: char = match char_of_u32(code as u32) {
                    Some(ch) => ch,
                    None => {
                        // This branch is proved unreachable: the code
                        // point was checked to be a valid character.
                        proof {
                            assert(false);
                        }
                        ' '
                    },
                };
                match parse_str_body(s, i + 6) {
                    Some((tail, j)) => {
                        let mut out = String::new();
                        push_char(&mut out, ch);
                        out.append(tail.as_str());
                        proof {
                            assert(out@ =~= seq![(code as int) as char].add(tail@));
                        }
                        Some((out, j))
                    },
                    None => None,
                }
            }
        } else {
            match escape_char_exec(e) {
                Some(ch) => match parse_str_body(s, i + 2) {
                    Some((tail, j)) => {
                        let mut out = String::new();
                        push_char(&mut out, ch);
                        out.append(tail.as_str());
                        proof {
                            assert(out@ =~= seq![ch].add(tail@));
                        }
                        Some((out, j))
                    },
                    None => None,
                },
                None => None,
            }
        }
    } else if (c as u32) < 0x20 {
        None
    } else {
        match parse_str_body(s, i + 1) {
            Some((tail, j)) => {
                let mut out = String::new();
                push_char(&mut out, c);
                out.append(tail.as_str());
                proof {
                    assert(out@ =~= seq![c].add(tail@));
                }
                Some((out, j))
            },
            None => None,
        }
    }
}

/// A decimal digit.
pub open spec fn is_digit(c: char) -> bool {
    '0' as u32 <= c as u32 && c as u32 <= '9' as u32
}

/// How many decimal digits run from position `i`.
pub open spec fn digit_count(s: Seq<char>, i: int) -> nat
    decreases s.len() - i,
{
    if 0 <= i < s.len() && is_digit(s[i]) {
        1 + digit_count(s, i + 1)
    } else {
        0
    }
}

/// The value of the `k` digits starting at `i`.
pub open spec fn digits_val(s: Seq<char>, i: int, k: int) -> int
    decreases k,
{
    if k <= 0 {
        0
    } else {
        digits_val(s, i, k - 1) * 10 + (s[i + k - 1] as u32 - '0' as u32)
    }
}

/// Whether `c` is a decimal digit.
fn is_digit_exec(c: char) -> (r: bool)
    ensures
        r == is_digit(c),
{
    let u: u32 = c as u32;
    '0' as u32 <= u && u <= '9' as u32
}

/// Advance past decimal digits.
fn digit_run(s: &Vec<char>, i: usize) -> (j: usize)
    requires
        i <= s@.len(),
    ensures
        j == i + digit_count(s@, i as int),
        i <= j <= s@.len(),
{
    let n: usize = s.len();
    let mut j: usize = i;
    while j < n && is_digit_exec(s[j])
        invariant
            i <= j <= n == s@.len(),
            i + digit_count(s@, i as int) == j + digit_count(s@, j as int),
        decreases n - j,
    {
        j = j + 1;
    }
    proof {
        assert(digit_count(s@, j as int) == 0);
    }
    j
}

/// 2^63: the magnitude at which a negated value still fits `i64` but a
/// positive one no longer does.
pub open spec fn spec_i64_mag() -> int {
    0x8000_0000_0000_0000
}

/// Parse the optional exponent part: the end position, or none when an
/// `e` is not followed by digits.
pub open spec fn sp_num_exp(s: Seq<char>, pos: int) -> Option<int> {
    if 0 <= pos < s.len() && (s[pos] == 'e' || s[pos] == 'E') {
        let q = if pos + 1 < s.len() && (s[pos + 1] == '+' || s[pos + 1] == '-') {
            pos + 2
        } else {
            pos + 1
        };
        let k = digit_count(s, q) as int;
        if k == 0 {
            None
        } else {
            Some(q + k)
        }
    } else {
        Some(pos)
    }
}

/// Parse the optional fraction and exponent after the integer digits:
/// whether the number is a plain integer, and its end position.
pub open spec fn sp_num_tail(s: Seq<char>, pos: int) -> Option<(bool, int)> {
    if 0 <= pos < s.len() && s[pos] == '.' {
        let k = digit_count(s, pos + 1) as int;
        if k == 0 {
            None
        } else {
            match sp_num_exp(s, pos + 1 + k) {
                Some(e) => Some((false, e)),
                None => None,
            }
        }
    } else {
        match sp_num_exp(s, pos) {
            Some(e) => Some((e == pos, e)),
            None => None,
        }
    }
}

/// Parse a number at `i`: an optional minus, integer digits with no
/// leading zero, an optional fraction, an optional exponent. A plain
/// integer that fits a signed 64-bit word keeps its value; any other
/// valid number becomes [`JsonV::NumOther`].
pub open spec fn sp_number(s: Seq<char>, i: int) -> Option<(JsonV, int)> {
    if i < 0 || i >= s.len() {
        None
    } else {
        let neg = s[i] == '-';
        let d0 = if neg {
            i + 1
        } else {
            i
        };
        let n = digit_count(s, d0) as int;
        if n == 0 {
            None
        } else if s[d0] == '0' && n > 1 {
            None
        } else {
            match sp_num_tail(s, d0 + n) {
                Some((plain, end)) => {
                    if plain {
                        let v = if neg {
                            -digits_val(s, d0, n)
                        } else {
                            digits_val(s, d0, n)
                        };
                        if -spec_i64_mag() <= v < spec_i64_mag() {
                            Some((JsonV::Int(v), end))
                        } else {
                            Some((JsonV::NumOther, end))
                        }
                    } else {
                        Some((JsonV::NumOther, end))
                    }
                },
                None => None,
            }
        }
    }
}

/// All characters of a digit run are digits, and each prefix of the run
/// has the run's suffix count.
proof fn lemma_digit_count_split(s: Seq<char>, i: int, j: int)
    requires
        0 <= i <= j,
        j - i <= digit_count(s, i),
    ensures
        digit_count(s, j) == digit_count(s, i) - (j - i),
        j < i + digit_count(s, i) ==> is_digit(s[j]),
    decreases j - i,
{
    if j > i {
        lemma_digit_count_split(s, i + 1, j);
    }
}

/// Executable mirror of [`sp_num_exp`].
fn parse_num_exp(s: &Vec<char>, pos: usize) -> (r: Option<usize>)
    requires
        pos <= s@.len(),
    ensures
        (r is Some) == (sp_num_exp(s@, pos as int) is Some),
        r matches Some(e) ==> sp_num_exp(s@, pos as int) == Some(e as int) && pos <= e
            <= s@.len(),
{
    let n: usize = s.len();
    if pos < n && (s[pos] == 'e' || s[pos] == 'E') {
        let q: usize = if pos + 1 < n && (s[pos + 1] == '+' || s[pos + 1] == '-') {
            pos + 2
        } else {
            pos + 1
        };
        let e: usize = digit_run(s, q);
        if e == q {
            None
        } else {
            Some(e)
        }
    } else {
        Some(pos)
    }
}

/// Executable mirror of [`sp_num_tail`].
fn parse_num_tail(s: &Vec<char>, pos: usize) -> (r: Option<(bool, usize)>)
    requires
        pos <= s@.len(),
    ensures
        (r is Some) == (sp_num_tail(s@, pos as int) is Some),
        r matches Some((plain, e)) ==> sp_num_tail(s@, pos as int) == Some((plain, e as int))
            && pos <= e <= s@.len(),
{
    let n: usize = s.len();
    if pos < n && s[pos] == '.' {
        let e1: usize = digit_run(s, pos + 1);
        if e1 == pos + 1 {
            None
        } else {
            match parse_num_exp(s, e1) {
                Some(e) => Some((false, e)),
                None => None,
            }
        }
    } else {
        match parse_num_exp(s, pos) {
            Some(e) => Some((e == pos, e)),
            None => None,
        }
    }
}

/// Executable mirror of [`sp_number`].
fn parse_number(s: &Vec<char>, i: usize) -> (r: Option<(Json, usize)>)
    requires
        i <= s@.len(),
    ensures
        (r is Some) == (sp_number(s@, i as int) is Some),
        r matches Some((v, e)) ==> sp_number(s@, i as int) == Some((v@, e as int)) && i < e
            <= s@.len(),
{
    let n: usize = s.len();
    if i >= n {
        return None;
    }
    let neg: bool = s[i] == '-';
    let d0: usize = if neg {
        i + 1
    } else {
        i
    };
    let e0: usize = digit_run(s, d0);
    if e0 == d0 {
        return None;
    }
    if s[d0] == '0' && e0 - d0 > 1 {
        return None;
    }
    // Accumulate the integer digits; past 2^63 only "too big" matters.
    let mut acc: u128 = 0;
    let mut big: bool = false;
    let mut j: usize = d0;
    proof {
        lemma_digit_count_split(s@, d0 as int, d0 as int);
    }
    while j < e0
        invariant
            d0 <= j <= e0 <= s@.len(),
            e0 == d0 + digit_count(s@, d0 as int),
            digit_count(s@, j as int) == e0 - j,
            forall|t: int|
                0 <= t < j - d0 ==> #[trigger] is_digit(s@[d0 + t]),
            !big ==> acc == digits_val(s@, d0 as int, j - d0) && acc <= spec_i64_mag(),
            big ==> digits_val(s@, d0 as int, j - d0) > spec_i64_mag(),
        decreases e0 - j,
    {
        proof {
            assert(is_digit(s@[j as int]));
            assert(s@[d0 + (j - d0)] == s@[j as int]);
        }
        let d: u32 = s[j] as u32 - '0' as u32;
        if big {
            proof {
                assert(digits_val(s@, d0 as int, (j - d0) + 1) == digits_val(
                    s@,
                    d0 as int,
                    j - d0,
                ) * 10 + (s@[d0 + (j - d0)] as u32 - '0' as u32));
                assert(digits_val(s@, d0 as int, j - d0) * 10 > spec_i64_mag());
            }
        } else {
            let t: u128 = acc * 10 + d as u128;
            proof {
                assert(digits_val(s@, d0 as int, (j - d0) + 1) == digits_val(
                    s@,
                    d0 as int,
                    j - d0,
                ) * 10 + (s@[d0 + (j - d0)] as u32 - '0' as u32));
            }
            if t > 0x8000_0000_0000_0000u128 {
                big = true;
            } else {
                acc = t;
            }
        }
        j = j + 1;
    }
    let tail = parse_num_tail(s, e0);
    match tail {
        Some((plain, end)) => {
            let v: Json = if !plain {
                Json::NumOther
            } else if big {
                Json::NumOther
            } else if neg {
                if acc == 0x8000_0000_0000_0000u128 {
                    Json::Int(i64::MIN)
                } else {
                    Json::Int(-((acc as u64) as i64))
                }
            } else {
                if acc >= 0x8000_0000_0000_0000u128 {
                    Json::NumOther
                } else {
                    Json::Int((acc as u64) as i64)
                }
            };
            Some((v, end))
        },
        None => None,
    }
}

/// Parse one JSON value at `i`, leading whitespace allowed.
pub open spec fn sp_value(s: Seq<char>, i: int) -> Option<(JsonV, int)>
    decreases s.len() - i, 0int,
{
    let j = i + ws_count(s, i);
    if i < 0 || j >= s.len() {
        None
    } else if s[j] == 'n' {
        if j + 4 <= s.len() && s[j + 1] == 'u' && s[j + 2] == 'l' && s[j + 3] == 'l' {
            Some((JsonV::Null, j + 4))
        } else {
            None
        }
    } else if s[j] == 't' {
        if j + 4 <= s.len() && s[j + 1] == 'r' && s[j + 2] == 'u' && s[j + 3] == 'e' {
            Some((JsonV::Bool(true), j + 4))
        } else {
            None
        }
    } else if s[j] == 'f' {
        if j + 5 <= s.len() && s[j + 1] == 'a' && s[j + 2] == 'l' && s[j + 3] == 's' && s[j + 4]
            == 'e' {
            Some((JsonV::Bool(false), j + 5))
        } else {
            None
        }
    } else if s[j] == '"' {
        match sp_str_body(s, j + 1) {
            Some((cs, e)) => Some((JsonV::Str(cs), e)),
            None => None,
        }
    } else if s[j] == '[' {
        match sp_elements(s, j + 1) {
            Some((items, e)) => Some((JsonV::Arr(items), e)),
            None => None,
        }
    } else if s[j] == '{' {
        match sp_members(s, j + 1) {
            Some((fields, e)) => Some((JsonV::Obj(fields), e)),
            None => None,
        }
    } else if s[j] == '-' || is_digit(s[j]) {
        sp_number(s, j)
    } else {
        None
    }
}

/// Parse one `"key": value` member, leading whitespace allowed.
pub open spec fn sp_member(s: Seq<char>, i: int) -> Option<((Seq<char>, JsonV), int)>
    decreases s.len() - i, 1int,
{
    let j = i + ws_count(s, i);
    if i < 0 || j >= s.len() {
        None
    } else if s[j] != '"' {
        None
    } else {
        match sp_str_body(s, j + 1) {
            Some((key, k)) => {
                if k <= j + 1 || k > s.len() {
                    None
                } else {
                    let m = k + ws_count(s, k);
                    if m >= s.len() {
                        None
                    } else if s[m] != ':' {
                        None
                    } else {
                        match sp_value(s, m + 1) {
                            Some((v, e)) => {
                                if e <= m + 1 || e > s.len() {
                                    None
                                } else {
                                    Some(((key, v), e))
                                }
                            },
                            None => None,
                        }
                    }
                }
            },
            None => None,
        }
    }
}

/// Parse the elements of an array, starting just after the `[`.
pub open spec fn sp_elements(s: Seq<char>, i: int) -> Option<(Seq<JsonV>, int)>
    decreases s.len() - i, 2int,
{
    let j = i + ws_count(s, i);
    if i < 0 || j >= s.len() {
        None
    } else if s[j] == ']' {
        Some((Seq::empty(), j + 1))
    } else {
        match sp_value(s, j) {
            Some((v, e)) => {
                if e <= j || e > s.len() {
                    None
                } else {
                    sp_arr_tail(s, e, seq![v])
                }
            },
            None => None,
        }
    }
}

/// Parse the rest of an array after at least one element.
pub open spec fn sp_arr_tail(s: Seq<char>, i: int, acc: Seq<JsonV>) -> Option<(Seq<JsonV>, int)>
    decreases s.len() - i, 3int,
{
    let j = i + ws_count(s, i);
    if i < 0 || j >= s.len() {
        None
    } else if s[j] == ']' {
        Some((acc, j + 1))
    } else if s[j] == ',' {
        match sp_value(s, j + 1) {
            Some((v, e)) => {
                if e <= j + 1 || e > s.len() {
                    None
                } else {
                    sp_arr_tail(s, e, acc.push(v))
                }
            },
            None => None,
        }
    } else {
        None
    }
}

/// Parse the members of an object, starting just after the `{`.
pub open spec fn sp_members(s: Seq<char>, i: int) -> Option<(Seq<(Seq<char>, JsonV)>, int)>
    decreases s.len() - i, 2int,
{
    let j = i + ws_count(s, i);
    if i < 0 || j >= s.len() {
        None
    } else if s[j] == '}' {
        Some((Seq::empty(), j + 1))
    } else {
        match sp_member(s, j) {
            Some(((key, v), e)) => {
                if e <= j || e > s.len() {
                    None
                } else {
                    sp_obj_tail(s, e, seq![(key, v)])
                }
            },
            None => None,
        }
    }
}

/// Parse the rest of an object after at least one member.
pub open spec fn sp_obj_tail(s: Seq<char>, i: int, acc: Seq<(Seq<char>, JsonV)>) -> Option<
    (Seq<(Seq<char>, JsonV)>, int),
>
    decreases s.len() - i, 3int,
{
    let j = i + ws_count(s, i);
    if i < 0 || j >= s.len() {
        None
    } else if s[j] == '}' {
        Some((acc, j + 1))
    } else if s[j] == ',' {
        match sp_member(s, j + 1) {
            Some(((key, v), e)) => {
                if e <= j + 1 || e > s.len() {
                    None
                } else {
                    sp_obj_tail(s, e, acc.push((key, v)))
                }
            },
            None => None,
        }
    } else {
        None
    }
}

/// Parse a whole frame: one value, with whitespace around it and nothing
/// else.
pub open spec fn sp_json(s: Seq<char>) -> Option<JsonV> {
    match sp_value(s, 0) {
        Some((v, e)) => {
            if 0 <= e <= s.len() && e + ws_count(s, e) == s.len() {
                Some(v)
            } else {
                None
            }
        },
        None => None,
    }
}

/// Executable mirror of [`sp_value`].
fn parse_value(s: &Vec<char>, i: usize) -> (r: Option<(Json, usize)>)
    requires
        i <= s@.len(),
    ensures
        (r is Some) == (sp_value(s@, i as int) is Some),
        r matches Some((v, e)) ==> sp_value(s@, i as int) == Some((v@, e as int)) && e
            <= s@.len(),
    decreases s@.len() - i, 0int,
{
    let n: usize = s.len();
    let j: usize = skip_ws(s, i);
    if j >= n {
        return None;
    }
    let c: char = s[j];
    if c == 'n' {
        if n - j >= 4 && s[j + 1] == 'u' && s[j + 2] == 'l' && s[j + 3] == 'l' {
            Some((Json::Null, j + 4))
        } else {
            None
        }
    } else if c == 't' {
        if n - j >= 4 && s[j + 1] == 'r' && s[j + 2] == 'u' && s[j + 3] == 'e' {
            Some((Json::Bool(true), j + 4))
        } else {
            None
        }
    } else if c == 'f' {
        if n - j >= 5 && s[j + 1] == 'a' && s[j + 2] == 'l' && s[j + 3] == 's' && s[j + 4]
            == 'e' {
            Some((Json::Bool(false), j + 5))
        } else {
            None
        }
    } else if c == '"' {
        match parse_str_body(s, j + 1) {
            Some((body, e)) => Some((Json::Str(body), e)),
            None => None,
        }
    } else if c == '[' {
        match parse_elements(s, j + 1) {
            Some((items, e)) => Some((Json::Arr(items), e)),
            None => None,
        }
    } else if c == '{' {
        match parse_members(s, j + 1) {
            Some((fields, e)) => Some((Json::Obj(fields), e)),
            None => None,
        }
    } else if c == '-' || is_digit_exec(c) {
        parse_number(s, j)
    } else {
        None
    }
}

/// Executable mirror of [`sp_member`].
fn parse_member(s: &Vec<char>, i: usize) -> (r: Option<((String, Json), usize)>)
    requires
        i <= s@.len(),
    ensures
        (r is Some) == (sp_member(s@, i as int) is Some),
        r matches Some(((key, v), e)) ==> sp_member(s@, i as int) == Some(
            ((key@, v@), e as int),
        ) && e <= s@.len(),
    decreases s@.len() - i, 1int,
{
    let n: usize = s.len();
    let j: usize = skip_ws(s, i);
    if j >= n {
        return None;
    }
    if s[j] != '"' {
        return None;
    }
    match parse_str_body(s, j + 1) {
        Some((key, k)) => {
            if k <= j + 1 || k > n {
                return None;
            }
            let m: usize = skip_ws(s, k);
            if m >= n {
                return None;
            }
            if s[m] != ':' {
                return None;
            }
            match parse_value(s, m + 1) {
                Some((v, e)) => {
                    if e <= m + 1 || e > n {
                        None
                    } else {
                        Some(((key, v), e))
                    }
                },
                None => None,
            }
        },
        None => None,
    }
}

/// Executable mirror of [`sp_elements`].
fn parse_elements(s: &Vec<char>, i: usize) -> (r: Option<(Vec<Json>, usize)>)
    requires
        i <= s@.len(),
    ensures
        (r is Some) == (sp_elements(s@, i as int) is Some),
        r matches Some((items, e)) ==> sp_elements(s@, i as int) == Some(
            (views(items@), e as int),
        ) && e <= s@.len(),
    decreases s@.len() - i, 2int,
{
    let n: usize = s.len();
    let j: usize = skip_ws(s, i);
    if j >= n {
        return None;
    }
    if s[j] == ']' {
        let items: Vec<Json> = Vec::new();
        proof {
            assert(views(items@) =~= Seq::<JsonV>::empty());
        }
        return Some((items, j + 1));
    }
    match parse_value(s, j) {
        Some((v, e)) => {
            if e <= j || e > n {
                return None;
            }
            let mut items: Vec<Json> = Vec::new();
            let ghost v_view = v@;
            items.push(v);
            proof {
                assert(views(items@) =~= seq![v_view]);
            }
            parse_arr_tail(s, e, items)
        },
        None => None,
    }
}

/// Executable mirror of [`sp_arr_tail`].
fn parse_arr_tail(s: &Vec<char>, i: usize, acc: Vec<Json>) -> (r: Option<(Vec<Json>, usize)>)
    requires
        i <= s@.len(),
    ensures
        (r is Some) == (sp_arr_tail(s@, i as int, views(acc@)) is Some),
        r matches Some((items, e)) ==> sp_arr_tail(s@, i as int, views(acc@)) == Some(
            (views(items@), e as int),
        ) && e <= s@.len(),
    decreases s@.len() - i, 3int,
{
    let n: usize = s.len();
    let j: usize = skip_ws(s, i);
    if j >= n {
        return None;
    }
    if s[j] == ']' {
        return Some((acc, j + 1));
    }
    if s[j] == ',' {
        match parse_value(s, j + 1) {
            Some((v, e)) => {
                if e <= j + 1 || e > n {
                    return None;
                }
                let mut acc2: Vec<Json> = acc;
                let ghost acc_view = views(acc2@);
                let ghost v_view = v@;
                acc2.push(v);
                proof {
                    assert(views(acc2@) =~= acc_view.push(v_view));
                }
                parse_arr_tail(s, e, acc2)
            },
            None => None,
        }
    } else {
        None
    }
}

/// Executable mirror of [`sp_members`].
fn parse_members(s: &Vec<char>, i: usize) -> (r: Option<(Vec<(String, Json)>, usize)>)
    requires
        i <= s@.len(),
    ensures
        (r is Some) == (sp_members(s@, i as int) is Some),
        r matches Some((fields, e)) ==> sp_members(s@, i as int) == Some(
            (field_views(fields@), e as int),
        ) && e <= s@.len(),
    decreases s@.len() - i, 2int,
{
    let n: usize = s.len();
    let j: usize = skip_ws(s, i);
    if j >= n {
        return None;
    }
    if s[j] == '}' {
        let fields: Vec<(String, Json)> = Vec::new();
        proof {
            assert(field_views(fields@) =~= Seq::<(Seq<char>, JsonV)>::empty());
        }
        return Some((fields, j + 1));
    }
    match parse_member(s, j) {
        Some(((key, v), e)) => {
            if e <= j || e > n {
                return None;
            }
            let mut fields: Vec<(String, Json)> = Vec::new();
            let ghost key_view = key@;
            let ghost v_view = v@;
            fields.push((key, v));
            proof {
                assert(field_views(fields@) =~= seq![(key_view, v_view)]);
            }
            parse_obj_tail(s, e, fields)
        },
        None => None,
    }
}

/// Executable mirror of [`sp_obj_tail`].
fn parse_obj_tail(s: &Vec<char>, i: usize, acc: Vec<(String, Json)>) -> (r: Option<
    (Vec<(String, Json)>, usize),
>)
    requires
        i <= s@.len(),
    ensures
        (r is Some) == (sp_obj_tail(s@, i as int, field_views(acc@)) is Some),
        r matches Some((fields, e)) ==> sp_obj_tail(s@, i as int, field_views(acc@)) == Some(
            (field_views(fields@), e as int),
        ) && e <= s@.len(),
    decreases s@.len() - i, 3int,
{
    let n: usize = s.len();
    let j: usize = skip_ws(s, i);
    if j >= n {
        return None;
    }
    if s[j] == '}' {
        return Some((acc, j + 1));
    }
    if s[j] == ',' {
        match parse_member(s, j + 1) {
            Some(((key, v), e)) => {
                if e <= j + 1 || e > n {
                    return None;
                }
                let mut acc2: Vec<(String, Json)> = acc;
                let ghost acc_view = field_views(acc2@);
                let ghost key_view = key@;
                let ghost v_view = v@;
                acc2.push((key, v));
                proof {
                    assert(field_views(acc2@) =~= acc_view.push((key_view, v_view)));
                }
                parse_obj_tail(s, e, acc2)
            },
            None => None,
        }
    } else {
        None
    }
}

/// Parse a whole text frame into a JSON value; `None` on any malformed
/// input.
pub fn parse_json(s: &Vec<char>) -> (r: Option<Json>)
    ensures
        (r is Some) == (sp_json(s@) is Some),
        r matches Some(v) ==> sp_json(s@) == Some(v@),
{
    let n: usize = s.len();
    match parse_value(s, 0) {
        Some((v, e)) => {
            let w: usize = skip_ws(s, e);
            if w == n {
                Some(v)
            } else {
                None
            }
        },
        None => None,
    }
}

/// The characters of a string, for handing a text frame to the parser.
pub fn str_to_chars(s: &str) -> (r: Vec<char>)
    ensures
        r@ == s@,
{
    let n: usize = s.unicode_len();
    let mut r: Vec<char> = Vec::new();
    let mut i: usize = 0;
    while i < n
        invariant
            i <= n == s@.len(),
            r@ == s@.subrange(0, i as int),
        decreases n - i,
    {
        r.push(s.get_char(i));
        i = i + 1;
        proof {
            assert(r@ =~= s@.subrange(0, i as int));
        }
    }
    proof {
        assert(r@ =~= s@);
    }
    r
}

} // verus!
