//! A small JSON value model and decoder for the service's response bodies.
use vstd::prelude::*;
use vstd::string::StrSliceExecFns;
use vstd::string::StringExecFns;

verus! {

broadcast use vstd::std_specs::vec::group_vec_axioms;

/// A decoded JSON value. The envelopes carry only unsigned integers, so
/// those are modeled as numbers; any other numeric form is consumed and
/// kept as its raw lexeme, unmodeled.
pub enum Json {
    Null,
    Bool(bool),
    Num(u64),
    NumRaw(String),
    Str(String),
    Arr(Vec<Json>),
    Obj(Vec<(String, Json)>),
}

/// The mathematical model of a JSON value: strings as character sequences.
pub enum JsonV {
    Null,
    Bool(bool),
    Num(u64),
    NumRaw(Seq<char>),
    Str(Seq<char>),
    Arr(Seq<JsonV>),
    Obj(Seq<(Seq<char>, JsonV)>),
}

/// The model of a decoded value.
pub open spec fn view_of(j: Json) -> JsonV
    decreases j,
{
    match j {
        Json::Null => JsonV::Null,
        Json::Bool(b) => JsonV::Bool(b),
        Json::Num(n) => JsonV::Num(n),
        Json::NumRaw(s) => JsonV::NumRaw(s@),
        Json::Str(s) => JsonV::Str(s@),
        Json::Arr(a) => JsonV::Arr(views_of(a@)),
        Json::Obj(o) => JsonV::Obj(member_views_of(o@)),
    }
}

/// The models of a sequence of decoded values, element by element.
pub open spec fn views_of(s: Seq<Json>) -> Seq<JsonV>
    decreases s,
{
    if s.len() == 0 {
        Seq::empty()
    } else {
        views_of(s.drop_last()).push(view_of(s.last()))
    }
}

/// The models of a sequence of object members, element by element.
pub open spec fn member_views_of(s: Seq<(String, Json)>) -> Seq<(Seq<char>, JsonV)>
    decreases s,
{
    if s.len() == 0 {
        Seq::empty()
    } else {
        member_views_of(s.drop_last()).push((s.last().0@, view_of(s.last().1)))
    }
}

pub proof fn lemma_views_push(t: Seq<Json>, x: Json)
    ensures
        views_of(t.push(x)) == views_of(t).push(view_of(x)),
{
    assert(t.push(x).drop_last() =~= t);
    assert(t.push(x).last() == x);
}

pub proof fn lemma_member_views_push(t: Seq<(String, Json)>, x: (String, Json))
    ensures
        member_views_of(t.push(x)) == member_views_of(t).push((x.0@, view_of(x.1))),
{
    assert(t.push(x).drop_last() =~= t);
    assert(t.push(x).last() == x);
}

pub proof fn lemma_views_of(s: Seq<Json>)
    ensures
        views_of(s).len() == s.len(),
        forall|i: int| 0 <= i < s.len() ==> views_of(s)[i] == view_of(s[i]),
    decreases s.len(),
{
    if s.len() > 0 {
        lemma_views_of(s.drop_last());
    }
}

pub proof fn lemma_member_views_of(s: Seq<(String, Json)>)
    ensures
        member_views_of(s).len() == s.len(),
        forall|i: int| 0 <= i < s.len() ==> member_views_of(s)[i] == (s[i].0@, view_of(s[i].1)),
    decreases s.len(),
{
    if s.len() > 0 {
        lemma_member_views_of(s.drop_last());
    }
}

pub open spec fn is_ws(c: char) -> bool {
    c == ' ' || c == '\n' || c == '\r' || c == '\t'
}

pub open spec fn is_digit_c(c: char) -> bool {
    48 <= c as u32 <= 57
}

pub open spec fn digit_of(c: char) -> int {
    c as u32 - 48
}

pub open spec fn is_hex_c(c: char) -> bool {
    (48 <= c as u32 <= 57) || (65 <= c as u32 <= 70) || (97 <= c as u32 <= 102)
}

pub open spec fn hex_val(c: char) -> int {
    if 48 <= c as u32 <= 57 {
        c as u32 - 48
    } else if 65 <= c as u32 <= 70 {
        c as u32 - 55
    } else {
        c as u32 - 87
    }
}

/// The first position at or after `i` that holds no whitespace.
pub open spec fn skip_ws_s(s: Seq<char>, i: int) -> int
    decreases s.len() - i,
{
    if i < s.len() && is_ws(s[i]) {
        skip_ws_s(s, i + 1)
    } else {
        i
    }
}

/// What a backslash escape stands for; unsupported escapes end the parse.
pub open spec fn esc_char(c: char) -> Option<char> {
    if c == '"' {
        Option::Some('"')
    } else if c == '\\' {
        Option::Some('\\')
    } else if c == '/' {
        Option::Some('/')
    } else if c == 'n' {
        Option::Some('\n')
    } else if c == 't' {
        Option::Some('\t')
    } else if c == 'r' {
        Option::Some('\r')
    } else if c == 'b' {
        Option::Some('\u{8}')
    } else if c == 'f' {
        Option::Some('\u{c}')
    } else {
        Option::None
    }
}

/// The characters of a string literal read from just after its opening
/// quote, and the position just after its closing quote. A `\\u` escape
/// carries four hex digits; a surrogate value there ends the parse.
pub open spec fn str_chars_s(s: Seq<char>, i: int, acc: Seq<char>) -> Option<(Seq<char>, int)>
    decreases s.len() - i,
{
    if i < s.len() {
        let c = s[i];
        if c == '"' {
            Option::Some((acc, i + 1))
        } else if c == '\\' {
            if i + 1 < s.len() {
                if s[i + 1] == 'u' {
                    if s.len() - i >= 6 && is_hex_c(s[i + 2]) && is_hex_c(s[i + 3]) && is_hex_c(
                        s[i + 4],
                    ) && is_hex_c(s[i + 5]) {
                        let cp = 4096 * hex_val(s[i + 2]) + 256 * hex_val(s[i + 3]) + 16 * hex_val(
                            s[i + 4],
                        ) + hex_val(s[i + 5]);
                        if 0xD800 <= cp <= 0xDFFF {
                            Option::None
                        } else {
                            str_chars_s(s, i + 6, acc.push(cp as char))
                        }
                    } else {
                        Option::None
                    }
                } else {
                    match esc_char(s[i + 1]) {
                        Option::Some(e) => str_chars_s(s, i + 2, acc.push(e)),
                        Option::None => Option::None,
                    }
                }
            } else {
                Option::None
            }
        } else if c as u32 >= 32 {
            str_chars_s(s, i + 1, acc.push(c))
        } else {
            Option::None
        }
    } else {
        Option::None
    }
}

/// A quoted string literal starting at `i`.
pub open spec fn parse_string_s(s: Seq<char>, i: int) -> Option<(Seq<char>, int)> {
    if i < s.len() && s[i] == '"' {
        str_chars_s(s, i + 1, Seq::empty())
    } else {
        Option::None
    }
}

/// The first position at or after `i` that holds no decimal digit.
pub open spec fn digit_run_end(s: Seq<char>, i: int) -> int
    decreases s.len() - i,
{
    if i < s.len() && is_digit_c(s[i]) {
        digit_run_end(s, i + 1)
    } else {
        i
    }
}

/// The value of the digits in positions `i` up to `j`.
pub open spec fn digits_val(s: Seq<char>, i: int, j: int) -> int
    decreases j - i,
{
    if j <= i {
        0
    } else {
        10 * digits_val(s, i, j - 1) + digit_of(s[j - 1])
    }
}

pub proof fn lemma_digit_run(s: Seq<char>, i: int)
    requires
        0 <= i <= s.len(),
    ensures
        i <= digit_run_end(s, i) <= s.len(),
        forall|q: int| i <= q < digit_run_end(s, i) ==> is_digit_c(s[q]),
        i < s.len() && is_digit_c(s[i]) ==> digit_run_end(s, i) >= i + 1,
    decreases s.len() - i,
{
    if i < s.len() && is_digit_c(s[i]) {
        lemma_digit_run(s, i + 1);
    }
}

pub proof fn lemma_digits_val_nonneg(s: Seq<char>, i: int, j: int)
    requires
        forall|q: int| i <= q < j ==> is_digit_c(s[q]),
    ensures
        digits_val(s, i, j) >= 0,
    decreases j - i,
{
    if j > i {
        lemma_digits_val_nonneg(s, i, j - 1);
    }
}

/// The end of a number lexeme starting at `i`: an optional minus, an
/// integer part, an optional fraction, an optional exponent, as JSON
/// writes numbers; nothing where the shape is broken.
pub open spec fn num_lex_end(s: Seq<char>, i: int) -> Option<int> {
    let j = if i < s.len() && s[i] == '-' {
        i + 1
    } else {
        i
    };
    if j < s.len() && is_digit_c(s[j]) {
        let k = digit_run_end(s, j);
        let m = if k < s.len() && s[k] == '.' {
            if k + 1 < s.len() && is_digit_c(s[k + 1]) {
                Option::Some(digit_run_end(s, k + 1))
            } else {
                Option::None
            }
        } else {
            Option::Some(k)
        };
        match m {
            Option::None => Option::None,
            Option::Some(m2) => {
                if m2 < s.len() && (s[m2] == 'e' || s[m2] == 'E') {
                    let p = if m2 + 1 < s.len() && (s[m2 + 1] == '+' || s[m2 + 1] == '-') {
                        m2 + 2
                    } else {
                        m2 + 1
                    };
                    if p < s.len() && is_digit_c(s[p]) {
                        Option::Some(digit_run_end(s, p))
                    } else {
                        Option::None
                    }
                } else {
                    Option::Some(m2)
                }
            },
        }
    } else {
        Option::None
    }
}

/// A JSON number starting at `i`: a plain unsigned integer within the
/// 64-bit range becomes a modeled number; any other numeric form is
/// consumed and kept as its raw lexeme.
pub open spec fn parse_number_s(s: Seq<char>, i: int) -> Option<(JsonV, int)> {
    match num_lex_end(s, i) {
        Option::None => Option::None,
        Option::Some(end) => if i < s.len() && s[i] != '-' && end == digit_run_end(s, i)
            && digits_val(s, i, end) <= 0xFFFF_FFFF_FFFF_FFFF {
            Option::Some((JsonV::Num(digits_val(s, i, end) as u64), end))
        } else {
            Option::Some((JsonV::NumRaw(s.subrange(i, end)), end))
        },
    }
}

/// A JSON value starting exactly at `i` (no leading whitespace), and the
/// position just after it.
pub open spec fn parse_value_s(s: Seq<char>, i: int) -> Option<(JsonV, int)>
    decreases s.len() - i, 0int,
{
    if i < s.len() {
        let c = s[i];
        if c == '"' {
            match parse_string_s(s, i) {
                Option::Some((cs, k)) => Option::Some((JsonV::Str(cs), k)),
                Option::None => Option::None,
            }
        } else if is_digit_c(c) || c == '-' {
            match parse_number_s(s, i) {
                Option::Some((n, k)) => Option::Some((n, k)),
                Option::None => Option::None,
            }
        } else if c == 't' {
            if s.len() - i >= 4 && s[i + 1] == 'r' && s[i + 2] == 'u' && s[i + 3] == 'e' {
                Option::Some((JsonV::Bool(true), i + 4))
            } else {
                Option::None
            }
        } else if c == 'f' {
            if s.len() - i >= 5 && s[i + 1] == 'a' && s[i + 2] == 'l' && s[i + 3] == 's' && s[i + 4]
                == 'e' {
                Option::Some((JsonV::Bool(false), i + 5))
            } else {
                Option::None
            }
        } else if c == 'n' {
            if s.len() - i >= 4 && s[i + 1] == 'u' && s[i + 2] == 'l' && s[i + 3] == 'l' {
                Option::Some((JsonV::Null, i + 4))
            } else {
                Option::None
            }
        } else if c == '[' {
            let j = skip_ws_s(s, i + 1);
            if j < s.len() && s[j] == ']' {
                Option::Some((JsonV::Arr(Seq::empty()), j + 1))
            } else if i + 1 <= j && j <= s.len() {
                match elems_s(s, j, Seq::empty()) {
                    Option::Some((vs, k)) => Option::Some((JsonV::Arr(vs), k)),
                    Option::None => Option::None,
                }
            } else {
                Option::None
            }
        } else if c == '{' {
            let j = skip_ws_s(s, i + 1);
            if j < s.len() && s[j] == '}' {
                Option::Some((JsonV::Obj(Seq::empty()), j + 1))
            } else if i + 1 <= j && j <= s.len() {
                match members_s(s, j, Seq::empty()) {
                    Option::Some((ms, k)) => Option::Some((JsonV::Obj(ms), k)),
                    Option::None => Option::None,
                }
            } else {
                Option::None
            }
        } else {
            Option::None
        }
    } else {
        Option::None
    }
}

/// The remaining elements of a non-empty array, the first starting at `i`.
pub open spec fn elems_s(s: Seq<char>, i: int, acc: Seq<JsonV>) -> Option<(Seq<JsonV>, int)>
    decreases s.len() - i, 1int,
        when 0 <= i <= s.len()
{
    let i2 = skip_ws_s(s, i);
    if i <= i2 && i2 <= s.len() {
        match parse_value_s(s, i2) {
            Option::None => Option::None,
            Option::Some((v, k)) => if i < k {
            let j = skip_ws_s(s, k);
            if k <= j && j < s.len() && s[j] == ',' {
                elems_s(s, j + 1, acc.push(v))
            } else if k <= j && j < s.len() && s[j] == ']' {
                Option::Some((acc.push(v), j + 1))
                } else {
                    Option::None
                }
            } else {
                Option::None
            },
        }
    } else {
        Option::None
    }
}

/// The remaining members of a non-empty object, the first key starting at
/// `i`.
pub open spec fn members_s(s: Seq<char>, i: int, acc: Seq<(Seq<char>, JsonV)>) -> Option<
    (Seq<(Seq<char>, JsonV)>, int),
>
    decreases s.len() - i, 1int,
        when 0 <= i <= s.len()
{
    let i2 = skip_ws_s(s, i);
    if i <= i2 && i2 <= s.len() {
        match parse_string_s(s, i2) {
            Option::None => Option::None,
            Option::Some((key, k)) => if i < k {
            let j = skip_ws_s(s, k);
            if k <= j && j < s.len() && s[j] == ':' {
                let m = skip_ws_s(s, j + 1);
                if j + 1 <= m && m <= s.len() {
                    match parse_value_s(s, m) {
                        Option::None => Option::None,
                        Option::Some((v, p)) => if m < p {
                            let q = skip_ws_s(s, p);
                            if p <= q && q < s.len() && s[q] == ',' {
                                members_s(s, q + 1, acc.push((key, v)))
                            } else if p <= q && q < s.len() && s[q] == '}' {
                                Option::Some((acc.push((key, v)), q + 1))
                            } else {
                                Option::None
                            }
                        } else {
                            Option::None
                        },
                    }
                } else {
                    Option::None
                }
                } else {
                    Option::None
                }
            } else {
                Option::None
            },
        }
    } else {
        Option::None
    }
}

/// A complete JSON document: one value, possibly surrounded by whitespace.
pub open spec fn parse_json_s(s: Seq<char>) -> Option<JsonV> {
    let i = skip_ws_s(s, 0);
    match parse_value_s(s, i) {
        Option::None => Option::None,
        Option::Some((v, k)) => if skip_ws_s(s, k) == s.len() {
            Option::Some(v)
        } else {
            Option::None
        },
    }
}

/// Relies on std's `String::push`: appends one character at the end.
#[verifier::external_body]
pub(crate) fn push_char(s: &mut String, c: char)
    ensures
        final(s)@ == old(s)@.push(c),
{
    s.push(c);
}

/// Relies on std's `str` equality: two slices are equal exactly when their
/// character sequences are.
#[verifier::external_body]
pub(crate) fn str_eq(a: &str, b: &str) -> (r: bool)
    ensures
        r == (a@ == b@),
{
    a == b
}

fn skip_ws_x(s: &str, len: usize, i: usize) -> (r: usize)
    requires
        len as nat == s@.len(),
        i <= len,
    ensures
        r as int == skip_ws_s(s@, i as int),
        i <= r <= len,
    decreases len - i,
{
    if i < len {
        let c = s.get_char(i);
        if c == ' ' || c == '\n' || c == '\r' || c == '\t' {
            skip_ws_x(s, len, i + 1)
        } else {
            i
        }
    } else {
        i
    }
}

fn esc_char_x(c: char) -> (r: Option<char>)
    ensures
        r == esc_char(c),
{
    if c == '"' {
        Option::Some('"')
    } else if c == '\\' {
        Option::Some('\\')
    } else if c == '/' {
        Option::Some('/')
    } else if c == 'n' {
        Option::Some('\n')
    } else if c == 't' {
        Option::Some('\t')
    } else if c == 'r' {
        Option::Some('\r')
    } else if c == 'b' {
        Option::Some('\u{8}')
    } else if c == 'f' {
        Option::Some('\u{c}')
    } else {
        Option::None
    }
}

fn hex_at(s: &str, len: usize, i: usize) -> (r: Option<u8>)
    requires
        len as nat == s@.len(),
        i < len,
    ensures
        match r {
            Option::Some(v) => is_hex_c(s@[i as int]) && v as int == hex_val(s@[i as int]) && v
                < 16,
            Option::None => !is_hex_c(s@[i as int]),
        },
{
    let u = s.get_char(i) as u32;
    if 48 <= u && u <= 57 {
        Option::Some((u - 48) as u8)
    } else if 65 <= u && u <= 70 {
        Option::Some((u - 55) as u8)
    } else if 97 <= u && u <= 102 {
        Option::Some((u - 87) as u8)
    } else {
        Option::None
    }
}

/// Relies on std's `char::from_u32`: the character with the given scalar
/// value, absent exactly for surrogate and out-of-range values.
#[verifier::external_body]
fn char_from_u32_x(cp: u32) -> (r: Option<char>)
    ensures
        match r {
            Option::Some(c) => c == ((cp as int) as char) && c as u32 == cp && !(0xD800 <= cp
                <= 0xDFFF) && cp <= 0x10FFFF,
            Option::None => (0xD800 <= cp <= 0xDFFF) || cp > 0x10FFFF,
        },
{
    char::from_u32(cp)
}

fn str_chars_x(s: &str, len: usize, i: usize, acc: String) -> (r: Option<(String, usize)>)
    requires
        len as nat == s@.len(),
        i <= len,
    ensures
        match r {
            Option::Some((out, k)) => str_chars_s(s@, i as int, acc@) == Option::Some(
                (out@, k as int),
            ) && i < k <= len,
            Option::None => str_chars_s(s@, i as int, acc@) is None,
        },
    decreases len - i,
{
    if i < len {
        let c = s.get_char(i);
        if c == '"' {
            Option::Some((acc, i + 1))
        } else if c == '\\' {
            if i + 1 < len {
                let e = s.get_char(i + 1);
                if e == 'u' {
                    if len - i >= 6 {
                        let h0 = hex_at(s, len, i + 2);
                        let h1 = hex_at(s, len, i + 3);
                        let h2 = hex_at(s, len, i + 4);
                        let h3 = hex_at(s, len, i + 5);
                        match (h0, h1, h2, h3) {
                            (
                                Option::Some(a),
                                Option::Some(b),
                                Option::Some(g),
                                Option::Some(d),
                            ) => {
                                let cp: u32 = 4096 * (a as u32) + 256 * (b as u32) + 16 * (
                                g as u32) + (d as u32);
                                if 0xD800 <= cp && cp <= 0xDFFF {
                                    Option::None
                                } else {
                                    match char_from_u32_x(cp) {
                                        Option::Some(ch) => {
                                            let mut acc2 = acc;
                                            push_char(&mut acc2, ch);
                                            str_chars_x(s, len, i + 6, acc2)
                                        },
                                        Option::None => {
                                            proof {
                                                assert(false);
                                            }
                                            Option::None
                                        },
                                    }
                                }
                            },
                            _ => Option::None,
                        }
                    } else {
                        Option::None
                    }
                } else {
                    match esc_char_x(e) {
                        Option::Some(e2) => {
                            let mut acc2 = acc;
                            push_char(&mut acc2, e2);
                            str_chars_x(s, len, i + 2, acc2)
                        },
                        Option::None => Option::None,
                    }
                }
            } else {
                Option::None
            }
        } else {
            let u = c as u32;
            if u >= 32 {
                let mut acc2 = acc;
                push_char(&mut acc2, c);
                str_chars_x(s, len, i + 1, acc2)
            } else {
                Option::None
            }
        }
    } else {
        Option::None
    }
}

fn parse_string_x(s: &str, len: usize, i: usize) -> (r: Option<(String, usize)>)
    requires
        len as nat == s@.len(),
        i <= len,
    ensures
        match r {
            Option::Some((out, k)) => parse_string_s(s@, i as int) == Option::Some(
                (out@, k as int),
            ) && i < k <= len,
            Option::None => parse_string_s(s@, i as int) is None,
        },
{
    if i < len && s.get_char(i) == '"' {
        str_chars_x(s, len, i + 1, String::new())
    } else {
        Option::None
    }
}

fn digit_run_end_x(s: &str, len: usize, i: usize) -> (r: usize)
    requires
        len as nat == s@.len(),
        i <= len,
    ensures
        r as int == digit_run_end(s@, i as int),
        i <= r <= len,
    decreases len - i,
{
    if i < len {
        let u = s.get_char(i) as u32;
        if 48 <= u && u <= 57 {
            digit_run_end_x(s, len, i + 1)
        } else {
            i
        }
    } else {
        i
    }
}

fn raw_number(s: &str, len: usize, i: usize, end: usize) -> (r: String)
    requires
        len as nat == s@.len(),
        i <= end <= len,
    ensures
        r@ == s@.subrange(i as int, end as int),
{
    String::from_str(s.substring_char(i, end))
}

fn parse_number_x(s: &str, len: usize, i: usize) -> (r: Option<(Json, usize)>)
    requires
        len as nat == s@.len(),
        i <= len,
    ensures
        match r {
            Option::Some((j, k)) => parse_number_s(s@, i as int) == Option::Some(
                (view_of(j), k as int),
            ) && i < k <= len,
            Option::None => parse_number_s(s@, i as int) is None,
        },
{
    let neg = i < len && s.get_char(i) == '-';
    let j = if neg {
        i + 1
    } else {
        i
    };
    if j < len {
        let u0 = s.get_char(j) as u32;
        if 48 <= u0 && u0 <= 57 {
            proof {
                lemma_digit_run(s@, j as int);
            }
            let k = digit_run_end_x(s, len, j);
            let m: Option<usize> = if k < len && s.get_char(k) == '.' {
                if k + 1 < len {
                    let u1 = s.get_char(k + 1) as u32;
                    if 48 <= u1 && u1 <= 57 {
                        Option::Some(digit_run_end_x(s, len, k + 1))
                    } else {
                        Option::None
                    }
                } else {
                    Option::None
                }
            } else {
                Option::Some(k)
            };
            match m {
                Option::None => Option::None,
                Option::Some(m2) => {
                    let endo: Option<usize> = if m2 < len && (s.get_char(m2) == 'e' || s.get_char(
                        m2,
                    ) == 'E') {
                        let p = if m2 + 1 < len && (s.get_char(m2 + 1) == '+' || s.get_char(m2 + 1)
                            == '-') {
                            m2 + 2
                        } else {
                            m2 + 1
                        };
                        if p < len {
                            let u2 = s.get_char(p) as u32;
                            if 48 <= u2 && u2 <= 57 {
                                Option::Some(digit_run_end_x(s, len, p))
                            } else {
                                Option::None
                            }
                        } else {
                            Option::None
                        }
                    } else {
                        Option::Some(m2)
                    };
                    match endo {
                        Option::None => Option::None,
                        Option::Some(end) => {
                            if !neg && end == k {
                                let mut v: u64 = 0;
                                let mut ovf = false;
                                let mut c2: usize = i;
                                while c2 < k
                                    invariant
                                        len as nat == s@.len(),
                                        i <= c2 <= k <= len,
                                        forall|q: int| i <= q < k ==> is_digit_c(s@[q]),
                                        !ovf ==> v as int == digits_val(s@, i as int, c2 as int),
                                        ovf ==> digits_val(s@, i as int, c2 as int)
                                            > 0xFFFF_FFFF_FFFF_FFFF,
                                    decreases k - c2,
                                {
                                    let uc = s.get_char(c2) as u32;
                                    proof {
                                        assert(is_digit_c(s@[c2 as int]));
                                        lemma_digits_val_nonneg(s@, i as int, c2 as int);
                                    }
                                    let d = (uc - 48) as u64;
                                    if !ovf {
                                        if v > (0xFFFF_FFFF_FFFF_FFFFu64 - d) / 10 {
                                            ovf = true;
                                        } else {
                                            v = 10 * v + d;
                                        }
                                    }
                                    c2 = c2 + 1;
                                }
                                if ovf {
                                    Option::Some((Json::NumRaw(raw_number(s, len, i, end)), end))
                                } else {
                                    Option::Some((Json::Num(v), end))
                                }
                            } else {
                                Option::Some((Json::NumRaw(raw_number(s, len, i, end)), end))
                            }
                        },
                    }
                },
            }
        } else {
            Option::None
        }
    } else {
        Option::None
    }
}

fn parse_value_x(s: &str, len: usize, i: usize) -> (r: Option<(Json, usize)>)
    requires
        len as nat == s@.len(),
        i <= len,
    ensures
        match r {
            Option::Some((j, k)) => parse_value_s(s@, i as int) == Option::Some(
                (view_of(j), k as int),
            ) && i < k <= len,
            Option::None => parse_value_s(s@, i as int) is None,
        },
    decreases len - i, 0int,
{
    if i < len {
        let c = s.get_char(i);
        if c == '"' {
            match parse_string_x(s, len, i) {
                Option::Some((cs, k)) => Option::Some((Json::Str(cs), k)),
                Option::None => Option::None,
            }
        } else {
            let u = c as u32;
            if (48 <= u && u <= 57) || c == '-' {
                match parse_number_x(s, len, i) {
                    Option::Some((n, k)) => Option::Some((n, k)),
                    Option::None => Option::None,
                }
            } else if c == 't' {
                if len - i >= 4 && s.get_char(i + 1) == 'r' && s.get_char(i + 2) == 'u'
                    && s.get_char(i + 3) == 'e' {
                    Option::Some((Json::Bool(true), i + 4))
                } else {
                    Option::None
                }
            } else if c == 'f' {
                if len - i >= 5 && s.get_char(i + 1) == 'a' && s.get_char(i + 2) == 'l'
                    && s.get_char(i + 3) == 's' && s.get_char(i + 4) == 'e' {
                    Option::Some((Json::Bool(false), i + 5))
                } else {
                    Option::None
                }
            } else if c == 'n' {
                if len - i >= 4 && s.get_char(i + 1) == 'u' && s.get_char(i + 2) == 'l'
                    && s.get_char(i + 3) == 'l' {
                    Option::Some((Json::Null, i + 4))
                } else {
                    Option::None
                }
            } else if c == '[' {
                let j = skip_ws_x(s, len, i + 1);
                if j < len && s.get_char(j) == ']' {
                    Option::Some((Json::Arr(Vec::new()), j + 1))
                } else if i + 1 <= j && j <= len {
                    match elems_x(s, len, j, Vec::new()) {
                        Option::Some((vs, k)) => Option::Some((Json::Arr(vs), k)),
                        Option::None => Option::None,
                    }
                } else {
                    Option::None
                }
            } else if c == '{' {
                let j = skip_ws_x(s, len, i + 1);
                if j < len && s.get_char(j) == '}' {
                    Option::Some((Json::Obj(Vec::new()), j + 1))
                } else if i + 1 <= j && j <= len {
                    match members_x(s, len, j, Vec::new()) {
                        Option::Some((ms, k)) => Option::Some((Json::Obj(ms), k)),
                        Option::None => Option::None,
                    }
                } else {
                    Option::None
                }
            } else {
                Option::None
            }
        }
    } else {
        Option::None
    }
}

fn elems_x(s: &str, len: usize, i: usize, acc: Vec<Json>) -> (r: Option<(Vec<Json>, usize)>)
    requires
        len as nat == s@.len(),
        i <= len,
    ensures
        match r {
            Option::Some((vs, k)) => elems_s(s@, i as int, views_of(acc@)) == Option::Some(
                (views_of(vs@), k as int),
            ) && i < k <= len,
            Option::None => elems_s(s@, i as int, views_of(acc@)) is None,
        },
    decreases len - i, 1int,
{
    let i2 = skip_ws_x(s, len, i);
    if i <= i2 && i2 <= len {
        match parse_value_x(s, len, i2) {
            Option::None => Option::None,
            Option::Some((v, k)) => {
            if i < k {
                let j = skip_ws_x(s, len, k);
                if k <= j && j < len && s.get_char(j) == ',' {
                    let ghost old_acc = acc@;
                    let ghost vg = v;
                    let mut acc2 = acc;
                    acc2.push(v);
                    proof {
                        lemma_views_push(old_acc, vg);
                    }
                    elems_x(s, len, j + 1, acc2)
                } else if k <= j && j < len && s.get_char(j) == ']' {
                    let ghost old_acc = acc@;
                    let ghost vg = v;
                    let mut acc2 = acc;
                    acc2.push(v);
                    proof {
                        lemma_views_push(old_acc, vg);
                    }
                    Option::Some((acc2, j + 1))
                } else {
                    Option::None
                }
                } else {
                    Option::None
                }
            },
        }
    } else {
        Option::None
    }
}

fn members_x(s: &str, len: usize, i: usize, acc: Vec<(String, Json)>) -> (r: Option<
    (Vec<(String, Json)>, usize),
>)
    requires
        len as nat == s@.len(),
        i <= len,
    ensures
        match r {
            Option::Some((ms, k)) => members_s(s@, i as int, member_views_of(acc@))
                == Option::Some((member_views_of(ms@), k as int)) && i < k <= len,
            Option::None => members_s(s@, i as int, member_views_of(acc@)) is None,
        },
    decreases len - i, 1int,
{
    let i2 = skip_ws_x(s, len, i);
    if i <= i2 && i2 <= len {
        match parse_string_x(s, len, i2) {
            Option::None => Option::None,
            Option::Some((key, k)) => {
            if i < k {
                let j = skip_ws_x(s, len, k);
                if k <= j && j < len && s.get_char(j) == ':' {
                    let m = skip_ws_x(s, len, j + 1);
                    if j + 1 <= m && m <= len {
                        match parse_value_x(s, len, m) {
                            Option::None => Option::None,
                            Option::Some((v, p)) => {
                                if m < p {
                                    let q = skip_ws_x(s, len, p);
                                    if p <= q && q < len && s.get_char(q) == ',' {
                                        let ghost old_acc = acc@;
                                        let ghost kg = key;
                                        let ghost vg = v;
                                        let mut acc2 = acc;
                                        acc2.push((key, v));
                                        proof {
                                            lemma_member_views_push(old_acc, (kg, vg));
                                        }
                                        members_x(s, len, q + 1, acc2)
                                    } else if p <= q && q < len && s.get_char(q) == '}' {
                                        let ghost old_acc = acc@;
                                        let ghost kg = key;
                                        let ghost vg = v;
                                        let mut acc2 = acc;
                                        acc2.push((key, v));
                                        proof {
                                            lemma_member_views_push(old_acc, (kg, vg));
                                        }
                                        Option::Some((acc2, q + 1))
                                    } else {
                                        Option::None
                                    }
                                } else {
                                    Option::None
                                }
                            },
                        }
                    } else {
                        Option::None
                    }
                } else {
                    Option::None
                }
                } else {
                    Option::None
                }
            },
        }
    } else {
        Option::None
    }
}

/// Decodes a complete JSON document, or nothing where the text is not one.
pub fn parse_json(s: &str) -> (r: Option<Json>)
    ensures
        match r {
            Option::Some(j) => parse_json_s(s@) == Option::Some(view_of(j)),
            Option::None => parse_json_s(s@) is None,
        },
{
    let len = s.unicode_len();
    let i = skip_ws_x(s, len, 0);
    match parse_value_x(s, len, i) {
        Option::None => Option::None,
        Option::Some((v, k)) => {
            let e = skip_ws_x(s, len, k);
            if e == len {
                Option::Some(v)
            } else {
                Option::None
            }
        },
    }
}

/// The value under the first member with the given key, if any.
pub open spec fn obj_get_s(ms: Seq<(Seq<char>, JsonV)>, key: Seq<char>) -> Option<JsonV>
    decreases ms.len(),
{
    if ms.len() == 0 {
        Option::None
    } else if ms[0].0 == key {
        Option::Some(ms[0].1)
    } else {
        obj_get_s(ms.drop_first(), key)
    }
}

/// Looks a key up among an object's members, first match taken.
pub fn obj_get<'a>(ms: &'a Vec<(String, Json)>, key: &str) -> (r: Option<&'a Json>)
    ensures
        match r {
            Option::Some(j) => obj_get_s(member_views_of(ms@), key@) == Option::Some(view_of(*j)),
            Option::None => obj_get_s(member_views_of(ms@), key@) is None,
        },
{
    proof {
        lemma_member_views_of(ms@);
        assert(member_views_of(ms@).skip(0) =~= member_views_of(ms@));
    }
    let mut n: usize = 0;
    while n < ms.len()
        invariant
            n <= ms.len(),
            member_views_of(ms@).len() == ms@.len(),
            forall|i: int|
                0 <= i < ms@.len() ==> member_views_of(ms@)[i] == (ms@[i].0@, view_of(ms@[i].1)),
            obj_get_s(member_views_of(ms@), key@) == obj_get_s(
                member_views_of(ms@).skip(n as int),
                key@,
            ),
        decreases ms.len() - n,
    {
        if str_eq(ms[n].0.as_str(), key) {
            assert(member_views_of(ms@).skip(n as int)[0] == (ms@[n as int].0@, view_of(
                ms@[n as int].1,
            )));
            return Option::Some(&ms[n].1);
        }
        proof {
            assert(member_views_of(ms@).skip(n as int)[0] == (ms@[n as int].0@, view_of(
                ms@[n as int].1,
            )));
            assert(member_views_of(ms@).skip(n as int).drop_first() =~= member_views_of(
                ms@,
            ).skip(n as int + 1));
        }
        n = n + 1;
    }
    Option::None
}

} // verus!
