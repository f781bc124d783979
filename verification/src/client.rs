//! Query construction and response decoding for the two endpoints, and the
//! library's error taxonomy.
use vstd::prelude::*;
use vstd::string::StringExecFns;
use crate::datetime::{DateTime, datetime_valid};
use crate::json::{parse_json, parse_json_s, push_char};
use crate::sl::{
    FindResponse, FindResponseV, Station, StationV, TravelResponse, TravelResponseV,
    find_response_of, travel_response_of,
};

verus! {

broadcast use vstd::slice::group_slice_axioms;

/// The time constraint of an itinerary query.
#[derive(Clone, Copy, Debug, PartialEq, Eq, Structural)]
pub enum TravelOption {
    Arrival(DateTime),
    Departure(DateTime),
    Now,
}

/// Why a query failed: the transport failed, the response did not decode,
/// or the service itself rejected the query and said why.
#[derive(Clone, Debug, PartialEq, Eq)]
pub enum Error {
    Network(String),
    ResponseError,
    InputError(String),
}

/// A constraint whose embedded instant, if any, is a real date and time.
pub open spec fn opt_times_valid(o: TravelOption) -> bool {
    match o {
        TravelOption::Now => true,
        TravelOption::Departure(dt) => datetime_valid(dt),
        TravelOption::Arrival(dt) => datetime_valid(dt),
    }
}

pub open spec fn digit_char(d: int) -> char {
    ((48 + d) as u8) as char
}

pub open spec fn hex_upper(d: int) -> char {
    if d < 10 {
        ((48 + d) as u8) as char
    } else {
        ((55 + d) as u8) as char
    }
}

/// A byte of a path segment that travels unescaped.
pub open spec fn unreserved(b: u8) -> bool {
    (48 <= b <= 57) || (65 <= b <= 90) || (97 <= b <= 122) || b == 45 || b == 95 || b == 46 || b
        == 126
}

/// How one byte appears in an escaped path segment.
pub open spec fn byte_token(b: u8) -> Seq<char> {
    if unreserved(b) {
        seq![b as char]
    } else {
        seq!['%', hex_upper(b as int / 16), hex_upper(b as int % 16)]
    }
}

pub open spec fn esc_bytes(bs: Seq<u8>) -> Seq<char>
    decreases bs.len(),
{
    if bs.len() == 0 {
        Seq::empty()
    } else {
        esc_bytes(bs.drop_last()) + byte_token(bs.last())
    }
}

/// A percent-escaped path segment: the text's UTF-8 bytes, unreserved ones
/// kept, every other one as `%` and two upper-case hex digits.
pub open spec fn escaped(s: Seq<char>) -> Seq<char> {
    esc_bytes(vstd::utf8::encode_utf8(s))
}

/// Percent-escapes a path segment.
pub fn escape_component(t: &str) -> (r: String)
    ensures
        r@ == escaped(t@),
{
    let bs = t.as_bytes();
    let mut out = String::new();
    let mut n: usize = 0;
    while n < bs.len()
        invariant
            n <= bs@.len(),
            bs@ == vstd::utf8::encode_utf8(t@),
            out@ == esc_bytes(bs@.take(n as int)),
        decreases bs@.len() - n,
    {
        let b: u8 = match bs.get(n) {
            Option::Some(v) => *v,
            Option::None => 0,
        };
        if (48 <= b && b <= 57) || (65 <= b && b <= 90) || (97 <= b && b <= 122) || b == 45 || b
            == 95 || b == 46 || b == 126 {
            push_char(&mut out, b as char);
        } else {
            push_char(&mut out, '%');
            let hi = b / 16;
            let lo = b % 16;
            if hi < 10 {
                push_char(&mut out, (48 + hi) as char);
            } else {
                push_char(&mut out, (55 + hi) as char);
            }
            if lo < 10 {
                push_char(&mut out, (48 + lo) as char);
            } else {
                push_char(&mut out, (55 + lo) as char);
            }
        }
        proof {
            assert(bs@.take(n + 1).drop_last() =~= bs@.take(n as int));
            assert(bs@.take(n + 1).last() == bs@[n as int]);
            assert(out@ =~= esc_bytes(bs@.take(n as int)) + byte_token(bs@[n as int]));
        }
        n = n + 1;
    }
    proof {
        assert(bs@.take(n as int) =~= bs@);
    }
    out
}

/// The decimal digits of a number, most significant first.
pub open spec fn u32_dec(n: int) -> Seq<char>
    decreases n,
{
    if n < 10 {
        seq![digit_char(n)]
    } else {
        u32_dec(n / 10).push(digit_char(n % 10))
    }
}

/// Writes a number in decimal.
pub fn u32_dec_x(n: u32) -> (r: String)
    ensures
        r@ == u32_dec(n as int),
    decreases n,
{
    if n < 10 {
        let mut s = String::new();
        push_char(&mut s, (48 + n as u8) as char);
        s
    } else {
        let mut s = u32_dec_x(n / 10);
        push_char(&mut s, (48 + (n % 10) as u8) as char);
        s
    }
}

/// A wire-format instant for the itinerary path: `"YYYY-MM-DD HH_MM"`,
/// with the literal underscore the service expects between hour and
/// minute.
pub open spec fn dt_wire(dt: DateTime) -> Seq<char> {
    seq![
        digit_char(dt.date.year as int / 1000),
        digit_char((dt.date.year as int / 100) % 10),
        digit_char((dt.date.year as int / 10) % 10),
        digit_char(dt.date.year as int % 10),
        '-',
        digit_char(dt.date.month as int / 10),
        digit_char(dt.date.month as int % 10),
        '-',
        digit_char(dt.date.day as int / 10),
        digit_char(dt.date.day as int % 10),
        ' ',
        digit_char(dt.time.hour as int / 10),
        digit_char(dt.time.hour as int % 10),
        '_',
        digit_char(dt.time.minute as int / 10),
        digit_char(dt.time.minute as int % 10),
    ]
}

/// Writes a wire-format instant.
pub fn dt_wire_x(dt: &DateTime) -> (r: String)
    requires
        datetime_valid(*dt),
    ensures
        r@ == dt_wire(*dt),
{
    let y = dt.date.year as u32;
    let mut s = String::new();
    push_char(&mut s, (48 + (y / 1000) as u8) as char);
    push_char(&mut s, (48 + ((y / 100) % 10) as u8) as char);
    push_char(&mut s, (48 + ((y / 10) % 10) as u8) as char);
    push_char(&mut s, (48 + (y % 10) as u8) as char);
    push_char(&mut s, '-');
    push_char(&mut s, (48 + dt.date.month / 10) as char);
    push_char(&mut s, (48 + dt.date.month % 10) as char);
    push_char(&mut s, '-');
    push_char(&mut s, (48 + dt.date.day / 10) as char);
    push_char(&mut s, (48 + dt.date.day % 10) as char);
    push_char(&mut s, ' ');
    push_char(&mut s, (48 + dt.time.hour / 10) as char);
    push_char(&mut s, (48 + dt.time.hour % 10) as char);
    push_char(&mut s, '_');
    push_char(&mut s, (48 + dt.time.minute / 10) as char);
    push_char(&mut s, (48 + dt.time.minute % 10) as char);
    proof {
        assert(s@ =~= dt_wire(*dt));
    }
    s
}

/// The station lookup URL for a free-text term.
pub open spec fn find_url_s(term: Seq<char>) -> Seq<char> {
    "http://sl.se/api/TypeAhead/Find/"@ + escaped(term)
}

/// Builds the station lookup URL, the search term escaped.
pub fn find_url(term: &str) -> (r: String)
    ensures
        r@ == find_url_s(term@),
{
    let esc = escape_component(term);
    String::from_str("http://sl.se/api/TypeAhead/Find/").concat(esc.as_str())
}

/// The itinerary URL for two stations and a time constraint: origin name
/// and site identifier, then destination name and site identifier, then
/// the constraint's instant and direction, if any.
pub open spec fn travel_url_s(f: StationV, t: StationV, o: TravelOption) -> Seq<char> {
    let base = "http://sl.se/api/sv/TravelPlanner/SearchTravelById/"@ + escaped(f.name) + "/"@
        + u32_dec(f.site_id as int) + "/"@ + escaped(t.name) + "/"@ + u32_dec(t.site_id as int);
    match o {
        TravelOption::Now => base,
        TravelOption::Departure(dt) => base + "/"@ + dt_wire(dt) + "/depart/"@,
        TravelOption::Arrival(dt) => base + "/"@ + dt_wire(dt) + "/arrive/"@,
    }
}

/// Builds the itinerary URL, the station names escaped.
pub fn travel_url(from: &Station, to: &Station, opt: &TravelOption) -> (r: String)
    requires
        opt_times_valid(*opt),
    ensures
        r@ == travel_url_s(from@, to@, *opt),
{
    let mut s = String::from_str("http://sl.se/api/sv/TravelPlanner/SearchTravelById/");
    let e1 = escape_component(from.Name.as_str());
    s.append(e1.as_str());
    s.append("/");
    let d1 = u32_dec_x(from.SiteId);
    s.append(d1.as_str());
    s.append("/");
    let e2 = escape_component(to.Name.as_str());
    s.append(e2.as_str());
    s.append("/");
    let d2 = u32_dec_x(to.SiteId);
    s.append(d2.as_str());
    match opt {
        TravelOption::Now => {},
        TravelOption::Departure(dt) => {
            s.append("/");
            let w = dt_wire_x(dt);
            s.append(w.as_str());
            s.append("/depart/");
        },
        TravelOption::Arrival(dt) => {
            s.append("/");
            let w = dt_wire_x(dt);
            s.append(w.as_str());
            s.append("/arrive/");
        },
    }
    proof {
        assert(s@ =~= travel_url_s(from@, to@, *opt));
    }
    s
}

/// The constraint a query runs under, from the resolved departure and
/// arrival instants: an unresolved or absent instant never fails the
/// query, it falls back to `Now`; a resolved departure wins over a
/// resolved arrival, as the command line forbids giving both.
pub fn travel_option_of(depart: Option<DateTime>, arrive: Option<DateTime>) -> (r: TravelOption)
    ensures
        match (depart, arrive) {
            (Option::Some(d), _) => r == TravelOption::Departure(d),
            (Option::None, Option::Some(a)) => r == TravelOption::Arrival(a),
            (Option::None, Option::None) => r == TravelOption::Now,
        },
{
    match (depart, arrive) {
        (Option::Some(d), _) => TravelOption::Departure(d),
        (Option::None, Option::Some(a)) => TravelOption::Arrival(a),
        (Option::None, Option::None) => TravelOption::Now,
    }
}

/// What a station-lookup body decodes to, if anything.
pub open spec fn find_decoded(s: Seq<char>) -> Option<FindResponseV> {
    match parse_json_s(s) {
        Option::None => Option::None,
        Option::Some(v) => find_response_of(v),
    }
}

/// Decodes a station-lookup body; a body that is not a well-formed
/// envelope is a decode failure, exactly then.
pub fn find_from_body(body: &str) -> (r: Result<FindResponse, Error>)
    ensures
        match r {
            Result::Ok(fr) => find_decoded(body@) == Option::Some(fr@),
            Result::Err(e) => find_decoded(body@) is None && e == Error::ResponseError,
        },
{
    match parse_json(body) {
        Option::None => Result::Err(Error::ResponseError),
        Option::Some(j) => match crate::sl::find_response_of_x(&j) {
            Option::Some(fr) => Result::Ok(fr),
            Option::None => Result::Err(Error::ResponseError),
        },
    }
}

/// What an itinerary body decodes to, if anything.
pub open spec fn travel_decoded(s: Seq<char>) -> Option<TravelResponseV> {
    match parse_json_s(s) {
        Option::None => Option::None,
        Option::Some(v) => travel_response_of(v),
    }
}

/// Decodes an itinerary body and inspects the service's own error field:
/// a decoded payload that carries an error is a rejected query, with the
/// service's message, and never a success - decode success and semantic
/// success are independent. Only an error-free payload is returned.
pub fn travel_from_body(body: &str) -> (r: Result<TravelResponse, Error>)
    ensures
        match r {
            Result::Ok(tr) => travel_decoded(body@) == Option::Some(tr@) && tr@.data.error is None,
            Result::Err(e) => match e {
                Error::ResponseError => travel_decoded(body@) is None,
                Error::InputError(m) => {
                    &&& travel_decoded(body@) matches Option::Some(tv)
                    &&& tv.data.error matches Option::Some(err)
                    &&& m@ == err.message
                },
                Error::Network(_) => false,
            },
        },
{
    match parse_json(body) {
        Option::None => Result::Err(Error::ResponseError),
        Option::Some(j) => match crate::sl::travel_response_of_x(&j) {
            Option::None => Result::Err(Error::ResponseError),
            Option::Some(tr) => match tr.is_error() {
                Option::Some(m) => Result::Err(Error::InputError(m)),
                Option::None => Result::Ok(tr),
            },
        },
    }
}

} // verus!
