//! The decoded shapes of the journey-planner responses, with their models
//! and derived accessors.
#![allow(non_snake_case)]
use vstd::prelude::*;
use vstd::string::StrSliceExecFns;
use vstd::string::StringExecFns;
use crate::datetime::{Date, Time, DateTime, date_valid, time_valid, minutes_of, minutes_of_x};
use crate::json::{Json, JsonV, view_of, views_of, member_views_of, obj_get_s};

verus! {

/// One station candidate returned by the lookup endpoint.
pub struct Station {
    pub Name: String,
    pub SiteId: u32,
    pub Type: String,
}

pub struct StationV {
    pub name: Seq<char>,
    pub site_id: u32,
    pub ty: Seq<char>,
}

impl View for Station {
    type V = StationV;

    open spec fn view(&self) -> StationV {
        StationV { name: self.Name@, site_id: self.SiteId, ty: self.Type@ }
    }
}

pub open spec fn station_views(s: Seq<Station>) -> Seq<StationV> {
    Seq::new(s.len(), |i: int| s[i]@)
}

/// The envelope of the station lookup endpoint.
pub struct FindResponse {
    ms: u32,
    status: String,
    data: Vec<Station>,
}

pub struct FindResponseV {
    pub ms: u32,
    pub status: Seq<char>,
    pub data: Seq<StationV>,
}

impl View for FindResponse {
    type V = FindResponseV;

    closed spec fn view(&self) -> FindResponseV {
        FindResponseV { ms: self.ms, status: self.status@, data: station_views(self.data@) }
    }
}

impl FindResponse {
    /// The candidates as the service ranked them.
    pub fn candidates(&self) -> (r: &Vec<Station>)
        ensures
            station_views(r@) == self@.data,
    {
        &self.data
    }

    /// The top-ranked candidate, or nothing when the service found none;
    /// an empty candidate list can never be indexed out of bounds here.
    pub fn top_candidate(&self) -> (r: Option<&Station>)
        ensures
            match r {
                Option::Some(st) => self@.data.len() > 0 && st@ == self@.data[0],
                Option::None => self@.data.len() == 0,
            },
    {
        if self.data.len() > 0 {
            Option::Some(&self.data[0])
        } else {
            Option::None
        }
    }
}

/// One line summary within a trip.
pub struct Transport {
    pub LineNumber: String,
    pub Symbol: String,
}

pub struct TransportV {
    pub line_number: Seq<char>,
    pub symbol: Seq<char>,
}

impl View for Transport {
    type V = TransportV;

    open spec fn view(&self) -> TransportV {
        TransportV { line_number: self.LineNumber@, symbol: self.Symbol@ }
    }
}

pub open spec fn transport_views(s: Seq<Transport>) -> Seq<TransportV> {
    Seq::new(s.len(), |i: int| s[i]@)
}

/// One leg of a trip.
pub struct SubTrip {
    pub Origin: String,
    pub Destination: String,
    pub Direction: String,
    pub TransportSymbol: String,
    pub TransportText: String,
    pub DepartureDate: Date,
    pub DepartureTime: Time,
    pub ArrivalDate: Date,
    pub ArrivalTime: Time,
    pub LineNumber: String,
}

pub struct SubTripV {
    pub origin: Seq<char>,
    pub destination: Seq<char>,
    pub direction: Seq<char>,
    pub transport_symbol: Seq<char>,
    pub transport_text: Seq<char>,
    pub departure_date: Date,
    pub departure_time: Time,
    pub arrival_date: Date,
    pub arrival_time: Time,
    pub line_number: Seq<char>,
}

impl View for SubTrip {
    type V = SubTripV;

    open spec fn view(&self) -> SubTripV {
        SubTripV {
            origin: self.Origin@,
            destination: self.Destination@,
            direction: self.Direction@,
            transport_symbol: self.TransportSymbol@,
            transport_text: self.TransportText@,
            departure_date: self.DepartureDate,
            departure_time: self.DepartureTime,
            arrival_date: self.ArrivalDate,
            arrival_time: self.ArrivalTime,
            line_number: self.LineNumber@,
        }
    }
}

pub open spec fn subtrip_views(s: Seq<SubTrip>) -> Seq<SubTripV> {
    Seq::new(s.len(), |i: int| s[i]@)
}

/// A leg whose date and time fields denote real instants.
pub open spec fn subtrip_times_valid(v: SubTripV) -> bool {
    &&& date_valid(v.departure_date)
    &&& time_valid(v.departure_time)
    &&& date_valid(v.arrival_date)
    &&& time_valid(v.arrival_time)
}

/// The signed length of a leg in minutes: the arrival instant minus the
/// departure instant, each taken from the full date and time pair, so a
/// leg across midnight still comes out positive.
pub open spec fn subtrip_duration(v: SubTripV) -> int {
    minutes_of(DateTime { date: v.arrival_date, time: v.arrival_time }) - minutes_of(
        DateTime { date: v.departure_date, time: v.departure_time },
    )
}

/// The display token for a transport-mode symbol: `"Walk"` exactly becomes
/// `"walk"`, the `"MET"`, `"BUS"` and `"TRM"` prefixes become their mode
/// glyphs, and any other symbol passes through unchanged.
pub open spec fn glyph_of(sym: Seq<char>) -> Seq<char> {
    if sym == "Walk"@ {
        "walk"@
    } else if sym.len() >= 3 && sym[0] == 'M' && sym[1] == 'E' && sym[2] == 'T' {
        seq!['\u{1F687}']
    } else if sym.len() >= 3 && sym[0] == 'B' && sym[1] == 'U' && sym[2] == 'S' {
        seq!['\u{1F68C}']
    } else if sym.len() >= 3 && sym[0] == 'T' && sym[1] == 'R' && sym[2] == 'M' {
        seq!['\u{1F68B}']
    } else {
        sym
    }
}

/// Law: a symbol that is not `"Walk"` and carries none of the recognized
/// mode prefixes passes through the glyph mapping unchanged.
pub proof fn lemma_glyph_passthrough(sym: Seq<char>)
    requires
        sym != "Walk"@,
        !(sym.len() >= 3 && sym[0] == 'M' && sym[1] == 'E' && sym[2] == 'T'),
        !(sym.len() >= 3 && sym[0] == 'B' && sym[1] == 'U' && sym[2] == 'S'),
        !(sym.len() >= 3 && sym[0] == 'T' && sym[1] == 'R' && sym[2] == 'M'),
    ensures
        glyph_of(sym) == sym,
{
}

impl SubTrip {
    /// The leg's length in minutes, arrival minus departure.
    pub fn duration(&self) -> (r: i64)
        requires
            subtrip_times_valid(self@),
        ensures
            r as int == subtrip_duration(self@),
    {
        let a = minutes_of_x(&DateTime { date: self.ArrivalDate, time: self.ArrivalTime });
        let d = minutes_of_x(&DateTime { date: self.DepartureDate, time: self.DepartureTime });
        a - d
    }

    /// The display token for this leg's transport mode.
    pub fn transport_string(&self) -> (r: String)
        ensures
            r@ == glyph_of(self@.transport_symbol),
    {
        if crate::json::str_eq(self.TransportSymbol.as_str(), "Walk") {
            return String::from_str("walk");
        }
        let sym = self.TransportSymbol.as_str();
        let len = sym.unicode_len();
        if len >= 3 {
            let c0 = sym.get_char(0);
            let c1 = sym.get_char(1);
            let c2 = sym.get_char(2);
            if c0 == 'M' && c1 == 'E' && c2 == 'T' {
                let r = String::from_str("\u{1F687}");
                proof {
                    reveal_strlit("\u{1F687}");
                    assert(r@ =~= seq!['\u{1F687}']);
                }
                return r;
            }
            if c0 == 'B' && c1 == 'U' && c2 == 'S' {
                let r = String::from_str("\u{1F68C}");
                proof {
                    reveal_strlit("\u{1F68C}");
                    assert(r@ =~= seq!['\u{1F68C}']);
                }
                return r;
            }
            if c0 == 'T' && c1 == 'R' && c2 == 'M' {
                let r = String::from_str("\u{1F68B}");
                proof {
                    reveal_strlit("\u{1F68B}");
                    assert(r@ =~= seq!['\u{1F68B}']);
                }
                return r;
            }
        }
        self.TransportSymbol.clone()
    }
}

/// One itinerary option.
pub struct Trip {
    pub Origin: String,
    pub Destination: String,
    pub DepartureDate: Date,
    pub DepartureTime: Time,
    pub ArrivalDate: Date,
    pub ArrivalTime: Time,
    pub Changes: String,
    pub Duration: String,
    pub Transports: Vec<Transport>,
    pub SubTrips: Vec<SubTrip>,
}

pub struct TripV {
    pub origin: Seq<char>,
    pub destination: Seq<char>,
    pub departure_date: Date,
    pub departure_time: Time,
    pub arrival_date: Date,
    pub arrival_time: Time,
    pub changes: Seq<char>,
    pub duration: Seq<char>,
    pub transports: Seq<TransportV>,
    pub sub_trips: Seq<SubTripV>,
}

impl View for Trip {
    type V = TripV;

    closed spec fn view(&self) -> TripV {
        TripV {
            origin: self.Origin@,
            destination: self.Destination@,
            departure_date: self.DepartureDate,
            departure_time: self.DepartureTime,
            arrival_date: self.ArrivalDate,
            arrival_time: self.ArrivalTime,
            changes: self.Changes@,
            duration: self.Duration@,
            transports: transport_views(self.Transports@),
            sub_trips: subtrip_views(self.SubTrips@),
        }
    }
}

pub open spec fn trip_views(s: Seq<Trip>) -> Seq<TripV> {
    Seq::new(s.len(), |i: int| s[i]@)
}

/// The summary token of one line: its number, or `"walk"` where the line
/// number is empty.
pub open spec fn summary_token(t: TransportV) -> Seq<char> {
    if t.line_number.len() == 0 {
        "walk"@
    } else {
        t.line_number
    }
}

impl Trip {
    /// The summary tokens of the trip's transports, in the order the
    /// service listed them.
    pub fn summary_lines(&self) -> (r: Vec<String>)
        ensures
            r@.len() == self@.transports.len(),
            forall|i: int| 0 <= i < r@.len() ==> r@[i]@ == summary_token(self@.transports[i]),
    {
        let mut out: Vec<String> = Vec::new();
        let mut n: usize = 0;
        while n < self.Transports.len()
            invariant
                n <= self.Transports.len(),
                out@.len() == n,
                forall|i: int|
                    0 <= i < n ==> out@[i]@ == summary_token(transport_views(self.Transports@)[i]),
            decreases self.Transports.len() - n,
        {
            if self.Transports[n].LineNumber.as_str().is_empty() {
                out.push(String::from_str("walk"));
            } else {
                out.push(self.Transports[n].LineNumber.clone());
            }
            n = n + 1;
        }
        out
    }
}

/// The error record the service embeds when the query itself failed.
pub struct TravelError {
    pub Message: String,
    pub Code: String,
}

pub struct TravelErrorV {
    pub message: Seq<char>,
    pub code: Seq<char>,
}

impl View for TravelError {
    type V = TravelErrorV;

    open spec fn view(&self) -> TravelErrorV {
        TravelErrorV { message: self.Message@, code: self.Code@ }
    }
}

/// The itinerary payload.
pub struct Travel {
    pub From: String,
    pub To: String,
    pub Trips: Vec<Trip>,
    pub LastUpdate: String,
    Error: Option<TravelError>,
}

pub struct TravelV {
    pub from: Seq<char>,
    pub to: Seq<char>,
    pub trips: Seq<TripV>,
    pub last_update: Seq<char>,
    pub error: Option<TravelErrorV>,
}

impl View for Travel {
    type V = TravelV;

    closed spec fn view(&self) -> TravelV {
        TravelV {
            from: self.From@,
            to: self.To@,
            trips: trip_views(self.Trips@),
            last_update: self.LastUpdate@,
            error: match self.Error {
                Option::Some(e) => Option::Some(e@),
                Option::None => Option::None,
            },
        }
    }
}

/// The envelope of the itinerary endpoint.
pub struct TravelResponse {
    ms: u32,
    status: String,
    data: Travel,
}

pub struct TravelResponseV {
    pub ms: u32,
    pub status: Seq<char>,
    pub data: TravelV,
}

impl View for TravelResponse {
    type V = TravelResponseV;

    closed spec fn view(&self) -> TravelResponseV {
        TravelResponseV { ms: self.ms, status: self.status@, data: self.data@ }
    }
}

impl TravelResponse {
    /// The decoded itinerary payload.
    pub fn directions(&self) -> (r: &Travel)
        ensures
            r@ == self@.data,
    {
        &self.data
    }

    /// The service-reported error message, when the payload carries one.
    pub fn is_error(&self) -> (r: Option<String>)
        ensures
            match r {
                Option::Some(m) => self@.data.error matches Option::Some(e) && m@ == e.message,
                Option::None => self@.data.error is None,
            },
    {
        match &self.data.Error {
            Option::Some(err) => Option::Some(err.Message.clone()),
            Option::None => Option::None,
        }
    }
}

pub open spec fn str_field(ms: Seq<(Seq<char>, JsonV)>, key: Seq<char>) -> Option<Seq<char>> {
    match obj_get_s(ms, key) {
        Option::Some(JsonV::Str(n)) => Option::Some(n),
        _ => Option::None,
    }
}

pub open spec fn u32_field(ms: Seq<(Seq<char>, JsonV)>, key: Seq<char>) -> Option<u32> {
    match obj_get_s(ms, key) {
        Option::Some(JsonV::Num(n)) => if n <= 0xFFFF_FFFF {
            Option::Some(n as u32)
        } else {
            Option::None
        },
        _ => Option::None,
    }
}

pub open spec fn arr_field(ms: Seq<(Seq<char>, JsonV)>, key: Seq<char>) -> Option<Seq<JsonV>> {
    match obj_get_s(ms, key) {
        Option::Some(JsonV::Arr(a)) => Option::Some(a),
        _ => Option::None,
    }
}

pub open spec fn date_field(ms: Seq<(Seq<char>, JsonV)>, key: Seq<char>) -> Option<Date> {
    match str_field(ms, key) {
        Option::Some(s) => crate::datetime::wire_date(s),
        Option::None => Option::None,
    }
}

pub open spec fn time_field(ms: Seq<(Seq<char>, JsonV)>, key: Seq<char>) -> Option<Time> {
    match str_field(ms, key) {
        Option::Some(s) => crate::datetime::wire_time(s),
        Option::None => Option::None,
    }
}

fn str_field_x(ms: &Vec<(String, Json)>, key: &str) -> (r: Option<String>)
    ensures
        match r {
            Option::Some(s) => str_field(member_views_of(ms@), key@) == Option::Some(s@),
            Option::None => str_field(member_views_of(ms@), key@) is None,
        },
{
    match crate::json::obj_get(ms, key) {
        Option::Some(j) => match j {
            Json::Str(s) => Option::Some(s.clone()),
            _ => Option::None,
        },
        Option::None => Option::None,
    }
}

fn u32_field_x(ms: &Vec<(String, Json)>, key: &str) -> (r: Option<u32>)
    ensures
        match r {
            Option::Some(v) => u32_field(member_views_of(ms@), key@) == Option::Some(v),
            Option::None => u32_field(member_views_of(ms@), key@) is None,
        },
{
    match crate::json::obj_get(ms, key) {
        Option::Some(j) => match j {
            Json::Num(n) => {
                if *n <= 0xFFFF_FFFFu64 {
                    Option::Some(*n as u32)
                } else {
                    Option::None
                }
            },
            _ => Option::None,
        },
        Option::None => Option::None,
    }
}

fn arr_field_x<'a>(ms: &'a Vec<(String, Json)>, key: &str) -> (r: Option<&'a Vec<Json>>)
    ensures
        match r {
            Option::Some(a) => arr_field(member_views_of(ms@), key@) == Option::Some(
                views_of(a@),
            ),
            Option::None => arr_field(member_views_of(ms@), key@) is None,
        },
{
    match crate::json::obj_get(ms, key) {
        Option::Some(j) => match j {
            Json::Arr(a) => Option::Some(a),
            _ => Option::None,
        },
        Option::None => Option::None,
    }
}

fn date_field_x(ms: &Vec<(String, Json)>, key: &str) -> (r: Option<Date>)
    ensures
        match r {
            Option::Some(d) => date_field(member_views_of(ms@), key@) == Option::Some(d)
                && date_valid(d),
            Option::None => date_field(member_views_of(ms@), key@) is None,
        },
{
    match crate::json::obj_get(ms, key) {
        Option::Some(j) => match j {
            Json::Str(s) => crate::datetime::wire_date_x(s.as_str()),
            _ => Option::None,
        },
        Option::None => Option::None,
    }
}

fn time_field_x(ms: &Vec<(String, Json)>, key: &str) -> (r: Option<Time>)
    ensures
        match r {
            Option::Some(t) => time_field(member_views_of(ms@), key@) == Option::Some(t)
                && time_valid(t),
            Option::None => time_field(member_views_of(ms@), key@) is None,
        },
{
    match crate::json::obj_get(ms, key) {
        Option::Some(j) => match j {
            Json::Str(s) => crate::datetime::wire_time_x(s.as_str()),
            _ => Option::None,
        },
        Option::None => Option::None,
    }
}

/// The station a JSON value stands for, if it has the station shape.
pub open spec fn station_of(v: JsonV) -> Option<StationV> {
    match v {
        JsonV::Obj(ms) => match (str_field(ms, "Name"@), u32_field(ms, "SiteId"@), str_field(
            ms,
            "Type"@,
        )) {
            (Option::Some(n), Option::Some(i), Option::Some(t)) => Option::Some(
                StationV { name: n, site_id: i, ty: t },
            ),
            _ => Option::None,
        },
        _ => Option::None,
    }
}

fn station_of_x(j: &Json) -> (r: Option<Station>)
    ensures
        match r {
            Option::Some(st) => station_of(view_of(*j)) == Option::Some(st@),
            Option::None => station_of(view_of(*j)) is None,
        },
{
    match j {
        Json::Obj(ms) => {
            match (str_field_x(ms, "Name"), u32_field_x(ms, "SiteId"), str_field_x(ms, "Type")) {
                (Option::Some(n), Option::Some(i), Option::Some(t)) => Option::Some(
                    Station { Name: n, SiteId: i, Type: t },
                ),
                _ => Option::None,
            }
        },
        _ => Option::None,
    }
}

/// The stations a JSON array stands for: every element must extract.
pub open spec fn stations_of(vs: Seq<JsonV>) -> Option<Seq<StationV>> {
    if forall|i: int| 0 <= i < vs.len() ==> station_of(vs[i]) is Some {
        Option::Some(Seq::new(vs.len(), |i: int| station_of(vs[i])->Some_0))
    } else {
        Option::None
    }
}

fn stations_of_x(a: &Vec<Json>) -> (r: Option<Vec<Station>>)
    ensures
        match r {
            Option::Some(out) => stations_of(views_of(a@)) == Option::Some(station_views(out@)),
            Option::None => stations_of(views_of(a@)) is None,
        },
{
    proof {
        crate::json::lemma_views_of(a@);
    }
    let mut out: Vec<Station> = Vec::new();
    let mut n: usize = 0;
    while n < a.len()
        invariant
            n <= a.len(),
            out@.len() == n,
            views_of(a@).len() == a@.len(),
            forall|i: int| 0 <= i < a@.len() ==> views_of(a@)[i] == view_of(a@[i]),
            forall|i: int|
                0 <= i < n ==> station_of(views_of(a@)[i]) == Option::Some(#[trigger] out@[i]@),
        decreases a.len() - n,
    {
        match station_of_x(&a[n]) {
            Option::Some(st) => {
                out.push(st);
            },
            Option::None => {
                assert(station_of(views_of(a@)[n as int]) is None);
                return Option::None;
            },
        }
        n = n + 1;
    }
    proof {
        assert forall|i: int| 0 <= i < views_of(a@).len() implies #[trigger] station_of(
            views_of(a@)[i],
        ) is Some by {
            assert(station_of(views_of(a@)[i]) == Option::Some(out@[i]@));
        }
        let target = Seq::new(views_of(a@).len(), |i: int| station_of(views_of(a@)[i])->Some_0);
        assert forall|i: int| 0 <= i < out@.len() implies #[trigger] station_views(out@)[i] == target[i] by {
            assert(station_of(views_of(a@)[i]) == Option::Some(out@[i]@));
        }
        assert(station_views(out@) =~= target);
    }
    Option::Some(out)
}

/// The transport a JSON value stands for.
pub open spec fn transport_of(v: JsonV) -> Option<TransportV> {
    match v {
        JsonV::Obj(ms) => match (str_field(ms, "LineNumber"@), str_field(ms, "Symbol"@)) {
            (Option::Some(l), Option::Some(s)) => Option::Some(
                TransportV { line_number: l, symbol: s },
            ),
            _ => Option::None,
        },
        _ => Option::None,
    }
}

fn transport_of_x(j: &Json) -> (r: Option<Transport>)
    ensures
        match r {
            Option::Some(t) => transport_of(view_of(*j)) == Option::Some(t@),
            Option::None => transport_of(view_of(*j)) is None,
        },
{
    match j {
        Json::Obj(ms) => {
            match (str_field_x(ms, "LineNumber"), str_field_x(ms, "Symbol")) {
                (Option::Some(l), Option::Some(s)) => Option::Some(
                    Transport { LineNumber: l, Symbol: s },
                ),
                _ => Option::None,
            }
        },
        _ => Option::None,
    }
}

/// The transports a JSON array stands for.
pub open spec fn transports_of(vs: Seq<JsonV>) -> Option<Seq<TransportV>> {
    if forall|i: int| 0 <= i < vs.len() ==> transport_of(vs[i]) is Some {
        Option::Some(Seq::new(vs.len(), |i: int| transport_of(vs[i])->Some_0))
    } else {
        Option::None
    }
}

fn transports_of_x(a: &Vec<Json>) -> (r: Option<Vec<Transport>>)
    ensures
        match r {
            Option::Some(out) => transports_of(views_of(a@)) == Option::Some(
                transport_views(out@),
            ),
            Option::None => transports_of(views_of(a@)) is None,
        },
{
    proof {
        crate::json::lemma_views_of(a@);
    }
    let mut out: Vec<Transport> = Vec::new();
    let mut n: usize = 0;
    while n < a.len()
        invariant
            n <= a.len(),
            out@.len() == n,
            views_of(a@).len() == a@.len(),
            forall|i: int| 0 <= i < a@.len() ==> views_of(a@)[i] == view_of(a@[i]),
            forall|i: int|
                0 <= i < n ==> transport_of(views_of(a@)[i]) == Option::Some(
                    #[trigger] out@[i]@,
                ),
        decreases a.len() - n,
    {
        match transport_of_x(&a[n]) {
            Option::Some(t) => {
                out.push(t);
            },
            Option::None => {
                assert(transport_of(views_of(a@)[n as int]) is None);
                return Option::None;
            },
        }
        n = n + 1;
    }
    proof {
        assert forall|i: int| 0 <= i < views_of(a@).len() implies #[trigger] transport_of(
            views_of(a@)[i],
        ) is Some by {
            assert(transport_of(views_of(a@)[i]) == Option::Some(out@[i]@));
        }
        let target = Seq::new(views_of(a@).len(), |i: int| transport_of(views_of(a@)[i])->Some_0);
        assert forall|i: int| 0 <= i < out@.len() implies #[trigger] transport_views(out@)[i] == target[i] by {
            assert(transport_of(views_of(a@)[i]) == Option::Some(out@[i]@));
        }
        assert(transport_views(out@) =~= target);
    }
    Option::Some(out)
}

/// The leg a JSON value stands for; its date and time strings must denote
/// real instants.
pub open spec fn subtrip_of(v: JsonV) -> Option<SubTripV> {
    match v {
        JsonV::Obj(ms) => match (
            str_field(ms, "Origin"@),
            str_field(ms, "Destination"@),
            str_field(ms, "Direction"@),
            str_field(ms, "TransportSymbol"@),
            str_field(ms, "TransportText"@),
            date_field(ms, "DepartureDate"@),
            time_field(ms, "DepartureTime"@),
            date_field(ms, "ArrivalDate"@),
            time_field(ms, "ArrivalTime"@),
            str_field(ms, "LineNumber"@),
        ) {
            (
                Option::Some(o),
                Option::Some(de),
                Option::Some(di),
                Option::Some(sy),
                Option::Some(tx),
                Option::Some(dd),
                Option::Some(dt),
                Option::Some(ad),
                Option::Some(at),
                Option::Some(l),
            ) => Option::Some(
                SubTripV {
                    origin: o,
                    destination: de,
                    direction: di,
                    transport_symbol: sy,
                    transport_text: tx,
                    departure_date: dd,
                    departure_time: dt,
                    arrival_date: ad,
                    arrival_time: at,
                    line_number: l,
                },
            ),
            _ => Option::None,
        },
        _ => Option::None,
    }
}

fn subtrip_of_x(j: &Json) -> (r: Option<SubTrip>)
    ensures
        match r {
            Option::Some(st) => subtrip_of(view_of(*j)) == Option::Some(st@)
                && subtrip_times_valid(st@),
            Option::None => subtrip_of(view_of(*j)) is None,
        },
{
    match j {
        Json::Obj(ms) => {
            match (
                str_field_x(ms, "Origin"),
                str_field_x(ms, "Destination"),
                str_field_x(ms, "Direction"),
                str_field_x(ms, "TransportSymbol"),
                str_field_x(ms, "TransportText"),
                date_field_x(ms, "DepartureDate"),
                time_field_x(ms, "DepartureTime"),
                date_field_x(ms, "ArrivalDate"),
                time_field_x(ms, "ArrivalTime"),
                str_field_x(ms, "LineNumber"),
            ) {
                (
                    Option::Some(o),
                    Option::Some(de),
                    Option::Some(di),
                    Option::Some(sy),
                    Option::Some(tx),
                    Option::Some(dd),
                    Option::Some(dt),
                    Option::Some(ad),
                    Option::Some(at),
                    Option::Some(l),
                ) => Option::Some(
                    SubTrip {
                        Origin: o,
                        Destination: de,
                        Direction: di,
                        TransportSymbol: sy,
                        TransportText: tx,
                        DepartureDate: dd,
                        DepartureTime: dt,
                        ArrivalDate: ad,
                        ArrivalTime: at,
                        LineNumber: l,
                    },
                ),
                _ => Option::None,
            }
        },
        _ => Option::None,
    }
}

/// The legs a JSON array stands for.
pub open spec fn subtrips_of(vs: Seq<JsonV>) -> Option<Seq<SubTripV>> {
    if forall|i: int| 0 <= i < vs.len() ==> subtrip_of(vs[i]) is Some {
        Option::Some(Seq::new(vs.len(), |i: int| subtrip_of(vs[i])->Some_0))
    } else {
        Option::None
    }
}

fn subtrips_of_x(a: &Vec<Json>) -> (r: Option<Vec<SubTrip>>)
    ensures
        match r {
            Option::Some(out) => subtrips_of(views_of(a@)) == Option::Some(subtrip_views(out@))
                && (forall|i: int| 0 <= i < out@.len() ==> subtrip_times_valid(#[trigger] out@[i]@)),
            Option::None => subtrips_of(views_of(a@)) is None,
        },
{
    proof {
        crate::json::lemma_views_of(a@);
    }
    let mut out: Vec<SubTrip> = Vec::new();
    let mut n: usize = 0;
    while n < a.len()
        invariant
            n <= a.len(),
            out@.len() == n,
            views_of(a@).len() == a@.len(),
            forall|i: int| 0 <= i < a@.len() ==> views_of(a@)[i] == view_of(a@[i]),
            forall|i: int|
                0 <= i < n ==> subtrip_of(views_of(a@)[i]) == Option::Some(#[trigger] out@[i]@),
            forall|i: int| 0 <= i < n ==> subtrip_times_valid(#[trigger] out@[i]@),
        decreases a.len() - n,
    {
        match subtrip_of_x(&a[n]) {
            Option::Some(st) => {
                out.push(st);
            },
            Option::None => {
                assert(subtrip_of(views_of(a@)[n as int]) is None);
                return Option::None;
            },
        }
        n = n + 1;
    }
    proof {
        assert forall|i: int| 0 <= i < views_of(a@).len() implies #[trigger] subtrip_of(
            views_of(a@)[i],
        ) is Some by {
            assert(subtrip_of(views_of(a@)[i]) == Option::Some(out@[i]@));
        }
        let target = Seq::new(views_of(a@).len(), |i: int| subtrip_of(views_of(a@)[i])->Some_0);
        assert forall|i: int| 0 <= i < out@.len() implies #[trigger] subtrip_views(out@)[i] == target[i] by {
            assert(subtrip_of(views_of(a@)[i]) == Option::Some(out@[i]@));
        }
        assert(subtrip_views(out@) =~= target);
    }
    Option::Some(out)
}

/// The trip a JSON value stands for.
pub open spec fn trip_of(v: JsonV) -> Option<TripV> {
    match v {
        JsonV::Obj(ms) => match (
            str_field(ms, "Origin"@),
            str_field(ms, "Destination"@),
            date_field(ms, "DepartureDate"@),
            time_field(ms, "DepartureTime"@),
            date_field(ms, "ArrivalDate"@),
            time_field(ms, "ArrivalTime"@),
            str_field(ms, "Changes"@),
            str_field(ms, "Duration"@),
            arr_field(ms, "Transports"@),
            arr_field(ms, "SubTrips"@),
        ) {
            (
                Option::Some(o),
                Option::Some(de),
                Option::Some(dd),
                Option::Some(dt),
                Option::Some(ad),
                Option::Some(at),
                Option::Some(ch),
                Option::Some(du),
                Option::Some(tr),
                Option::Some(st),
            ) => match (transports_of(tr), subtrips_of(st)) {
                (Option::Some(trs), Option::Some(sts)) => Option::Some(
                    TripV {
                        origin: o,
                        destination: de,
                        departure_date: dd,
                        departure_time: dt,
                        arrival_date: ad,
                        arrival_time: at,
                        changes: ch,
                        duration: du,
                        transports: trs,
                        sub_trips: sts,
                    },
                ),
                _ => Option::None,
            },
            _ => Option::None,
        },
        _ => Option::None,
    }
}

fn trip_of_x(j: &Json) -> (r: Option<Trip>)
    ensures
        match r {
            Option::Some(t) => trip_of(view_of(*j)) == Option::Some(t@),
            Option::None => trip_of(view_of(*j)) is None,
        },
{
    match j {
        Json::Obj(ms) => {
            match (
                str_field_x(ms, "Origin"),
                str_field_x(ms, "Destination"),
                date_field_x(ms, "DepartureDate"),
                time_field_x(ms, "DepartureTime"),
                date_field_x(ms, "ArrivalDate"),
                time_field_x(ms, "ArrivalTime"),
                str_field_x(ms, "Changes"),
                str_field_x(ms, "Duration"),
            ) {
                (
                    Option::Some(o),
                    Option::Some(de),
                    Option::Some(dd),
                    Option::Some(dt),
                    Option::Some(ad),
                    Option::Some(at),
                    Option::Some(ch),
                    Option::Some(du),
                ) => {
                    let tr = arr_field_x(ms, "Transports");
                    let st = arr_field_x(ms, "SubTrips");
                    match (tr, st) {
                        (Option::Some(tra), Option::Some(sta)) => {
                            match (transports_of_x(tra), subtrips_of_x(sta)) {
                                (Option::Some(trs), Option::Some(sts)) => Option::Some(
                                    Trip {
                                        Origin: o,
                                        Destination: de,
                                        DepartureDate: dd,
                                        DepartureTime: dt,
                                        ArrivalDate: ad,
                                        ArrivalTime: at,
                                        Changes: ch,
                                        Duration: du,
                                        Transports: trs,
                                        SubTrips: sts,
                                    },
                                ),
                                _ => Option::None,
                            }
                        },
                        _ => Option::None,
                    }
                },
                _ => Option::None,
            }
        },
        _ => Option::None,
    }
}

/// The trips a JSON array stands for.
pub open spec fn trips_of(vs: Seq<JsonV>) -> Option<Seq<TripV>> {
    if forall|i: int| 0 <= i < vs.len() ==> trip_of(vs[i]) is Some {
        Option::Some(Seq::new(vs.len(), |i: int| trip_of(vs[i])->Some_0))
    } else {
        Option::None
    }
}

fn trips_of_x(a: &Vec<Json>) -> (r: Option<Vec<Trip>>)
    ensures
        match r {
            Option::Some(out) => trips_of(views_of(a@)) == Option::Some(trip_views(out@)),
            Option::None => trips_of(views_of(a@)) is None,
        },
{
    proof {
        crate::json::lemma_views_of(a@);
    }
    let mut out: Vec<Trip> = Vec::new();
    let mut n: usize = 0;
    while n < a.len()
        invariant
            n <= a.len(),
            out@.len() == n,
            views_of(a@).len() == a@.len(),
            forall|i: int| 0 <= i < a@.len() ==> views_of(a@)[i] == view_of(a@[i]),
            forall|i: int|
                0 <= i < n ==> trip_of(views_of(a@)[i]) == Option::Some(#[trigger] out@[i]@),
        decreases a.len() - n,
    {
        match trip_of_x(&a[n]) {
            Option::Some(t) => {
                out.push(t);
            },
            Option::None => {
                assert(trip_of(views_of(a@)[n as int]) is None);
                return Option::None;
            },
        }
        n = n + 1;
    }
    proof {
        assert forall|i: int| 0 <= i < views_of(a@).len() implies #[trigger] trip_of(
            views_of(a@)[i],
        ) is Some by {
            assert(trip_of(views_of(a@)[i]) == Option::Some(out@[i]@));
        }
        let target = Seq::new(views_of(a@).len(), |i: int| trip_of(views_of(a@)[i])->Some_0);
        assert forall|i: int| 0 <= i < out@.len() implies #[trigger] trip_views(out@)[i]
            == target[i] by {
            assert(trip_of(views_of(a@)[i]) == Option::Some(out@[i]@));
        }
        assert(trip_views(out@) =~= target);
    }
    Option::Some(out)
}

/// The service error record a JSON value stands for.
pub open spec fn error_of(v: JsonV) -> Option<TravelErrorV> {
    match v {
        JsonV::Obj(ms) => match (str_field(ms, "Message"@), str_field(ms, "Code"@)) {
            (Option::Some(m), Option::Some(c)) => Option::Some(
                TravelErrorV { message: m, code: c },
            ),
            _ => Option::None,
        },
        _ => Option::None,
    }
}

fn error_of_x(j: &Json) -> (r: Option<TravelError>)
    ensures
        match r {
            Option::Some(e) => error_of(view_of(*j)) == Option::Some(e@),
            Option::None => error_of(view_of(*j)) is None,
        },
{
    match j {
        Json::Obj(ms) => {
            match (str_field_x(ms, "Message"), str_field_x(ms, "Code")) {
                (Option::Some(m), Option::Some(c)) => Option::Some(
                    TravelError { Message: m, Code: c },
                ),
                _ => Option::None,
            }
        },
        _ => Option::None,
    }
}

/// The optional service error of an itinerary payload: an absent or null
/// `Error` member means none, and anything else must be an error record.
pub open spec fn opt_error_of(ms: Seq<(Seq<char>, JsonV)>) -> Option<Option<TravelErrorV>> {
    match obj_get_s(ms, "Error"@) {
        Option::None => Option::Some(Option::None),
        Option::Some(JsonV::Null) => Option::Some(Option::None),
        Option::Some(v) => match error_of(v) {
            Option::Some(e) => Option::Some(Option::Some(e)),
            Option::None => Option::None,
        },
    }
}

fn opt_error_of_x(ms: &Vec<(String, Json)>) -> (r: Option<Option<TravelError>>)
    ensures
        match r {
            Option::Some(Option::Some(e)) => opt_error_of(member_views_of(ms@)) == Option::Some(
                Option::Some(e@),
            ),
            Option::Some(Option::None) => opt_error_of(member_views_of(ms@)) == Option::Some(
                Option::None::<TravelErrorV>,
            ),
            Option::None => opt_error_of(member_views_of(ms@)) is None,
        },
{
    match crate::json::obj_get(ms, "Error") {
        Option::None => Option::Some(Option::None),
        Option::Some(j) => match j {
            Json::Null => Option::Some(Option::None),
            _ => match error_of_x(j) {
                Option::Some(e) => Option::Some(Option::Some(e)),
                Option::None => Option::None,
            },
        },
    }
}

/// The itinerary payload a JSON value stands for.
pub open spec fn travel_of(v: JsonV) -> Option<TravelV> {
    match v {
        JsonV::Obj(ms) => match (
            str_field(ms, "From"@),
            str_field(ms, "To"@),
            arr_field(ms, "Trips"@),
            str_field(ms, "LastUpdate"@),
            opt_error_of(ms),
        ) {
            (
                Option::Some(f),
                Option::Some(to),
                Option::Some(tr),
                Option::Some(lu),
                Option::Some(err),
            ) => match trips_of(tr) {
                Option::Some(trs) => Option::Some(
                    TravelV { from: f, to: to, trips: trs, last_update: lu, error: err },
                ),
                Option::None => Option::None,
            },
            _ => Option::None,
        },
        _ => Option::None,
    }
}

fn travel_of_x(j: &Json) -> (r: Option<Travel>)
    ensures
        match r {
            Option::Some(t) => travel_of(view_of(*j)) == Option::Some(t@),
            Option::None => travel_of(view_of(*j)) is None,
        },
{
    match j {
        Json::Obj(ms) => {
            match (
                str_field_x(ms, "From"),
                str_field_x(ms, "To"),
                str_field_x(ms, "LastUpdate"),
                opt_error_of_x(ms),
            ) {
                (Option::Some(f), Option::Some(to), Option::Some(lu), Option::Some(err)) => {
                    match arr_field_x(ms, "Trips") {
                        Option::Some(tra) => {
                            match trips_of_x(tra) {
                                Option::Some(trs) => Option::Some(
                                    Travel {
                                        From: f,
                                        To: to,
                                        Trips: trs,
                                        LastUpdate: lu,
                                        Error: err,
                                    },
                                ),
                                Option::None => Option::None,
                            }
                        },
                        Option::None => Option::None,
                    }
                },
                _ => Option::None,
            }
        },
        _ => Option::None,
    }
}

/// The station-lookup envelope a JSON value stands for.
pub open spec fn find_response_of(v: JsonV) -> Option<FindResponseV> {
    match v {
        JsonV::Obj(ms) => match (
            u32_field(ms, "ms"@),
            str_field(ms, "status"@),
            arr_field(ms, "data"@),
        ) {
            (Option::Some(m), Option::Some(st), Option::Some(da)) => match stations_of(da) {
                Option::Some(sts) => Option::Some(FindResponseV { ms: m, status: st, data: sts }),
                Option::None => Option::None,
            },
            _ => Option::None,
        },
        _ => Option::None,
    }
}

pub(crate) fn find_response_of_x(j: &Json) -> (r: Option<FindResponse>)
    ensures
        match r {
            Option::Some(fr) => find_response_of(view_of(*j)) == Option::Some(fr@),
            Option::None => find_response_of(view_of(*j)) is None,
        },
{
    match j {
        Json::Obj(ms) => {
            match (u32_field_x(ms, "ms"), str_field_x(ms, "status")) {
                (Option::Some(m), Option::Some(st)) => {
                    match arr_field_x(ms, "data") {
                        Option::Some(da) => {
                            match stations_of_x(da) {
                                Option::Some(sts) => Option::Some(
                                    FindResponse { ms: m, status: st, data: sts },
                                ),
                                Option::None => Option::None,
                            }
                        },
                        Option::None => Option::None,
                    }
                },
                _ => Option::None,
            }
        },
        _ => Option::None,
    }
}

/// The itinerary envelope a JSON value stands for.
pub open spec fn travel_response_of(v: JsonV) -> Option<TravelResponseV> {
    match v {
        JsonV::Obj(ms) => match (
            u32_field(ms, "ms"@),
            str_field(ms, "status"@),
            obj_get_s(ms, "data"@),
        ) {
            (Option::Some(m), Option::Some(st), Option::Some(da)) => match travel_of(da) {
                Option::Some(tv) => Option::Some(TravelResponseV { ms: m, status: st, data: tv }),
                Option::None => Option::None,
            },
            _ => Option::None,
        },
        _ => Option::None,
    }
}

pub(crate) fn travel_response_of_x(j: &Json) -> (r: Option<TravelResponse>)
    ensures
        match r {
            Option::Some(tr) => travel_response_of(view_of(*j)) == Option::Some(tr@),
            Option::None => travel_response_of(view_of(*j)) is None,
        },
{
    match j {
        Json::Obj(ms) => {
            match (u32_field_x(ms, "ms"), str_field_x(ms, "status")) {
                (Option::Some(m), Option::Some(st)) => {
                    match crate::json::obj_get(ms, "data") {
                        Option::Some(da) => {
                            match travel_of_x(da) {
                                Option::Some(tv) => Option::Some(
                                    TravelResponse { ms: m, status: st, data: tv },
                                ),
                                Option::None => Option::None,
                            }
                        },
                        Option::None => Option::None,
                    }
                },
                _ => Option::None,
            }
        },
        _ => Option::None,
    }
}

} // verus!
