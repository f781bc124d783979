use rslci::datetime::{Date, Time};
use rslci::sl::{SubTrip, Transport, Trip};

fn leg(dep_date: Date, dep_time: Time, arr_date: Date, arr_time: Time, symbol: &str) -> SubTrip {
    SubTrip {
        Origin: String::from("A"),
        Destination: String::from("B"),
        Direction: String::from("C"),
        TransportSymbol: String::from(symbol),
        TransportText: String::from("t"),
        DepartureDate: dep_date,
        DepartureTime: dep_time,
        ArrivalDate: arr_date,
        ArrivalTime: arr_time,
        LineNumber: String::from("17"),
    }
}

#[test]
fn duration_across_midnight_is_positive() {
    let s = leg(
        Date { year: 2018, month: 8, day: 30 },
        Time { hour: 23, minute: 50 },
        Date { year: 2018, month: 8, day: 31 },
        Time { hour: 0, minute: 10 },
        "BUS",
    );
    assert_eq!(s.duration(), 20);
}

#[test]
fn duration_same_day() {
    let s = leg(
        Date { year: 2018, month: 8, day: 30 },
        Time { hour: 10, minute: 0 },
        Date { year: 2018, month: 8, day: 30 },
        Time { hour: 11, minute: 30 },
        "MET",
    );
    assert_eq!(s.duration(), 90);
}

#[test]
fn duration_across_leap_day() {
    let s = leg(
        Date { year: 2020, month: 2, day: 28 },
        Time { hour: 23, minute: 0 },
        Date { year: 2020, month: 3, day: 1 },
        Time { hour: 1, minute: 0 },
        "TRM",
    );
    assert_eq!(s.duration(), 1560);
}

#[test]
fn duration_malformed_upstream_stays_negative() {
    let s = leg(
        Date { year: 2018, month: 8, day: 31 },
        Time { hour: 0, minute: 10 },
        Date { year: 2018, month: 8, day: 30 },
        Time { hour: 23, minute: 50 },
        "BUS",
    );
    assert_eq!(s.duration(), -20);
}

fn with_symbol(symbol: &str) -> SubTrip {
    leg(
        Date { year: 2018, month: 8, day: 30 },
        Time { hour: 10, minute: 0 },
        Date { year: 2018, month: 8, day: 30 },
        Time { hour: 10, minute: 5 },
        symbol,
    )
}

#[test]
fn transport_string_walk_and_prefixes() {
    assert_eq!(with_symbol("Walk").transport_string(), "walk");
    assert_eq!(with_symbol("MET").transport_string(), "\u{1F687}");
    assert_eq!(with_symbol("METRO RED").transport_string(), "\u{1F687}");
    assert_eq!(with_symbol("BUS 4").transport_string(), "\u{1F68C}");
    assert_eq!(with_symbol("TRM7").transport_string(), "\u{1F68B}");
}

#[test]
fn transport_string_unrecognized_passes_through() {
    assert_eq!(with_symbol("FOO").transport_string(), "FOO");
    assert_eq!(with_symbol("").transport_string(), "");
}

#[test]
fn transport_string_is_deterministic() {
    let a = with_symbol("BUS 4").transport_string();
    let b = with_symbol("BUS 4").transport_string();
    assert_eq!(a, b);
}

#[test]
fn summary_lines_keeps_order_and_marks_walks() {
    let trip = Trip {
        Origin: String::from("A"),
        Destination: String::from("B"),
        DepartureDate: Date { year: 2018, month: 8, day: 30 },
        DepartureTime: Time { hour: 10, minute: 0 },
        ArrivalDate: Date { year: 2018, month: 8, day: 30 },
        ArrivalTime: Time { hour: 11, minute: 0 },
        Changes: String::from("1"),
        Duration: String::from("1:00"),
        Transports: vec![
            Transport { LineNumber: String::from("17"), Symbol: String::from("MET") },
            Transport { LineNumber: String::from(""), Symbol: String::from("Walk") },
            Transport { LineNumber: String::from("43"), Symbol: String::from("BUS") },
        ],
        SubTrips: vec![],
    };
    assert_eq!(trip.summary_lines(), vec!["17", "walk", "43"]);
}
