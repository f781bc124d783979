use rslci::client::{
    find_from_body, find_url, travel_from_body, travel_option_of, travel_url, Error, TravelOption,
};
use rslci::datetime::{Date, DateTime, Time};
use rslci::sl::Station;

fn station(name: &str, id: u32) -> Station {
    Station { Name: String::from(name), SiteId: id, Type: String::from("Station") }
}

#[test]
fn find_url_keeps_unreserved_characters() {
    assert_eq!(
        find_url("T-Centralen"),
        "http://sl.se/api/TypeAhead/Find/T-Centralen"
    );
}

#[test]
fn find_url_escapes_spaces_and_non_ascii() {
    assert_eq!(find_url("a b"), "http://sl.se/api/TypeAhead/Find/a%20b");
    assert_eq!(
        find_url("\u{e5}"),
        "http://sl.se/api/TypeAhead/Find/%C3%A5"
    );
}

#[test]
fn travel_url_now_has_no_suffix() {
    let url = travel_url(&station("Foo", 1), &station("Bar", 9204), &TravelOption::Now);
    assert_eq!(
        url,
        "http://sl.se/api/sv/TravelPlanner/SearchTravelById/Foo/1/Bar/9204"
    );
}

#[test]
fn travel_url_depart_uses_underscore_wire_format() {
    let dt = DateTime {
        date: Date { year: 2018, month: 8, day: 30 },
        time: Time { hour: 21, minute: 30 },
    };
    let url = travel_url(
        &station("Foo", 1),
        &station("Bar", 2),
        &TravelOption::Departure(dt),
    );
    assert_eq!(
        url,
        "http://sl.se/api/sv/TravelPlanner/SearchTravelById/Foo/1/Bar/2/2018-08-30 21_30/depart/"
    );
}

#[test]
fn travel_url_arrive_suffix() {
    let dt = DateTime {
        date: Date { year: 2019, month: 1, day: 2 },
        time: Time { hour: 3, minute: 4 },
    };
    let url = travel_url(
        &station("Foo", 1),
        &station("Bar", 2),
        &TravelOption::Arrival(dt),
    );
    assert_eq!(
        url,
        "http://sl.se/api/sv/TravelPlanner/SearchTravelById/Foo/1/Bar/2/2019-01-02 03_04/arrive/"
    );
}

#[test]
fn travel_option_falls_back_to_now() {
    assert_eq!(travel_option_of(None, None), TravelOption::Now);
    let dt = DateTime {
        date: Date { year: 2018, month: 8, day: 30 },
        time: Time { hour: 21, minute: 30 },
    };
    assert_eq!(
        travel_option_of(Some(dt), None),
        TravelOption::Departure(dt)
    );
    assert_eq!(travel_option_of(None, Some(dt)), TravelOption::Arrival(dt));
}

#[test]
fn find_decodes_ranked_candidates() {
    let body = r#"{"ms": 5, "status": "ok", "data": [
        {"Name": "Slussen", "SiteId": 9192, "Type": "Station"},
        {"Name": "Slakthuset", "SiteId": 9298, "Type": "Station"}
    ]}"#;
    let r = find_from_body(body).unwrap();
    let c = r.candidates();
    assert_eq!(c.len(), 2);
    assert_eq!(c[0].Name, "Slussen");
    assert_eq!(c[0].SiteId, 9192);
    assert_eq!(c[1].Name, "Slakthuset");
    let top = r.top_candidate().unwrap();
    assert_eq!(top.SiteId, 9192);
}

#[test]
fn find_empty_candidates_is_valid_and_observable() {
    let body = r#"{"ms": 5, "status": "ok", "data": []}"#;
    let r = find_from_body(body).unwrap();
    assert!(r.candidates().is_empty());
    assert!(r.top_candidate().is_none());
}

#[test]
fn find_malformed_body_is_a_decode_error() {
    assert!(matches!(find_from_body("not json"), Err(Error::ResponseError)));
    assert!(matches!(find_from_body(""), Err(Error::ResponseError)));
    assert!(matches!(
        find_from_body(r#"{"ms": 5, "status": "ok"}"#),
        Err(Error::ResponseError)
    ));
    assert!(matches!(
        find_from_body(r#"{"ms": 5, "status": "ok", "data": [{"Name": "x"}]}"#),
        Err(Error::ResponseError)
    ));
}

#[test]
fn unmodeled_numbers_in_ignored_fields_still_decode() {
    let body = r#"{"ms": 5, "status": "ok", "extra": -1.5e2, "data": [
        {"Name": "Slussen", "SiteId": 9192, "Type": "Station", "Weight": -3}
    ]}"#;
    let r = find_from_body(body).unwrap();
    assert_eq!(r.candidates()[0].SiteId, 9192);
}

#[test]
fn negative_number_in_a_read_field_is_a_decode_error() {
    let body = r#"{"ms": -1, "status": "ok", "data": []}"#;
    assert!(matches!(find_from_body(body), Err(Error::ResponseError)));
}

#[test]
fn escaped_station_name_decodes() {
    let body = r#"{"ms": 5, "status": "ok", "data": [
        {"Name": "\u00c5keshov", "SiteId": 9111, "Type": "Station"}
    ]}"#;
    let r = find_from_body(body).unwrap();
    assert_eq!(r.candidates()[0].Name, "\u{c5}keshov");
}

#[test]
fn find_site_id_out_of_range_is_a_decode_error() {
    let body = r#"{"ms": 5, "status": "ok", "data": [
        {"Name": "x", "SiteId": 4294967296, "Type": "Station"}
    ]}"#;
    assert!(matches!(find_from_body(body), Err(Error::ResponseError)));
}

fn itinerary_fixture() -> &'static str {
    r#"{"ms": 10, "status": "ok", "data": {
        "From": "Slussen",
        "To": "Tekniska",
        "LastUpdate": "2018-08-30 21:00",
        "Trips": [
            {
                "Origin": "Slussen",
                "Destination": "Tekniska",
                "DepartureDate": "2018-08-30",
                "DepartureTime": "23:50",
                "ArrivalDate": "2018-08-31",
                "ArrivalTime": "00:10",
                "Changes": "1",
                "Duration": "0:20",
                "Transports": [
                    {"LineNumber": "17", "Symbol": "MET"},
                    {"LineNumber": "", "Symbol": "Walk"},
                    {"LineNumber": "43", "Symbol": "BUS"}
                ],
                "SubTrips": [
                    {
                        "Origin": "Slussen",
                        "Destination": "Gamla stan",
                        "Direction": "Norrut",
                        "TransportSymbol": "MET19",
                        "TransportText": "Metro",
                        "DepartureDate": "2018-08-30",
                        "DepartureTime": "23:50",
                        "ArrivalDate": "2018-08-31",
                        "ArrivalTime": "00:10",
                        "LineNumber": "19"
                    }
                ]
            }
        ]
    }}"#
}

#[test]
fn travel_decodes_a_well_formed_body() {
    let r = travel_from_body(itinerary_fixture()).unwrap();
    let t = r.directions();
    assert_eq!(t.From, "Slussen");
    assert_eq!(t.To, "Tekniska");
    assert_eq!(t.Trips.len(), 1);
    assert_eq!(t.Trips[0].Duration, "0:20");
    assert_eq!(t.Trips[0].SubTrips[0].LineNumber, "19");
    assert_eq!(t.Trips[0].SubTrips[0].duration(), 20);
    assert!(r.is_error().is_none());
}

#[test]
fn travel_round_trip_reproduces_transport_lines() {
    let r = travel_from_body(itinerary_fixture()).unwrap();
    let t = r.directions();
    let lines: Vec<String> = t.Trips[0]
        .Transports
        .iter()
        .map(|tr| tr.LineNumber.clone())
        .collect();
    assert_eq!(lines, vec!["17", "", "43"]);
    assert_eq!(t.Trips[0].summary_lines(), vec!["17", "walk", "43"]);
}

#[test]
fn travel_service_error_is_a_rejection_never_a_result() {
    let body = r#"{"ms": 10, "status": "ok", "data": {
        "From": "a", "To": "b", "LastUpdate": "now",
        "Trips": [],
        "Error": {"Message": "No route", "Code": "E17"}
    }}"#;
    let r = travel_from_body(body);
    assert!(matches!(r, Err(Error::InputError(ref m)) if m == "No route"));
}

#[test]
fn travel_null_error_is_no_error() {
    let body = r#"{"ms": 10, "status": "ok", "data": {
        "From": "a", "To": "b", "LastUpdate": "now",
        "Trips": [],
        "Error": null
    }}"#;
    assert!(travel_from_body(body).is_ok());
}

#[test]
fn travel_malformed_body_is_a_decode_error() {
    assert!(matches!(travel_from_body("{"), Err(Error::ResponseError)));
    assert!(matches!(
        travel_from_body(r#"{"ms": 1, "status": "ok", "data": {}}"#),
        Err(Error::ResponseError)
    ));
    let bad_date = r#"{"ms": 10, "status": "ok", "data": {
        "From": "a", "To": "b", "LastUpdate": "now",
        "Trips": [{
            "Origin": "a", "Destination": "b",
            "DepartureDate": "2018-13-30", "DepartureTime": "23:50",
            "ArrivalDate": "2018-08-31", "ArrivalTime": "00:10",
            "Changes": "0", "Duration": "0:20",
            "Transports": [], "SubTrips": []
        }]
    }}"#;
    assert!(matches!(travel_from_body(bad_date), Err(Error::ResponseError)));
}
