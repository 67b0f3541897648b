use rocketstats::event::{Device, EventData, Location, StoredEventData};
use rocketstats::ingest::{client_ip, lookup_request, normalize};
use rocketstats::reply::{status, Failure};
use rocketstats::scan::ScanError;

fn raw(client_ip: Option<&str>) -> EventData {
    EventData {
        domain: "site.com".to_string(),
        url: "/home".to_string(),
        referrer: "direct".to_string(),
        device: Device { user_agent: "UA1".to_string() },
        client_ip: client_ip.map(|ip| ip.to_string()),
    }
}

#[test]
fn stated_address_goes_first() {
    assert_eq!(client_ip(Some("1.2.3.4"), Some("5.6.7.8")), "1.2.3.4");
    assert_eq!(client_ip(Some("1.2.3.4"), None), "1.2.3.4");
}

#[test]
fn empty_or_missing_stated_address_falls_back_to_the_connection() {
    assert_eq!(client_ip(Some(""), Some("5.6.7.8")), "5.6.7.8");
    assert_eq!(client_ip(None, Some("5.6.7.8")), "5.6.7.8");
}

#[test]
fn no_address_at_all_is_unknown() {
    assert_eq!(client_ip(None, None), "Unknown");
    assert_eq!(client_ip(Some(""), None), "Unknown");
}

#[test]
fn lookup_is_requested_for_the_chosen_address() {
    assert_eq!(
        lookup_request(&raw(Some("1.2.3.4")), Some("5.6.7.8")),
        "http://ip-api.com/json/1.2.3.4"
    );
    assert_eq!(lookup_request(&raw(None), Some("5.6.7.8")), "http://ip-api.com/json/5.6.7.8");
    assert_eq!(lookup_request(&raw(None), None), "http://ip-api.com/json/Unknown");
}

#[test]
fn normalize_keeps_the_payload_and_attaches_location_and_time() {
    let body = r#"{"country":"United States","region":"NY","city":"New York"}"#;
    let event = normalize(raw(None), Some(body), 1_431_648_000, 0).unwrap();
    assert_eq!(event.id, None);
    assert_eq!(event.domain, "site.com");
    assert_eq!(event.url, "/home");
    assert_eq!(event.referrer, "direct");
    assert_eq!(event.user_agent, "UA1");
    assert_eq!(event.location.country, "United States");
    assert_eq!(event.location.region, "NY");
    assert_eq!(event.location.city, "New York");
    assert_eq!(event.timestamp, "2015-05-14T20:00:00-04:00");
}

#[test]
fn normalize_survives_every_lookup_failure() {
    for reply in [None, Some(""), Some("<html>rate limited</html>"), Some("{}")] {
        let event = normalize(raw(Some("Unknown")), reply, 1_704_067_200, 0).unwrap();
        assert_eq!(event.location.country, "Unknown");
        assert_eq!(event.location.region, "Unknown");
        assert_eq!(event.location.city, "Unknown");
        assert_eq!(event.url, "/home");
    }
}

#[test]
fn normalize_keeps_what_the_lookup_did_tell() {
    let event = normalize(raw(None), Some(r#"{"country":"France"}"#), 0, 0).unwrap();
    assert_eq!(event.location.country, "France");
    assert_eq!(event.location.region, "Unknown");
    assert_eq!(event.location.city, "Unknown");
}

#[test]
fn timestamp_is_eastern_time_with_its_offset() {
    let winter = normalize(raw(None), None, 1_704_067_200, 0).unwrap();
    assert_eq!(winter.timestamp, "2023-12-31T19:00:00-05:00");
    let summer = normalize(raw(None), None, 1_720_000_000, 0).unwrap();
    assert_eq!(summer.timestamp, "2024-07-03T05:46:40-04:00");
    let epoch = normalize(raw(None), None, 0, 0).unwrap();
    assert_eq!(epoch.timestamp, "1969-12-31T19:00:00-05:00");
}

#[test]
fn timestamp_keeps_fractions_of_a_second() {
    let millis = normalize(raw(None), None, 1_704_067_200, 500_000_000).unwrap();
    assert_eq!(millis.timestamp, "2023-12-31T19:00:00.500-05:00");
    let nanos = normalize(raw(None), None, 1_704_067_200, 1).unwrap();
    assert_eq!(nanos.timestamp, "2023-12-31T19:00:00.000000001-05:00");
}

#[test]
fn timestamp_agrees_with_the_calendar() {
    let event = normalize(raw(None), None, 1_720_000_000, 0).unwrap();
    let parsed = chrono::DateTime::parse_from_rfc3339(&event.timestamp).unwrap();
    assert_eq!(parsed.timestamp(), 1_720_000_000);
    assert_eq!(parsed.offset().local_minus_utc(), -4 * 3600);
}

#[test]
fn time_outside_the_calendar_gives_no_event() {
    assert!(normalize(raw(None), None, i64::MAX, 0).is_none());
    assert!(normalize(raw(None), None, i64::MIN, 0).is_none());
    assert!(normalize(raw(None), None, 0, 2_000_000_000).is_none());
}

#[test]
fn empty_and_odd_payload_texts_are_stored_as_they_come() {
    let payload = EventData {
        domain: String::new(),
        url: "  /a b?<script>".to_string(),
        referrer: String::new(),
        device: Device { user_agent: "\u{1F600}".to_string() },
        client_ip: None,
    };
    let event = normalize(payload, None, 0, 0).unwrap();
    assert_eq!(event.domain, "");
    assert_eq!(event.url, "  /a b?<script>");
    assert_eq!(event.referrer, "");
    assert_eq!(event.user_agent, "\u{1F600}");
}

#[test]
fn assemble_takes_location_and_time_as_given() {
    let location = Location {
        country: "France".to_string(),
        region: "IDF".to_string(),
        city: "Paris".to_string(),
    };
    let event =
        StoredEventData::assemble(raw(None), location, "2024-03-01T10:00:00-05:00".to_string());
    assert_eq!(event.id, None);
    assert_eq!(event.location.city, "Paris");
    assert_eq!(event.timestamp, "2024-03-01T10:00:00-05:00");
    assert_eq!(event.user_agent, "UA1");
}

#[test]
fn status_of_each_outcome() {
    assert_eq!(status(Ok(())), 200);
    assert_eq!(status(Err(Failure::ClientInput)), 422);
    assert_eq!(status(Err(Failure::StoreWrite)), 500);
    assert_eq!(status(Err(Failure::StoreRead)), 500);
    assert_eq!(status(Err(Failure::Decode)), 500);
}

#[test]
fn scan_faults_are_server_failures() {
    assert_eq!(Failure::from_scan(ScanError::Decode), Failure::Decode);
    assert_eq!(Failure::from_scan(ScanError::Read), Failure::StoreRead);
    assert_eq!(status(Err(Failure::from_scan(ScanError::Decode))), 500);
    assert_eq!(status(Err(Failure::from_scan(ScanError::Read))), 500);
}
