use rocketstats::event::{Location, StoredEventData};
use rocketstats::present::{present, PrettyVisitorStats};
use rocketstats::scan::{aggregate_scan, collect_events, ScanError, ScanRecord};
use rocketstats::stats::VisitorStats;

fn stored(url: &str) -> StoredEventData {
    StoredEventData {
        id: Some("65f0c0ffee65f0c0ffee65f0".to_string()),
        domain: "site.com".to_string(),
        url: url.to_string(),
        referrer: "direct".to_string(),
        user_agent: "UA1".to_string(),
        location: Location {
            country: "France".to_string(),
            region: "IDF".to_string(),
            city: "Paris".to_string(),
        },
        timestamp: "2024-03-01T10:00:00-05:00".to_string(),
    }
}

#[test]
fn clean_scan_is_folded_whole() {
    let records = vec![
        ScanRecord::Event(stored("/home")),
        ScanRecord::Event(stored("/about")),
        ScanRecord::Event(stored("/home")),
    ];
    let stats = aggregate_scan(&records).ok().unwrap();
    assert_eq!(stats.visitor_count(), 3);
    assert_eq!(stats.pageviews().count("/home"), 2);
    assert_eq!(stats.pageviews().count("/about"), 1);
    assert_eq!(stats.pageviews().count("/missing"), 0);
}

#[test]
fn empty_scan_is_no_error() {
    let stats = aggregate_scan(&Vec::new()).ok().unwrap();
    assert_eq!(stats.visitor_count(), 0);
    assert_eq!(stats.pageviews().len(), 0);
}

#[test]
fn undecodable_record_mid_scan_fails_the_whole_scan() {
    let records = vec![
        ScanRecord::Event(stored("/home")),
        ScanRecord::Undecodable,
        ScanRecord::Event(stored("/about")),
    ];
    assert_eq!(aggregate_scan(&records).err(), Some(ScanError::Decode));
}

#[test]
fn read_failure_fails_the_whole_scan() {
    let records = vec![ScanRecord::Event(stored("/home")), ScanRecord::ReadFailed];
    assert_eq!(aggregate_scan(&records).err(), Some(ScanError::Read));
}

#[test]
fn first_fault_is_the_one_returned() {
    let records = vec![ScanRecord::ReadFailed, ScanRecord::Undecodable];
    assert_eq!(aggregate_scan(&records).err(), Some(ScanError::Read));
    let records = vec![ScanRecord::Undecodable, ScanRecord::ReadFailed];
    assert_eq!(aggregate_scan(&records).err(), Some(ScanError::Decode));
}

#[test]
fn absorb_folds_events_and_returns_faults_without_counting() {
    let mut stats = VisitorStats::new();
    assert_eq!(stats.absorb(&ScanRecord::Event(stored("/home"))), Ok(()));
    assert_eq!(stats.visitor_count(), 1);
    assert_eq!(stats.absorb(&ScanRecord::Undecodable), Err(ScanError::Decode));
    assert_eq!(stats.absorb(&ScanRecord::ReadFailed), Err(ScanError::Read));
    assert_eq!(stats.visitor_count(), 1);
    assert_eq!(stats.pageviews().len(), 1);
    let pretty: PrettyVisitorStats = present(&stats);
    assert_eq!(pretty.visitor_count, 1);
    assert_eq!(pretty.pageviews[0].url, "/home");
}

#[test]
fn dump_keeps_events_in_scan_order_and_skips_what_is_no_event() {
    let records = vec![
        ScanRecord::Event(stored("/a")),
        ScanRecord::Undecodable,
        ScanRecord::Event(stored("/b")),
        ScanRecord::Event(stored("/a")),
    ];
    let events = collect_events(records).ok().unwrap();
    let urls: Vec<&str> = events.iter().map(|e| e.url.as_str()).collect();
    assert_eq!(urls, vec!["/a", "/b", "/a"]);
    assert_eq!(events[0].id.as_deref(), Some("65f0c0ffee65f0c0ffee65f0"));
}

#[test]
fn dump_fails_when_the_store_cannot_be_read() {
    let records = vec![
        ScanRecord::Event(stored("/a")),
        ScanRecord::ReadFailed,
        ScanRecord::Event(stored("/b")),
    ];
    assert_eq!(collect_events(records).err(), Some(ScanError::Read));
}

#[test]
fn dump_of_nothing_is_empty() {
    assert!(collect_events(Vec::new()).ok().unwrap().is_empty());
    assert!(collect_events(vec![ScanRecord::Undecodable]).ok().unwrap().is_empty());
}
