use rocketstats::event::{Location, StoredEventData};
use rocketstats::present::PrettyVisitorStats;
use rocketstats::stats::{aggregate, VisitorStats};

fn event(url: &str, referrer: &str, city: &str, region: &str) -> StoredEventData {
    StoredEventData {
        id: None,
        domain: "site.com".to_string(),
        url: url.to_string(),
        referrer: referrer.to_string(),
        user_agent: "UA1".to_string(),
        location: Location {
            country: "France".to_string(),
            region: region.to_string(),
            city: city.to_string(),
        },
        timestamp: "2024-03-01T10:00:00-05:00".to_string(),
    }
}

#[test]
fn empty_scan_gives_empty_statistics() {
    let stats = aggregate(&Vec::new());
    assert_eq!(stats.visitor_count(), 0);
    assert_eq!(stats.pageviews().len(), 0);
    assert_eq!(stats.locations().len(), 0);
    assert_eq!(stats.sources().len(), 0);
    let fresh = VisitorStats::new();
    assert_eq!(fresh.visitor_count(), 0);
    let pretty = PrettyVisitorStats::from(stats);
    assert_eq!(pretty.visitor_count, 0);
    assert!(pretty.pageviews.is_empty());
    assert!(pretty.locations.is_empty());
    assert!(pretty.sources.is_empty());
}

#[test]
fn two_home_views_and_one_about_view() {
    let events = vec![
        event("/home", "direct", "Paris", "Île-de-France"),
        event("/home", "direct", "Paris", "Île-de-France"),
        event("/about", "direct", "Paris", "Île-de-France"),
    ];
    let pretty = PrettyVisitorStats::from(aggregate(&events));
    assert_eq!(pretty.visitor_count, 3);
    assert_eq!(pretty.pageviews.len(), 2);
    assert_eq!(pretty.pageviews[0].url, "/home");
    assert_eq!(pretty.pageviews[0].count, 2);
    assert_eq!(pretty.pageviews[1].url, "/about");
    assert_eq!(pretty.pageviews[1].count, 1);
    assert_eq!(pretty.sources.len(), 1);
    assert_eq!(pretty.sources[0].referrer, "direct");
    assert_eq!(pretty.sources[0].count, 3);
    assert_eq!(pretty.locations.len(), 1);
    assert_eq!(pretty.locations[0].location, "Paris, Île-de-France");
    assert_eq!(pretty.locations[0].region, "Île-de-France");
    assert_eq!(pretty.locations[0].count, 3);
}

#[test]
fn same_url_n_times_counts_n() {
    for n in [1usize, 2, 7, 50] {
        let events: Vec<StoredEventData> =
            (0..n).map(|_| event("/same", "direct", "Paris", "IDF")).collect();
        let stats = aggregate(&events);
        assert_eq!(stats.visitor_count(), n);
        assert_eq!(stats.pageviews().len(), 1);
        assert_eq!(stats.pageviews().count("/same"), n);
    }
}

#[test]
fn paris_three_times_keeps_first_region() {
    let events = vec![
        event("/a", "direct", "Paris", "Île-de-France"),
        event("/b", "direct", "Lyon", "Auvergne-Rhône-Alpes"),
        event("/c", "direct", "Paris", "Île-de-France"),
        event("/d", "direct", "Paris", "Île-de-France"),
    ];
    let pretty = PrettyVisitorStats::from(aggregate(&events));
    assert_eq!(pretty.locations.len(), 2);
    assert_eq!(pretty.locations[0].location, "Paris, Île-de-France");
    assert_eq!(pretty.locations[0].region, "Île-de-France");
    assert_eq!(pretty.locations[0].count, 3);
    assert_eq!(pretty.locations[1].location, "Lyon, Auvergne-Rhône-Alpes");
    assert_eq!(pretty.locations[1].region, "Auvergne-Rhône-Alpes");
    assert_eq!(pretty.locations[1].count, 1);
}

#[test]
fn same_key_from_different_pairs_keeps_the_first_region() {
    // "A, B" with region "C" and "A" with region "B, C" share the key "A, B, C".
    let events = vec![
        event("/a", "direct", "A, B", "C"),
        event("/a", "direct", "A", "B, C"),
    ];
    let pretty = PrettyVisitorStats::from(aggregate(&events));
    assert_eq!(pretty.locations.len(), 1);
    assert_eq!(pretty.locations[0].location, "A, B, C");
    assert_eq!(pretty.locations[0].region, "C");
    assert_eq!(pretty.locations[0].count, 2);
}

#[test]
fn presented_records_match_a_manual_tally() {
    let visits = [
        ("/home", "google"),
        ("/about", "direct"),
        ("/home", "direct"),
        ("/pricing", "google"),
        ("/home", "twitter"),
        ("/about", "google"),
    ];
    let events: Vec<StoredEventData> =
        visits.iter().map(|(url, referrer)| event(url, referrer, "Paris", "IDF")).collect();
    let pretty = PrettyVisitorStats::from(aggregate(&events));
    assert_eq!(pretty.visitor_count, 6);
    let pages: Vec<(&str, usize)> =
        pretty.pageviews.iter().map(|p| (p.url.as_str(), p.count)).collect();
    assert_eq!(pages, vec![("/home", 3), ("/about", 2), ("/pricing", 1)]);
    let sources: Vec<(&str, usize)> =
        pretty.sources.iter().map(|s| (s.referrer.as_str(), s.count)).collect();
    assert_eq!(sources, vec![("google", 3), ("direct", 2), ("twitter", 1)]);
    assert_eq!(pretty.pageviews.iter().map(|p| p.count).sum::<usize>(), 6);
    assert_eq!(pretty.sources.iter().map(|s| s.count).sum::<usize>(), 6);
    assert_eq!(pretty.locations.iter().map(|l| l.count).sum::<usize>(), 6);
}

#[test]
fn counts_do_not_depend_on_event_order() {
    let forward = vec![
        event("/a", "x", "Paris", "IDF"),
        event("/b", "y", "Lyon", "ARA"),
        event("/a", "y", "Paris", "IDF"),
    ];
    let backward = vec![
        event("/a", "y", "Paris", "IDF"),
        event("/b", "y", "Lyon", "ARA"),
        event("/a", "x", "Paris", "IDF"),
    ];
    let one = aggregate(&forward);
    let other = aggregate(&backward);
    for key in ["/a", "/b"] {
        assert_eq!(one.pageviews().count(key), other.pageviews().count(key));
    }
    for key in ["x", "y"] {
        assert_eq!(one.sources().count(key), other.sources().count(key));
    }
}

#[test]
fn record_folds_one_event_at_a_time() {
    let mut stats = VisitorStats::new();
    stats.record(&event("/home", "direct", "Paris", "IDF"));
    stats.record(&event("/home", "google", "Unknown", "Unknown"));
    assert_eq!(stats.visitor_count(), 2);
    assert_eq!(stats.pageviews().count("/home"), 2);
    assert_eq!(stats.sources().len(), 2);
    assert_eq!(stats.locations().len(), 2);
    assert_eq!(stats.locations().counts().count("Unknown, Unknown"), 1);
}

#[test]
fn place_key_joins_city_and_region() {
    assert_eq!(rocketstats::stats::place_key("Paris", "Île-de-France"), "Paris, Île-de-France");
    assert_eq!(rocketstats::stats::place_key("", ""), ", ");
}
