//! Folding a domain's stored events into its statistics: the number of
//! visits, and the visits by page, by referrer and by place.

use crate::event::{StoredEventData, StoredEventView};
use crate::places::{counts_of, lemma_first_region, lemma_places_counts};
use crate::places::{lemma_places_push, place_bumped, places_of, sighted_keys};
use crate::places::{PlaceTally, PlaceView, Sighting};
use crate::tally::{bumped, count_in, keys_of, occurrences, tally_of, total, CountView, Tally};
use crate::tally::{lemma_tally_counts, lemma_tally_of_one_key, lemma_tally_push, lemma_tally_total};
use vstd::prelude::*;
use vstd::string::StringExecFns;

verus! {

/// What a domain's statistics hold.
pub struct StatsView {
    pub visitor_count: nat,
    pub pageviews: Seq<CountView>,
    pub locations: Seq<PlaceView>,
    pub sources: Seq<CountView>,
}

/// The key that a place is counted under: its city, a comma and a space,
/// then its region.
pub open spec fn place_key_of(city: Seq<char>, region: Seq<char>) -> Seq<char> {
    city + ", "@ + region
}

/// The place that an event counts for.
pub open spec fn sighting_of(event: StoredEventView) -> Sighting {
    Sighting {
        location: place_key_of(event.location.city, event.location.region),
        region: event.location.region,
    }
}

/// The pages that the events viewed, in event order.
pub open spec fn urls(events: Seq<StoredEventView>) -> Seq<Seq<char>> {
    events.map_values(|e: StoredEventView| e.url)
}

/// The referrers that the events came from, in event order.
pub open spec fn referrers(events: Seq<StoredEventView>) -> Seq<Seq<char>> {
    events.map_values(|e: StoredEventView| e.referrer)
}

/// The places that the events count for, in event order.
pub open spec fn sightings(events: Seq<StoredEventView>) -> Seq<Sighting> {
    events.map_values(|e: StoredEventView| sighting_of(e))
}

/// The statistics of a sequence of events: one visit per event, and the
/// tallies of their pages, places and referrers.
pub open spec fn stats_of(events: Seq<StoredEventView>) -> StatsView {
    StatsView {
        visitor_count: events.len(),
        pageviews: tally_of(urls(events)),
        locations: places_of(sightings(events)),
        sources: tally_of(referrers(events)),
    }
}

/// Statistics after one more event: one more visit, and the event's page,
/// place and referrer each counted once more.
pub open spec fn recorded(stats: StatsView, event: StoredEventView) -> StatsView {
    StatsView {
        visitor_count: stats.visitor_count + 1,
        pageviews: bumped(stats.pageviews, event.url),
        locations: place_bumped(stats.locations, sighting_of(event)),
        sources: bumped(stats.sources, event.referrer),
    }
}

/// Recording one more event turns the statistics of `events` into those of
/// `events` followed by that event.
pub proof fn lemma_stats_push(events: Seq<StoredEventView>, event: StoredEventView)
    ensures
        stats_of(events.push(event)) == recorded(stats_of(events), event),
{
    let grown = events.push(event);
    assert(urls(grown) == urls(events).push(event.url));
    assert(referrers(grown) == referrers(events).push(event.referrer));
    assert(sightings(grown) == sightings(events).push(sighting_of(event)));
    lemma_tally_push(urls(events), event.url);
    lemma_tally_push(referrers(events), event.referrer);
    lemma_places_push(sightings(events), sighting_of(event));
}

/// Events that all view the same page make one page entry, which counts as
/// many views as there are events, and as many visits.
pub proof fn lemma_one_page(events: Seq<StoredEventView>, url: Seq<char>)
    requires
        events.len() > 0,
        forall|i: int| 0 <= i < events.len() ==> events[i].url == url,
    ensures
        stats_of(events).visitor_count == events.len(),
        stats_of(events).pageviews == seq![CountView { key: url, count: events.len() }],
{
    lemma_tally_of_one_key(urls(events), url);
}

/// The statistics hold one page entry for each page that was viewed and one
/// referrer entry for each referrer that was come from, none of them twice
/// and none for anything else; each entry holds the number of events with
/// that page or referrer, and the entries of either kind add up to the
/// number of visits.
pub proof fn lemma_entries_match_events(events: Seq<StoredEventView>)
    ensures
        keys_of(stats_of(events).pageviews).no_duplicates(),
        keys_of(stats_of(events).sources).no_duplicates(),
        forall|url: Seq<char>| #[trigger]
            keys_of(stats_of(events).pageviews).contains(url) <==> urls(events).contains(url),
        forall|referrer: Seq<char>| #[trigger]
            keys_of(stats_of(events).sources).contains(referrer) <==> referrers(events).contains(
                referrer,
            ),
        forall|url: Seq<char>| #[trigger]
            count_in(stats_of(events).pageviews, url) == occurrences(urls(events), url),
        forall|referrer: Seq<char>| #[trigger]
            count_in(stats_of(events).sources, referrer) == occurrences(
                referrers(events),
                referrer,
            ),
        total(stats_of(events).pageviews) == stats_of(events).visitor_count,
        total(stats_of(events).sources) == stats_of(events).visitor_count,
{
    lemma_tally_counts(urls(events));
    lemma_tally_counts(referrers(events));
    lemma_tally_total(urls(events));
    lemma_tally_total(referrers(events));
}

/// The place of an event has exactly one entry. It counts the events of
/// that place, and its region is the region of the first of them.
pub proof fn lemma_place_entry(events: Seq<StoredEventView>, first: int)
    requires
        0 <= first < events.len(),
        forall|j: int|
            0 <= j < first ==> sighting_of(events[j]).location != sighting_of(
                events[first],
            ).location,
    ensures
        ({
            let key = sighting_of(events[first]).location;
            let places = stats_of(events).locations;
            let keys = keys_of(counts_of(places));
            &&& keys.no_duplicates()
            &&& keys.contains(key)
            &&& places[keys.index_of(key)].location == key
            &&& places[keys.index_of(key)].count == occurrences(
                sighted_keys(sightings(events)),
                key,
            )
            &&& places[keys.index_of(key)].region == events[first].location.region
        }),
{
    let seen = sightings(events);
    let key = sighting_of(events[first]).location;
    let places = stats_of(events).locations;
    let keys = keys_of(counts_of(places));
    lemma_places_counts(seen);
    lemma_tally_counts(sighted_keys(seen));
    assert(sighted_keys(seen)[first] == key);
    assert(sighted_keys(seen).contains(key));
    assert(counts_of(places) == tally_of(sighted_keys(seen)));
    assert(keys_of(tally_of(sighted_keys(seen))).contains(key));
    assert(count_in(tally_of(sighted_keys(seen)), key) == occurrences(sighted_keys(seen), key));
    let i = keys.index_of(key);
    assert(keys[i] == key);
    assert(counts_of(places)[i].count == places[i].count);
    lemma_first_region(seen, key, first);
}

/// No entry counts more visits than there were.
pub open spec fn bounded(stats: StatsView) -> bool {
    &&& forall|i: int|
        0 <= i < stats.pageviews.len() ==> (#[trigger] stats.pageviews[i]).count
            <= stats.visitor_count
    &&& forall|i: int|
        0 <= i < stats.locations.len() ==> (#[trigger] stats.locations[i]).count
            <= stats.visitor_count
    &&& forall|i: int|
        0 <= i < stats.sources.len() ==> (#[trigger] stats.sources[i]).count
            <= stats.visitor_count
}

/// The views of a sequence of stored events.
pub open spec fn event_views(events: Seq<StoredEventData>) -> Seq<StoredEventView> {
    events.map_values(|e: StoredEventData| e@)
}

/// The key that a place is counted under.
pub fn place_key(city: &str, region: &str) -> (key: String)
    ensures
        key@ == place_key_of(city@, region@),
{
    String::from_str(city).concat(", ").concat(region)
}

/// The statistics of one domain, as folded from its events so far.
#[derive(Debug)]
pub struct VisitorStats {
    visitor_count: usize,
    pageviews: Tally,
    locations: PlaceTally,
    sources: Tally,
}

impl View for VisitorStats {
    type V = StatsView;

    closed spec fn view(&self) -> StatsView {
        StatsView {
            visitor_count: self.visitor_count as nat,
            pageviews: self.pageviews@,
            locations: self.locations@,
            sources: self.sources@,
        }
    }
}

impl VisitorStats {
    #[verifier::type_invariant]
    closed spec fn inv(&self) -> bool {
        bounded(self@)
    }

    /// The statistics of a domain that no event was seen for: no visits and
    /// no entries.
    pub fn new() -> (stats: VisitorStats)
        ensures
            stats@ == stats_of(Seq::<StoredEventView>::empty()),
            stats@ == (StatsView {
                visitor_count: 0,
                pageviews: Seq::empty(),
                locations: Seq::empty(),
                sources: Seq::empty(),
            }),
    {
        let stats = VisitorStats {
            visitor_count: 0,
            pageviews: Tally::new(),
            locations: PlaceTally::new(),
            sources: Tally::new(),
        };
        proof {
            let none = Seq::<StoredEventView>::empty();
            assert(urls(none) =~= Seq::<Seq<char>>::empty());
            assert(referrers(none) =~= Seq::<Seq<char>>::empty());
            assert(sightings(none) =~= Seq::<Sighting>::empty());
            assert(tally_of(Seq::<Seq<char>>::empty()) =~= Seq::<CountView>::empty());
            assert(places_of(Seq::<Sighting>::empty()) =~= Seq::<PlaceView>::empty());
        }
        stats
    }

    /// The number of events folded in.
    pub fn visitor_count(&self) -> (n: usize)
        ensures
            n == self@.visitor_count,
    {
        self.visitor_count
    }

    /// The visits by page.
    pub fn pageviews(&self) -> (tally: &Tally)
        ensures
            tally@ == self@.pageviews,
    {
        &self.pageviews
    }

    /// The visits by place.
    pub fn locations(&self) -> (places: &PlaceTally)
        ensures
            places@ == self@.locations,
    {
        &self.locations
    }

    /// The visits by referrer.
    pub fn sources(&self) -> (tally: &Tally)
        ensures
            tally@ == self@.sources,
    {
        &self.sources
    }

    /// Folds one more event in: one more visit, and its page, its place and
    /// its referrer each counted once more. A place that was seen before
    /// keeps the region it was first seen with.
    pub fn record(&mut self, event: &StoredEventData)
        requires
            old(self)@.visitor_count < usize::MAX,
        ensures
            final(self)@ == recorded(old(self)@, event@),
    {
        let ghost before = self@;
        let mut taken = VisitorStats::new();
        std::mem::swap(self, &mut taken);
        proof {
            use_type_invariant(&taken);
        }
        let VisitorStats { visitor_count, mut pageviews, mut locations, mut sources } = taken;
        proof {
            assert(count_in(before.pageviews, event.url@) <= before.visitor_count);
            assert(count_in(before.sources, event.referrer@) <= before.visitor_count);
            let counts = counts_of(before.locations);
            let key = sighting_of(event@).location;
            if keys_of(counts).contains(key) {
                let i = keys_of(counts).index_of(key);
                assert(counts[i].count == before.locations[i].count);
            }
        }
        pageviews.bump(event.url.clone());
        sources.bump(event.referrer.clone());
        let key = place_key(event.location.city.as_str(), event.location.region.as_str());
        locations.bump(key, event.location.region.clone());
        let stats = VisitorStats {
            visitor_count: visitor_count + 1,
            pageviews,
            locations,
            sources,
        };
        *self = stats;
    }
}

/// Folds the events of a domain into its statistics, in one pass and in the
/// order given. The events may come in any order: the counts do not depend
/// on it, only the order of the entries does.
pub fn aggregate(events: &Vec<StoredEventData>) -> (stats: VisitorStats)
    ensures
        stats@ == stats_of(event_views(events@)),
{
    let mut stats = VisitorStats::new();
    let mut i: usize = 0;
    proof {
        assert(event_views(events@).take(0) == Seq::<StoredEventView>::empty());
    }
    while i < events.len()
        invariant
            i <= events.len(),
            stats@ == stats_of(event_views(events@).take(i as int)),
        decreases events.len() - i,
    {
        proof {
            let seen = event_views(events@).take(i as int);
            assert(event_views(events@).take(i + 1) == seen.push(events@[i as int]@));
            lemma_stats_push(seen, events@[i as int]@);
        }
        stats.record(&events[i]);
        i += 1;
    }
    proof {
        assert(event_views(events@).take(i as int) == event_views(events@));
    }
    stats
}

} // verus!
