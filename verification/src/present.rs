//! The statistics as they are sent out: each mapping as a sequence of flat
//! records.
//!
//! Ordering policy: records come in the order of the entries, which is the
//! order in which the scan first met each page, place or referrer. Nothing
//! is re-ordered, added or left out. The counts do not depend on the order
//! of the scan; the order of the records does, so a store that scans a
//! domain newest first yields the most recently visited page first.

use crate::places::{PlaceTally, PlaceView};
use crate::stats::{StatsView, VisitorStats};
use crate::tally::{count_views, CountView, Tally};
use vstd::prelude::*;

verus! {

/// The visits counted for one page.
#[derive(Debug)]
pub struct PrettyPageview {
    pub url: String,
    pub count: usize,
}

/// The visits counted for one place.
#[derive(Debug)]
pub struct PrettyLocation {
    pub location: String,
    pub region: String,
    pub count: usize,
}

/// The visits counted for one referrer.
#[derive(Debug)]
pub struct PrettySource {
    pub referrer: String,
    pub count: usize,
}

/// The statistics of one domain, ready to be sent.
#[derive(Debug)]
pub struct PrettyVisitorStats {
    pub visitor_count: usize,
    pub pageviews: Vec<PrettyPageview>,
    pub locations: Vec<PrettyLocation>,
    pub sources: Vec<PrettySource>,
}

impl View for PrettyPageview {
    type V = CountView;

    open spec fn view(&self) -> CountView {
        CountView { key: self.url@, count: self.count as nat }
    }
}

impl View for PrettySource {
    type V = CountView;

    open spec fn view(&self) -> CountView {
        CountView { key: self.referrer@, count: self.count as nat }
    }
}

impl View for PrettyLocation {
    type V = PlaceView;

    open spec fn view(&self) -> PlaceView {
        PlaceView { location: self.location@, region: self.region@, count: self.count as nat }
    }
}

/// The views of a sequence of page records.
pub open spec fn pageview_views(records: Seq<PrettyPageview>) -> Seq<CountView> {
    records.map_values(|p: PrettyPageview| p@)
}

/// The views of a sequence of place records.
pub open spec fn location_views(records: Seq<PrettyLocation>) -> Seq<PlaceView> {
    records.map_values(|p: PrettyLocation| p@)
}

/// The views of a sequence of referrer records.
pub open spec fn source_views(records: Seq<PrettySource>) -> Seq<CountView> {
    records.map_values(|p: PrettySource| p@)
}

impl View for PrettyVisitorStats {
    type V = StatsView;

    open spec fn view(&self) -> StatsView {
        StatsView {
            visitor_count: self.visitor_count as nat,
            pageviews: pageview_views(self.pageviews@),
            locations: location_views(self.locations@),
            sources: source_views(self.sources@),
        }
    }
}

fn pageview_records(tally: &Tally) -> (records: Vec<PrettyPageview>)
    ensures
        pageview_views(records@) == tally@,
{
    let entries = tally.entries();
    let mut records: Vec<PrettyPageview> = Vec::new();
    let mut i: usize = 0;
    while i < entries.len()
        invariant
            i <= entries.len(),
            count_views(entries@) == tally@,
            pageview_views(records@) == tally@.take(i as int),
        decreases entries.len() - i,
    {
        records.push(PrettyPageview { url: entries[i].key.clone(), count: entries[i].count });
        proof {
            assert(count_views(entries@)[i as int] == entries@[i as int]@);
            assert(pageview_views(records@) =~= tally@.take(i as int).push(tally@[i as int]));
            assert(tally@.take(i + 1) =~= tally@.take(i as int).push(tally@[i as int]));
        }
        i += 1;
    }
    proof {
        assert(tally@.take(i as int) == tally@);
    }
    records
}

fn source_records(tally: &Tally) -> (records: Vec<PrettySource>)
    ensures
        source_views(records@) == tally@,
{
    let entries = tally.entries();
    let mut records: Vec<PrettySource> = Vec::new();
    let mut i: usize = 0;
    while i < entries.len()
        invariant
            i <= entries.len(),
            count_views(entries@) == tally@,
            source_views(records@) == tally@.take(i as int),
        decreases entries.len() - i,
    {
        records.push(PrettySource { referrer: entries[i].key.clone(), count: entries[i].count });
        proof {
            assert(count_views(entries@)[i as int] == entries@[i as int]@);
            assert(source_views(records@) =~= tally@.take(i as int).push(tally@[i as int]));
            assert(tally@.take(i + 1) =~= tally@.take(i as int).push(tally@[i as int]));
        }
        i += 1;
    }
    proof {
        assert(tally@.take(i as int) == tally@);
    }
    records
}

fn location_records(places: &PlaceTally) -> (records: Vec<PrettyLocation>)
    ensures
        location_views(records@) == places@,
{
    let entries = places.counts().entries();
    let regions = places.regions();
    let mut records: Vec<PrettyLocation> = Vec::new();
    let mut i: usize = 0;
    proof {
        assert forall|j: int| 0 <= j < places@.len() implies (#[trigger] entries@[j])@ == (CountView {
            key: places@[j].location,
            count: places@[j].count,
        }) by {
            assert(count_views(entries@)[j] == entries@[j]@);
        }
    }
    while i < entries.len()
        invariant
            i <= entries.len(),
            entries@.len() == places@.len(),
            regions@.len() == places@.len(),
            forall|j: int|
                0 <= j < places@.len() ==> (#[trigger] entries@[j])@ == (CountView {
                    key: places@[j].location,
                    count: places@[j].count,
                }),
            forall|j: int| 0 <= j < places@.len() ==> (#[trigger] regions@[j])@ == places@[j].region,
            location_views(records@) == places@.take(i as int),
        decreases entries.len() - i,
    {
        records.push(
            PrettyLocation {
                location: entries[i].key.clone(),
                region: regions[i].clone(),
                count: entries[i].count,
            },
        );
        proof {
            assert(location_views(records@) =~= places@.take(i as int).push(places@[i as int]));
            assert(places@.take(i + 1) =~= places@.take(i as int).push(places@[i as int]));
        }
        i += 1;
    }
    proof {
        assert(places@.take(i as int) == places@);
    }
    records
}

impl From<VisitorStats> for PrettyVisitorStats {
    /// Turns each mapping of the statistics into a sequence of records, entry
    /// by entry and in entry order.
    fn from(stats: VisitorStats) -> (pretty: PrettyVisitorStats)
        ensures
            pretty@ == stats@,
    {
        PrettyVisitorStats {
            visitor_count: stats.visitor_count(),
            pageviews: pageview_records(stats.pageviews()),
            locations: location_records(stats.locations()),
            sources: source_records(stats.sources()),
        }
    }
}

impl vstd::std_specs::convert::FromSpecImpl<VisitorStats> for PrettyVisitorStats {
    open spec fn obeys_from_spec() -> bool {
        false
    }

    open spec fn from_spec(stats: VisitorStats) -> PrettyVisitorStats {
        arbitrary()
    }
}

/// The statistics as they are sent out. The statistics themselves are left
/// as they are.
pub fn present(stats: &VisitorStats) -> (pretty: PrettyVisitorStats)
    ensures
        pretty@ == stats@,
{
    PrettyVisitorStats {
        visitor_count: stats.visitor_count(),
        pageviews: pageview_records(stats.pageviews()),
        locations: location_records(stats.locations()),
        sources: source_records(stats.sources()),
    }
}

} // verus!
