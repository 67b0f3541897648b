//! Visitor counts by place. A place is counted under a key; the region that
//! came with the key's first sighting is kept beside the count.

use crate::tally::{count_in, keys_of, tally_of, well_formed, CountView, Tally};
use crate::tally::{lemma_distinct, lemma_tally_push, lemma_tally_well_formed};
use vstd::prelude::*;

verus! {

/// One visit from a place: the key it is counted under, and its region.
pub struct Sighting {
    pub location: Seq<char>,
    pub region: Seq<char>,
}

/// One place with its region and the number of visits counted for it.
pub struct PlaceView {
    pub location: Seq<char>,
    pub region: Seq<char>,
    pub count: nat,
}

/// The keys of a sequence of sightings.
pub open spec fn sighted_keys(sightings: Seq<Sighting>) -> Seq<Seq<char>> {
    sightings.map_values(|s: Sighting| s.location)
}

/// The region of the first sighting counted under `key`.
pub open spec fn first_region(sightings: Seq<Sighting>, key: Seq<char>) -> Seq<char>
    decreases sightings.len(),
{
    if sightings.len() == 0 {
        Seq::empty()
    } else if sightings.first().location == key {
        sightings.first().region
    } else {
        first_region(sightings.drop_first(), key)
    }
}

/// The places of a sequence of sightings: one entry per distinct key, in
/// order of first sighting, with the number of sightings under that key and
/// the region of the first of them.
pub open spec fn places_of(sightings: Seq<Sighting>) -> Seq<PlaceView> {
    tally_of(sighted_keys(sightings)).map_values(
        |c: CountView|
            PlaceView {
                location: c.key,
                region: first_region(sightings, c.key),
                count: c.count,
            },
    )
}

/// The counts of a sequence of places, without their regions.
pub open spec fn counts_of(places: Seq<PlaceView>) -> Seq<CountView> {
    places.map_values(|p: PlaceView| CountView { key: p.location, count: p.count })
}

/// The places after one more sighting: the entry of its key grows by one and
/// keeps its region, or a new entry with the sighting's region and count one
/// is appended when the key is new.
pub open spec fn place_bumped(places: Seq<PlaceView>, sighting: Sighting) -> Seq<PlaceView> {
    let keys = keys_of(counts_of(places));
    if keys.contains(sighting.location) {
        let i = keys.index_of(sighting.location);
        places.update(
            i,
            PlaceView {
                location: sighting.location,
                region: places[i].region,
                count: places[i].count + 1,
            },
        )
    } else {
        places.push(
            PlaceView { location: sighting.location, region: sighting.region, count: 1 },
        )
    }
}

/// A later sighting changes the first region of no key that was sighted
/// before, and sets that of its own key when the key is new.
pub proof fn lemma_first_region_push(sightings: Seq<Sighting>, sighting: Sighting, key: Seq<char>)
    ensures
        sighted_keys(sightings).contains(key) ==> first_region(sightings.push(sighting), key)
            == first_region(sightings, key),
        !sighted_keys(sightings).contains(key) && sighting.location == key ==> first_region(
            sightings.push(sighting),
            key,
        ) == sighting.region,
    decreases sightings.len(),
{
    let grown = sightings.push(sighting);
    let keys = sighted_keys(sightings);
    if sightings.len() == 0 {
        assert(grown.first() == sighting);
    } else {
        assert(grown.first() == sightings.first());
        assert(keys[0] == sightings.first().location);
        if sightings.first().location != key {
            let rest = sightings.drop_first();
            assert(grown.drop_first() == rest.push(sighting));
            lemma_first_region_push(rest, sighting, key);
            if keys.contains(key) {
                let i = choose|i: int| 0 <= i < keys.len() && keys[i] == key;
                assert(sighted_keys(rest)[i - 1] == key);
            }
            if sighted_keys(rest).contains(key) {
                let i = choose|i: int| 0 <= i < rest.len() && sighted_keys(rest)[i] == key;
                assert(keys[i + 1] == key);
            }
        }
    }
}

/// Counting one more sighting turns the places of `sightings` into the
/// places of `sightings` followed by that sighting.
pub proof fn lemma_places_push(sightings: Seq<Sighting>, sighting: Sighting)
    ensures
        places_of(sightings.push(sighting)) == place_bumped(places_of(sightings), sighting),
{
    let grown = sightings.push(sighting);
    let keys = sighted_keys(sightings);
    let before = places_of(sightings);
    assert(sighted_keys(grown) == keys.push(sighting.location));
    lemma_tally_push(keys, sighting.location);
    lemma_tally_well_formed(keys);
    lemma_distinct(keys);
    assert(counts_of(before) == tally_of(keys));
    let after = place_bumped(before, sighting);
    assert(places_of(grown).len() == after.len());
    assert forall|j: int| 0 <= j < after.len() implies places_of(grown)[j] == after[j] by {
        let key = tally_of(sighted_keys(grown))[j].key;
        if j < before.len() {
            assert(keys_of(tally_of(keys))[j] == key);
            assert(keys_of(tally_of(keys)).contains(key));
        }
        lemma_first_region_push(sightings, sighting, key);
    }
    assert(places_of(grown) == after);
}

/// The first region of a key is the region of the earliest sighting under
/// that key.
pub proof fn lemma_first_region(sightings: Seq<Sighting>, key: Seq<char>, first: int)
    requires
        0 <= first < sightings.len(),
        sightings[first].location == key,
        forall|j: int| 0 <= j < first ==> sightings[j].location != key,
    ensures
        first_region(sightings, key) == sightings[first].region,
    decreases sightings.len(),
{
    if first > 0 {
        let rest = sightings.drop_first();
        assert(sightings[0].location != key);
        assert forall|j: int| 0 <= j < first - 1 implies rest[j].location != key by {
            assert(rest[j] == sightings[j + 1]);
        }
        lemma_first_region(rest, key, first - 1);
    }
}

/// The places of a sequence of sightings are the tally of their keys, each
/// entry with the first region of its key.
pub proof fn lemma_places_counts(sightings: Seq<Sighting>)
    ensures
        counts_of(places_of(sightings)) == tally_of(sighted_keys(sightings)),
        forall|i: int|
            0 <= i < places_of(sightings).len() ==> (#[trigger] places_of(sightings)[i]).region
                == first_region(sightings, places_of(sightings)[i].location),
{
    assert(counts_of(places_of(sightings)) =~= tally_of(sighted_keys(sightings)));
}

/// Visit counts by place key, each with the region of the key's first
/// sighting. No key has two entries, and entries stay in order of first
/// sighting.
#[derive(Debug)]
pub struct PlaceTally {
    counts: Tally,
    regions: Vec<String>,
}

impl View for PlaceTally {
    type V = Seq<PlaceView>;

    closed spec fn view(&self) -> Seq<PlaceView> {
        Seq::new(
            self.counts@.len(),
            |i: int|
                PlaceView {
                    location: self.counts@[i].key,
                    region: self.regions@[i]@,
                    count: self.counts@[i].count,
                },
        )
    }
}

impl PlaceTally {
    #[verifier::type_invariant]
    closed spec fn inv(&self) -> bool {
        &&& self.regions@.len() == self.counts@.len()
        &&& well_formed(self.counts@)
    }

    /// A tally with no places.
    pub fn new() -> (places: PlaceTally)
        ensures
            places@ == Seq::<PlaceView>::empty(),
    {
        let places = PlaceTally { counts: Tally::new(), regions: Vec::new() };
        assert(places@ =~= Seq::<PlaceView>::empty());
        places
    }

    /// The number of distinct places counted so far.
    pub fn len(&self) -> (n: usize)
        ensures
            n == self@.len(),
    {
        self.counts.len()
    }

    /// The counts by place key, in order of first sighting.
    pub fn counts(&self) -> (counts: &Tally)
        ensures
            counts@ == counts_of(self@),
            well_formed(counts@),
    {
        proof {
            use_type_invariant(self);
            assert(self.counts@ =~= counts_of(self@));
        }
        &self.counts
    }

    /// The regions, in the order of the counts.
    pub fn regions(&self) -> (regions: &Vec<String>)
        ensures
            regions@.len() == self@.len(),
            forall|i: int| 0 <= i < self@.len() ==> (#[trigger] regions@[i])@ == self@[i].region,
    {
        proof {
            use_type_invariant(self);
        }
        &self.regions
    }

    /// Counts one more visit under `key`. A key that is new to the tally is
    /// entered with `region`; one that was counted before keeps the region it
    /// was entered with.
    pub fn bump(&mut self, key: String, region: String)
        requires
            count_in(counts_of(old(self)@), key@) < usize::MAX,
        ensures
            final(self)@ == place_bumped(old(self)@, Sighting { location: key@, region: region@ }),
    {
        proof {
            use_type_invariant(&*self);
            assert(self.counts@ =~= counts_of(self@));
        }
        let ghost before = self@;
        let mut taken = PlaceTally::new();
        std::mem::swap(self, &mut taken);
        proof {
            use_type_invariant(&taken);
        }
        let PlaceTally { mut counts, mut regions } = taken;
        let fresh = counts.bump(key);
        if fresh {
            regions.push(region);
        }
        let places = PlaceTally { counts, regions };
        proof {
            assert(places@ =~= place_bumped(before, Sighting { location: key@, region: region@ }));
        }
        *self = places;
    }
}

} // verus!
