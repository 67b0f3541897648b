//! Reading a store scan. The store hands its records over one at a time, and
//! any of them may turn out unreadable; what a request makes of that is
//! decided here.

use crate::event::{StoredEventData, StoredEventView};
use crate::stats::{event_views, lemma_stats_push, recorded, stats_of, VisitorStats};
use vstd::prelude::*;

verus! {

/// One step of a store scan.
#[derive(Debug)]
pub enum ScanRecord {
    /// A record that decoded to an event.
    Event(StoredEventData),
    /// A record that the store returned and that is no event.
    Undecodable,
    /// The store failed to return its next record.
    ReadFailed,
}

/// Why a scan was given up.
#[derive(Debug, Clone, Copy, PartialEq, Eq, Structural)]
pub enum ScanError {
    /// A record could not be decoded.
    Decode,
    /// The store could not be read.
    Read,
}

/// What is wrong with a record, if anything.
pub open spec fn fault_of(record: ScanRecord) -> Option<ScanError> {
    match record {
        ScanRecord::Event(_) => None,
        ScanRecord::Undecodable => Some(ScanError::Decode),
        ScanRecord::ReadFailed => Some(ScanError::Read),
    }
}

/// The fault of the first record that has one.
pub open spec fn first_fault(records: Seq<ScanRecord>) -> Option<ScanError>
    decreases records.len(),
{
    if records.len() == 0 {
        None
    } else if fault_of(records.first()) is Some {
        fault_of(records.first())
    } else {
        first_fault(records.drop_first())
    }
}

/// The events among the records, in scan order.
pub open spec fn decoded(records: Seq<ScanRecord>) -> Seq<StoredEventView>
    decreases records.len(),
{
    if records.len() == 0 {
        Seq::empty()
    } else {
        match records.last() {
            ScanRecord::Event(event) => decoded(records.drop_last()).push(event@),
            _ => decoded(records.drop_last()),
        }
    }
}

/// Whether the store failed to return one of the records.
pub open spec fn read_failed(records: Seq<ScanRecord>) -> bool {
    exists|i: int| 0 <= i < records.len() && records[i] is ReadFailed
}

impl VisitorStats {
    /// Takes the next record of a scan: an event is folded in, and anything
    /// else is handed back as the fault that ends the scan, with the statistics
    /// left as they were.
    pub fn absorb(&mut self, record: &ScanRecord) -> (outcome: Result<(), ScanError>)
        requires
            old(self)@.visitor_count < usize::MAX,
        ensures
            match *record {
                ScanRecord::Event(event) => outcome is Ok && final(self)@ == recorded(
                    old(self)@,
                    event@,
                ),
                _ => outcome == Err::<(), ScanError>(fault_of(*record).unwrap()) && final(self)@
                    == old(self)@,
            },
    {
        match record {
            ScanRecord::Event(event) => {
                self.record(event);
                Ok(())
            },
            ScanRecord::Undecodable => Err(ScanError::Decode),
            ScanRecord::ReadFailed => Err(ScanError::Read),
        }
    }
}

/// Folds a scan into statistics, or fails with the first fault in it: a
/// scan with an unreadable record yields no statistics at all, whatever was
/// read before it.
pub fn aggregate_scan(records: &Vec<ScanRecord>) -> (result: Result<VisitorStats, ScanError>)
    ensures
        match result {
            Ok(stats) => first_fault(records@) is None && stats@ == stats_of(decoded(records@)),
            Err(fault) => first_fault(records@) == Some(fault),
        },
{
    let mut stats = VisitorStats::new();
    let mut i: usize = 0;
    proof {
        assert(records@.skip(0) == records@);
        assert(records@.take(0) == Seq::<ScanRecord>::empty());
    }
    while i < records.len()
        invariant
            i <= records.len(),
            first_fault(records@) == first_fault(records@.skip(i as int)),
            stats@ == stats_of(decoded(records@.take(i as int))),
            stats@.visitor_count <= i,
        decreases records.len() - i,
    {
        proof {
            let rest = records@.skip(i as int);
            let seen = records@.take(i as int);
            assert(rest.first() == records@[i as int]);
            assert(rest.drop_first() == records@.skip(i + 1));
            assert(records@.take(i + 1).drop_last() == seen);
            assert(records@.take(i + 1).last() == records@[i as int]);
            if let ScanRecord::Event(event) = records@[i as int] {
                lemma_stats_push(decoded(seen), event@);
            }
        }
        match stats.absorb(&records[i]) {
            Ok(()) => {},
            Err(fault) => {
                return Err(fault);
            },
        }
        i += 1;
    }
    proof {
        assert(records@.take(i as int) == records@);
    }
    Ok(stats)
}

/// Gathers the events of a scan for an unfiltered dump, in scan order. A
/// record that is no event is left out; a scan that the store failed to
/// deliver in full yields nothing.
pub fn collect_events(records: Vec<ScanRecord>) -> (result: Result<
    Vec<StoredEventData>,
    ScanError,
>)
    ensures
        match result {
            Ok(events) => !read_failed(records@) && event_views(events@) == decoded(records@),
            Err(fault) => fault == ScanError::Read && read_failed(records@),
        },
{
    let ghost all = records@;
    let mut events: Vec<StoredEventData> = Vec::new();
    proof {
        assert(all.take(0) == Seq::<ScanRecord>::empty());
        assert(event_views(events@) == Seq::<StoredEventView>::empty());
    }
    for record in iter: records.into_iter()
        invariant
            iter.seq() == all,
            event_views(events@) == decoded(all.take(iter.index() as int)),
            forall|j: int| 0 <= j < iter.index() ==> !(all[j] is ReadFailed),
    {
        proof {
            let n = iter.index() as int;
            assert(all.take(n + 1).drop_last() == all.take(n));
            assert(all.take(n + 1).last() == all[n]);
            assert(record == all[n]);
        }
        let ghost held = events@;
        match record {
            ScanRecord::Event(event) => {
                events.push(event);
                proof {
                    assert(event_views(events@) == event_views(held).push(event@));
                }
            },
            ScanRecord::Undecodable => {},
            ScanRecord::ReadFailed => {
                return Err(ScanError::Read);
            },
        }
    }
    proof {
        assert(all.take(all.len() as int) == all);
    }
    Ok(events)
}

} // verus!
