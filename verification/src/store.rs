//! The in-memory store: the flattened collection, built once and read
//! only afterwards.

use crate::flatten::{flatten, flatten_spec};
use crate::model::{ArtistPerformance, BandData};
use vstd::prelude::*;

verus! {

/// Holds the flattened performance collection for the process lifetime.
/// Nothing mutates it after construction: every accessor takes `&self`.
pub struct Store {
    records: Vec<ArtistPerformance>,
}

impl View for Store {
    type V = Seq<ArtistPerformance>;

    closed spec fn view(&self) -> Seq<ArtistPerformance> {
        self.records@
    }
}

impl Store {
    /// Build the store from an already-flattened list of records.
    pub fn new(records: Vec<ArtistPerformance>) -> (s: Store)
        ensures
            s@ == records@,
    {
        Store { records }
    }

    /// Build the store by flattening a source document.
    pub fn from_document(doc: &BandData) -> (s: Store)
        ensures
            s@ == flatten_spec(*doc),
    {
        Store { records: flatten(doc) }
    }

    /// Number of records held.
    pub fn len(&self) -> (n: usize)
        ensures
            n == self@.len(),
    {
        self.records.len()
    }

    /// Whether the store holds no records at all.
    pub fn is_empty(&self) -> (b: bool)
        ensures
            b <==> self@.len() == 0,
    {
        self.records.len() == 0
    }

    /// Read one record by its position.
    pub fn get(&self, i: usize) -> (r: &ArtistPerformance)
        requires
            i < self@.len(),
        ensures
            *r == self@[i as int],
    {
        &self.records[i]
    }

    /// Export completeness: the full collection, every record exactly
    /// once, in flattening order, with no omissions or duplications.
    pub fn export_all(&self) -> (r: Vec<ArtistPerformance>)
        ensures
            r@ == self@,
    {
        let mut out: Vec<ArtistPerformance> = Vec::new();
        let mut i: usize = 0;
        while i < self.records.len()
            invariant
                i <= self.records@.len(),
                out@ == self.records@.take(i as int),
            decreases self.records@.len() - i,
        {
            out.push(self.records[i].clone());
            proof {
                assert(self.records@.take(i as int + 1) =~= self.records@.take(i as int).push(
                    self.records@[i as int],
                ));
            }
            i = i + 1;
        }
        proof {
            assert(self.records@.take(self.records@.len() as int) =~= self.records@);
        }
        out
    }
}

} // verus!
