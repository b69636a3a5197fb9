//! The source document shape and the flattened performance record.

use vstd::prelude::*;

verus! {

/// One year of a festival's programme: the year number and the artists
/// billed for it, in source order.
pub struct FestivalYear {
    pub year: u16,
    pub artists: Vec<String>,
}

/// A festival: its name and its programmed years, in source order.
pub struct Festival {
    pub name: String,
    pub years: Vec<FestivalYear>,
}

/// The whole source document: the festivals, in source order.
pub struct BandData {
    pub festivals: Vec<Festival>,
}

/// One (artist, festival, year) occurrence: the atomic unit of the
/// flattened dataset. Records carry no identity beyond their field
/// values; duplicates in the source stay duplicates here.
#[derive(Debug, PartialEq, Eq)]
pub struct ArtistPerformance {
    pub name: String,
    pub festival: String,
    pub year: u16,
}

impl Clone for ArtistPerformance {
    fn clone(&self) -> (r: Self)
        ensures
            r == *self,
    {
        ArtistPerformance {
            name: self.name.clone(),
            festival: self.festival.clone(),
            year: self.year,
        }
    }
}

} // verus!
