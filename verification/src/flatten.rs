//! Flattening: the deterministic transform from the nested document to
//! the flat ordered list of performance records.

use crate::model::{ArtistPerformance, BandData, Festival, FestivalYear};
use vstd::prelude::*;

verus! {

/// The records contributed by one festival year: one per artist entry,
/// in source order.
pub open spec fn year_records(festival_name: String, y: FestivalYear) -> Seq<ArtistPerformance> {
    Seq::new(
        y.artists@.len(),
        |i: int| ArtistPerformance { name: y.artists@[i], festival: festival_name, year: y.year },
    )
}

/// The records contributed by a sequence of years of one festival, in
/// order.
pub open spec fn years_records(festival_name: String, years: Seq<FestivalYear>) -> Seq<
    ArtistPerformance,
>
    decreases years.len(),
{
    if years.len() == 0 {
        Seq::empty()
    } else {
        years_records(festival_name, years.drop_last()) + year_records(
            festival_name,
            years.last(),
        )
    }
}

/// The records contributed by a sequence of festivals, in order.
pub open spec fn festivals_records(festivals: Seq<Festival>) -> Seq<ArtistPerformance>
    decreases festivals.len(),
{
    if festivals.len() == 0 {
        Seq::empty()
    } else {
        festivals_records(festivals.drop_last()) + years_records(
            festivals.last().name,
            festivals.last().years@,
        )
    }
}

/// What flattening a document yields: a depth-first traversal that keeps
/// source order throughout and neither reorders, deduplicates nor
/// filters.
pub open spec fn flatten_spec(doc: BandData) -> Seq<ArtistPerformance> {
    festivals_records(doc.festivals@)
}

/// Total number of artist entries across a sequence of years.
pub open spec fn years_artist_count(years: Seq<FestivalYear>) -> int
    decreases years.len(),
{
    if years.len() == 0 {
        0
    } else {
        years_artist_count(years.drop_last()) + years.last().artists@.len()
    }
}

/// Total number of artist entries across a sequence of festivals.
pub open spec fn doc_artist_count(festivals: Seq<Festival>) -> int
    decreases festivals.len(),
{
    if festivals.len() == 0 {
        0
    } else {
        doc_artist_count(festivals.drop_last()) + years_artist_count(festivals.last().years@)
    }
}

proof fn lemma_years_records_len(festival_name: String, years: Seq<FestivalYear>)
    ensures
        years_records(festival_name, years).len() == years_artist_count(years),
    decreases years.len(),
{
    if years.len() > 0 {
        lemma_years_records_len(festival_name, years.drop_last());
    }
}

proof fn lemma_festivals_records_len(festivals: Seq<Festival>)
    ensures
        festivals_records(festivals).len() == doc_artist_count(festivals),
    decreases festivals.len(),
{
    if festivals.len() > 0 {
        lemma_festivals_records_len(festivals.drop_last());
        lemma_years_records_len(festivals.last().name, festivals.last().years@);
    }
}

/// Flattening count invariant: the flattened list holds one record per
/// artist entry of the document, so its length is the sum, over every
/// year of every festival, of that year's artist count.
pub proof fn lemma_flatten_count(doc: BandData)
    ensures
        flatten_spec(doc).len() == doc_artist_count(doc.festivals@),
{
    lemma_festivals_records_len(doc.festivals@);
}

/// Flattening order invariant: the flattened output is a function of the
/// document alone, so flattening the same document twice yields
/// identical ordered output.
pub proof fn lemma_flatten_deterministic(doc1: BandData, doc2: BandData)
    requires
        doc1 == doc2,
    ensures
        flatten_spec(doc1) == flatten_spec(doc2),
{
}

/// Append the records of one festival year to `out`.
fn flatten_year(festival_name: &String, y: &FestivalYear, out: &mut Vec<ArtistPerformance>)
    ensures
        final(out)@ == old(out)@ + year_records(*festival_name, *y),
{
    let mut k: usize = 0;
    while k < y.artists.len()
        invariant
            k <= y.artists@.len(),
            out@ == old(out)@ + year_records(*festival_name, *y).take(k as int),
        decreases y.artists@.len() - k,
    {
        out.push(
            ArtistPerformance {
                name: y.artists[k].clone(),
                festival: festival_name.clone(),
                year: y.year,
            },
        );
        proof {
            let recs = year_records(*festival_name, *y);
            assert(old(out)@ + recs.take(k as int + 1) =~= (old(out)@ + recs.take(k as int)).push(
                recs[k as int],
            ));
        }
        k = k + 1;
    }
    proof {
        assert(year_records(*festival_name, *y).take(y.artists@.len() as int) =~= year_records(
            *festival_name,
            *y,
        ));
    }
}

/// Append the records of one festival to `out`.
fn flatten_festival(f: &Festival, out: &mut Vec<ArtistPerformance>)
    ensures
        final(out)@ == old(out)@ + years_records(f.name, f.years@),
{
    let mut j: usize = 0;
    while j < f.years.len()
        invariant
            j <= f.years@.len(),
            out@ == old(out)@ + years_records(f.name, f.years@.take(j as int)),
        decreases f.years@.len() - j,
    {
        flatten_year(&f.name, &f.years[j], out);
        proof {
            let prefix = f.years@.take(j as int + 1);
            assert(prefix.drop_last() =~= f.years@.take(j as int));
            assert(prefix.last() == f.years@[j as int]);
            assert(out@ == old(out)@ + (years_records(f.name, f.years@.take(j as int))
                + year_records(f.name, f.years@[j as int])));
        }
        j = j + 1;
    }
    proof {
        assert(f.years@.take(f.years@.len() as int) =~= f.years@);
    }
}

/// Flatten the nested document into the flat ordered list of performance
/// records: festivals in source order, years within a festival in source
/// order, artists within a year in source order.
pub fn flatten(doc: &BandData) -> (r: Vec<ArtistPerformance>)
    ensures
        r@ == flatten_spec(*doc),
{
    let mut out: Vec<ArtistPerformance> = Vec::new();
    let mut i: usize = 0;
    while i < doc.festivals.len()
        invariant
            i <= doc.festivals@.len(),
            out@ == festivals_records(doc.festivals@.take(i as int)),
        decreases doc.festivals@.len() - i,
    {
        flatten_festival(&doc.festivals[i], &mut out);
        proof {
            let prefix = doc.festivals@.take(i as int + 1);
            assert(prefix.drop_last() =~= doc.festivals@.take(i as int));
            assert(prefix.last() == doc.festivals@[i as int]);
        }
        i = i + 1;
    }
    proof {
        assert(doc.festivals@.take(doc.festivals@.len() as int) =~= doc.festivals@);
    }
    out
}

} // verus!
