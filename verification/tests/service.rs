use festival_bands::flatten::flatten;
use festival_bands::sample::effective_count;
use festival_bands::{ArtistPerformance, BandData, Festival, FestivalYear, SampleError, Store};

fn record(name: &str, festival: &str, year: u16) -> ArtistPerformance {
    ArtistPerformance { name: name.to_string(), festival: festival.to_string(), year }
}

fn lowlands_doc() -> BandData {
    BandData {
        festivals: vec![Festival {
            name: "Lowlands".to_string(),
            years: vec![FestivalYear {
                year: 2015,
                artists: vec!["A".to_string(), "B".to_string()],
            }],
        }],
    }
}

fn two_festival_doc() -> BandData {
    BandData {
        festivals: vec![
            Festival {
                name: "Pinkpop".to_string(),
                years: vec![
                    FestivalYear {
                        year: 2008,
                        artists: vec!["Foo Fighters".to_string(), "Metallica".to_string()],
                    },
                    FestivalYear { year: 2009, artists: vec!["Bruce Springsteen".to_string()] },
                ],
            },
            Festival {
                name: "Lowlands".to_string(),
                years: vec![FestivalYear {
                    year: 2019,
                    artists: vec![
                        "Billie Eilish".to_string(),
                        "Tame Impala".to_string(),
                        "New Order".to_string(),
                    ],
                }],
            },
        ],
    }
}

#[test]
fn flatten_single_festival() {
    let flat = flatten(&lowlands_doc());
    assert_eq!(
        flat,
        vec![record("A", "Lowlands", 2015), record("B", "Lowlands", 2015)]
    );
}

#[test]
fn flatten_count_matches_artist_entries() {
    let flat = flatten(&two_festival_doc());
    assert_eq!(flat.len(), 2 + 1 + 3);
}

#[test]
fn flatten_keeps_source_order() {
    let flat = flatten(&two_festival_doc());
    assert_eq!(
        flat,
        vec![
            record("Foo Fighters", "Pinkpop", 2008),
            record("Metallica", "Pinkpop", 2008),
            record("Bruce Springsteen", "Pinkpop", 2009),
            record("Billie Eilish", "Lowlands", 2019),
            record("Tame Impala", "Lowlands", 2019),
            record("New Order", "Lowlands", 2019),
        ]
    );
}

#[test]
fn flatten_is_deterministic() {
    let doc = two_festival_doc();
    assert_eq!(flatten(&doc), flatten(&doc));
}

#[test]
fn flatten_preserves_duplicates() {
    let doc = BandData {
        festivals: vec![Festival {
            name: "Pinkpop".to_string(),
            years: vec![FestivalYear {
                year: 2010,
                artists: vec!["Muse".to_string(), "Muse".to_string()],
            }],
        }],
    };
    let flat = flatten(&doc);
    assert_eq!(flat, vec![record("Muse", "Pinkpop", 2010), record("Muse", "Pinkpop", 2010)]);
}

#[test]
fn effective_count_defaults_to_one() {
    assert_eq!(effective_count(None), 1);
}

#[test]
fn effective_count_clamps_low() {
    assert_eq!(effective_count(Some(0)), 1);
}

#[test]
fn effective_count_clamps_high() {
    assert_eq!(effective_count(Some(10)), 5);
    assert_eq!(effective_count(Some(usize::MAX)), 5);
}

#[test]
fn effective_count_keeps_in_range_values() {
    assert_eq!(effective_count(Some(1)), 1);
    assert_eq!(effective_count(Some(3)), 3);
    assert_eq!(effective_count(Some(5)), 5);
}

#[test]
fn export_all_returns_everything_in_order() {
    let store = Store::from_document(&two_festival_doc());
    let all = store.export_all();
    assert_eq!(all, flatten(&two_festival_doc()));
    assert_eq!(all.len(), store.len());
}

#[test]
fn store_len_and_is_empty() {
    let store = Store::from_document(&lowlands_doc());
    assert_eq!(store.len(), 2);
    assert!(!store.is_empty());
    let empty = Store::new(Vec::new());
    assert_eq!(empty.len(), 0);
    assert!(empty.is_empty());
}

#[test]
fn sample_single_record_store_returns_it() {
    let store = Store::new(vec![record("Nirvana", "Pinkpop", 1992)]);
    let picked = store.sample(Some(1));
    assert_eq!(picked, vec![record("Nirvana", "Pinkpop", 1992)]);
}

#[test]
fn sample_count_above_store_size_returns_whole_store() {
    let store = Store::new(vec![record("A", "Lowlands", 2015), record("B", "Lowlands", 2015)]);
    let picked = store.sample(Some(10));
    assert_eq!(picked.len(), 2);
    assert!(picked.contains(&record("A", "Lowlands", 2015)));
    assert!(picked.contains(&record("B", "Lowlands", 2015)));
}

#[test]
fn sample_zero_behaves_like_one() {
    let store = Store::from_document(&two_festival_doc());
    let zero = store.sample(Some(0));
    let one = store.sample(Some(1));
    assert_eq!(zero.len(), 1);
    assert_eq!(one.len(), 1);
    let all = store.export_all();
    assert!(all.contains(&zero[0]));
    assert!(all.contains(&one[0]));
}

#[test]
fn sample_draws_distinct_positions() {
    let records = vec![
        record("A", "Lowlands", 2015),
        record("B", "Lowlands", 2016),
        record("C", "Lowlands", 2017),
        record("D", "Lowlands", 2018),
        record("E", "Lowlands", 2019),
    ];
    let store = Store::new(records.clone());
    for _ in 0..20 {
        let picked = store.sample(Some(5));
        assert_eq!(picked.len(), 5);
        for r in &records {
            assert!(picked.contains(r));
        }
    }
}

#[test]
fn sample_cardinality_is_clamped_min() {
    let store = Store::from_document(&two_festival_doc());
    assert_eq!(store.len(), 6);
    assert_eq!(store.sample(None).len(), 1);
    assert_eq!(store.sample(Some(3)).len(), 3);
    assert_eq!(store.sample(Some(100)).len(), 5);
}

#[test]
fn sample_on_empty_store_is_empty() {
    let store = Store::new(Vec::new());
    assert_eq!(store.sample(Some(3)), Vec::new());
    assert_eq!(store.sample(None), Vec::new());
}

#[test]
fn random_bands_reports_not_found_on_empty_store() {
    let store = Store::new(Vec::new());
    let err = store.random_bands(Some(3)).unwrap_err();
    assert_eq!(err, SampleError::EmptyStore);
    assert_eq!(err.message(), "No performances found.");
}

#[test]
fn random_bands_returns_sample_on_populated_store() {
    let store = Store::from_document(&lowlands_doc());
    let picked = store.random_bands(None).unwrap();
    assert_eq!(picked.len(), 1);
    assert!(store.export_all().contains(&picked[0]));
}
