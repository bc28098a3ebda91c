use crashlab_core::corpus::{archive_seeds, corpus_archive_from_seeds, CorpusArchive, CorpusError};
use crashlab_core::CaseSeed;

#[test]
fn archive_sorts_by_id_then_payload() {
    let seeds = vec![
        CaseSeed { id: 2, payload: vec![1] },
        CaseSeed { id: 1, payload: vec![2] },
        CaseSeed { id: 1, payload: vec![1] },
    ];
    let arch = corpus_archive_from_seeds(seeds);
    assert_eq!(arch.schema, 1);
    assert_eq!(arch.seeds[0], CaseSeed { id: 1, payload: vec![1] });
    assert_eq!(arch.seeds[1], CaseSeed { id: 1, payload: vec![2] });
    assert_eq!(arch.seeds[2].id, 2);
}

#[test]
fn archive_orders_prefix_payload_first() {
    let seeds = vec![
        CaseSeed { id: 1, payload: vec![1, 0] },
        CaseSeed { id: 1, payload: vec![1] },
        CaseSeed { id: 1, payload: vec![] },
    ];
    let arch = corpus_archive_from_seeds(seeds);
    assert_eq!(arch.seeds[0].payload, Vec::<u8>::new());
    assert_eq!(arch.seeds[1].payload, vec![1]);
    assert_eq!(arch.seeds[2].payload, vec![1, 0]);
}

#[test]
fn archive_round_trips_through_its_seeds() {
    let seeds: Vec<CaseSeed> =
        (0..5).rev().map(|i| CaseSeed { id: i, payload: vec![i as u8; 3] }).collect();
    let arch = corpus_archive_from_seeds(seeds);
    let again = corpus_archive_from_seeds(archive_seeds(arch.clone()).unwrap());
    assert_eq!(arch, again);
}

#[test]
fn archive_with_wrong_schema_is_rejected() {
    let arch = CorpusArchive { schema: 999, seeds: vec![] };
    match archive_seeds(arch) {
        Err(CorpusError::UnsupportedSchema { found }) => assert_eq!(found, 999),
        _ => panic!("expected UnsupportedSchema"),
    }
    assert_eq!(
        CorpusError::UnsupportedSchema { found: 999 }.message(),
        "unsupported corpus schema version 999"
    );
}
