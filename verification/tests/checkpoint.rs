use crashlab_core::checkpoint::{CheckpointError, RunCheckpoint};
use crashlab_core::CaseSeed;

fn seeds(n: usize) -> Vec<CaseSeed> {
    (0..n)
        .map(|i| CaseSeed {
            id: i as u64,
            payload: vec![i as u8],
        })
        .collect()
}

#[test]
fn fresh_checkpoint_starts_at_zero() {
    let s = seeds(10);
    let cp = RunCheckpoint::new_run("c1", &s);
    assert_eq!(cp.next_seed_index, 0);
    assert_eq!(cp.total_seeds, 10);
    assert_eq!(cp.remaining(&s).unwrap().len(), 10);
}

#[test]
fn advance_skips_completed_prefix() {
    let s = seeds(10);
    let mut cp = RunCheckpoint::new_run("c1", &s);
    cp.advance_by(3);
    assert_eq!(cp.remaining(&s).unwrap().len(), 7);
    assert_eq!(cp.remaining(&s).unwrap()[0].id, 3);
}

#[test]
fn resume_does_not_reprocess_completed() {
    let s = seeds(5);
    let mut cp = RunCheckpoint::new_run("c1", &s);
    cp.advance_by(3);
    let rest = cp.remaining(&s).unwrap();
    let ids: Vec<u64> = rest.iter().map(|x| x.id).collect();
    assert_eq!(ids, vec![3, 4]);
}

#[test]
fn total_mismatch_errors() {
    let s = seeds(5);
    let mut cp = RunCheckpoint::new_run("c1", &s);
    cp.total_seeds = 99;
    assert!(matches!(
        cp.remaining(&s),
        Err(CheckpointError::TotalMismatch { .. })
    ));
}


#[test]
fn is_complete_when_fully_advanced() {
    let s = seeds(3);
    let mut cp = RunCheckpoint::new_run("c", &s);
    cp.advance_by(3);
    assert!(cp.is_complete(&s));
}
