use crashlab_core::mutation_budget::MutationBudget;

#[test]
fn allows_attempts_up_to_budget() {
    let mut b = MutationBudget::new(5);
    for _ in 0..5 {
        assert!(b.try_attempt());
    }
    assert_eq!(b.report().attempts_made, 5);
    assert_eq!(b.report().skipped, 0);
}

#[test]
fn rejects_attempts_beyond_budget() {
    let mut b = MutationBudget::new(2);
    b.try_attempt();
    b.try_attempt();
    assert!(!b.try_attempt());
    assert!(!b.try_attempt());
    assert_eq!(b.report().skipped, 2);
}

#[test]
fn zero_budget_skips_all_attempts() {
    let mut b = MutationBudget::new(0);
    assert!(!b.try_attempt());
    assert!(!b.try_attempt());
    let r = b.report();
    assert_eq!(r.attempts_made, 0);
    assert_eq!(r.skipped, 2);
    assert!(r.exhausted);
}

#[test]
fn is_exhausted_only_after_budget_consumed() {
    let mut b = MutationBudget::new(3);
    assert!(!b.is_exhausted());
    b.try_attempt();
    b.try_attempt();
    assert!(!b.is_exhausted());
    b.try_attempt();
    assert!(b.is_exhausted());
}

#[test]
fn remaining_decrements_correctly() {
    let mut b = MutationBudget::new(4);
    assert_eq!(b.remaining(), 4);
    b.try_attempt();
    assert_eq!(b.remaining(), 3);
    b.try_attempt();
    b.try_attempt();
    b.try_attempt();
    assert_eq!(b.remaining(), 0);
    // Extra attempts don't underflow remaining.
    b.try_attempt();
    assert_eq!(b.remaining(), 0);
}

#[test]
fn report_exhausted_flag_matches_state() {
    let mut b = MutationBudget::new(1);
    assert!(!b.report().exhausted);
    b.try_attempt();
    assert!(b.report().exhausted);
}

#[test]
fn cli_line_includes_exhausted_tag_when_budget_spent() {
    let mut b = MutationBudget::new(2);
    b.try_attempt();
    b.try_attempt();
    b.try_attempt(); // skipped
    let line = b.report().to_cli_line();
    assert!(line.contains("EXHAUSTED"));
    assert!(line.contains("skipped: 1"));
}

#[test]
fn cli_line_omits_exhausted_tag_when_budget_remains() {
    let mut b = MutationBudget::new(10);
    b.try_attempt();
    let line = b.report().to_cli_line();
    assert!(!line.contains("EXHAUSTED"));
}

#[test]
fn any_run_of_attempts_counts_each_call_once() {
    for budget in 0..6u64 {
        let mut b = MutationBudget::new(budget);
        for k in 1..=10u64 {
            let before = b.report();
            let went = b.try_attempt();
            assert_eq!(went, before.attempts_made < before.budget);
            let r = b.report();
            assert_eq!(r.attempts_made, k.min(budget));
            assert_eq!(r.skipped, k - k.min(budget));
            assert_eq!(r.exhausted, b.remaining() == 0);
        }
    }
}
