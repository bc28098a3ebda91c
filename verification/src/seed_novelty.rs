//! Seed prioritization by novelty: unseen crash signatures first, unseen state
//! diffs second, ties broken by seed ID.
use std::collections::HashSet;
use vstd::prelude::*;

use crate::order::{
    key_view, lemma_stable_order_first, spec_bytes_lt, spec_is_stable_order, spec_precedes,
    stable_order,
};
use crate::{CaseSeed, SeedView};

verus! {

broadcast use vstd::std_specs::hash::group_hash_axioms;

/// A seed queued for execution, with the signature and state diff it produced.
#[derive(Debug, PartialEq, Eq)]
pub struct SeedNoveltyCandidate {
    pub seed: CaseSeed,
    pub signature_hash: u64,
    pub state_diff_hash: Option<u64>,
}

/// The mathematical value of a [`SeedNoveltyCandidate`].
pub struct CandidateView {
    pub seed: SeedView,
    pub signature_hash: u64,
    pub state_diff_hash: Option<u64>,
}

impl View for SeedNoveltyCandidate {
    type V = CandidateView;

    open spec fn view(&self) -> CandidateView {
        CandidateView {
            seed: self.seed@,
            signature_hash: self.signature_hash,
            state_diff_hash: self.state_diff_hash,
        }
    }
}

impl Clone for SeedNoveltyCandidate {
    fn clone(&self) -> (r: Self)
        ensures
            r@ == self@,
    {
        SeedNoveltyCandidate {
            seed: self.seed.clone(),
            signature_hash: self.signature_hash,
            state_diff_hash: self.state_diff_hash,
        }
    }
}

/// The views of a sequence of candidates.
pub open spec fn spec_candidate_views(cs: Seq<SeedNoveltyCandidate>) -> Seq<CandidateView> {
    cs.map_values(|c: SeedNoveltyCandidate| c@)
}

/// Remembers which signatures and state diffs have been observed.
#[derive(Debug)]
pub struct NoveltyPrioritizer {
    seen_signatures: HashSet<u64>,
    seen_state_diffs: HashSet<u64>,
}

/// What a [`NoveltyPrioritizer`] has seen.
pub struct PrioritizerView {
    pub signatures: Set<u64>,
    pub state_diffs: Set<u64>,
}

impl View for NoveltyPrioritizer {
    type V = PrioritizerView;

    closed spec fn view(&self) -> PrioritizerView {
        PrioritizerView { signatures: self.seen_signatures@, state_diffs: self.seen_state_diffs@ }
    }
}

/// A prioritizer that has seen nothing.
pub open spec fn spec_empty_view() -> PrioritizerView {
    PrioritizerView { signatures: Set::empty(), state_diffs: Set::empty() }
}

/// The novelty score: 2 for an unseen signature, plus 1 for an unseen state diff.
pub open spec fn spec_novelty_score(p: PrioritizerView, signature_hash: u64, state_diff_hash: Option<
    u64,
>) -> u8 {
    let sig: int = if !p.signatures.contains(signature_hash) {
        2
    } else {
        0
    };
    let diff: int = match state_diff_hash {
        Some(d) => if !p.state_diffs.contains(d) {
            1
        } else {
            0
        },
        None => 0,
    };
    (sig + diff) as u8
}

/// What recording an observation does to what has been seen.
pub open spec fn spec_record(p: PrioritizerView, signature_hash: u64, state_diff_hash: Option<u64>) -> PrioritizerView {
    PrioritizerView {
        signatures: p.signatures.insert(signature_hash),
        state_diffs: match state_diff_hash {
            Some(d) => p.state_diffs.insert(d),
            None => p.state_diffs,
        },
    }
}

/// The ordering key of a candidate: higher score first, then lower seed ID.
pub open spec fn spec_priority_key(p: PrioritizerView, c: CandidateView) -> (u64, u64, Seq<u8>) {
    (
        (3 - spec_novelty_score(p, c.signature_hash, c.state_diff_hash)) as u64,
        c.seed.id,
        Seq::empty(),
    )
}

/// The ordering keys of candidates.
pub open spec fn spec_priority_keys(p: PrioritizerView, cs: Seq<CandidateView>) -> Seq<
    (u64, u64, Seq<u8>),
> {
    cs.map_values(|c: CandidateView| spec_priority_key(p, c))
}

impl NoveltyPrioritizer {
    /// A prioritizer that has seen nothing.
    pub fn new() -> (r: Self)
        ensures
            r@ == spec_empty_view(),
    {
        NoveltyPrioritizer { seen_signatures: HashSet::new(), seen_state_diffs: HashSet::new() }
    }

    /// Higher is better. An unseen signature is weighted highest.
    pub fn novelty_score(&self, signature_hash: u64, state_diff_hash: Option<u64>) -> (r: u8)
        ensures
            r == spec_novelty_score(self@, signature_hash, state_diff_hash),
    {
        let mut score: u8 = 0;
        if !self.seen_signatures.contains(&signature_hash) {
            score = score + 2;
        }
        if let Some(diff) = state_diff_hash {
            if !self.seen_state_diffs.contains(&diff) {
                score = score + 1;
            }
        }
        score
    }

    /// Marks a signature, and a state diff if given, as seen.
    pub fn record_observation(&mut self, signature_hash: u64, state_diff_hash: Option<u64>)
        ensures
            final(self)@ == spec_record(old(self)@, signature_hash, state_diff_hash),
    {
        self.seen_signatures.insert(signature_hash);
        if let Some(diff) = state_diff_hash {
            self.seen_state_diffs.insert(diff);
        }
    }

    /// Candidate indices sorted by descending novelty score, then ascending
    /// seed ID, ties kept in input order.
    pub fn prioritize_indices(&self, candidates: &[SeedNoveltyCandidate]) -> (r: Vec<usize>)
        ensures
            spec_is_stable_order(spec_priority_keys(self@, spec_candidate_views(candidates@)), r@),
    {
        let ghost cv = spec_candidate_views(candidates@);
        let mut keys: Vec<(u64, u64, Vec<u8>)> = Vec::new();
        let mut i: usize = 0;
        while i < candidates.len()
            invariant
                i <= candidates@.len(),
                cv == spec_candidate_views(candidates@),
                keys@.len() == i,
                forall|k: int|
                    0 <= k < i ==> key_view(#[trigger] keys@[k]) == spec_priority_key(self@, cv[k]),
            decreases candidates@.len() - i,
        {
            let c = &candidates[i];
            let score = self.novelty_score(c.signature_hash, c.state_diff_hash);
            keys.push(((3 - score) as u64, c.seed.id, Vec::new()));
            proof {
                assert(key_view(keys@[i as int]).2 =~= Seq::<u8>::empty());
            }
            i = i + 1;
        }
        assert(keys@.map_values(|k: (u64, u64, Vec<u8>)| key_view(k)) =~= spec_priority_keys(
            self@,
            cv,
        ));
        stable_order(&keys)
    }

    /// The number of distinct signatures observed so far.
    pub fn unique_signatures_seen(&self) -> (r: usize)
        ensures
            r == self@.signatures.len(),
    {
        self.seen_signatures.len()
    }
}

impl Default for NoveltyPrioritizer {
    fn default() -> (r: Self)
        ensures
            r@ == spec_empty_view(),
    {
        NoveltyPrioritizer::new()
    }
}

/// Result of comparing queue-order discovery with novelty-prioritized discovery.
#[derive(Debug, Clone, PartialEq, Eq)]
pub struct DiscoveryBenchmark {
    pub baseline_unique_signatures: usize,
    pub prioritized_unique_signatures: usize,
}

impl DiscoveryBenchmark {
    /// How many more distinct signatures prioritization found than queue order.
    pub fn improvement(&self) -> (r: isize)
        requires
            self.prioritized_unique_signatures <= isize::MAX,
            self.baseline_unique_signatures <= isize::MAX,
        ensures
            r == self.prioritized_unique_signatures - self.baseline_unique_signatures,
    {
        self.prioritized_unique_signatures as isize - self.baseline_unique_signatures as isize
    }
}

/// The distinct signatures of some candidates.
pub open spec fn spec_signature_set(cs: Seq<CandidateView>) -> Set<u64> {
    cs.map_values(|c: CandidateView| c.signature_hash).to_set()
}

/// Item `i` comes before every other item.
pub open spec fn spec_is_first(keys: Seq<(u64, u64, Seq<u8>)>, i: int) -> bool {
    &&& 0 <= i < keys.len()
    &&& forall|j: int| 0 <= j < keys.len() && j != i ==> #[trigger] spec_precedes(keys, i, j)
}

/// The candidate a prioritizer picks next: the one that comes before all others.
pub open spec fn spec_pick(p: PrioritizerView, remaining: Seq<CandidateView>) -> int {
    choose|i: int| #[trigger] spec_is_first(spec_priority_keys(p, remaining), i)
}

/// `s` with item `i` replaced by the last item, and the last slot dropped.
pub open spec fn spec_swap_remove<T>(s: Seq<T>, i: int) -> Seq<T> {
    s.update(i, s.last()).drop_last()
}

/// What a prioritizer has seen after `steps` greedy picks from `remaining`.
pub open spec fn spec_discover(p: PrioritizerView, remaining: Seq<CandidateView>, steps: nat) -> PrioritizerView
    decreases steps,
{
    if steps == 0 || remaining.len() == 0 {
        p
    } else {
        let i = spec_pick(p, remaining);
        let c = remaining[i];
        spec_discover(
            spec_record(p, c.signature_hash, c.state_diff_hash),
            spec_swap_remove(remaining, i),
            (steps - 1) as nat,
        )
    }
}

/// The benchmark of `candidates` within `budget` picks.
pub open spec fn spec_benchmark(cs: Seq<CandidateView>, budget: usize) -> (nat, nat) {
    let b = if budget < cs.len() {
        budget as int
    } else {
        cs.len() as int
    };
    (
        spec_signature_set(cs.take(b)).len(),
        spec_discover(spec_empty_view(), cs, b as nat).signatures.len(),
    )
}

/// Compares baseline queue-order discovery with novelty-prioritized discovery:
/// the distinct signatures among the first `budget` candidates, against those
/// found by `budget` greedy picks of the most novel remaining candidate.
pub fn benchmark_novelty_discovery(candidates: &[SeedNoveltyCandidate], budget: usize) -> (r:
    DiscoveryBenchmark)
    ensures
        r.baseline_unique_signatures == spec_benchmark(spec_candidate_views(candidates@), budget).0,
        r.prioritized_unique_signatures == spec_benchmark(
            spec_candidate_views(candidates@),
            budget,
        ).1,
{
    let ghost cv = spec_candidate_views(candidates@);
    let b = if budget < candidates.len() {
        budget
    } else {
        candidates.len()
    };
    let mut seen: HashSet<u64> = HashSet::new();
    let mut i: usize = 0;
    while i < b
        invariant
            i <= b,
            b <= candidates@.len(),
            cv == spec_candidate_views(candidates@),
            seen@ == spec_signature_set(cv.take(i as int)),
        decreases b - i,
    {
        seen.insert(candidates[i].signature_hash);
        proof {
            let s = cv.take(i as int).map_values(|c: CandidateView| c.signature_hash);
            let t = cv.take(i + 1).map_values(|c: CandidateView| c.signature_hash);
            assert(t =~= s.push(candidates@[i as int].signature_hash));
            s.lemma_push_to_set_commute(candidates@[i as int].signature_hash);
        }
        i = i + 1;
    }
    proof {
        vstd::seq_lib::seq_to_set_is_finite(cv.take(b as int).map_values(|c: CandidateView| c.signature_hash));
    }
    let baseline = seen.len();

    let mut prioritizer = NoveltyPrioritizer::new();
    let mut remaining: Vec<SeedNoveltyCandidate> = Vec::new();
    let mut k: usize = 0;
    while k < candidates.len()
        invariant
            k <= candidates@.len(),
            spec_candidate_views(remaining@) == cv.take(k as int),
            cv == spec_candidate_views(candidates@),
        decreases candidates@.len() - k,
    {
        let c = candidates[k].clone();
        let ghost before = remaining@;
        remaining.push(c);
        proof {
            assert(c@ == cv[k as int]);
            assert(remaining@ == before.push(c));
            assert(spec_candidate_views(remaining@) =~= spec_candidate_views(before).push(c@));
            assert(cv.take(k + 1) =~= cv.take(k as int).push(cv[k as int]));
        }
        k = k + 1;
    }
    assert(cv.take(k as int) =~= cv);
    let mut consumed: usize = 0;
    while consumed < b && remaining.len() > 0
        invariant
            consumed <= b,
            spec_discover(prioritizer@, spec_candidate_views(remaining@), (b - consumed) as nat)
                == spec_discover(spec_empty_view(), cv, b as nat),
        decreases b - consumed,
    {
        let ghost rv = spec_candidate_views(remaining@);
        let ghost keys = spec_priority_keys(prioritizer@, rv);
        let order = prioritizer.prioritize_indices(remaining.as_slice());
        proof {
            lemma_stable_order_first(keys, order@);
        }
        let idx = order[0];
        proof {
            assert(spec_is_first(keys, idx as int));
            let c = spec_pick(prioritizer@, rv);
            assert(spec_is_first(keys, c));
            if c != idx {
                assert(spec_precedes(keys, idx as int, c));
                assert(spec_precedes(keys, c, idx as int));
                crate::order::lemma_precedes_order(keys, c, idx as int, c);
            }
        }
        let picked = remaining.swap_remove(idx);
        proof {
            assert(spec_candidate_views(remaining@) =~= spec_swap_remove(rv, idx as int));
        }
        prioritizer.record_observation(picked.signature_hash, picked.state_diff_hash);
        consumed = consumed + 1;
    }
    let prioritized = prioritizer.unique_signatures_seen();
    DiscoveryBenchmark {
        baseline_unique_signatures: baseline,
        prioritized_unique_signatures: prioritized,
    }
}

/// An unseen signature is weighted highest: a candidate with an unseen
/// signature scores above any candidate with a seen one.
pub proof fn law_unseen_signature_outranks(
    p: PrioritizerView,
    unseen: u64,
    unseen_diff: Option<u64>,
    seen: u64,
    seen_diff: Option<u64>,
)
    requires
        !p.signatures.contains(unseen),
        p.signatures.contains(seen),
    ensures
        spec_novelty_score(p, unseen, unseen_diff) > spec_novelty_score(p, seen, seen_diff),
{
}

/// The state diff is a secondary signal: for the same signature, an unseen
/// state diff scores above a seen or missing one.
pub proof fn law_state_diff_is_secondary(p: PrioritizerView, sig: u64, new_diff: u64, other: Option<u64>)
    requires
        !p.state_diffs.contains(new_diff),
        other matches Some(d) ==> p.state_diffs.contains(d),
    ensures
        spec_novelty_score(p, sig, Some(new_diff)) > spec_novelty_score(p, sig, other),
{
}

/// Once recorded, an observation is no longer novel: its signature and state
/// diff score nothing.
pub proof fn law_recorded_observation_is_not_novel(p: PrioritizerView, sig: u64, diff: Option<u64>)
    ensures
        spec_novelty_score(spec_record(p, sig, diff), sig, diff) == 0,
{
}

/// What has been seen after recording the observations `obs` in order,
/// starting from `p`. Each observation is a signature and an optional state diff.
pub open spec fn spec_record_all(p: PrioritizerView, obs: Seq<(u64, Option<u64>)>) -> PrioritizerView
    decreases obs.len(),
{
    if obs.len() == 0 {
        p
    } else {
        spec_record(spec_record_all(p, obs.drop_last()), obs.last().0, obs.last().1)
    }
}

/// Some observation in `obs` has signature `sig`.
pub open spec fn spec_signature_observed(obs: Seq<(u64, Option<u64>)>, sig: u64) -> bool {
    exists|k: int| 0 <= k < obs.len() && (#[trigger] obs[k]).0 == sig
}

/// Some observation in `obs` has state diff `diff`.
pub open spec fn spec_diff_observed(obs: Seq<(u64, Option<u64>)>, diff: u64) -> bool {
    exists|k: int| 0 <= k < obs.len() && (#[trigger] obs[k]).1 == Some(diff)
}

proof fn lemma_record_all_contents(obs: Seq<(u64, Option<u64>)>)
    ensures
        forall|s: u64|
            spec_record_all(spec_empty_view(), obs).signatures.contains(s)
                <==> #[trigger] spec_signature_observed(obs, s),
        forall|d: u64|
            spec_record_all(spec_empty_view(), obs).state_diffs.contains(d)
                <==> #[trigger] spec_diff_observed(obs, d),
    decreases obs.len(),
{
    if obs.len() > 0 {
        let prev = obs.drop_last();
        let last = obs.len() - 1;
        lemma_record_all_contents(prev);
        assert forall|s: u64| spec_signature_observed(obs, s)
            <==> #[trigger] spec_signature_observed(prev, s) || obs[last].0 == s by {
            if spec_signature_observed(obs, s) {
                let k = choose|k: int| 0 <= k < obs.len() && (#[trigger] obs[k]).0 == s;
                if k < last {
                    assert(prev[k] == obs[k]);
                }
            }
            if spec_signature_observed(prev, s) {
                let k = choose|k: int| 0 <= k < prev.len() && (#[trigger] prev[k]).0 == s;
                assert(obs[k] == prev[k]);
            }
        }
        assert forall|d: u64| spec_diff_observed(obs, d)
            <==> #[trigger] spec_diff_observed(prev, d) || obs[last].1 == Some(d) by {
            if spec_diff_observed(obs, d) {
                let k = choose|k: int| 0 <= k < obs.len() && (#[trigger] obs[k]).1 == Some(d);
                if k < last {
                    assert(prev[k] == obs[k]);
                }
            }
            if spec_diff_observed(prev, d) {
                let k = choose|k: int| 0 <= k < prev.len() && (#[trigger] prev[k]).1 == Some(d);
                assert(obs[k] == prev[k]);
            }
        }
        let before = spec_record_all(spec_empty_view(), prev);
        let after = spec_record_all(spec_empty_view(), obs);
        assert(obs.last() == obs[last]);
        assert(after == spec_record(before, obs[last].0, obs[last].1));
        assert forall|s: u64| after.signatures.contains(s) <==> #[trigger] spec_signature_observed(obs, s) by {
            assert(before.signatures.contains(s) <==> spec_signature_observed(prev, s));
            assert(spec_signature_observed(obs, s) <==> spec_signature_observed(prev, s) || obs[last].0 == s);
        }
        assert forall|d: u64| after.state_diffs.contains(d) <==> #[trigger] spec_diff_observed(obs, d) by {
            assert(before.state_diffs.contains(d) <==> spec_diff_observed(prev, d));
            assert(spec_diff_observed(obs, d) <==> spec_diff_observed(prev, d) || obs[last].1 == Some(d));
        }
    }
}

/// After any sequence of observations recorded on a new prioritizer, the score
/// of a signature and state diff is 2 when the signature was never observed,
/// plus 1 when a state diff is given that was never observed.
pub proof fn law_novelty_score_after_observations(
    obs: Seq<(u64, Option<u64>)>,
    sig: u64,
    diff: Option<u64>,
)
    ensures
        spec_novelty_score(spec_record_all(spec_empty_view(), obs), sig, diff) as int
            == (if spec_signature_observed(obs, sig) { 0int } else { 2int }) + (match diff {
                Some(d) => if spec_diff_observed(obs, d) { 0int } else { 1int },
                None => 0int,
            }),
{
    lemma_record_all_contents(obs);
}

/// The prioritized order lists the more novel candidate first: of any two
/// candidates in the order, the earlier one has the higher or equal novelty
/// score (state diff included), and on equal scores the lower or equal seed ID.
pub proof fn law_prioritized_order_by_novelty(p: PrioritizerView, cs: Seq<CandidateView>, order: Seq<usize>)
    requires
        spec_is_stable_order(spec_priority_keys(p, cs), order),
    ensures
        forall|x: int, y: int|
            #![trigger order[x], order[y]]
            0 <= x < y < order.len() ==> spec_novelty_score(
                p,
                cs[order[x] as int].signature_hash,
                cs[order[x] as int].state_diff_hash,
            ) >= spec_novelty_score(
                p,
                cs[order[y] as int].signature_hash,
                cs[order[y] as int].state_diff_hash,
            ) && (spec_novelty_score(
                p,
                cs[order[x] as int].signature_hash,
                cs[order[x] as int].state_diff_hash,
            ) == spec_novelty_score(
                p,
                cs[order[y] as int].signature_hash,
                cs[order[y] as int].state_diff_hash,
            ) ==> cs[order[x] as int].seed.id <= cs[order[y] as int].seed.id),
{
    let keys = spec_priority_keys(p, cs);
    assert forall|x: int, y: int| 0 <= x < y < order.len() implies #[trigger] order[x] < cs.len() && #[trigger] order[y] < cs.len()
        && spec_precedes(keys, order[x] as int, order[y] as int) by {}
    assert forall|x: int, y: int|
        #![trigger order[x], order[y]]
        0 <= x < y < order.len() implies {
            let a = cs[order[x] as int];
            let b = cs[order[y] as int];
            spec_novelty_score(p, a.signature_hash, a.state_diff_hash) >= spec_novelty_score(
                p,
                b.signature_hash,
                b.state_diff_hash,
            ) && (spec_novelty_score(p, a.signature_hash, a.state_diff_hash) == spec_novelty_score(
                p,
                b.signature_hash,
                b.state_diff_hash,
            ) ==> a.seed.id <= b.seed.id)
        } by {
        let i = order[x] as int;
        let j = order[y] as int;
        assert(keys[i] == spec_priority_key(p, cs[i]));
        assert(keys[j] == spec_priority_key(p, cs[j]));
        if spec_bytes_lt(keys[i].2, keys[j].2) {
            assert(keys[i].2 =~= Seq::<u8>::empty());
        }
    }
}

/// Some candidate comes before all others.
proof fn lemma_first_exists(keys: Seq<(u64, u64, Seq<u8>)>) -> (i: int)
    requires
        keys.len() > 0,
    ensures
        spec_is_first(keys, i),
    decreases keys.len(),
{
    let n = keys.len() as int;
    if n == 1 {
        0
    } else {
        let prefix = keys.subrange(0, n - 1);
        let m = lemma_first_exists(prefix);
        assert forall|j: int| 0 <= j < n - 1 && j != m implies #[trigger] spec_precedes(keys, m, j) by {
            assert(spec_precedes(prefix, m, j));
            assert(prefix[m] == keys[m] && prefix[j] == keys[j]);
        }
        crate::order::lemma_precedes_order(keys, m, n - 1, m);
        if spec_precedes(keys, n - 1, m) {
            assert forall|j: int| 0 <= j < n && j != n - 1 implies #[trigger] spec_precedes(
                keys,
                n - 1,
                j,
            ) by {
                if j != m {
                    crate::order::lemma_precedes_order(keys, n - 1, m, j);
                }
            }
            n - 1
        } else {
            m
        }
    }
}

/// The signatures of the remaining candidates are those left after a swap
/// removal plus the removed one's.
proof fn lemma_swap_remove_signatures(rem: Seq<CandidateView>, i: int)
    requires
        0 <= i < rem.len(),
    ensures
        spec_signature_set(rem) == spec_signature_set(spec_swap_remove(rem, i)).insert(
            rem[i].signature_hash,
        ),
{
    let rest = spec_swap_remove(rem, i);
    let a = rem.map_values(|c: CandidateView| c.signature_hash);
    let b = rest.map_values(|c: CandidateView| c.signature_hash);
    let last = rem.len() - 1;
    assert forall|x: u64| a.contains(x) implies b.contains(x) || x == rem[i].signature_hash by {
        let j = choose|j: int| 0 <= j < a.len() && a[j] == x;
        if j != i {
            if j == last {
                assert(b[i] == x);
            } else {
                assert(b[j] == x);
            }
        }
    }
    assert forall|x: u64| b.contains(x) implies a.contains(x) by {
        let j = choose|j: int| 0 <= j < b.len() && b[j] == x;
        if j == i {
            assert(a[last] == x);
        } else {
            assert(a[j] == x);
        }
    }
    assert(a.contains(rem[i].signature_hash)) by {
        assert(a[i] == rem[i].signature_hash);
    }
    assert(spec_signature_set(rem) =~= spec_signature_set(rest).insert(rem[i].signature_hash));
}

/// Greedy discovery never forgets a signature, and keeps the sets finite.
proof fn lemma_discover_grows(p: PrioritizerView, rem: Seq<CandidateView>, steps: nat)
    requires
        p.signatures.finite(),
    ensures
        p.signatures.subset_of(spec_discover(p, rem, steps).signatures),
        spec_discover(p, rem, steps).signatures.finite(),
    decreases steps,
{
    if steps > 0 && rem.len() > 0 {
        let i = spec_pick(p, rem);
        let c = rem[i];
        let q = spec_record(p, c.signature_hash, c.state_diff_hash);
        lemma_discover_grows(q, spec_swap_remove(rem, i), (steps - 1) as nat);
    }
}

/// When the picked candidate's signature was already seen, so were all the
/// remaining candidates' signatures: an unseen one would have come first.
proof fn lemma_pick_prefers_unseen(p: PrioritizerView, rem: Seq<CandidateView>, i: int, j: int)
    requires
        spec_is_first(spec_priority_keys(p, rem), i),
        p.signatures.contains(rem[i].signature_hash),
        0 <= j < rem.len(),
    ensures
        p.signatures.contains(rem[j].signature_hash),
{
    let keys = spec_priority_keys(p, rem);
    if !p.signatures.contains(rem[j].signature_hash) {
        assert(j != i);
        assert(keys[j] == spec_priority_key(p, rem[j]));
        assert(keys[i] == spec_priority_key(p, rem[i]));
        assert(crate::order::spec_key_lt(keys[j], keys[i]));
        assert(spec_precedes(keys, j, i));
        assert(spec_precedes(keys, i, j));
        crate::order::lemma_precedes_order(keys, i, j, i);
    }
}

/// After `steps` greedy picks, the prioritizer has seen as many signatures as
/// it had plus the number of picks, or every signature there is, whichever is
/// fewer.
proof fn lemma_discover_count(p: PrioritizerView, rem: Seq<CandidateView>, steps: nat)
    requires
        p.signatures.finite(),
        steps <= rem.len(),
    ensures
        spec_discover(p, rem, steps).signatures.len() >= vstd::math::min(
            (p.signatures.len() + steps) as int,
            p.signatures.union(spec_signature_set(rem)).len() as int,
        ),
    decreases steps,
{
    vstd::seq_lib::seq_to_set_is_finite(rem.map_values(|c: CandidateView| c.signature_hash));
    vstd::set_lib::lemma_set_union_finite_iff(p.signatures, spec_signature_set(rem));
    if steps == 0 {
        return;
    }
    let keys = spec_priority_keys(p, rem);
    let w = lemma_first_exists(keys);
    let i = spec_pick(p, rem);
    assert(spec_is_first(keys, i));
    let c = rem[i];
    let q = spec_record(p, c.signature_hash, c.state_diff_hash);
    let rest = spec_swap_remove(rem, i);
    lemma_swap_remove_signatures(rem, i);
    lemma_discover_count(q, rest, (steps - 1) as nat);
    lemma_discover_grows(q, rest, (steps - 1) as nat);
    let all = p.signatures.union(spec_signature_set(rem));
    if p.signatures.contains(c.signature_hash) {
        assert(spec_signature_set(rem).subset_of(p.signatures)) by {
            assert forall|x: u64| spec_signature_set(rem).contains(x) implies p.signatures.contains(x) by {
                let m = rem.map_values(|c: CandidateView| c.signature_hash);
                let j = choose|j: int| 0 <= j < m.len() && m[j] == x;
                lemma_pick_prefers_unseen(p, rem, i, j);
            }
        }
        assert(all =~= p.signatures);
        assert(q.signatures =~= p.signatures);
        vstd::set_lib::lemma_len_subset(p.signatures, spec_discover(q, rest, (steps - 1) as nat).signatures);
    } else {
        assert(q.signatures.len() == p.signatures.len() + 1);
        assert(q.signatures.union(spec_signature_set(rest)) =~= all);
    }
}

/// Novelty prioritization discovers at least as many distinct signatures as
/// running the same budget in queue order.
pub proof fn law_prioritized_discovers_at_least_baseline(cs: Seq<CandidateView>, budget: usize)
    ensures
        spec_benchmark(cs, budget).1 >= spec_benchmark(cs, budget).0,
{
    let b = if budget < cs.len() {
        budget as int
    } else {
        cs.len() as int
    };
    let taken = cs.take(b).map_values(|c: CandidateView| c.signature_hash);
    let all = cs.map_values(|c: CandidateView| c.signature_hash);
    taken.lemma_cardinality_of_set();
    vstd::seq_lib::seq_to_set_is_finite(all);
    assert(taken.to_set().subset_of(all.to_set())) by {
        assert forall|x: u64| taken.to_set().contains(x) implies all.to_set().contains(x) by {
            let j = choose|j: int| 0 <= j < taken.len() && taken[j] == x;
            assert(all[j] == x);
        }
    }
    vstd::set_lib::lemma_len_subset(taken.to_set(), all.to_set());
    lemma_discover_count(spec_empty_view(), cs, b as nat);
    assert(Set::<u64>::empty().union(spec_signature_set(cs)) =~= spec_signature_set(cs));
}

} // verus!
