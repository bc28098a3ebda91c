//! Portable corpus (seed list) archives with stable ordering.
//!
//! Seeds are sorted deterministically by `(id, payload)` so archives round-trip
//! and merge predictably. JSON encoding of archives lives in the
//! serialization layer; this module decides the order and checks the schema.
use vstd::prelude::*;
use vstd::string::StringExecFns;

use crate::order::{
    key_view, lemma_permutation_multiset, lemma_sorted_unique, lemma_stable_order_is_permutation,
    lemma_stable_order_sorts, spec_is_permutation, spec_is_stable_order, spec_pick_in_order,
    spec_sorted_by, stable_order,
};
use crate::bundle_persist::json_error_text;
use crate::text::push_decimal;
use crate::{CaseSeed, SeedView};

verus! {

/// Schema version for [`CorpusArchive`] documents.
pub const CORPUS_ARCHIVE_SCHEMA_VERSION: u32 = 1;

/// Versioned corpus document for sharing seed sets between hosts and CI.
#[derive(Debug, PartialEq, Eq)]
pub struct CorpusArchive {
    pub schema: u32,
    pub seeds: Vec<CaseSeed>,
}

impl Clone for CorpusArchive {
    fn clone(&self) -> (r: Self)
        ensures
            r.schema == self.schema,
            spec_seed_views(r.seeds@) == spec_seed_views(self.seeds@),
    {
        let mut seeds: Vec<CaseSeed> = Vec::new();
        let mut i: usize = 0;
        while i < self.seeds.len()
            invariant
                i <= self.seeds@.len(),
                seeds@.len() == i,
                forall|k: int| 0 <= k < i ==> (#[trigger] seeds@[k])@ == self.seeds@[k]@,
            decreases self.seeds@.len() - i,
        {
            seeds.push(self.seeds[i].clone());
            i = i + 1;
        }
        assert(spec_seed_views(seeds@) =~= spec_seed_views(self.seeds@));
        CorpusArchive { schema: self.schema, seeds }
    }
}

/// Errors from loading a corpus archive.
#[derive(Debug)]
pub enum CorpusError {
    /// The document is not valid JSON of an archive.
    Json(serde_json::Error),
    /// The archive's `schema` is not [`CORPUS_ARCHIVE_SCHEMA_VERSION`].
    UnsupportedSchema { found: u32 },
}

impl CorpusError {
    /// The message of an unsupported schema error.
    pub open spec fn spec_unsupported_message(found: u32) -> Seq<char> {
        "unsupported corpus schema version "@ + crate::text::spec_decimal(found as nat)
    }

    /// Human-readable description of the error.
    pub fn message(&self) -> (r: String)
        ensures
            *self matches CorpusError::UnsupportedSchema { found } ==> r@
                == Self::spec_unsupported_message(found),
            *self is Json ==> "corpus JSON error: "@.is_prefix_of(r@),
    {
        match self {
            CorpusError::Json(e) => {
                let mut s = String::from_str("corpus JSON error: ");
                let ghost head = s@;
                s.append(json_error_text(e).as_str());
                assert(s@.subrange(0, head.len() as int) =~= head);
                s
            },
            CorpusError::UnsupportedSchema { found } => {
                let mut s = String::from_str("unsupported corpus schema version ");
                push_decimal(&mut s, *found as u64);
                s
            },
        }
    }
}

impl From<serde_json::Error> for CorpusError {
    fn from(e: serde_json::Error) -> (r: Self) {
        CorpusError::Json(e)
    }
}

impl vstd::std_specs::convert::FromSpecImpl<serde_json::Error> for CorpusError {
    open spec fn obeys_from_spec() -> bool {
        true
    }

    open spec fn from_spec(e: serde_json::Error) -> Self {
        CorpusError::Json(e)
    }
}

/// The ordering key of a seed: its ID, then its payload bytes.
pub open spec fn spec_seed_key(s: SeedView) -> (u64, u64, Seq<u8>) {
    (s.id, 0, s.payload)
}

/// The views of a sequence of seeds.
pub open spec fn spec_seed_views(seeds: Seq<CaseSeed>) -> Seq<SeedView> {
    seeds.map_values(|s: CaseSeed| s@)
}

/// The ordering keys of seeds.
pub open spec fn spec_seed_keys(seeds: Seq<SeedView>) -> Seq<(u64, u64, Seq<u8>)> {
    seeds.map_values(|s: SeedView| spec_seed_key(s))
}

/// The seeds listed in the order `order`.
pub open spec fn spec_in_order(seeds: Seq<SeedView>, order: Seq<usize>) -> Seq<SeedView> {
    order.map_values(|i: usize| seeds[i as int])
}

/// Builds an archive from seeds in any order; the archive lists them sorted by
/// `(id, payload)`.
pub fn corpus_archive_from_seeds(seeds: Vec<CaseSeed>) -> (r: CorpusArchive)
    ensures
        r.schema == CORPUS_ARCHIVE_SCHEMA_VERSION,
        exists|order: Seq<usize>|
            {
                &&& #[trigger] spec_is_stable_order(
                    spec_seed_keys(spec_seed_views(seeds@)),
                    order,
                )
                &&& spec_seed_views(r.seeds@) == spec_in_order(spec_seed_views(seeds@), order)
            },
{
    let ghost sv = spec_seed_views(seeds@);
    let mut keys: Vec<(u64, u64, Vec<u8>)> = Vec::new();
    let mut i: usize = 0;
    while i < seeds.len()
        invariant
            i <= seeds@.len(),
            sv == spec_seed_views(seeds@),
            keys@.len() == i,
            forall|k: int| 0 <= k < i ==> key_view(#[trigger] keys@[k]) == spec_seed_key(sv[k]),
        decreases seeds@.len() - i,
    {
        let payload = seeds[i].payload.clone();
        keys.push((seeds[i].id, 0, payload));
        i = i + 1;
    }
    let ghost kv = keys@.map_values(|k: (u64, u64, Vec<u8>)| key_view(k));
    assert(kv =~= spec_seed_keys(sv));
    let order = stable_order(&keys);
    let mut out: Vec<CaseSeed> = Vec::new();
    let mut j: usize = 0;
    while j < order.len()
        invariant
            j <= order@.len(),
            sv == spec_seed_views(seeds@),
            spec_is_stable_order(kv, order@),
            kv.len() == seeds@.len(),
            out@.len() == j,
            forall|k: int| 0 <= k < j ==> (#[trigger] out@[k])@ == sv[order@[k] as int],
        decreases order@.len() - j,
    {
        let idx = order[j];
        assert(order@[j as int] < kv.len());
        out.push(seeds[idx].clone());
        j = j + 1;
    }
    assert(spec_seed_views(out@) =~= spec_in_order(sv, order@));
    CorpusArchive { schema: CORPUS_ARCHIVE_SCHEMA_VERSION, seeds: out }
}

/// The seeds of an archive, after checking that its schema is supported.
pub fn archive_seeds(archive: CorpusArchive) -> (r: Result<Vec<CaseSeed>, CorpusError>)
    ensures
        (archive.schema == CORPUS_ARCHIVE_SCHEMA_VERSION) == (r is Ok),
        r matches Ok(seeds) ==> seeds == archive.seeds,
        r matches Err(e) ==> e == (CorpusError::UnsupportedSchema { found: archive.schema }),
{
    if archive.schema != CORPUS_ARCHIVE_SCHEMA_VERSION {
        return Err(CorpusError::UnsupportedSchema { found: archive.schema });
    }
    Ok(archive.seeds)
}

/// Seeds with equal keys are equal seeds.
proof fn lemma_seed_key_injective(x: SeedView, y: SeedView)
    requires
        spec_seed_key(x) == spec_seed_key(y),
    ensures
        x == y,
{
}

/// Listing seeds in a stable order by key sorts them, and keeps their multiset.
proof fn lemma_archive_order(seeds: Seq<SeedView>, order: Seq<usize>)
    requires
        seeds.len() <= usize::MAX,
        spec_is_stable_order(spec_seed_keys(seeds), order),
    ensures
        spec_sorted_by(spec_in_order(seeds, order), |s: SeedView| spec_seed_key(s)),
        spec_in_order(seeds, order).to_multiset() == seeds.to_multiset(),
{
    let key = |s: SeedView| spec_seed_key(s);
    assert(seeds.map_values(|x: SeedView| key(x)) =~= spec_seed_keys(seeds));
    assert(spec_in_order(seeds, order) =~= spec_pick_in_order(seeds, order));
    lemma_stable_order_sorts(seeds, key, order);
    lemma_stable_order_is_permutation(spec_seed_keys(seeds), order);
    lemma_permutation_multiset(seeds, order);
}

/// An archive does not depend on the order of the seeds it was built from:
/// any reordering of the same seeds gives the same archive.
pub proof fn law_archive_independent_of_input_order(
    seeds: Seq<SeedView>,
    reorder: Seq<usize>,
    order_a: Seq<usize>,
    order_b: Seq<usize>,
)
    requires
        seeds.len() <= usize::MAX,
        spec_is_permutation(reorder, seeds.len()),
        spec_is_stable_order(spec_seed_keys(seeds), order_a),
        spec_is_stable_order(spec_seed_keys(spec_pick_in_order(seeds, reorder)), order_b),
    ensures
        spec_in_order(seeds, order_a) == spec_in_order(spec_pick_in_order(seeds, reorder), order_b),
{
    let key = |s: SeedView| spec_seed_key(s);
    let other = spec_pick_in_order(seeds, reorder);
    lemma_archive_order(seeds, order_a);
    lemma_archive_order(other, order_b);
    lemma_permutation_multiset(seeds, reorder);
    assert forall|x: SeedView, y: SeedView|
        spec_in_order(seeds, order_a).contains(x) && spec_in_order(seeds, order_a).contains(y)
            && key(x) == key(y) implies x == y by {
        lemma_seed_key_injective(x, y);
    }
    lemma_sorted_unique(spec_in_order(seeds, order_a), spec_in_order(other, order_b), key);
}

/// Archives round-trip: building an archive from the seeds of an archive lists
/// them in the same order again.
pub proof fn law_archive_round_trip(seeds: Seq<SeedView>, order: Seq<usize>, again: Seq<usize>)
    requires
        seeds.len() <= usize::MAX,
        spec_is_stable_order(spec_seed_keys(seeds), order),
        spec_is_stable_order(spec_seed_keys(spec_in_order(seeds, order)), again),
    ensures
        spec_in_order(spec_in_order(seeds, order), again) == spec_in_order(seeds, order),
{
    let key = |s: SeedView| spec_seed_key(s);
    let first = spec_in_order(seeds, order);
    lemma_archive_order(seeds, order);
    lemma_archive_order(first, again);
    assert forall|x: SeedView, y: SeedView|
        spec_in_order(first, again).contains(x) && spec_in_order(first, again).contains(y) && key(x)
            == key(y) implies x == y by {
        lemma_seed_key_injective(x, y);
    }
    lemma_sorted_unique(spec_in_order(first, again), first, key);
}

/// `a` comes at or before `b` in lexicographic byte order: after their longest
/// common prefix, either `a` has ended or its next byte is the smaller one.
pub open spec fn spec_lex_le(a: Seq<u8>, b: Seq<u8>) -> bool {
    exists|k: int|
        0 <= k <= a.len() && k <= b.len() && #[trigger] a.subrange(0, k) == b.subrange(0, k) && (k
            == a.len() || (k < b.len() && a[k] < b[k]))
}

/// Bytes that `b` does not strictly precede come at or before `b`.
proof fn lemma_lex_le_of_not_after(a: Seq<u8>, b: Seq<u8>)
    requires
        !crate::order::spec_bytes_lt(b, a),
    ensures
        spec_lex_le(a, b),
    decreases a.len(),
{
    if a.len() == 0 {
        assert(a.subrange(0, 0) =~= b.subrange(0, 0));
    } else if a[0] < b[0] {
        assert(a.subrange(0, 0) =~= b.subrange(0, 0));
    } else {
        let (a1, b1) = (a.drop_first(), b.drop_first());
        lemma_lex_le_of_not_after(a1, b1);
        let k = choose|k: int|
            0 <= k <= a1.len() && k <= b1.len() && #[trigger] a1.subrange(0, k) == b1.subrange(0, k)
                && (k == a1.len() || (k < b1.len() && a1[k] < b1[k]));
        assert(a.subrange(0, k + 1) =~= seq![a[0]] + a1.subrange(0, k));
        assert(b.subrange(0, k + 1) =~= seq![b[0]] + b1.subrange(0, k));
        if k < a1.len() {
            assert(a[k + 1] == a1[k] && b[k + 1] == b1[k]);
        }
        assert(a.subrange(0, k + 1) == b.subrange(0, k + 1));
    }
}

/// The seeds of an archive are listed by ascending ID, and seeds with equal IDs
/// by lexicographic payload: for every two positions `i < j`, the ID at `i` is
/// smaller, or the IDs are equal and the payload at `i` comes at or before the
/// one at `j`. The archive holds exactly the seeds it was built from.
pub proof fn law_archive_sorted_by_id_then_payload(seeds: Seq<SeedView>, order: Seq<usize>)
    requires
        seeds.len() <= usize::MAX,
        spec_is_stable_order(spec_seed_keys(seeds), order),
    ensures
        forall|i: int, j: int|
            #![trigger spec_in_order(seeds, order)[i], spec_in_order(seeds, order)[j]]
            0 <= i < j < spec_in_order(seeds, order).len() ==> spec_in_order(seeds, order)[i].id
                < spec_in_order(seeds, order)[j].id || (spec_in_order(seeds, order)[i].id
                == spec_in_order(seeds, order)[j].id && spec_lex_le(
                spec_in_order(seeds, order)[i].payload,
                spec_in_order(seeds, order)[j].payload,
            )),
        spec_in_order(seeds, order).to_multiset() == seeds.to_multiset(),
{
    lemma_archive_order(seeds, order);
    let out = spec_in_order(seeds, order);
    let key = |s: SeedView| spec_seed_key(s);
    assert forall|i: int, j: int| 0 <= i < j < out.len() implies #[trigger] out[i].id < #[trigger] out[j].id
        || (out[i].id == out[j].id && spec_lex_le(out[i].payload, out[j].payload)) by {
        assert(!crate::order::spec_key_lt(key(out[j]), key(out[i])));
        if out[i].id == out[j].id {
            lemma_lex_le_of_not_after(out[i].payload, out[j].payload);
        }
    }
}

} // verus!
