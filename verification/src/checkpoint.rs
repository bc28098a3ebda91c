//! Campaign run checkpoints for resuming interrupted fuzzing without redoing work.
//!
//! The checkpoint records the next seed index to process; seeds with indices
//! `< next_seed_index` are treated as already completed. (JSON persistence of
//! checkpoints lives in the application layer.)
use vstd::prelude::*;

use crate::text::push_decimal;
use crate::CaseSeed;
use vstd::string::StringExecFns;

verus! {

/// Schema version for [`RunCheckpoint`] JSON on disk.
pub const RUN_CHECKPOINT_SCHEMA_VERSION: u32 = 1;

/// Serializable checkpoint for a single campaign run.
#[derive(Debug, PartialEq, Eq)]
pub struct RunCheckpoint {
    /// Format discriminator; bump when fields change meaning.
    pub schema: u32,
    /// Stable identifier for the campaign (caller-defined).
    pub campaign_id: String,
    /// Index into the original seed schedule; seeds `[0..next_seed_index)` are done.
    pub next_seed_index: usize,
    /// Total seeds in the schedule when the checkpoint was written (for validation).
    pub total_seeds: usize,
}

impl Clone for RunCheckpoint {
    fn clone(&self) -> (r: Self)
        ensures
            r == *self,
    {
        RunCheckpoint {
            schema: self.schema,
            campaign_id: self.campaign_id.clone(),
            next_seed_index: self.next_seed_index,
            total_seeds: self.total_seeds,
        }
    }
}

/// Errors when applying a checkpoint to a seed slice.
#[derive(Debug, Clone, PartialEq, Eq, Structural)]
pub enum CheckpointError {
    /// `next_seed_index` is past the end of the provided slice.
    IndexPastEnd { next_seed_index: usize, seeds_len: usize },
    /// Recorded `total_seeds` does not match `seeds.len()`.
    TotalMismatch { recorded: usize, actual: usize },
}

impl CheckpointError {
    /// The error message.
    pub open spec fn spec_message(self) -> Seq<char> {
        match self {
            CheckpointError::IndexPastEnd { next_seed_index, seeds_len } => "checkpoint next_seed_index "@
                + crate::text::spec_decimal(next_seed_index as nat) + " is beyond seeds length "@
                + crate::text::spec_decimal(seeds_len as nat),
            CheckpointError::TotalMismatch { recorded, actual } => "checkpoint total_seeds "@
                + crate::text::spec_decimal(recorded as nat)
                + " does not match actual schedule length "@ + crate::text::spec_decimal(
                actual as nat,
            ),
        }
    }

    /// Human-readable description of the error.
    pub fn message(&self) -> (r: String)
        ensures
            r@ == self.spec_message(),
    {
        match self {
            CheckpointError::IndexPastEnd { next_seed_index, seeds_len } => {
                let mut s = String::from_str("checkpoint next_seed_index ");
                push_decimal(&mut s, *next_seed_index as u64);
                s.append(" is beyond seeds length ");
                push_decimal(&mut s, *seeds_len as u64);
                s
            },
            CheckpointError::TotalMismatch { recorded, actual } => {
                let mut s = String::from_str("checkpoint total_seeds ");
                push_decimal(&mut s, *recorded as u64);
                s.append(" does not match actual schedule length ");
                push_decimal(&mut s, *actual as u64);
                s
            },
        }
    }
}

/// What [`RunCheckpoint::remaining`] gives for a checkpoint and a schedule of
/// `len` seeds: a mismatch of the recorded total first, then an index past the
/// end, else the seeds from `next_seed_index` on.
pub open spec fn spec_remaining(cp: RunCheckpoint, seeds: Seq<CaseSeed>) -> Result<
    Seq<CaseSeed>,
    CheckpointError,
> {
    if cp.total_seeds != seeds.len() {
        Err(CheckpointError::TotalMismatch { recorded: cp.total_seeds, actual: seeds.len() as usize })
    } else if cp.next_seed_index > seeds.len() {
        Err(
            CheckpointError::IndexPastEnd {
                next_seed_index: cp.next_seed_index,
                seeds_len: seeds.len() as usize,
            },
        )
    } else {
        Ok(seeds.skip(cp.next_seed_index as int))
    }
}

impl RunCheckpoint {
    /// Starts a fresh checkpoint at the beginning of `seeds`.
    pub fn new_run(campaign_id: &str, seeds: &[CaseSeed]) -> (r: Self)
        ensures
            r.schema == RUN_CHECKPOINT_SCHEMA_VERSION,
            r.campaign_id@ == campaign_id@,
            r.next_seed_index == 0,
            r.total_seeds == seeds@.len(),
    {
        RunCheckpoint {
            schema: RUN_CHECKPOINT_SCHEMA_VERSION,
            campaign_id: campaign_id.to_owned(),
            next_seed_index: 0,
            total_seeds: seeds.len(),
        }
    }

    /// Seeds still to process, or an error if the checkpoint does not match `seeds`.
    pub fn remaining<'a>(&self, seeds: &'a [CaseSeed]) -> (r: Result<&'a [CaseSeed], CheckpointError>)
        ensures
            match r {
                Ok(rest) => spec_remaining(*self, seeds@) == Ok::<Seq<CaseSeed>, CheckpointError>(rest@),
                Err(e) => spec_remaining(*self, seeds@) == Err::<Seq<CaseSeed>, CheckpointError>(e),
            },
    {
        if self.total_seeds != seeds.len() {
            return Err(
                CheckpointError::TotalMismatch { recorded: self.total_seeds, actual: seeds.len() },
            );
        }
        if self.next_seed_index > seeds.len() {
            return Err(
                CheckpointError::IndexPastEnd {
                    next_seed_index: self.next_seed_index,
                    seeds_len: seeds.len(),
                },
            );
        }
        let rest = &seeds[self.next_seed_index..seeds.len()];
        assert(rest@ =~= seeds@.skip(self.next_seed_index as int));
        Ok(rest)
    }

    /// Marks one seed as completed (advances by one, saturating).
    pub fn advance_one(&mut self)
        ensures
            *final(self) == (RunCheckpoint {
                next_seed_index: old(self).next_seed_index.saturating_add(1),
                ..*old(self)
            }),
    {
        self.next_seed_index = self.next_seed_index.saturating_add(1);
    }

    /// Marks `n` seeds as completed (saturating).
    pub fn advance_by(&mut self, n: usize)
        ensures
            *final(self) == (RunCheckpoint {
                next_seed_index: old(self).next_seed_index.saturating_add(n),
                ..*old(self)
            }),
    {
        self.next_seed_index = self.next_seed_index.saturating_add(n);
    }

    /// True when every seed in the schedule has been processed.
    pub fn is_complete(&self, seeds: &[CaseSeed]) -> (r: bool)
        ensures
            r == (seeds@.len() == self.total_seeds && self.next_seed_index >= self.total_seeds),
    {
        seeds.len() == self.total_seeds && self.next_seed_index >= self.total_seeds
    }
}

/// Resuming skips exactly the completed prefix: a fresh checkpoint advanced by
/// `k` seeds (at most the schedule length) leaves the seeds from index `k` on.
pub proof fn law_resume_skips_completed_prefix(cp: RunCheckpoint, seeds: Seq<CaseSeed>, k: usize)
    requires
        cp.next_seed_index == 0,
        cp.total_seeds == seeds.len(),
        k <= seeds.len(),
    ensures
        spec_remaining(
            RunCheckpoint { next_seed_index: cp.next_seed_index.saturating_add(k), ..cp },
            seeds,
        ) == Ok::<Seq<CaseSeed>, CheckpointError>(seeds.skip(k as int)),
{
}

/// A checkpoint that matches its schedule is complete exactly when nothing remains.
pub proof fn law_complete_iff_nothing_remains(cp: RunCheckpoint, seeds: Seq<CaseSeed>)
    requires
        cp.total_seeds == seeds.len(),
        cp.next_seed_index <= seeds.len(),
    ensures
        (cp.next_seed_index >= cp.total_seeds) <==> spec_remaining(cp, seeds) == Ok::<
            Seq<CaseSeed>,
            CheckpointError,
        >(Seq::empty()),
{
    if spec_remaining(cp, seeds) == Ok::<Seq<CaseSeed>, CheckpointError>(Seq::empty()) {
        assert(seeds.skip(cp.next_seed_index as int).len() == 0);
    }
    if cp.next_seed_index >= cp.total_seeds {
        assert(seeds.skip(cp.next_seed_index as int) =~= Seq::<CaseSeed>::empty());
    }
}

} // verus!
