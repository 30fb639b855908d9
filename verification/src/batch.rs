//! The batch runner's decisions: the two-phase split of a file list
//! into an optional dry-run preview and the files written for real,
//! the worker-pool sizing, and the bookkeeping of independent per-file
//! outcomes.

use vstd::prelude::*;

verus! {

/// The runtime's bound on worker threads in one pool.
///
/// Relies on `rayon::max_num_threads`, a positive constant bound.
#[verifier::external_body]
fn max_worker_threads() -> (r: usize)
    ensures
        r >= 1,
{
    rayon::max_num_threads()
}

/// The smaller of two sizes.
pub open spec fn min_size(a: int, b: int) -> int {
    if a < b {
        a
    } else {
        b
    }
}

/// The size of the worker pool: the requested count if positive, else
/// the host capacity capped by the number of files.
pub fn pool_size(requested: usize, file_count: usize, cap: usize) -> (r: usize)
    ensures
        requested > 0 ==> r == requested,
        requested == 0 ==> r == min_size(cap as int, file_count as int),
        requested == 0 && cap >= 1 && file_count >= 1 ==> r >= 1,
{
    if requested > 0 {
        requested
    } else if file_count > cap {
        cap
    } else {
        file_count
    }
}

/// Derive the worker count from the user's request and the file
/// count. An absent request means one worker; a request of zero means
/// as many workers as the host allows, capped by the file count and
/// never zero for a non-empty batch.
pub fn jobs_handling(jobs: Option<usize>, max_file: usize) -> (r: usize)
    ensures
        jobs is None ==> r == 1,
        jobs matches Some(j) ==> (j > 0 ==> r == j),
        jobs == Some(0usize) ==> r <= max_file && (max_file >= 1 ==> r >= 1),
{
    match jobs {
        None => 1,
        Some(j) => {
            if j == 0 {
                let cap = max_worker_threads();
                pool_size(0, max_file, cap)
            } else {
                j
            }
        },
    }
}

/// The batch split: at most one file previewed, the rest written.
pub struct BatchPlan {
    /// The file rendered by the dry-run reporter, never written in
    /// this phase.
    pub preview: Option<String>,
    /// The files handed to the worker pool for real processing.
    pub writes: Vec<String>,
}

/// Split the file list in two phases. A dry batch previews the first
/// file and writes the rest; a real batch writes every file.
pub fn plan_batch(files: &Vec<String>, dry: bool) -> (r: BatchPlan)
    ensures
        dry && files@.len() > 0 ==> r.preview == Some(files@[0]) && r.writes@ == files@.skip(1),
        !(dry && files@.len() > 0) ==> r.preview is None && r.writes@ == files@,
{
    if dry && files.len() > 0 {
        let preview = files[0].clone();
        let mut writes: Vec<String> = Vec::new();
        let mut i: usize = 1;
        while i < files.len()
            invariant
                1 <= i <= files@.len(),
                writes@ == files@.subrange(1, i as int),
            decreases files@.len() - i,
        {
            writes.push(files[i].clone());
            i += 1;
            assert(writes@ =~= files@.subrange(1, i as int));
        }
        assert(files@.subrange(1, files@.len() as int) =~= files@.skip(1));
        BatchPlan { preview: Some(preview), writes }
    } else {
        let mut writes: Vec<String> = Vec::new();
        let mut i: usize = 0;
        while i < files.len()
            invariant
                i <= files@.len(),
                writes@ == files@.subrange(0, i as int),
            decreases files@.len() - i,
        {
            writes.push(files[i].clone());
            i += 1;
            assert(writes@ =~= files@.subrange(0, i as int));
        }
        assert(files@.subrange(0, files@.len() as int) =~= files@);
        BatchPlan { preview: None, writes }
    }
}

/// A dry run never writes the previewed file: in a duplicate-free file
/// list, the first file is not among the remaining ones, so the write
/// phase of a dry batch never touches it.
pub proof fn lemma_dry_run_never_writes(files: Seq<String>)
    requires
        files.no_duplicates(),
        files.len() > 0,
    ensures
        !files.skip(1).contains(files[0]),
{
    if files.skip(1).contains(files[0]) {
        let i = choose|i: int| 0 <= i < files.skip(1).len() && files.skip(1)[i] == files[0];
        assert(files[i + 1] == files[0]);
    }
}

/// How many of a batch's outcomes failed.
pub open spec fn failure_count(outcomes: Seq<bool>) -> nat {
    outcomes.to_multiset().count(false)
}

/// How many of a batch's outcomes succeeded.
pub open spec fn success_count(outcomes: Seq<bool>) -> nat {
    outcomes.to_multiset().count(true)
}

/// Tally a batch's independent per-file outcomes: how many succeeded
/// and how many failed. Every file is accounted for.
pub fn count_outcomes(outcomes: &Vec<bool>) -> (r: (usize, usize))
    ensures
        r.0 == success_count(outcomes@),
        r.1 == failure_count(outcomes@),
        r.0 + r.1 == outcomes@.len(),
{
    broadcast use vstd::seq_lib::group_to_multiset_ensures;

    let mut ok: usize = 0;
    let mut failed: usize = 0;
    let mut i: usize = 0;
    while i < outcomes.len()
        invariant
            i <= outcomes@.len(),
            ok == success_count(outcomes@.take(i as int)),
            failed == failure_count(outcomes@.take(i as int)),
            ok + failed == i,
        decreases outcomes@.len() - i,
    {
        broadcast use vstd::seq_lib::group_to_multiset_ensures;

        if outcomes[i] {
            ok += 1;
        } else {
            failed += 1;
        }
        i += 1;
        proof {
            assert(outcomes@.take(i as int) =~= outcomes@.take(i - 1).push(outcomes@[i - 1]));
        }
    }
    proof {
        assert(outcomes@.take(outcomes@.len() as int) =~= outcomes@);
    }
    (ok, failed)
}

/// The tally of outcomes does not depend on the order files were
/// processed in: any two batches whose outcomes are rearrangements of
/// each other report the same counts.
pub proof fn lemma_outcomes_order_independent(a: Seq<bool>, b: Seq<bool>)
    requires
        a.to_multiset() == b.to_multiset(),
    ensures
        success_count(a) == success_count(b),
        failure_count(a) == failure_count(b),
{
}

} // verus!
