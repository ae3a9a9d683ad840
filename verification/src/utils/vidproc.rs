//! Downloads: which are to be made, and what came of them.
//!
//! The download itself, and the pool of workers that runs it, are the
//! caller's. The library names one task per clip, turns what each worker
//! reports into an outcome, and counts.

use vstd::prelude::*;
use vstd::string::StringExecFns;
use crate::utils::api::TwitchClip;
use crate::utils::validate::{
    find_repeat, has_repeated_id, ids_of, is_first_repeat, lemma_first_repeat_is_repeat,
};

verus! {

/// One download to make: fetch the video behind `url` into `staging_dir`,
/// under the name that `output_template` gives, which is made from
/// `clip_id` alone.
#[derive(Debug, Clone, PartialEq, Eq)]
pub struct DownloadTask {
    pub clip_id: String,
    pub url: String,
    pub staging_dir: String,
    pub output_template: String,
}

/// A batch that must not be downloaded: the clips at the positions `first`
/// and `second` carry the same id.
#[derive(Debug, Clone, PartialEq, Eq)]
pub struct IntegrityError {
    pub first: usize,
    pub second: usize,
}

/// What came of one download.
#[derive(Debug, Clone, PartialEq, Eq)]
pub enum DownloadOutcome {
    Succeeded,
    Failed(String),
}

/// What came of the downloads of a batch: one outcome for each task, in the
/// order of the tasks, and how many of each kind.
#[derive(Debug, Clone, PartialEq, Eq)]
pub struct DownloadReport {
    pub outcomes: Vec<DownloadOutcome>,
    pub succeeded: usize,
    pub failed: usize,
}

/// The name pattern of the staged file of the clip `clip_id`: the id, then
/// the place where the download tool writes the extension of the video it
/// fetched.
pub open spec fn staged_template_text(clip_id: Seq<char>) -> Seq<char> {
    clip_id + ".%(ext)s"@
}

/// The outcome that a worker's report stands for.
pub open spec fn outcome_of(result: Result<(), String>) -> DownloadOutcome {
    match result {
        Ok(_) => DownloadOutcome::Succeeded,
        Err(reason) => DownloadOutcome::Failed(reason),
    }
}

/// The outcomes that the workers' reports stand for, position by position.
pub open spec fn outcomes_of(results: Seq<Result<(), String>>) -> Seq<DownloadOutcome> {
    Seq::new(results.len(), |i: int| outcome_of(results[i]))
}

/// The number of downloads among `outcomes` that succeeded.
pub open spec fn succeeded_count(outcomes: Seq<DownloadOutcome>) -> nat
    decreases outcomes.len(),
{
    if outcomes.len() == 0 {
        0
    } else {
        succeeded_count(outcomes.drop_last()) + if outcomes.last() is Succeeded {
            1nat
        } else {
            0nat
        }
    }
}

/// Whether `tasks` are the downloads of `clips` into `staging_dir`: one task
/// for each clip, in order, with the clip's id and address.
pub open spec fn tasks_match(
    tasks: Seq<DownloadTask>,
    clips: Seq<TwitchClip>,
    staging_dir: Seq<char>,
) -> bool {
    &&& tasks.len() == clips.len()
    &&& forall|i: int|
        0 <= i < tasks.len() ==> {
            &&& (#[trigger] tasks[i]).clip_id == clips[i].id
            &&& tasks[i].url == clips[i].url
            &&& tasks[i].staging_dir@ == staging_dir
            &&& tasks[i].output_template@ == staged_template_text(clips[i].id@)
        }
}

/// The name pattern of the staged file of the clip `clip_id`.
pub fn staged_template(clip_id: &str) -> (template: String)
    ensures
        template@ == staged_template_text(clip_id@),
{
    let mut template: String = String::from_str(clip_id);
    template.append(".%(ext)s");
    template
}

/// Clips with different ids are staged under different names.
pub proof fn lemma_staged_template_injective(a: Seq<char>, b: Seq<char>)
    requires
        staged_template_text(a) == staged_template_text(b),
    ensures
        a == b,
{
    let tail = ".%(ext)s"@;
    assert((a + tail).len() == a.len() + tail.len());
    assert((b + tail).len() == b.len() + tail.len());
    assert(a =~= (a + tail).subrange(0, a.len() as int));
    assert(b =~= (b + tail).subrange(0, b.len() as int));
}

/// Names the downloads of a batch, or refuses the batch.
///
/// A batch with a repeated id is refused with its first repeat and no task
/// is named. Otherwise there is one task for each clip, in the order of the
/// batch, and no two tasks write to the same staged file.
pub fn plan_downloads(
    batch: &Vec<TwitchClip>,
    staging_dir: &str,
) -> (plan: Result<Vec<DownloadTask>, IntegrityError>)
    ensures
        plan is Err <==> has_repeated_id(batch@),
        match plan {
            Ok(tasks) => {
                &&& !has_repeated_id(batch@)
                &&& tasks_match(tasks@, batch@, staging_dir@)
                &&& forall|i: int, j: int|
                    0 <= i < j < tasks@.len() ==> (#[trigger] tasks@[i]).output_template@
                        != (#[trigger] tasks@[j]).output_template@
            },
            Err(e) => is_first_repeat(batch@, e.first as int, e.second as int),
        },
{
    match find_repeat(batch) {
        Some((first, second)) => {
            proof {
                lemma_first_repeat_is_repeat(batch@, first as int, second as int);
            }
            Err(IntegrityError { first, second })
        },
        None => {
            let n: usize = batch.len();
            let mut tasks: Vec<DownloadTask> = Vec::new();
            let mut i: usize = 0;
            while i < n
                invariant
                    n == batch.len(),
                    i <= n,
                    tasks@.len() == i,
                    forall|k: int|
                        0 <= k < i ==> {
                            &&& (#[trigger] tasks@[k]).clip_id == batch@[k].id
                            &&& tasks@[k].url == batch@[k].url
                            &&& tasks@[k].staging_dir@ == staging_dir@
                            &&& tasks@[k].output_template@ == staged_template_text(batch@[k].id@)
                        },
                decreases n - i,
            {
                let clip: &TwitchClip = &batch[i];
                tasks.push(
                    DownloadTask {
                        clip_id: clip.id.clone(),
                        url: clip.url.clone(),
                        staging_dir: String::from_str(staging_dir),
                        output_template: staged_template(clip.id.as_str()),
                    },
                );
                i += 1;
            }
            proof {
                let ids = ids_of(batch@);
                assert forall|a: int, b: int| 0 <= a < b < tasks@.len() implies (
                #[trigger] tasks@[a]).output_template@ != (
                #[trigger] tasks@[b]).output_template@ by {
                    assert(ids[a] == batch@[a].id@ && ids[b] == batch@[b].id@);
                    if tasks@[a].output_template@ == tasks@[b].output_template@ {
                        lemma_staged_template_injective(batch@[a].id@, batch@[b].id@);
                    }
                }
            }
            Ok(tasks)
        },
    }
}

/// Gathers what the workers reported into the report of the batch.
///
/// There is a report exactly when there is one result for each task. It
/// holds one outcome for each task, in the order of the tasks; a failed
/// download leaves the outcomes of the others as they are.
pub fn collect_outcomes(
    tasks: &Vec<DownloadTask>,
    results: Vec<Result<(), String>>,
) -> (report: Option<DownloadReport>)
    ensures
        report is Some <==> results@.len() == tasks@.len(),
        report matches Some(r) ==> {
            &&& r.outcomes@ == outcomes_of(results@)
            &&& r.outcomes@.len() == tasks@.len()
            &&& r.succeeded == succeeded_count(r.outcomes@)
            &&& r.succeeded + r.failed == tasks@.len()
        },
{
    let n: usize = results.len();
    if n != tasks.len() {
        return None;
    }
    let mut outcomes: Vec<DownloadOutcome> = Vec::new();
    let mut succeeded: usize = 0;
    let mut failed: usize = 0;
    let mut i: usize = 0;
    while i < n
        invariant
            n == results@.len(),
            i <= n,
            outcomes@.len() == i,
            forall|k: int| 0 <= k < i ==> #[trigger] outcomes@[k] == outcome_of(results@[k]),
            succeeded == succeeded_count(outcomes@),
            succeeded + failed == i,
        decreases n - i,
    {
        let ghost before = outcomes@;
        match &results[i] {
            Ok(_) => {
                outcomes.push(DownloadOutcome::Succeeded);
                succeeded += 1;
            },
            Err(reason) => {
                outcomes.push(DownloadOutcome::Failed(reason.clone()));
                failed += 1;
            },
        }
        assert(outcomes@.drop_last() =~= before);
        i += 1;
    }
    assert(outcomes@ =~= outcomes_of(results@));
    Some(DownloadReport { outcomes, succeeded, failed })
}

/// There is one outcome for each report, whatever the reports say.
pub proof fn lemma_one_outcome_each(results: Seq<Result<(), String>>)
    ensures
        outcomes_of(results).len() == results.len(),
        succeeded_count(outcomes_of(results)) <= results.len(),
{
    lemma_succeeded_bounded(outcomes_of(results));
}

/// No more downloads succeeded than were made.
pub proof fn lemma_succeeded_bounded(outcomes: Seq<DownloadOutcome>)
    ensures
        succeeded_count(outcomes) <= outcomes.len(),
    decreases outcomes.len(),
{
    if outcomes.len() > 0 {
        lemma_succeeded_bounded(outcomes.drop_last());
    }
}

/// A failure of the download at position `k` is an outcome like any other:
/// it stands at `k`, and the outcome at every other position is what it
/// would have been without it.
pub proof fn lemma_failure_is_isolated(results: Seq<Result<(), String>>, k: int, reason: String)
    requires
        0 <= k < results.len(),
    ensures
        outcomes_of(results.update(k, Err(reason))).len() == results.len(),
        outcomes_of(results.update(k, Err(reason)))[k] == DownloadOutcome::Failed(reason),
        forall|i: int|
            0 <= i < results.len() && i != k ==> #[trigger] outcomes_of(
                results.update(k, Err(reason)),
            )[i] == outcomes_of(results)[i],
{
}

} // verus!
