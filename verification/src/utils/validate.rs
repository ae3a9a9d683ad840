//! The duplicate gate: a batch in which an id occurs twice is not downloaded.
//!
//! Two pages that overlap are the mark of an unstable cursor; going on would
//! fetch the same video twice.

use vstd::prelude::*;
use crate::utils::api::TwitchClip;

verus! {

/// The ids of `clips`, in order.
pub open spec fn ids_of(clips: Seq<TwitchClip>) -> Seq<Seq<char>> {
    Seq::new(clips.len(), |i: int| clips[i].id@)
}

/// Whether some id occurs at two positions of `clips`.
pub open spec fn has_repeated_id(clips: Seq<TwitchClip>) -> bool {
    !ids_of(clips).no_duplicates()
}

/// Whether `(first, second)` is the first repeat of `clips`: `second` is the
/// earliest position whose id has occurred before it, and `first` is where
/// that id occurred first.
pub open spec fn is_first_repeat(clips: Seq<TwitchClip>, first: int, second: int) -> bool {
    let ids = ids_of(clips);
    &&& 0 <= first < second < clips.len()
    &&& ids[first] == ids[second]
    &&& forall|a: int| 0 <= a < first ==> #[trigger] ids[a] != ids[second]
    &&& forall|a: int, b: int| 0 <= a < b < second ==> #[trigger] ids[a] != #[trigger] ids[b]
}

/// Looks for the first repeat of an id, scanning the clips in order.
pub fn find_repeat(clips: &Vec<TwitchClip>) -> (found: Option<(usize, usize)>)
    ensures
        match found {
            Some((first, second)) => is_first_repeat(clips@, first as int, second as int),
            None => !has_repeated_id(clips@),
        },
{
    let ghost ids = ids_of(clips@);
    let n: usize = clips.len();
    let mut j: usize = 0;
    while j < n
        invariant
            n == clips.len(),
            ids == ids_of(clips@),
            j <= n,
            forall|a: int, b: int| 0 <= a < b < j ==> #[trigger] ids[a] != #[trigger] ids[b],
        decreases n - j,
    {
        let mut i: usize = 0;
        while i < j
            invariant
                n == clips.len(),
                ids == ids_of(clips@),
                i <= j < n,
                forall|a: int| 0 <= a < i ==> #[trigger] ids[a] != ids[j as int],
                forall|a: int, b: int| 0 <= a < b < j ==> #[trigger] ids[a] != #[trigger] ids[b],
            decreases j - i,
        {
            if clips[i].id == clips[j].id {
                return Some((i, j));
            }
            i += 1;
        }
        j += 1;
    }
    None
}

/// Whether some id occurs twice in `clips`.
pub fn has_duplicates(clips: Vec<TwitchClip>) -> (dup: bool)
    ensures
        dup == has_repeated_id(clips@),
{
    let found: Option<(usize, usize)> = find_repeat(&clips);
    proof {
        if let Some((first, second)) = found {
            lemma_first_repeat_is_repeat(clips@, first as int, second as int);
        }
    }
    found.is_some()
}

/// A first repeat is a repeat.
pub proof fn lemma_first_repeat_is_repeat(clips: Seq<TwitchClip>, first: int, second: int)
    requires
        is_first_repeat(clips, first, second),
    ensures
        has_repeated_id(clips),
{
    let ids = ids_of(clips);
    assert(0 <= first < ids.len() && 0 <= second < ids.len() && first != second && ids[first]
        == ids[second]);
}

/// A batch has a repeated id exactly when two of its positions hold the
/// same id; so a batch of distinct ids has none, and one repeat is enough.
pub proof fn lemma_repeated_id_means_equal_pair(clips: Seq<TwitchClip>)
    ensures
        has_repeated_id(clips) <==> exists|i: int, j: int|
            0 <= i < j < clips.len() && #[trigger] clips[i].id@ == #[trigger] clips[j].id@,
{
    let ids = ids_of(clips);
    if has_repeated_id(clips) {
        let (a, b) = choose|a: int, b: int|
            0 <= a < ids.len() && 0 <= b < ids.len() && a != b && ids[a] == ids[b];
        if a < b {
            assert(0 <= a < b < clips.len() && clips[a].id@ == clips[b].id@);
        } else {
            assert(0 <= b < a < clips.len() && clips[b].id@ == clips[a].id@);
        }
    }
    if exists|i: int, j: int|
        0 <= i < j < clips.len() && #[trigger] clips[i].id@ == #[trigger] clips[j].id@ {
        let (i, j) = choose|i: int, j: int|
            0 <= i < j < clips.len() && #[trigger] clips[i].id@ == #[trigger] clips[j].id@;
        assert(ids[i] == ids[j]);
    }
}

/// A batch of no clip or of one clip has no repeated id.
pub proof fn lemma_short_batch_has_no_repeat(clips: Seq<TwitchClip>)
    requires
        clips.len() <= 1,
    ensures
        !has_repeated_id(clips),
{
}

} // verus!
