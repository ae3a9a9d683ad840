//! Collision-free final names for the staged files.
//!
//! Once every download has come to rest, each file of the staging directory
//! is renamed to a random number with the video extension. The caller lists
//! the directory and performs the renames; the library chooses the names, so
//! that no two files get the same one and none takes the name of a file
//! that is still waiting for its own, and it sums up how the renames went.

use vstd::prelude::*;
use vstd::seq_lib::seq_to_set_is_finite;
use vstd::set_lib::{lemma_int_range, lemma_len_subset, set_int_range};
use vstd::string::StringExecFns;
use crate::utils::text::{decimal, lemma_decimal_injective, lemma_decimal_shape, render_decimal};

verus! {

/// How many numbers are drawn for one name. Each draw after the first is
/// there for the case that those before it collided; if all collide, the
/// least free number is taken instead.
pub const MAX_DRAWS: u32 = 16;

/// The most entries a directory may hold for its renames to be planned:
/// with no more than these, a free number always exists.
pub const MAX_ENTRIES: usize = 0x7fff_ffff;

/// One rename to make, within the staging directory.
#[derive(Debug, Clone, PartialEq, Eq)]
pub struct RenameStep {
    pub from: String,
    pub to: String,
}

/// A rename that the file system refused, and why.
#[derive(Debug, Clone, PartialEq, Eq)]
pub struct FailedRename {
    pub from: String,
    pub to: String,
    pub reason: String,
}

/// Some files could not be renamed. The others were: `renamed` counts them.
#[derive(Debug, Clone, PartialEq, Eq)]
pub struct FilesystemError {
    pub renamed: usize,
    pub failed: Vec<FailedRename>,
}

/// The final name that carries the number `n`: its decimal notation, then
/// the video extension.
pub open spec fn final_name_text(n: u32) -> Seq<char> {
    decimal(n as nat) + ".mp4"@
}

/// Whether `name` is a final name: a number in decimal notation, then the
/// video extension.
pub open spec fn is_final_name(name: Seq<char>) -> bool {
    exists|n: u32| name == final_name_text(n)
}

/// Whether one of `entries` is called `name`.
pub open spec fn name_among(entries: Seq<String>, name: Seq<char>) -> bool {
    exists|j: int| 0 <= j < entries.len() && (#[trigger] entries[j])@ == name
}

/// Whether the number `n` is out of reach: it was chosen before, or an
/// entry of the directory already has the name that carries it.
pub open spec fn is_taken(n: u32, chosen: Seq<u32>, entries: Seq<String>) -> bool {
    chosen.contains(n) || name_among(entries, final_name_text(n))
}

/// Whether `n` is the least number that is free.
pub open spec fn is_least_free(n: u32, chosen: Seq<u32>, entries: Seq<String>) -> bool {
    &&& !is_taken(n, chosen, entries)
    &&& forall|m: u32| m < n ==> is_taken(m, chosen, entries)
}

/// The least number that is free, if any is.
pub open spec fn least_free_number(chosen: Seq<u32>, entries: Seq<String>) -> Option<u32> {
    if exists|n: u32| is_least_free(n, chosen, entries) {
        Some(choose|n: u32| is_least_free(n, chosen, entries))
    } else {
        None
    }
}

/// The number that `draws` settle on: the first of them that is free, and
/// if none is, the least free number.
pub open spec fn settled(draws: Seq<u32>, chosen: Seq<u32>, entries: Seq<String>) -> Option<u32>
    decreases draws.len(),
{
    if draws.len() == 0 {
        least_free_number(chosen, entries)
    } else if !is_taken(draws[0], chosen, entries) {
        Some(draws[0])
    } else {
        settled(draws.drop_first(), chosen, entries)
    }
}

/// Whether `plan` renames `entries` as it should: each entry once, in
/// order, to a number with the video extension; no two to the same name;
/// none to a name that an entry has.
pub open spec fn is_rename_plan(plan: Seq<RenameStep>, entries: Seq<String>) -> bool {
    &&& plan.len() == entries.len()
    &&& forall|i: int| 0 <= i < plan.len() ==> (#[trigger] plan[i]).from == entries[i]
    &&& forall|i: int| 0 <= i < plan.len() ==> is_final_name((#[trigger] plan[i]).to@)
    &&& forall|i: int, j: int|
        0 <= i < j < plan.len() ==> (#[trigger] plan[i]).to@ != (#[trigger] plan[j]).to@
    &&& forall|i: int, j: int|
        0 <= i < plan.len() && 0 <= j < entries.len() ==> (#[trigger] plan[i]).to@
            != (#[trigger] entries[j])@
}

/// The renames among `attempts` that failed, in order.
pub open spec fn failures_of(attempts: Seq<(RenameStep, Result<(), String>)>) -> Seq<FailedRename>
    decreases attempts.len(),
{
    if attempts.len() == 0 {
        Seq::empty()
    } else {
        let rest = failures_of(attempts.drop_last());
        match attempts.last().1 {
            Ok(_) => rest,
            Err(reason) => rest.push(
                FailedRename { from: attempts.last().0.from, to: attempts.last().0.to, reason },
            ),
        }
    }
}

/// An empty directory has the empty plan, and no other.
pub proof fn lemma_empty_directory_has_empty_plan(plan: Seq<RenameStep>)
    ensures
        is_rename_plan(plan, Seq::empty()) <==> plan.len() == 0,
{
}

/// A plan gives as many names as there are entries, each the name of a
/// number with the video extension, all different from each other.
pub proof fn lemma_plan_names_are_distinct_final_names(
    plan: Seq<RenameStep>,
    entries: Seq<String>,
)
    requires
        is_rename_plan(plan, entries),
    ensures
        plan.len() == entries.len(),
        Seq::new(plan.len(), |i: int| plan[i].to@).no_duplicates(),
        forall|i: int|
            0 <= i < plan.len() ==> {
                let name = (#[trigger] plan[i]).to@;
                name.len() > 4 && name.subrange(name.len() - 4, name.len() as int) == ".mp4"@
            },
{
    reveal_strlit(".mp4");
    assert forall|i: int| 0 <= i < plan.len() implies {
        let name = (#[trigger] plan[i]).to@;
        name.len() > 4 && name.subrange(name.len() - 4, name.len() as int) == ".mp4"@
    } by {
        let name = plan[i].to@;
        assert(is_final_name(name));
        let n = choose|n: u32| name == final_name_text(n);
        lemma_decimal_shape(n as nat);
        assert(name.subrange(name.len() - 4, name.len() as int) =~= ".mp4"@);
    }
}

/// Different numbers are carried by different final names.
pub proof fn lemma_final_name_injective(a: u32, b: u32)
    requires
        final_name_text(a) == final_name_text(b),
    ensures
        a == b,
{
    reveal_strlit(".mp4");
    let x = decimal(a as nat);
    let y = decimal(b as nat);
    let ext = ".mp4"@;
    assert((x + ext).len() == x.len() + 4);
    assert((y + ext).len() == y.len() + 4);
    assert(x =~= (x + ext).subrange(0, x.len() as int));
    assert(y =~= (y + ext).subrange(0, y.len() as int));
    lemma_decimal_injective(a as nat, b as nat);
}

/// There is a least free number exactly when some number is free, and
/// there is only one.
pub proof fn lemma_least_free_number(chosen: Seq<u32>, entries: Seq<String>)
    ensures
        match least_free_number(chosen, entries) {
            Some(n) => is_least_free(n, chosen, entries),
            None => forall|m: u32| is_taken(m, chosen, entries),
        },
        forall|n: u32| #[trigger]
            is_least_free(n, chosen, entries) ==> least_free_number(chosen, entries) == Some(n),
{
    if !(exists|n: u32| is_least_free(n, chosen, entries)) {
        assert forall|m: u32| is_taken(m, chosen, entries) by {
            lemma_all_taken_below(m, chosen, entries);
            if m < u32::MAX {
                lemma_all_taken_below((m + 1) as u32, chosen, entries);
            } else {
                assert(!is_least_free(m, chosen, entries));
            }
        }
    }
    assert forall|n: u32| #[trigger]
        is_least_free(n, chosen, entries) implies least_free_number(chosen, entries) == Some(
        n,
    ) by {
        let least = choose|k: u32| is_least_free(k, chosen, entries);
        assert(!(least < n));
        assert(!(n < least));
    }
}

/// Where no number is the least free one, every number below `bound` is
/// taken.
proof fn lemma_all_taken_below(bound: u32, chosen: Seq<u32>, entries: Seq<String>)
    requires
        !(exists|n: u32| is_least_free(n, chosen, entries)),
    ensures
        forall|m: u32| m < bound ==> is_taken(m, chosen, entries),
    decreases bound,
{
    if bound > 0 {
        let below = (bound - 1) as u32;
        lemma_all_taken_below(below, chosen, entries);
        assert(!is_least_free(below, chosen, entries));
    }
}

/// What draws settle on is free, and they settle on nothing only when
/// every number is taken.
pub proof fn lemma_settled_is_free(draws: Seq<u32>, chosen: Seq<u32>, entries: Seq<String>)
    ensures
        match settled(draws, chosen, entries) {
            Some(n) => !is_taken(n, chosen, entries),
            None => forall|m: u32| is_taken(m, chosen, entries),
        },
    decreases draws.len(),
{
    if draws.len() == 0 {
        lemma_least_free_number(chosen, entries);
    } else if is_taken(draws[0], chosen, entries) {
        lemma_settled_is_free(draws.drop_first(), chosen, entries);
    }
}

/// As long as fewer numbers are chosen and entries listed than there are
/// numbers, one number is free.
pub proof fn lemma_free_number_exists(chosen: Seq<u32>, entries: Seq<String>)
    requires
        chosen.len() + entries.len() <= u32::MAX,
    ensures
        exists|n: u32| !is_taken(n, chosen, entries),
{
    if forall|n: u32| is_taken(n, chosen, entries) {
        let carried = |j: int| -> int
            {
                if exists|m: u32| final_name_text(m) == entries[j]@ {
                    (choose|m: u32| final_name_text(m) == entries[j]@) as int
                } else {
                    0int
                }
            };
        let taken: Seq<int> = Seq::new(chosen.len(), |k: int| chosen[k] as int) + Seq::new(
            entries.len(),
            carried,
        );
        let all = set_int_range(0, 0x1_0000_0000);
        assert forall|x: int| all.contains(x) implies taken.to_set().contains(x) by {
            let n = x as u32;
            assert(is_taken(n, chosen, entries));
            if chosen.contains(n) {
                let k = choose|k: int| 0 <= k < chosen.len() && chosen[k] == n;
                assert(taken[k] == x);
            } else {
                let j = choose|j: int|
                    0 <= j < entries.len() && (#[trigger] entries[j])@ == final_name_text(n);
                let m = choose|m: u32| final_name_text(m) == entries[j]@;
                lemma_final_name_injective(m, n);
                assert(taken[chosen.len() + j] == x);
            }
        }
        lemma_int_range(0, 0x1_0000_0000);
        seq_to_set_is_finite(taken);
        lemma_len_subset(all, taken.to_set());
        taken.lemma_cardinality_of_set();
        assert(false);
    }
}

/// The final name that carries the number `n`.
pub fn final_name(n: u32) -> (name: String)
    ensures
        name@ == final_name_text(n),
{
    let mut name: String = render_decimal(n);
    name.append(".mp4");
    name
}

/// Whether the number `n` is out of reach, given the numbers chosen so far
/// and the entries of the directory.
pub fn number_taken(n: u32, chosen: &Vec<u32>, entries: &Vec<String>) -> (taken: bool)
    ensures
        taken == is_taken(n, chosen@, entries@),
{
    let mut k: usize = 0;
    while k < chosen.len()
        invariant
            k <= chosen@.len(),
            forall|a: int| 0 <= a < k ==> chosen@[a] != n,
        decreases chosen@.len() - k,
    {
        if chosen[k] == n {
            return true;
        }
        k += 1;
    }
    let name: String = final_name(n);
    let mut j: usize = 0;
    while j < entries.len()
        invariant
            j <= entries@.len(),
            name@ == final_name_text(n),
            forall|a: int| 0 <= a < j ==> (#[trigger] entries@[a])@ != name@,
        decreases entries@.len() - j,
    {
        if entries[j] == name {
            return true;
        }
        j += 1;
    }
    false
}

/// The least number that is free, if any is.
pub fn least_free(chosen: &Vec<u32>, entries: &Vec<String>) -> (least: Option<u32>)
    ensures
        least == least_free_number(chosen@, entries@),
{
    proof {
        lemma_least_free_number(chosen@, entries@);
    }
    let mut n: u32 = 0;
    loop
        invariant
            forall|m: u32| m < n ==> is_taken(m, chosen@, entries@),
        decreases u32::MAX - n,
    {
        if !number_taken(n, chosen, entries) {
            assert(is_least_free(n, chosen@, entries@));
            return Some(n);
        }
        if n == u32::MAX {
            assert(forall|m: u32| is_taken(m, chosen@, entries@));
            return None;
        }
        n += 1;
    }
}

/// Draws a number with `rand::random::<u32>`, which takes it from the
/// generator of the calling thread. Nothing is claimed of the number but
/// its type: two calls may give the same number. The call fails only
/// where the operating system cannot seed that generator.
#[verifier::external_body]
fn random_number() -> u32 {
    rand::random::<u32>()
}

/// The number that `draws` settle on: the first of them that is free, and
/// if none is, the least free number. A draw that collides is passed over,
/// never used.
pub fn settle(draws: &Vec<u32>, chosen: &Vec<u32>, entries: &Vec<String>) -> (pick: Option<u32>)
    ensures
        pick == settled(draws@, chosen@, entries@),
{
    let mut i: usize = 0;
    assert(draws@.subrange(0, draws@.len() as int) =~= draws@);
    while i < draws.len()
        invariant
            i <= draws@.len(),
            settled(draws@, chosen@, entries@) == settled(
                draws@.subrange(i as int, draws@.len() as int),
                chosen@,
                entries@,
            ),
        decreases draws@.len() - i,
    {
        let ghost rest = draws@.subrange(i as int, draws@.len() as int);
        assert(rest[0] == draws@[i as int]);
        assert(rest.drop_first() =~= draws@.subrange(i + 1, draws@.len() as int));
        if !number_taken(draws[i], chosen, entries) {
            return Some(draws[i]);
        }
        i += 1;
    }
    assert(draws@.subrange(i as int, draws@.len() as int) =~= Seq::<u32>::empty());
    least_free(chosen, entries)
}

/// Draws `count` numbers, one after the other.
fn draw_numbers(count: u32) -> (draws: Vec<u32>)
    ensures
        draws@.len() == count,
{
    let mut draws: Vec<u32> = Vec::new();
    let mut i: u32 = 0;
    while i < count
        invariant
            i <= count,
            draws@.len() == i,
        decreases count - i,
    {
        draws.push(random_number());
        i += 1;
    }
    draws
}

/// Chooses a number that is free: what `MAX_DRAWS` random draws settle on.
///
/// Whatever is drawn, the number is free. There is none only if every
/// number is taken, which takes more chosen numbers and entries than there
/// are numbers.
pub fn fresh_number(chosen: &Vec<u32>, entries: &Vec<String>) -> (pick: Option<u32>)
    ensures
        exists|draws: Seq<u32>|
            draws.len() == MAX_DRAWS && pick == #[trigger] settled(draws, chosen@, entries@),
        pick matches Some(n) ==> !is_taken(n, chosen@, entries@),
        pick is None <==> forall|m: u32| is_taken(m, chosen@, entries@),
        chosen@.len() + entries@.len() <= u32::MAX ==> pick is Some,
{
    let draws: Vec<u32> = draw_numbers(MAX_DRAWS);
    proof {
        lemma_settled_is_free(draws@, chosen@, entries@);
        if chosen@.len() + entries@.len() <= u32::MAX {
            lemma_free_number_exists(chosen@, entries@);
        }
    }
    settle(&draws, chosen, entries)
}

/// Plans the renames of a staging directory whose entries are `entries`.
///
/// There is a plan exactly when the directory holds no more than
/// `MAX_ENTRIES` entries. It renames each entry once, in the order given,
/// to a random number with the video extension; no two to the same name,
/// and none to a name that an entry of the directory has, so that no
/// rename of the plan overwrites a file. An empty directory has the empty
/// plan.
pub fn plan_renames(entries: Vec<String>) -> (plan: Option<Vec<RenameStep>>)
    ensures
        plan is Some <==> entries@.len() <= MAX_ENTRIES,
        plan matches Some(steps) ==> is_rename_plan(steps@, entries@),
{
    let n: usize = entries.len();
    if n > MAX_ENTRIES {
        return None;
    }
    let mut chosen: Vec<u32> = Vec::new();
    let mut steps: Vec<RenameStep> = Vec::new();
    let mut i: usize = 0;
    while i < n
        invariant
            n == entries@.len(),
            n <= MAX_ENTRIES,
            i <= n,
            chosen@.len() == i,
            steps@.len() == i,
            forall|k: int| 0 <= k < i ==> (#[trigger] steps@[k]).from == entries@[k],
            forall|k: int| 0 <= k < i ==> (#[trigger] steps@[k]).to@ == final_name_text(chosen@[k]),
            forall|a: int, b: int| 0 <= a < b < i ==> chosen@[a] != chosen@[b],
            forall|k: int| 0 <= k < i ==> !name_among(entries@, final_name_text(#[trigger] chosen@[k])),
        decreases n - i,
    {
        let number: u32 = fresh_number(&chosen, &entries).unwrap();
        assert(!chosen@.contains(number));
        steps.push(RenameStep { from: entries[i].clone(), to: final_name(number) });
        chosen.push(number);
        i += 1;
    }
    proof {
        assert forall|a: int, b: int| 0 <= a < b < steps@.len() implies (#[trigger] steps@[a]).to@
            != (#[trigger] steps@[b]).to@ by {
            if steps@[a].to@ == steps@[b].to@ {
                lemma_final_name_injective(chosen@[a], chosen@[b]);
            }
        }
        assert forall|a: int, j: int|
            0 <= a < steps@.len() && 0 <= j < entries@.len() implies (#[trigger] steps@[a]).to@ != (
        #[trigger] entries@[j])@ by {
            assert(!name_among(entries@, final_name_text(chosen@[a])));
        }
        assert forall|a: int| 0 <= a < steps@.len() implies is_final_name(
            (#[trigger] steps@[a]).to@,
        ) by {
            assert(steps@[a].to@ == final_name_text(chosen@[a]));
        }
    }
    Some(steps)
}

/// Sums up the renames that were attempted, each with what the file system
/// said to it.
///
/// With no failure the result is the number of files renamed, which is the
/// number of attempts. Otherwise it is an error that lists every failed
/// rename, in order, beside the number of those that went through: a
/// failure takes nothing from the renames that succeeded.
pub fn conclude(
    attempts: Vec<(RenameStep, Result<(), String>)>,
) -> (summary: Result<usize, FilesystemError>)
    ensures
        match summary {
            Ok(renamed) => failures_of(attempts@).len() == 0 && renamed == attempts@.len(),
            Err(e) => {
                &&& e.failed@ == failures_of(attempts@)
                &&& e.failed@.len() > 0
                &&& e.renamed + e.failed@.len() == attempts@.len()
            },
        },
{
    let n: usize = attempts.len();
    let mut failed: Vec<FailedRename> = Vec::new();
    let mut renamed: usize = 0;
    let mut i: usize = 0;
    while i < n
        invariant
            n == attempts@.len(),
            i <= n,
            failed@ == failures_of(attempts@.take(i as int)),
            renamed + failed@.len() == i,
        decreases n - i,
    {
        assert(attempts@.take(i + 1).drop_last() =~= attempts@.take(i as int));
        assert(attempts@.take(i + 1).last() == attempts@[i as int]);
        match &attempts[i].1 {
            Ok(_) => {
                renamed += 1;
            },
            Err(reason) => {
                failed.push(
                    FailedRename {
                        from: attempts[i].0.from.clone(),
                        to: attempts[i].0.to.clone(),
                        reason: reason.clone(),
                    },
                );
            },
        }
        i += 1;
    }
    assert(attempts@.take(n as int) =~= attempts@);
    if failed.len() == 0 {
        Ok(renamed)
    } else {
        Err(FilesystemError { renamed, failed })
    }
}

} // verus!
