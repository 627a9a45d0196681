//! The safety inspection between planning and execution: classify
//! every destination that is unsafe to write to, before anything is
//! touched.

use vstd::prelude::*;

use crate::transform_list::ItemModel;
use crate::transform_list::TransformList;

verus! {

/// Why a destination is unsafe.
#[derive(Clone, Copy, PartialEq, Eq, Structural, Debug)]
pub enum Problem {
    /// Two or more plan records claim this destination.
    Conflict,
    /// A file is already at this destination, and no plan record will
    /// move it away.
    FileExists,
}

/// How many plan records claim the destination `d`.
pub open spec fn dest_claims(items: Seq<ItemModel>, d: Seq<char>) -> nat
    decreases items.len(),
{
    if items.len() == 0 {
        0
    } else {
        dest_claims(items.skip(1), d) + (if items[0].dest == d {
            1nat
        } else {
            0nat
        })
    }
}

/// Whether some plan record moves or copies away from the path `p`.
pub open spec fn is_planned_source(items: Seq<ItemModel>, p: Seq<char>) -> bool {
    exists|i: int| 0 <= i < items.len() && items[i].src == p
}

/// The set of paths a sequence of strings holds.
pub open spec fn path_set(v: Seq<String>) -> Set<Seq<char>> {
    Set::new(|p: Seq<char>| exists|i: int| 0 <= i < v.len() && v[i]@ == p)
}

/// The classification of one destination, given the plan and the set of
/// paths already present on disk. A destination claimed twice is a
/// conflict, whatever is on disk; one claimed once but already present
/// is flagged unless the plan itself moves that file away first.
pub open spec fn problem_model(
    items: Seq<ItemModel>,
    existing: Set<Seq<char>>,
    d: Seq<char>,
) -> Option<Problem> {
    if dest_claims(items, d) >= 2 {
        Option::Some(Problem::Conflict)
    } else if existing.contains(d) && !is_planned_source(items, d) {
        Option::Some(Problem::FileExists)
    } else {
        Option::None
    }
}

fn count_claims(list: &TransformList, d: &String) -> (cnt: usize)
    ensures
        cnt == dest_claims(list@, d@),
{
    let n = list.0.len();
    let mut cnt: usize = 0;
    let mut i: usize = 0;
    proof {
        assert(list@.skip(0) =~= list@);
    }
    while i < n
        invariant
            i <= n,
            n == list@.len(),
            list@.len() == list.0@.len(),
            cnt <= i,
            cnt + dest_claims(list@.skip(i as int), d@) == dest_claims(list@, d@),
        decreases n - i,
    {
        proof {
            assert(list@.skip(i as int)[0] == list@[i as int]);
            assert(list@.skip(i as int).skip(1) =~= list@.skip(i as int + 1));
        }
        if list.0[i].dest.eq(d) {
            cnt = cnt + 1;
        }
        i = i + 1;
    }
    proof {
        assert(list@.skip(i as int) =~= Seq::<ItemModel>::empty());
    }
    cnt
}

fn find_source(list: &TransformList, p: &String) -> (found: bool)
    ensures
        found == is_planned_source(list@, p@),
{
    let n = list.0.len();
    let mut i: usize = 0;
    while i < n
        invariant
            i <= n,
            n == list@.len(),
            list@.len() == list.0@.len(),
            forall|j: int| 0 <= j < i ==> list@[j].src != p@,
        decreases n - i,
    {
        if list.0[i].src.eq(p) {
            proof {
                assert(list@[i as int].src == p@);
                assert(is_planned_source(list@, p@));
            }
            return true;
        }
        i = i + 1;
    }
    false
}

fn contains_path_string(v: &Vec<String>, x: &String) -> (found: bool)
    ensures
        found == path_set(v@).contains(x@),
{
    let n = v.len();
    let mut i: usize = 0;
    while i < n
        invariant
            i <= n,
            n == v@.len(),
            forall|j: int| 0 <= j < i ==> v@[j]@ != x@,
        decreases n - i,
    {
        if v[i].eq(x) {
            proof {
                assert(path_set(v@).contains(x@));
            }
            return true;
        }
        i = i + 1;
    }
    false
}

/// Inspect a built plan against the paths already on disk. The caller
/// supplies `existing`: every destination of the plan that currently
/// holds a file. Returns one classification per plan record, in plan
/// order, for that record's destination.
pub fn check_list(list: &TransformList, existing: &Vec<String>) -> (r: Vec<Option<Problem>>)
    ensures
        r@.len() == list@.len(),
        forall|i: int|
            0 <= i < list@.len() ==> r@[i] == problem_model(
                list@,
                path_set(existing@),
                list@[i].dest,
            ),
{
    let n = list.0.len();
    let mut r: Vec<Option<Problem>> = Vec::new();
    let mut i: usize = 0;
    while i < n
        invariant
            i <= n,
            n == list@.len(),
            list@.len() == list.0@.len(),
            r@.len() == i,
            forall|j: int|
                0 <= j < i ==> r@[j] == problem_model(list@, path_set(existing@), list@[j].dest),
        decreases n - i,
    {
        let d = &list.0[i].dest;
        let prob: Option<Problem> = if count_claims(list, d) >= 2 {
            Option::Some(Problem::Conflict)
        } else if contains_path_string(existing, d) && !find_source(list, d) {
            Option::Some(Problem::FileExists)
        } else {
            Option::None
        };
        r.push(prob);
        i = i + 1;
    }
    r
}

/// Whether any record of the plan was flagged: a non-empty problem set
/// aborts the run before any mutation.
pub fn has_problems(r: &Vec<Option<Problem>>) -> (b: bool)
    ensures
        b == exists|i: int| 0 <= i < r@.len() && r@[i] is Some,
{
    let n = r.len();
    let mut i: usize = 0;
    while i < n
        invariant
            i <= n,
            n == r@.len(),
            forall|j: int| 0 <= j < i ==> r@[j] is None,
        decreases n - i,
    {
        if r[i].is_some() {
            return true;
        }
        i = i + 1;
    }
    false
}

proof fn lemma_claims_at_least_one(items: Seq<ItemModel>, d: Seq<char>, i: int)
    requires
        0 <= i < items.len(),
        items[i].dest == d,
    ensures
        dest_claims(items, d) >= 1,
    decreases items.len(),
{
    if i > 0 {
        lemma_claims_at_least_one(items.skip(1), d, i - 1);
    }
}

/// Law: two records claiming one destination make that destination a
/// conflict — whatever is on disk, so a conflict takes precedence over
/// a pre-existing file at the same destination.
pub proof fn lemma_conflict_flagged(
    items: Seq<ItemModel>,
    existing: Set<Seq<char>>,
    i: int,
    j: int,
)
    requires
        0 <= i < j < items.len(),
        items[i].dest == items[j].dest,
    ensures
        problem_model(items, existing, items[i].dest) == Option::Some(Problem::Conflict),
    decreases items.len(),
{
    if i == 0 {
        lemma_claims_at_least_one(items.skip(1), items[i].dest, j - 1);
    } else {
        lemma_conflict_flagged(items.skip(1), existing, i - 1, j - 1);
    }
}

/// Law: a destination that already holds a file, is claimed by at most
/// one record, and is not itself moved away by the plan, is flagged as
/// a pre-existing file.
pub proof fn lemma_existing_flagged(items: Seq<ItemModel>, existing: Set<Seq<char>>, d: Seq<char>)
    requires
        existing.contains(d),
        !is_planned_source(items, d),
        dest_claims(items, d) < 2,
    ensures
        problem_model(items, existing, d) == Option::Some(Problem::FileExists),
{
}

} // verus!
