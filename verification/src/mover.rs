//! The apply phase, verified over a model filesystem.
//!
//! A [`MemFs`] stands for the part of the filesystem the run touches: a
//! map from path to an identifier of the file's content. The executor
//! walks the plan strictly in order, applies each record, and appends a
//! log record per completed action. The decisions — when a move falls
//! back to copy-and-delete, when the log is written — live here; an
//! unverified shell that drives a real disk follows the same
//! [`resolve_op`] decisions step by step.

use vstd::prelude::*;

use crate::checker::Problem;
use crate::checker::check_list;
use crate::checker::has_problems;
use crate::checker::path_set;
use crate::checker::problem_model;
use crate::transform_list::Action;
use crate::transform_list::ItemModel;
use crate::transform_list::TransformList;
use crate::transform_list::TransformListItem;
use crate::transform_list::reverse_model;

verus! {

/// The primitive filesystem operation chosen for one record.
#[derive(Clone, Copy, PartialEq, Eq, Structural, Debug)]
pub enum FsOp {
    /// Relocate in one step: an atomic rename.
    DirectRename,
    /// The fallback for a move whose rename failed: write a full copy at
    /// the destination, then delete the source.
    CopyThenDelete,
    /// Duplicate only; the source stays.
    CopyOnly,
}

/// Which primitive operation a record's action calls for, given whether
/// an attempted atomic rename has already failed.
pub open spec fn resolve_model(action: Action, rename_failed: bool) -> FsOp {
    match action {
        Action::Copy => FsOp::CopyOnly,
        Action::Move => if rename_failed {
            FsOp::CopyThenDelete
        } else {
            FsOp::DirectRename
        },
    }
}

/// Decide the primitive operation for one record. A `Copy` never
/// renames; a `Move` renames, and falls back to copy-and-delete only
/// when the rename failed.
pub fn resolve_op(action: Action, rename_failed: bool) -> (op: FsOp)
    ensures
        op == resolve_model(action, rename_failed),
{
    match action {
        Action::Copy => FsOp::CopyOnly,
        Action::Move => if rename_failed {
            FsOp::CopyThenDelete
        } else {
            FsOp::DirectRename
        },
    }
}

/// The map a sequence of (path, content) entries stands for; an earlier
/// entry shadows a later one with the same path.
pub closed spec fn files_map(s: Seq<(String, u64)>) -> Map<Seq<char>, u64>
    decreases s.len(),
{
    if s.len() == 0 {
        Map::empty()
    } else {
        files_map(s.skip(1)).insert(s[0].0@, s[0].1)
    }
}

/// The first entry with the given path, if any.
spec fn lookup(s: Seq<(String, u64)>, k: Seq<char>) -> Option<u64>
    decreases s.len(),
{
    if s.len() == 0 {
        Option::None
    } else if s[0].0@ == k {
        Option::Some(s[0].1)
    } else {
        lookup(s.skip(1), k)
    }
}

proof fn lemma_lookup_matches_map(s: Seq<(String, u64)>, k: Seq<char>)
    ensures
        files_map(s).contains_key(k) <==> lookup(s, k) is Some,
        files_map(s).contains_key(k) ==> files_map(s)[k] == lookup(s, k)->Some_0,
    decreases s.len(),
{
    if s.len() > 0 {
        lemma_lookup_matches_map(s.skip(1), k);
    }
}

/// The entries with the given path taken out.
spec fn drop_key(s: Seq<(String, u64)>, k: Seq<char>) -> Seq<(String, u64)>
    decreases s.len(),
{
    if s.len() == 0 {
        s
    } else if s[0].0@ == k {
        drop_key(s.skip(1), k)
    } else {
        seq![s[0]] + drop_key(s.skip(1), k)
    }
}

proof fn lemma_drop_key_matches_map(s: Seq<(String, u64)>, k: Seq<char>)
    ensures
        files_map(drop_key(s, k)) =~= files_map(s).remove(k),
    decreases s.len(),
{
    if s.len() > 0 {
        lemma_drop_key_matches_map(s.skip(1), k);
        if s[0].0@ != k {
            let t = seq![s[0]] + drop_key(s.skip(1), k);
            assert(t.skip(1) =~= drop_key(s.skip(1), k));
        }
    }
}

/// The model filesystem: which path holds which content.
pub struct MemFs {
    files: Vec<(String, u64)>,
}

impl View for MemFs {
    type V = Map<Seq<char>, u64>;

    closed spec fn view(&self) -> Map<Seq<char>, u64> {
        files_map(self.files@)
    }
}

impl MemFs {
    /// An empty filesystem.
    pub fn new() -> (r: Self)
        ensures
            r@ =~= Map::<Seq<char>, u64>::empty(),
    {
        MemFs { files: Vec::new() }
    }

    fn get_at(&self, path: &String, i: usize) -> (r: Option<u64>)
        requires
            i <= self.files@.len(),
        ensures
            r == lookup(self.files@.skip(i as int), path@),
        decreases self.files@.len() - i,
    {
        if i == self.files.len() {
            Option::None
        } else {
            let entry = &self.files[i];
            proof {
                assert(self.files@.skip(i as int)[0] == self.files@[i as int]);
                assert(self.files@.skip(i as int).skip(1) =~= self.files@.skip(i as int + 1));
            }
            if entry.0.eq(path) {
                Option::Some(entry.1)
            } else {
                self.get_at(path, i + 1)
            }
        }
    }

    /// The content at a path, or `None` when no file is there.
    pub fn content(&self, path: &String) -> (r: Option<u64>)
        ensures
            self@.contains_key(path@) ==> r == Option::Some(self@[path@]),
            !self@.contains_key(path@) ==> r is None,
    {
        proof {
            assert(self.files@.skip(0) =~= self.files@);
            lemma_lookup_matches_map(self.files@, path@);
        }
        self.get_at(path, 0)
    }

    /// Whether a file is present at a path.
    pub fn contains_path(&self, path: &String) -> (r: bool)
        ensures
            r == self@.contains_key(path@),
    {
        self.content(path).is_some()
    }

    /// Put content at a path, replacing whatever was there.
    pub fn write(&mut self, path: &String, content: u64)
        ensures
            final(self)@ =~= old(self)@.insert(path@, content),
    {
        self.files.insert(0, (path.clone(), content));
        proof {
            assert(self.files@.skip(1) =~= old(self).files@);
        }
    }

    fn remove_from(&self, path: &String, i: usize) -> (r: Vec<(String, u64)>)
        requires
            i <= self.files@.len(),
        ensures
            r@ == drop_key(self.files@.skip(i as int), path@),
        decreases self.files@.len() - i,
    {
        if i == self.files.len() {
            Vec::new()
        } else {
            proof {
                assert(self.files@.skip(i as int)[0] == self.files@[i as int]);
                assert(self.files@.skip(i as int).skip(1) =~= self.files@.skip(i as int + 1));
            }
            let mut rest = self.remove_from(path, i + 1);
            let entry = &self.files[i];
            if entry.0.eq(path) {
                rest
            } else {
                rest.insert(0, (entry.0.clone(), entry.1));
                proof {
                    assert(rest@ =~= seq![self.files@[i as int]] + drop_key(
                        self.files@.skip(i as int + 1),
                        path@,
                    ));
                }
                rest
            }
        }
    }

    /// Delete whatever file is at a path; without one, nothing changes.
    pub fn delete(&mut self, path: &String)
        ensures
            final(self)@ =~= old(self)@.remove(path@),
    {
        let next = self.remove_from(path, 0);
        proof {
            assert(self.files@.skip(0) =~= self.files@);
            lemma_drop_key_matches_map(self.files@, path@);
        }
        self.files = next;
    }
}

/// The filesystem after one record is applied. The rename path and the
/// fallback path agree except when source and destination coincide: a
/// rename of a path onto itself leaves the file, while copying a file
/// onto itself and then deleting the source loses it.
pub open spec fn apply_model(fs: Map<Seq<char>, u64>, it: ItemModel, rename_failed: bool) -> Map<
    Seq<char>,
    u64,
>
    recommends
        fs.contains_key(it.src),
{
    match resolve_model(it.action, rename_failed) {
        FsOp::DirectRename => fs.remove(it.src).insert(it.dest, fs[it.src]),
        FsOp::CopyThenDelete => fs.insert(it.dest, fs[it.src]).remove(it.src),
        FsOp::CopyOnly => fs.insert(it.dest, fs[it.src]),
    }
}

/// Apply one record to the model filesystem. Fails, touching nothing,
/// exactly when the source is missing.
pub fn apply_item(fs: &mut MemFs, item: &TransformListItem, rename_failed: bool) -> (ok: bool)
    ensures
        ok == old(fs)@.contains_key(item@.src),
        ok ==> final(fs)@ == apply_model(old(fs)@, item@, rename_failed),
        !ok ==> final(fs)@ == old(fs)@,
{
    match fs.content(&item.src) {
        Option::None => false,
        Option::Some(c) => {
            match resolve_op(item.action, rename_failed) {
                FsOp::DirectRename => {
                    fs.delete(&item.src);
                    fs.write(&item.dest, c);
                },
                FsOp::CopyThenDelete => {
                    fs.write(&item.dest, c);
                    fs.delete(&item.src);
                },
                FsOp::CopyOnly => {
                    fs.write(&item.dest, c);
                },
            }
            true
        },
    }
}

/// The outcome of running a plan: the filesystem left behind, the log
/// records appended (one per completed action, in execution order), and
/// whether every record went through.
pub ghost struct RunModel {
    pub fs: Map<Seq<char>, u64>,
    pub log: Seq<ItemModel>,
    pub ok: bool,
}

/// Run a plan strictly in order against the model filesystem; a record
/// whose source is missing aborts the rest of the run, and the records
/// already completed stay both applied and logged.
pub open spec fn run_model(fs: Map<Seq<char>, u64>, items: Seq<ItemModel>, rename_failed: bool)
    -> RunModel
    decreases items.len(),
{
    if items.len() == 0 {
        RunModel { fs, log: Seq::empty(), ok: true }
    } else if !fs.contains_key(items[0].src) {
        RunModel { fs, log: Seq::empty(), ok: false }
    } else {
        let rest = run_model(apply_model(fs, items[0], rename_failed), items.skip(1), rename_failed);
        RunModel { fs: rest.fs, log: seq![items[0]] + rest.log, ok: rest.ok }
    }
}

/// Run a plan where each record carries its own rename outcome:
/// `flags[i]` says whether record `i`'s rename attempt failed — the
/// shape of a real run, where the disk decides per record.
pub open spec fn run_model_each(
    fs: Map<Seq<char>, u64>,
    items: Seq<ItemModel>,
    flags: Seq<bool>,
) -> RunModel
    recommends
        flags.len() == items.len(),
    decreases items.len(),
{
    if items.len() == 0 {
        RunModel { fs, log: Seq::empty(), ok: true }
    } else if !fs.contains_key(items[0].src) {
        RunModel { fs, log: Seq::empty(), ok: false }
    } else {
        let rest = run_model_each(
            apply_model(fs, items[0], flags[0]),
            items.skip(1),
            flags.skip(1),
        );
        RunModel { fs: rest.fs, log: seq![items[0]] + rest.log, ok: rest.ok }
    }
}

/// One record's effect does not depend on whether its rename fell
/// back, except for a move of a path onto itself.
proof fn lemma_apply_flag_irrelevant(fs: Map<Seq<char>, u64>, it: ItemModel, a: bool, b: bool)
    requires
        it.action == Action::Copy || it.src != it.dest,
    ensures
        apply_model(fs, it, a) == apply_model(fs, it, b),
{
    assert(apply_model(fs, it, a) =~= apply_model(fs, it, b));
}

/// Law: for a plan in which no move targets its own source, a run
/// whose records fall back (or not) each on their own ends exactly as
/// a run with one uniform outcome — same filesystem, same log, same
/// result. The round-trip and fallback theorems stated over
/// [`run_model`] therefore cover mixed runs as a disk produces them.
pub proof fn lemma_run_mixed_fallback(
    fs: Map<Seq<char>, u64>,
    items: Seq<ItemModel>,
    flags: Seq<bool>,
    rename_failed: bool,
)
    requires
        flags.len() == items.len(),
        forall|i: int|
            0 <= i < items.len() ==> items[i].action == Action::Copy || items[i].src
                != items[i].dest,
    ensures
        run_model_each(fs, items, flags) == run_model(fs, items, rename_failed),
    decreases items.len(),
{
    if items.len() > 0 && fs.contains_key(items[0].src) {
        lemma_apply_flag_irrelevant(fs, items[0], flags[0], rename_failed);
        let fs1 = apply_model(fs, items[0], rename_failed);
        assert forall|i: int| 0 <= i < items.skip(1).len() implies items.skip(1)[i].action
            == Action::Copy || items.skip(1)[i].src != items.skip(1)[i].dest by {
            assert(items.skip(1)[i] == items[i + 1]);
        }
        lemma_run_mixed_fallback(fs1, items.skip(1), flags.skip(1), rename_failed);
    }
}

/// Why the apply phase stopped.
#[derive(Clone, Copy, PartialEq, Eq, Structural, Debug)]
pub enum ExecError {
    /// A record's source path holds no file.
    MissingSource,
}

/// Apply a plan to the model filesystem.
///
/// A dry run touches nothing and logs nothing. Otherwise the records
/// run strictly in order; the returned vector holds one log record per
/// completed action, in execution order — or none when `no_log` is set
/// — and the run stops at the first record whose source is missing,
/// leaving earlier records applied and logged.
pub fn do_perform(
    fs: &mut MemFs,
    files: &TransformList,
    dry_run: bool,
    no_log: bool,
    rename_failed: bool,
) -> (r: (Result<(), ExecError>, Vec<TransformListItem>))
    ensures
        dry_run ==> final(fs)@ == old(fs)@ && r.0 is Ok && r.1@.len() == 0,
        !dry_run ==> {
            let run = run_model(old(fs)@, files@, rename_failed);
            &&& final(fs)@ == run.fs
            &&& (r.0 is Ok <==> run.ok)
            &&& (no_log ==> r.1@.len() == 0)
            &&& (!no_log ==> r.1@.map(|i: int, it: TransformListItem| it@) == run.log)
        },
{
    let mut log: Vec<TransformListItem> = Vec::new();
    if dry_run {
        return (Result::Ok(()), log);
    }
    let ghost fs0 = old(fs)@;
    let ghost full = run_model(fs0, files@, rename_failed);
    proof {
        assert(files@.skip(0) =~= files@);
    }
    let mut i: usize = 0;
    while i < files.0.len()
        invariant
            i <= files@.len(),
            files@.len() == files.0@.len(),
            !dry_run,
            fs0 == old(fs)@,
            full == run_model(fs0, files@, rename_failed),
            run_model(fs@, files@.skip(i as int), rename_failed).fs == full.fs,
            run_model(fs@, files@.skip(i as int), rename_failed).ok == full.ok,
            !no_log ==> log@.map(|j: int, it: TransformListItem| it@) + run_model(
                fs@,
                files@.skip(i as int),
                rename_failed,
            ).log == full.log,
            no_log ==> log@.len() == 0,
        decreases files@.len() - i,
    {
        let item = &files.0[i];
        let ghost remaining = files@.skip(i as int);
        proof {
            assert(remaining[0] == files@[i as int]);
            assert(remaining.skip(1) =~= files@.skip(i as int + 1));
        }
        let ok = apply_item(fs, item, rename_failed);
        if !ok {
            return (Result::Err(ExecError::MissingSource), log);
        }
        if !no_log {
            let ghost log_before = log@;
            let entry = item.clone();
            log.push(entry);
            proof {
                assert(log@.map(|j: int, it: TransformListItem| it@) =~= log_before.map(
                    |j: int, it: TransformListItem| it@,
                ) + seq![item@]);
            }
        }
        i = i + 1;
    }
    proof {
        assert(files@.skip(i as int) =~= Seq::<ItemModel>::empty());
    }
    (Result::Ok(()), log)
}

/// How one whole invocation ended.
pub enum RunOutcome {
    /// The plan was refused before any mutation: at least one
    /// destination was flagged. Carries the classification of every
    /// record's destination, in plan order.
    Refused(Vec<Option<Problem>>),
    /// The plan ran: the apply result, and the log records appended.
    Applied(Result<(), ExecError>, Vec<TransformListItem>),
}

/// The whole invocation against the model filesystem: inspect the plan
/// against the paths already present, refuse it outright — touching
/// nothing — when any destination is flagged, and only otherwise hand
/// it to the executor.
pub fn perform_checked(
    fs: &mut MemFs,
    files: &TransformList,
    existing: &Vec<String>,
    dry_run: bool,
    no_log: bool,
    rename_failed: bool,
) -> (r: RunOutcome)
    ensures
        match r {
            RunOutcome::Refused(p) => {
                &&& final(fs)@ == old(fs)@
                &&& p@.len() == files@.len()
                &&& forall|i: int|
                    0 <= i < files@.len() ==> p@[i] == problem_model(
                        files@,
                        path_set(existing@),
                        files@[i].dest,
                    )
                &&& exists|i: int| 0 <= i < p@.len() && p@[i] is Some
            },
            RunOutcome::Applied(res, log) => {
                &&& forall|i: int|
                    0 <= i < files@.len() ==> problem_model(
                        files@,
                        path_set(existing@),
                        files@[i].dest,
                    ) is None
                &&& (dry_run ==> final(fs)@ == old(fs)@ && res is Ok && log@.len() == 0)
                &&& (!dry_run ==> final(fs)@ == run_model(old(fs)@, files@, rename_failed).fs)
                &&& (!dry_run ==> (res is Ok <==> run_model(old(fs)@, files@, rename_failed).ok))
                &&& (!dry_run && no_log ==> log@.len() == 0)
                &&& (!dry_run && !no_log ==> log@.map(|i: int, it: TransformListItem| it@)
                    == run_model(old(fs)@, files@, rename_failed).log)
            },
        },
{
    let problems = check_list(files, existing);
    if has_problems(&problems) {
        return RunOutcome::Refused(problems);
    }
    proof {
        assert forall|i: int| 0 <= i < files@.len() implies problem_model(
            files@,
            path_set(existing@),
            files@[i].dest,
        ) is None by {
            assert(problems@[i] == problem_model(files@, path_set(existing@), files@[i].dest));
            assert(problems@[i] is None);
        }
    }
    let (res, log) = do_perform(fs, files, dry_run, no_log, rename_failed);
    RunOutcome::Applied(res, log)
}

/// A run over a single record whose source is present: it completes,
/// logs that record alone, and leaves the record's effect.
proof fn lemma_run_model_single(fs: Map<Seq<char>, u64>, it: ItemModel, rename_failed: bool)
    requires
        fs.contains_key(it.src),
    ensures
        run_model(fs, seq![it], rename_failed).ok,
        run_model(fs, seq![it], rename_failed).log =~= seq![it],
        run_model(fs, seq![it], rename_failed).fs == apply_model(fs, it, rename_failed),
{
    let items = seq![it];
    assert(items.len() == 1);
    assert(items[0] == it);
    assert(items.skip(1) =~= Seq::<ItemModel>::empty());
    reveal_with_fuel(run_model, 2);
    assert(run_model(fs, items, rename_failed).log =~= seq![it] + Seq::<ItemModel>::empty());
}

/// Law: a logged move, undone, restores the filesystem.
///
/// Apply a single move whose destination is free, with logging on; then
/// run the reversal of the log through the same executor. The run
/// completes, logs exactly the one record, and the undo run completes
/// and brings the filesystem back to where it started — whether or not
/// the undo itself has to take the copy-and-delete fallback.
pub proof fn lemma_move_round_trip(fs: Map<Seq<char>, u64>, it: ItemModel, undo_fallback: bool)
    requires
        it.action == Action::Move,
        fs.contains_key(it.src),
        !fs.contains_key(it.dest),
        it.src != it.dest,
    ensures
        ({
            let run = run_model(fs, seq![it], false);
            let undo = run_model(
                run.fs,
                run.log.map(|i: int, m: ItemModel| reverse_model(m)),
                undo_fallback,
            );
            &&& run.ok
            &&& run.log =~= seq![it]
            &&& !run.fs.contains_key(it.src)
            &&& undo.ok
            &&& undo.fs =~= fs
        }),
{
    lemma_run_model_single(fs, it, false);
    let run = run_model(fs, seq![it], false);
    let rev = run.log.map(|i: int, m: ItemModel| reverse_model(m));
    assert(rev =~= seq![reverse_model(it)]);
    assert(run.fs.contains_key(reverse_model(it).src));
    lemma_run_model_single(run.fs, reverse_model(it), undo_fallback);
    let undo = run_model(run.fs, rev, undo_fallback);
    assert(undo.fs =~= fs);
}

/// Law: a logged copy, undone, removes the created destination and
/// leaves the source exactly as it was.
///
/// The reversal of a copy record is a move of the destination back onto
/// the source; since the copy's content equals the source's, that move
/// restores the original filesystem.
pub proof fn lemma_copy_round_trip(fs: Map<Seq<char>, u64>, it: ItemModel, undo_fallback: bool)
    requires
        it.action == Action::Copy,
        fs.contains_key(it.src),
        !fs.contains_key(it.dest),
        it.src != it.dest,
    ensures
        ({
            let run = run_model(fs, seq![it], false);
            let undo = run_model(
                run.fs,
                run.log.map(|i: int, m: ItemModel| reverse_model(m)),
                undo_fallback,
            );
            &&& run.ok
            &&& run.log =~= seq![it]
            &&& run.fs.contains_key(it.src)
            &&& run.fs[it.src] == fs[it.src]
            &&& undo.ok
            &&& undo.fs =~= fs
        }),
{
    lemma_run_model_single(fs, it, false);
    let run = run_model(fs, seq![it], false);
    let rev = run.log.map(|i: int, m: ItemModel| reverse_model(m));
    assert(rev =~= seq![reverse_model(it)]);
    assert(run.fs.contains_key(reverse_model(it).src));
    lemma_run_model_single(run.fs, reverse_model(it), undo_fallback);
    let undo = run_model(run.fs, rev, undo_fallback);
    assert(undo.fs =~= fs);
}

/// Law: a move that falls back to copy-and-delete ends as a plain
/// rename would have: the destination holds the source's content, the
/// source is gone, and the log still records the original move record.
pub proof fn lemma_move_fallback(fs: Map<Seq<char>, u64>, it: ItemModel)
    requires
        it.action == Action::Move,
        fs.contains_key(it.src),
        it.src != it.dest,
    ensures
        ({
            let run = run_model(fs, seq![it], true);
            &&& run.ok
            &&& run.log =~= seq![it]
            &&& run.fs =~= run_model(fs, seq![it], false).fs
            &&& run.fs.contains_key(it.dest)
            &&& run.fs[it.dest] == fs[it.src]
            &&& !run.fs.contains_key(it.src)
        }),
{
    lemma_run_model_single(fs, it, true);
    lemma_run_model_single(fs, it, false);
    assert(run_model(fs, seq![it], true).fs =~= run_model(fs, seq![it], false).fs);
}

} // verus!
