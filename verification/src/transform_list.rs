//! The plan data model: one record per matched file, in collection order.

use vstd::prelude::*;

use crate::collector::collect_files;
use crate::logfmt::parse_model;
use crate::logfmt::parse_record;
use crate::pattern::CompiledPattern;
use crate::pattern::re_is_match;
use crate::template::meta_model;
use crate::template::tpl_compiles;
use crate::template::template_compiles;
use crate::template::transform_model;
use crate::template::transform_name;

verus! {

/// What the executor does with one record: relocate the source, or
/// duplicate it and keep the source in place.
#[derive(Clone, Copy, PartialEq, Eq, Structural, Debug)]
pub enum Action {
    Move,
    Copy,
}

/// Mathematical model of one plan record.
pub ghost struct ItemModel {
    pub src: Seq<char>,
    pub dest: Seq<char>,
    pub action: Action,
}

/// One planned operation: rename or copy `src` to `dest`.
pub struct TransformListItem {
    pub src: String,
    pub dest: String,
    pub action: Action,
}

impl View for TransformListItem {
    type V = ItemModel;

    open spec fn view(&self) -> ItemModel {
        ItemModel { src: self.src@, dest: self.dest@, action: self.action }
    }
}

/// The reversal of a record: source and destination swapped, and the
/// action forced to `Move`, so that replaying the record puts the moved
/// or copied file back onto its original path.
pub open spec fn reverse_model(m: ItemModel) -> ItemModel {
    ItemModel { src: m.dest, dest: m.src, action: Action::Move }
}

impl TransformListItem {
    /// Build the record that undoes this one.
    pub fn reverse(self) -> (r: Self)
        ensures
            r@ == reverse_model(self@),
    {
        Self { src: self.dest, dest: self.src, action: Action::Move }
    }
}

impl Clone for TransformListItem {
    fn clone(&self) -> (r: Self)
        ensures
            r@ == self@,
    {
        Self { src: self.src.clone(), dest: self.dest.clone(), action: self.action }
    }
}

/// The ordered plan for one run.
pub struct TransformList(pub Vec<TransformListItem>);

impl View for TransformList {
    type V = Seq<ItemModel>;

    open spec fn view(&self) -> Seq<ItemModel> {
        self.0@.map(|i: int, it: TransformListItem| it@)
    }
}

/// Why a fresh plan could not be built.
#[derive(Clone, Copy, PartialEq, Eq, Structural, Debug)]
pub enum PlanError {
    /// The destination template does not compile; surfaced once,
    /// before any file is processed.
    Template,
    /// Rendering failed for one file — its template referenced a
    /// placeholder its context does not hold; the whole batch aborts.
    Render,
    /// The directory walk failed: the root could not be read.
    Walk,
}

/// Why a plan could not be rebuilt from an undo log.
#[derive(Clone, Copy, PartialEq, Eq, Structural, Debug)]
pub enum LogError {
    /// A log line is not a well-formed record.
    BadRecord,
}

impl TransformList {
    /// How many records the plan holds.
    pub fn len(&self) -> (n: usize)
        ensures
            n == self@.len(),
    {
        self.0.len()
    }

    /// Build a fresh plan from an already collected file list: for the
    /// file at position `i`, the destination is the template rendered
    /// over that file's capture groups, path, index `i` and metadata
    /// block, and the action is `Move`. `metas` holds, per file, the
    /// parsed metadata block or nothing where none was found. Aborts
    /// before any file when the template does not compile, and on the
    /// whole batch when any one file fails to render.
    pub fn from_files(
        pattern: &CompiledPattern,
        tpl: &str,
        files: &Vec<String>,
        metas: &Vec<Option<Vec<(String, String)>>>,
    ) -> (r: Result<TransformList, PlanError>)
        requires
            files@.len() == metas@.len(),
        ensures
            !tpl_compiles(tpl@) ==> r == Result::<TransformList, PlanError>::Err(
                PlanError::Template,
            ),
            tpl_compiles(tpl@) ==> match r {
                Result::Ok(list) => {
                    &&& list@.len() == files@.len()
                    &&& forall|i: int|
                        0 <= i < files@.len() ==> transform_model(
                            pattern.pat(),
                            tpl@,
                            files@[i]@,
                            i as nat,
                            meta_model(metas@[i]),
                        ) is Some
                    &&& forall|i: int|
                        0 <= i < files@.len() ==> list@[i] == (ItemModel {
                            src: files@[i]@,
                            dest: transform_model(
                                pattern.pat(),
                                tpl@,
                                files@[i]@,
                                i as nat,
                                meta_model(metas@[i]),
                            )->Some_0,
                            action: Action::Move,
                        })
                },
                Result::Err(e) => e == PlanError::Render && exists|i: int|
                    0 <= i < files@.len() && transform_model(
                        pattern.pat(),
                        tpl@,
                        files@[i]@,
                        i as nat,
                        meta_model(metas@[i]),
                    ) is None,
            },
    {
        if !template_compiles(tpl) {
            return Result::Err(PlanError::Template);
        }
        let n = files.len();
        let mut out: Vec<TransformListItem> = Vec::new();
        let mut i: usize = 0;
        while i < n
            invariant
                i <= n,
                n == files@.len(),
                files@.len() == metas@.len(),
                tpl_compiles(tpl@),
                out@.len() == i,
                forall|j: int|
                    0 <= j < i ==> transform_model(
                        pattern.pat(),
                        tpl@,
                        files@[j]@,
                        j as nat,
                        meta_model(metas@[j]),
                    ) is Some,
                forall|j: int|
                    0 <= j < i ==> out@[j]@ == (ItemModel {
                        src: files@[j]@,
                        dest: transform_model(
                            pattern.pat(),
                            tpl@,
                            files@[j]@,
                            j as nat,
                            meta_model(metas@[j]),
                        )->Some_0,
                        action: Action::Move,
                    }),
            decreases n - i,
        {
            let src = &files[i];
            match transform_name(src, pattern, tpl, i, &metas[i]) {
                Option::None => {
                    return Result::Err(PlanError::Render);
                },
                Option::Some(dest) => {
                    out.push(TransformListItem { src: src.clone(), dest, action: Action::Move });
                },
            }
            i = i + 1;
        }
        Result::Ok(TransformList(out))
    }

    /// Build a fresh plan straight from a directory walk: collect the
    /// regular files under `root` whose path matches the pattern, in
    /// name-sorted walk order, and render each one's destination. The
    /// metadata lookup renders as absent here; a caller that needs it
    /// collects the files first, gathers each file's metadata, and
    /// calls `from_files`.
    pub fn from_path(pattern: &CompiledPattern, tpl: &str, root: &str) -> (r: Result<
        TransformList,
        PlanError,
    >)
        ensures
            r == Result::<TransformList, PlanError>::Err(PlanError::Template) ==> !tpl_compiles(
                tpl@,
            ),
            match r {
                Result::Ok(list) => tpl_compiles(tpl@) && forall|i: int|
                    0 <= i < list@.len() ==> {
                        &&& list@[i].action == Action::Move
                        &&& re_is_match(pattern.pat(), list@[i].src)
                        &&& transform_model(
                            pattern.pat(),
                            tpl@,
                            list@[i].src,
                            i as nat,
                            Option::None,
                        ) == Option::Some(list@[i].dest)
                    },
                Result::Err(_) => true,
            },
    {
        let files = match collect_files(root, pattern) {
            Option::None => {
                return Result::Err(PlanError::Walk);
            },
            Option::Some(files) => files,
        };
        let mut metas: Vec<Option<Vec<(String, String)>>> = Vec::new();
        let n = files.len();
        let mut i: usize = 0;
        while i < n
            invariant
                i <= n,
                metas@.len() == i,
                forall|j: int| 0 <= j < i ==> metas@[j] is None,
            decreases n - i,
        {
            metas.push(Option::None);
            i = i + 1;
        }
        Self::from_files(pattern, tpl, &files, &metas)
    }

    /// Rebuild a plan from the lines of an undo log: each line is
    /// parsed back into the record it persisted, then reversed — source
    /// and destination swapped and the action forced to `Move` — in the
    /// order the log holds, which is the order the records were
    /// completed in. Fails if any line is not a well-formed record.
    pub fn from_undo(lines: &Vec<String>) -> (r: Result<TransformList, LogError>)
        ensures
            match r {
                Result::Ok(list) => {
                    &&& list@.len() == lines@.len()
                    &&& forall|i: int|
                        0 <= i < lines@.len() ==> parse_model(lines@[i]@) is Some
                    &&& forall|i: int|
                        0 <= i < lines@.len() ==> list@[i] == reverse_model(
                            parse_model(lines@[i]@)->Some_0,
                        )
                },
                Result::Err(_) => exists|i: int|
                    0 <= i < lines@.len() && parse_model(lines@[i]@) is None,
            },
    {
        let n = lines.len();
        let mut out: Vec<TransformListItem> = Vec::new();
        let mut i: usize = 0;
        while i < n
            invariant
                i <= n,
                n == lines@.len(),
                out@.len() == i,
                forall|j: int| 0 <= j < i ==> parse_model(lines@[j]@) is Some,
                forall|j: int|
                    0 <= j < i ==> out@[j]@ == reverse_model(parse_model(lines@[j]@)->Some_0),
            decreases n - i,
        {
            match parse_record(lines[i].as_str()) {
                Option::None => {
                    return Result::Err(LogError::BadRecord);
                },
                Option::Some(record) => {
                    let reversed = record.reverse();
                    out.push(reversed);
                },
            }
            i = i + 1;
        }
        Result::Ok(TransformList(out))
    }
}

} // verus!
