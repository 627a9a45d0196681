//! File collection: a deterministic, name-sorted walk of a directory
//! tree, filtered down to the regular files whose path matches the
//! pattern. The walk itself is the trusted boundary; which entries are
//! kept, and in what order, is verified.

use vstd::prelude::*;

use crate::pattern::CompiledPattern;
use crate::pattern::re_is_match;

verus! {

/// Relies on `walkdir::WalkDir`, iterated with `sort_by_file_name`: a
/// depth-first walk of the tree in name-sorted order. Each entry is
/// handed back as its path text together with whether it is a regular
/// file (a directory or symbolic link is not). A walk error — the root
/// unreadable, for instance — or a non-unicode path yields `None`.
#[verifier::external_body]
fn walk_entries(root: &str) -> (r: Option<Vec<(String, bool)>>)
{
    walkdir::WalkDir::new(root).sort_by_file_name().into_iter().map(
        |e|
            e.ok().and_then(
                |d|
                    {
                        let is_file = d.file_type().is_file();
                        d.path().to_str().map(|s| (s.to_string(), is_file))
                    },
            ).ok_or(()),
    ).collect::<Result<Vec<(String, bool)>, ()>>().ok()
}

/// The walk entries that are regular files matching the pattern, in
/// walk order.
pub open spec fn matching_files(entries: Seq<(Seq<char>, bool)>, pat: Seq<char>) -> Seq<Seq<char>>
    decreases entries.len(),
{
    if entries.len() == 0 {
        Seq::empty()
    } else {
        let rest = matching_files(entries.skip(1), pat);
        if entries[0].1 && re_is_match(pat, entries[0].0) {
            seq![entries[0].0] + rest
        } else {
            rest
        }
    }
}

/// Keep the regular files whose full path matches the pattern, in the
/// order given.
pub fn filter_matching(entries: &Vec<(String, bool)>, pattern: &CompiledPattern) -> (r: Vec<
    String,
>)
    ensures
        r.deep_view() == matching_files(entries.deep_view(), pattern.pat()),
{
    let n = entries.len();
    let mut r: Vec<String> = Vec::new();
    let mut i: usize = 0;
    proof {
        assert(entries.deep_view().skip(0) =~= entries.deep_view());
        assert(r.deep_view() + matching_files(entries.deep_view(), pattern.pat())
            =~= matching_files(entries.deep_view(), pattern.pat()));
    }
    while i < n
        invariant
            i <= n,
            n == entries@.len(),
            entries.deep_view().len() == entries@.len(),
            matching_files(entries.deep_view(), pattern.pat()) == r.deep_view()
                + matching_files(entries.deep_view().skip(i as int), pattern.pat()),
        decreases n - i,
    {
        let ghost r_before = r.deep_view();
        let ghost rest = entries.deep_view().skip(i as int);
        proof {
            assert(rest[0] == entries.deep_view()[i as int]);
            assert(rest.skip(1) =~= entries.deep_view().skip(i as int + 1));
        }
        let entry = &entries[i];
        if entry.1 && pattern.is_match(entry.0.as_str()) {
            r.push(entry.0.clone());
            proof {
                assert(r.deep_view() =~= r_before + seq![rest[0].0]);
            }
        }
        proof {
            assert(r_before + matching_files(rest, pattern.pat()) =~= r.deep_view()
                + matching_files(rest.skip(1), pattern.pat()));
        }
        i = i + 1;
    }
    proof {
        assert(matching_files(entries.deep_view().skip(i as int), pattern.pat())
            =~= Seq::<Seq<char>>::empty());
        assert(r.deep_view() =~= matching_files(entries.deep_view(), pattern.pat()));
    }
    r
}

proof fn lemma_matching_files_match(entries: Seq<(Seq<char>, bool)>, pat: Seq<char>)
    ensures
        forall|i: int|
            0 <= i < matching_files(entries, pat).len() ==> re_is_match(
                pat,
                matching_files(entries, pat)[i],
            ),
    decreases entries.len(),
{
    if entries.len() > 0 {
        lemma_matching_files_match(entries.skip(1), pat);
        if entries[0].1 && re_is_match(pat, entries[0].0) {
            let whole = seq![entries[0].0] + matching_files(entries.skip(1), pat);
            assert forall|i: int| 0 <= i < whole.len() implies re_is_match(pat, whole[i]) by {
                if i > 0 {
                    assert(whole[i] == matching_files(entries.skip(1), pat)[i - 1]);
                }
            }
        }
    }
}

/// Walk the tree under `root` in name-sorted order and keep the
/// regular files whose full path matches the pattern, in walk order.
/// `None` when the walk fails; every path handed back matches the
/// pattern.
pub fn collect_files(root: &str, pattern: &CompiledPattern) -> (r: Option<Vec<String>>)
    ensures
        match r {
            Some(v) => forall|i: int|
                0 <= i < v@.len() ==> re_is_match(pattern.pat(), v@[i]@),
            None => true,
        },
{
    match walk_entries(root) {
        Option::None => Option::None,
        Option::Some(entries) => {
            let files = filter_matching(&entries, pattern);
            proof {
                lemma_matching_files_match(entries.deep_view(), pattern.pat());
                assert forall|i: int| 0 <= i < files@.len() implies re_is_match(
                    pattern.pat(),
                    files@[i]@,
                ) by {
                    assert(files.deep_view()[i] == files@[i]@);
                }
            }
            Option::Some(files)
        },
    }
}

} // verus!
