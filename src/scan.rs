use vstd::prelude::*;
use crate::names::{extension, file_name, file_name_of, has_extension};

verus! {

/// The views of a sequence of strings.
pub open spec fn views(v: Seq<String>) -> Seq<Seq<char>> {
    v.map_values(|s: String| s@)
}

/// A relative path names a Java source file: its file name has the
/// extension `java`, compared exactly.
pub open spec fn is_source_path(path: Seq<char>) -> bool {
    extension(file_name(path)) == Some("java"@)
}

/// The paths that name source files, in their order.
pub open spec fn sources_in(paths: Seq<Seq<char>>) -> Seq<Seq<char>>
    decreases paths.len(),
{
    if paths.len() == 0 {
        Seq::empty()
    } else if is_source_path(paths.last()) {
        sources_in(paths.drop_last()).push(paths.last())
    } else {
        sources_in(paths.drop_last())
    }
}

/// The paths that do not name source files, in their order.
pub open spec fn others_in(paths: Seq<Seq<char>>) -> Seq<Seq<char>>
    decreases paths.len(),
{
    if paths.len() == 0 {
        Seq::empty()
    } else if is_source_path(paths.last()) {
        others_in(paths.drop_last())
    } else {
        others_in(paths.drop_last()).push(paths.last())
    }
}

/// Whether a relative path names a Java source file.
pub fn is_source_file(path: &str) -> (r: bool)
    ensures
        r == is_source_path(path@),
{
    let name = file_name_of(path);
    has_extension(name.as_str(), "java")
}

/// Splits the regular files found under a source root into source files and
/// all other files, keeping the order in which they were found.
pub fn collect_source_files(paths: &Vec<String>) -> (r: (Vec<String>, Vec<String>))
    ensures
        views(r.0@) == sources_in(views(paths@)),
        views(r.1@) == others_in(views(paths@)),
{
    let mut sources: Vec<String> = Vec::new();
    let mut others: Vec<String> = Vec::new();
    let mut i: usize = 0;
    while i < paths.len()
        invariant
            i <= paths.len(),
            views(sources@) == sources_in(views(paths@.subrange(0, i as int))),
            views(others@) == others_in(views(paths@.subrange(0, i as int))),
        decreases paths.len() - i,
    {
        let p = paths[i].clone();
        let ghost before = views(paths@.subrange(0, i as int));
        let ghost after = views(paths@.subrange(0, i + 1));
        assert(after.drop_last() =~= before);
        assert(after.last() == p@);
        if is_source_file(p.as_str()) {
            sources.push(p);
            assert(views(sources@) =~= sources_in(before).push(p@));
        } else {
            others.push(p);
            assert(views(others@) =~= others_in(before).push(p@));
        }
        i = i + 1;
    }
    assert(paths@.subrange(0, paths.len() as int) =~= paths@);
    (sources, others)
}

} // verus!
