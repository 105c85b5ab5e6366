use vstd::prelude::*;
use crate::names::{
    extension, file_name, file_name_of, has_extension, parent, parent_of, same_text, stem,
    starts_with_text, stem_of,
};
use crate::scan::views;

verus! {

/// One entry of a directory listing: its file name and whether it is a
/// regular file.
#[derive(Debug, Clone)]
pub struct ListedFile {
    pub name: String,
    pub is_file: bool,
}

/// A class file stem belongs to the unit `unit_stem`: it is the stem itself,
/// or the stem followed by the nested-class separator `$`.
pub open spec fn stem_matches(unit_stem: Seq<char>, class_stem: Seq<char>) -> bool {
    ||| class_stem == unit_stem
    ||| (unit_stem.len() < class_stem.len() && class_stem.subrange(0, unit_stem.len() + 1int)
        == unit_stem.push('$'))
}

/// A file name is a class file of the unit `unit_stem`.
pub open spec fn is_class_of(unit_stem: Seq<char>, name: Seq<char>) -> bool {
    extension(name) == Some("class"@) && stem_matches(unit_stem, stem(name))
}

/// A file name placed in a directory given as a relative path.
pub open spec fn join(dir: Seq<char>, name: Seq<char>) -> Seq<char> {
    if dir.len() == 0 {
        name
    } else {
        dir.push('/') + name
    }
}

/// A listed entry is a class file of the source unit at `unit`.
pub open spec fn entry_selected(unit: Seq<char>, e: ListedFile) -> bool {
    e.is_file && is_class_of(stem(file_name(unit)), e.name@)
}

/// The class files, as paths relative to the class root, that the listing
/// `es` of the unit's package directory holds for the unit, in listing order.
pub open spec fn resolved(es: Seq<ListedFile>, unit: Seq<char>) -> Seq<Seq<char>>
    decreases es.len(),
{
    if es.len() == 0 {
        Seq::empty()
    } else if entry_selected(unit, es.last()) {
        resolved(es.drop_last(), unit).push(join(parent(unit), es.last().name@))
    } else {
        resolved(es.drop_last(), unit)
    }
}

/// What resolution gives when the package directory may be absent.
pub open spec fn resolved_in(listing: Option<&Vec<ListedFile>>, unit: Seq<char>) -> Seq<
    Seq<char>,
> {
    match listing {
        Some(v) => resolved(v@, unit),
        None => Seq::empty(),
    }
}

/// Resolution yields exactly the selected entries of the listing: a path is
/// in the result iff a regular file of the listing with the class extension
/// and a matching stem is placed there. In particular the result is
/// non-empty as soon as one such file is listed.
pub proof fn lemma_resolved_exactly(es: Seq<ListedFile>, unit: Seq<char>)
    ensures
        forall|x: Seq<char>|
            #[trigger] resolved(es, unit).contains(x) <==> exists|i: int|
                0 <= i < es.len() && entry_selected(unit, #[trigger] es[i]) && x == join(
                    parent(unit),
                    es[i].name@,
                ),
        (exists|i: int| 0 <= i < es.len() && entry_selected(unit, #[trigger] es[i])) ==> resolved(
            es,
            unit,
        ).len() > 0,
    decreases es.len(),
{
    if es.len() > 0 {
        let rest = es.drop_last();
        lemma_resolved_exactly(rest, unit);
        let r = resolved(es, unit);
        assert forall|x: Seq<char>|
            #[trigger] r.contains(x) <==> exists|i: int|
                0 <= i < es.len() && entry_selected(unit, #[trigger] es[i]) && x == join(
                    parent(unit),
                    es[i].name@,
                ) by {
            if r.contains(x) {
                let k = choose|k: int| 0 <= k < r.len() && r[k] == x;
                if entry_selected(unit, es.last()) && k == r.len() - 1 {
                    assert(es[es.len() - 1] == es.last());
                } else {
                    assert(resolved(rest, unit).contains(x)) by {
                        assert(resolved(rest, unit)[k] == x);
                    }
                    let i = choose|i: int|
                        0 <= i < rest.len() && entry_selected(unit, #[trigger] rest[i]) && x
                            == join(parent(unit), rest[i].name@);
                    assert(es[i] == rest[i]);
                }
            }
            if exists|i: int|
                0 <= i < es.len() && entry_selected(unit, #[trigger] es[i]) && x == join(
                    parent(unit),
                    es[i].name@,
                ) {
                let i = choose|i: int|
                    0 <= i < es.len() && entry_selected(unit, #[trigger] es[i]) && x == join(
                        parent(unit),
                        es[i].name@,
                    );
                if i == es.len() - 1 {
                    assert(r[r.len() - 1] == x);
                } else {
                    assert(rest[i] == es[i]);
                    assert(resolved(rest, unit).contains(x));
                    let k = choose|k: int|
                        0 <= k < resolved(rest, unit).len() && resolved(rest, unit)[k] == x;
                    assert(r[k] == x);
                }
            }
        }
        if exists|i: int| 0 <= i < es.len() && entry_selected(unit, #[trigger] es[i]) {
            let i = choose|i: int| 0 <= i < es.len() && entry_selected(unit, #[trigger] es[i]);
            assert(r.contains(join(parent(unit), es[i].name@)));
        }
    }
}

/// Whether a class file stem belongs to the unit `unit_stem`.
pub fn matches_unit(unit_stem: &str, class_stem: &str) -> (r: bool)
    ensures
        r == stem_matches(unit_stem@, class_stem@),
{
    if same_text(unit_stem, class_stem) {
        return true;
    }
    let mut nested = String::from_str(unit_stem);
    nested.append("$");
    proof {
        reveal_strlit("$");
    }
    assert(nested@ =~= unit_stem@.push('$'));
    starts_with_text(class_stem, nested.as_str())
}

/// Whether the file name `name` is a class file of the unit `unit_stem`.
pub fn is_class_file_of(unit_stem: &str, name: &str) -> (r: bool)
    ensures
        r == is_class_of(unit_stem@, name@),
{
    if !has_extension(name, "class") {
        return false;
    }
    let s = stem_of(name);
    matches_unit(unit_stem, s.as_str())
}

fn join_path(dir: &str, name: &str) -> (r: String)
    ensures
        r@ == join(dir@, name@),
{
    let mut s = String::from_str(dir);
    if dir.unicode_len() > 0 {
        s.append("/");
        proof {
            reveal_strlit("/");
        }
    }
    s.append(name);
    assert(s@ =~= join(dir@, name@));
    s
}

/// Finds the class files of the source file at `unit` (relative to the
/// source root) in the listing of the matching package directory under the
/// class root, or `None` when that directory does not exist. The results are
/// paths relative to the class root: the class file itself and its nested
/// classes (`Name$1.class`, `Name$Inner.class`), in listing order.
/// Where two source files `Foo.java` and `Foo$Bar.java` share a package,
/// `Foo$Bar.class` is selected for both: a class file is never withheld from
/// a unit whose stem and separator it starts with.
pub fn find_class_files(unit: &str, listing: Option<&Vec<ListedFile>>) -> (r: Vec<String>)
    ensures
        views(r@) == resolved_in(listing, unit@),
        listing.is_none() ==> r@.len() == 0,
{
    let es = match listing {
        Some(es) => es,
        None => {
            return Vec::new();
        },
    };
    let name = file_name_of(unit);
    let unit_stem = stem_of(name.as_str());
    let dir = parent_of(unit);
    let mut out: Vec<String> = Vec::new();
    let mut i: usize = 0;
    while i < es.len()
        invariant
            i <= es.len(),
            unit_stem@ == stem(file_name(unit@)),
            dir@ == parent(unit@),
            views(out@) == resolved(es@.subrange(0, i as int), unit@),
        decreases es.len() - i,
    {
        let e = &es[i];
        assert(es@.subrange(0, i + 1).drop_last() =~= es@.subrange(0, i as int));
        assert(es@.subrange(0, i + 1).last() == *e);
        if e.is_file && is_class_file_of(unit_stem.as_str(), e.name.as_str()) {
            let p = join_path(dir.as_str(), e.name.as_str());
            out.push(p);
            assert(views(out@) =~= resolved(es@.subrange(0, i as int), unit@).push(p@));
        }
        i = i + 1;
    }
    assert(es@.subrange(0, es.len() as int) =~= es@);
    out
}

} // verus!
