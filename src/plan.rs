use vstd::prelude::*;
use crate::resolve::{find_class_files, resolved, ListedFile};
use crate::scan::views;

verus! {

/// A source file with the class files found for it.
#[derive(Debug)]
pub struct UnitArtifacts {
    pub unit: String,
    pub artifacts: Vec<String>,
}

/// The run stops before copying: the source file at this index of the
/// resolved units has no class file.
#[derive(Debug, Clone, Copy, PartialEq, Eq, Structural)]
pub struct UnresolvedUnit {
    pub index: usize,
}

/// The class files that the listing (absent when the package directory does
/// not exist) holds for the source file at `unit`.
pub open spec fn unit_resolution(listing: Option<Vec<ListedFile>>, unit: Seq<char>) -> Seq<
    Seq<char>,
> {
    match listing {
        Some(v) => resolved(v@, unit),
        None => Seq::empty(),
    }
}

/// Every source file among the first `n` has at least one class file.
pub open spec fn all_resolved(
    units: Seq<String>,
    listings: Seq<Option<Vec<ListedFile>>>,
    n: int,
) -> bool {
    forall|j: int| 0 <= j < n ==> unit_resolution(listings[j], units[j]@).len() > 0
}

/// Resolves every source file before anything is copied. `listings[i]` is
/// the listing of the package directory of `units[i]` under the class root.
/// Succeeds with the class files of each unit, in order, when every unit has
/// at least one; otherwise fails with the index of the first unit that has
/// none, so that nothing is copied at all.
pub fn resolve_units(units: &Vec<String>, listings: &Vec<Option<Vec<ListedFile>>>) -> (r: Result<
    Vec<UnitArtifacts>,
    UnresolvedUnit,
>)
    requires
        units.len() == listings.len(),
    ensures
        r is Ok <==> all_resolved(units@, listings@, units.len() as int),
        r matches Ok(v) ==> {
            &&& v.len() == units.len()
            &&& forall|i: int|
                0 <= i < v.len() ==> #[trigger] v[i].unit@ == units[i]@ && views(v[i].artifacts@)
                    == unit_resolution(listings[i], units[i]@)
        },
        r matches Err(e) ==> {
            let i = e.index;
            &&& i < units.len()
            &&& unit_resolution(listings[i as int], units[i as int]@).len() == 0
            &&& all_resolved(units@, listings@, i as int)
        },
{
    let mut out: Vec<UnitArtifacts> = Vec::new();
    let mut i: usize = 0;
    while i < units.len()
        invariant
            units.len() == listings.len(),
            i <= units.len(),
            out.len() == i,
            all_resolved(units@, listings@, i as int),
            forall|j: int|
                0 <= j < i ==> #[trigger] out[j].unit@ == units[j]@ && views(out[j].artifacts@)
                    == unit_resolution(listings[j], units[j]@),
        decreases units.len() - i,
    {
        let artifacts = find_class_files(units[i].as_str(), listings[i].as_ref());
        if artifacts.len() == 0 {
            return Err(UnresolvedUnit { index: i });
        }
        out.push(UnitArtifacts { unit: units[i].clone(), artifacts });
        i = i + 1;
    }
    Ok(out)
}

} // verus!
