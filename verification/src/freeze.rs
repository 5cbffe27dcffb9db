//! Which installed packages go into a lockfile.

use vstd::prelude::*;
use crate::names::{contains_name, names_contain};
use crate::package::{Metadata, PackageSpecV1, PackageView, VersionStyle, package_of};
use crate::package_map::PackageMap;

verus! {

/// Whether the package `name` is frozen: with a non-empty list `only`, just
/// the packages it names; else, with a non-empty list `exclude`, all but the
/// ones it names; else all.
pub open spec fn is_selected(name: Seq<char>, only: Seq<String>, exclude: Seq<String>) -> bool {
    if only.len() > 0 {
        names_contain(only, name)
    } else if exclude.len() > 0 {
        !names_contain(exclude, name)
    } else {
        true
    }
}

/// The entries frozen from the installation records `metas`, taken in order:
/// a later record of the same name replaces an earlier one.
pub open spec fn selected_packages(metas: Seq<Metadata>, only: Seq<String>, exclude: Seq<String>, style: VersionStyle) -> Map<Seq<char>, PackageView>
    decreases metas.len(),
{
    if metas.len() == 0 {
        Map::empty()
    } else {
        let prev = selected_packages(metas.drop_last(), only, exclude, style);
        let m = metas.last();
        if is_selected(m.name@, only, exclude) {
            prev.insert(m.name@, package_of(m, style))
        } else {
            prev
        }
    }
}

/// The lockfile entries for the installed packages `metas`, keyed by name,
/// filtered by the list of names to keep and the list of names to leave out,
/// with version constraints written in `style`.
pub fn select_packages(metas: Vec<Metadata>, only: &Vec<String>, exclude: &Vec<String>, style: VersionStyle) -> (res: PackageMap)
    ensures
        res.as_map() == selected_packages(metas@, only@, exclude@, style),
{
    let ghost all = metas@;
    let mut metas = metas;
    let mut res = PackageMap::new();
    let use_only = only.len() > 0;
    let use_exclude = exclude.len() > 0;
    let ghost mut i: int = 0;
    assert(all.take(0) =~= Seq::<Metadata>::empty());
    assert(all.skip(0) =~= all);
    while metas.len() > 0
        invariant
            0 <= i <= all.len(),
            metas@ == all.skip(i),
            res.as_map() == selected_packages(all.take(i), only@, exclude@, style),
            use_only == (only@.len() > 0),
            use_exclude == (exclude@.len() > 0),
        decreases metas.len(),
    {
        let meta = metas.remove(0);
        assert(meta == all[i]);
        assert(all.take(i + 1).drop_last() =~= all.take(i));
        assert(all.take(i + 1).last() == all[i]);
        let selected = if use_only {
            contains_name(only, meta.name.as_str())
        } else if use_exclude {
            !contains_name(exclude, meta.name.as_str())
        } else {
            true
        };
        if selected {
            let name = meta.name.clone();
            let pkg = PackageSpecV1::from_record(meta, style);
            res.insert(name, pkg);
        }
        proof {
            i = i + 1;
            assert(metas@ =~= all.skip(i));
        }
    }
    assert(all.take(i) =~= all);
    res
}

/// A name is in the frozen entries exactly when it is selected and some
/// record has it; its entry is built from the last record of that name.
pub proof fn lemma_selected_packages(metas: Seq<Metadata>, only: Seq<String>, exclude: Seq<String>, style: VersionStyle, name: Seq<char>)
    ensures
        selected_packages(metas, only, exclude, style).contains_key(name) <==> (is_selected(name, only, exclude)
            && exists|i: int| 0 <= i < metas.len() && #[trigger] metas[i].name@ == name),
        selected_packages(metas, only, exclude, style).contains_key(name) ==> exists|i: int|
            0 <= i < metas.len() && #[trigger] metas[i].name@ == name
            && selected_packages(metas, only, exclude, style)[name] == package_of(metas[i], style)
            && forall|j: int| i < j < metas.len() ==> (#[trigger] metas[j]).name@ != name,
    decreases metas.len(),
{
    if metas.len() > 0 {
        let init = metas.drop_last();
        let last = metas.len() - 1;
        lemma_selected_packages(init, only, exclude, style, name);
        if metas[last].name@ == name && is_selected(name, only, exclude) {
            assert(metas[last].name@ == name);
        } else {
            if exists|i: int| 0 <= i < metas.len() && #[trigger] metas[i].name@ == name {
                let i = choose|i: int| 0 <= i < metas.len() && #[trigger] metas[i].name@ == name;
                if metas[last].name@ != name {
                    assert(init[i].name@ == name);
                }
            }
            if selected_packages(init, only, exclude, style).contains_key(name) {
                let i = choose|i: int|
                    0 <= i < init.len() && #[trigger] init[i].name@ == name
                    && selected_packages(init, only, exclude, style)[name] == package_of(init[i], style)
                    && forall|j: int| i < j < init.len() ==> (#[trigger] init[j]).name@ != name;
                assert(metas[i].name@ == name);
                if metas[last].name@ == name {
                    assert(!is_selected(name, only, exclude));
                }
                assert forall|j: int| i < j < metas.len() implies (#[trigger] metas[j]).name@ != name by {
                    if j < last {
                        assert(init[j] == metas[j]);
                    }
                }
            }
        }
    }
}

/// Selection by the lists, element by element: with a non-empty list `only`,
/// a name is selected exactly when it equals one of its elements; else, with
/// a non-empty list `exclude`, exactly when it equals none of its elements;
/// else always.
pub proof fn lemma_is_selected(name: Seq<char>, only: Seq<String>, exclude: Seq<String>)
    ensures
        only.len() > 0 ==> (is_selected(name, only, exclude) <==> exists|j: int| 0 <= j < only.len() && #[trigger] only[j]@ == name),
        only.len() == 0 && exclude.len() > 0 ==> (is_selected(name, only, exclude) <==> forall|j: int| 0 <= j < exclude.len() ==> #[trigger] exclude[j]@ != name),
        only.len() == 0 && exclude.len() == 0 ==> is_selected(name, only, exclude),
{
}

/// A package is frozen exactly when some record has its name and it passes
/// the lists: with a non-empty list `only`, it equals an element of it; else
/// it equals no element of `exclude`.
pub proof fn lemma_selected_names(metas: Seq<Metadata>, only: Seq<String>, exclude: Seq<String>, style: VersionStyle, name: Seq<char>)
    ensures
        selected_packages(metas, only, exclude, style).contains_key(name) <==> (
            (exists|i: int| 0 <= i < metas.len() && #[trigger] metas[i].name@ == name)
            && (if only.len() > 0 {
                exists|j: int| 0 <= j < only.len() && #[trigger] only[j]@ == name
            } else {
                forall|j: int| 0 <= j < exclude.len() ==> #[trigger] exclude[j]@ != name
            })),
{
    lemma_selected_packages(metas, only, exclude, style, name);
    lemma_is_selected(name, only, exclude);
}

} // verus!
