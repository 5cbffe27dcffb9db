//! What reinstalling one lockfile entry takes.

use vstd::prelude::*;
use crate::package::{PackageSpecV1, opt_view};
use crate::lockfile::LockfileV1;
use crate::package_map::PackageMap;

verus! {

/// What to do for one lockfile entry.
#[derive(Clone, Debug, PartialEq, Eq)]
pub enum ThawStep {
    /// Leave the existing environment as it is.
    Skip,
    /// Install the package, after removing its environment where
    /// `remove_existing` says so, with these arguments of the installer.
    Install {
        remove_existing: bool,
        /// What to install.
        install_spec: String,
        /// The environment to install into; `None` for the package's own.
        venv: Option<String>,
        /// The Python version to use; `None` for the default Python.
        python: Option<String>,
        /// Whether to overwrite an existing environment.
        force: bool,
        /// Packages to inject next to the main one.
        injected: Vec<String>,
        /// Whether to bypass the package cache.
        no_cache: bool,
        /// Whether to install in editable mode.
        editable: bool,
    },
}

/// `step` is the step for the entry `pkg`: an existing environment is kept
/// when asked to skip current ones, and removed before reinstalling otherwise.
/// The package is installed, forced and with the cache, into its own
/// environment, from the entry's specification with its injected packages and
/// editable mode, and with the recorded Python version unless asked to ignore
/// it.
pub open spec fn is_thaw_step(step: ThawStep, pkg: PackageSpecV1, ignore_python: bool, skip_current: bool, venv_exists: bool) -> bool {
    if venv_exists && skip_current {
        step is Skip
    } else {
        match step {
            ThawStep::Install { remove_existing, install_spec, venv, python, force, injected, no_cache, editable } => {
                &&& remove_existing == venv_exists
                &&& install_spec@ == pkg.spec@
                &&& venv is None
                &&& opt_view(python) == if ignore_python { None } else { pkg@.python }
                &&& force
                &&& injected@ == pkg.injected@
                &&& !no_cache
                &&& editable == pkg.editable
            },
            ThawStep::Skip => false,
        }
    }
}

/// The step for one lockfile entry, given whether its environment exists.
pub fn thaw_step(pkg: PackageSpecV1, ignore_python: bool, skip_current: bool, venv_exists: bool) -> (res: ThawStep)
    ensures
        is_thaw_step(res, pkg, ignore_python, skip_current, venv_exists),
{
    if venv_exists && skip_current {
        return ThawStep::Skip;
    }
    let python = if ignore_python {
        None
    } else {
        pkg.python
    };
    ThawStep::Install {
        remove_existing: venv_exists,
        install_spec: pkg.spec,
        venv: None,
        python,
        force: true,
        injected: pkg.injected,
        no_cache: false,
        editable: pkg.editable,
    }
}

/// A lockfile entry to reinstall, with whether its environment exists.
#[derive(Clone, Debug, PartialEq, Eq)]
pub struct ThawEntry {
    pub name: String,
    pub package: PackageSpecV1,
    pub venv_exists: bool,
}

/// The steps for all entries, one per entry, in the entries' order.
pub fn plan_thaw(entries: Vec<ThawEntry>, ignore_python: bool, skip_current: bool) -> (res: Vec<(String, ThawStep)>)
    ensures
        res@.len() == entries@.len(),
        forall|i: int| 0 <= i < res@.len() ==> {
            &&& (#[trigger] res@[i]).0 == entries@[i].name
            &&& is_thaw_step(res@[i].1, entries@[i].package, ignore_python, skip_current, entries@[i].venv_exists)
        },
{
    let ghost all = entries@;
    let mut entries = entries;
    let mut res: Vec<(String, ThawStep)> = Vec::new();
    assert(all.skip(0) =~= all);
    while entries.len() > 0
        invariant
            res@.len() <= all.len(),
            entries@ == all.skip(res@.len() as int),
            forall|i: int| 0 <= i < res@.len() ==> {
                &&& (#[trigger] res@[i]).0 == all[i].name
                &&& is_thaw_step(res@[i].1, all[i].package, ignore_python, skip_current, all[i].venv_exists)
            },
        decreases entries.len(),
    {
        let ghost k = res@.len() as int;
        let entry = entries.remove(0);
        assert(entry == all[k]);
        let step = thaw_step(entry.package, ignore_python, skip_current, entry.venv_exists);
        res.push((entry.name, step));
        assert(entries@ =~= all.skip(res@.len() as int));
    }
    res
}

/// Data that was not a lockfile in the format it was read in.
#[derive(Clone, Copy, Debug, PartialEq, Eq)]
pub struct CouldNotThaw;

impl CouldNotThaw {
    /// The message shown for this error.
    pub fn message(&self) -> (res: &'static str)
        ensures
            res@ == "Could not thaw data."@,
    {
        "Could not thaw data."
    }
}

/// The entries to reinstall from a decoded lockfile, in order of name; an
/// error where decoding failed.
pub fn packages_to_thaw(decoded: Option<LockfileV1>) -> (res: Result<PackageMap, CouldNotThaw>)
    ensures
        match decoded {
            Some(l) => res == Ok::<PackageMap, CouldNotThaw>(l.package_map()),
            None => res == Err::<PackageMap, CouldNotThaw>(CouldNotThaw),
        },
{
    match decoded {
        Some(l) => Ok(l.into_packages()),
        None => Err(CouldNotThaw),
    }
}

/// What a step says: an entry is skipped exactly when its environment exists
/// and current ones are to be skipped; otherwise it is installed, removing
/// the environment first exactly when it exists, forced, with the cache, into
/// its own environment, from the entry's specification, injected packages and
/// editable flag, and without a Python version whenever the recorded one is
/// to be ignored, else with the recorded one.
pub proof fn lemma_thaw_step(step: ThawStep, pkg: PackageSpecV1, ignore_python: bool, skip_current: bool, venv_exists: bool)
    requires
        is_thaw_step(step, pkg, ignore_python, skip_current, venv_exists),
    ensures
        step is Skip <==> (venv_exists && skip_current),
        step matches ThawStep::Install { remove_existing, install_spec, venv, python, force, injected, no_cache, editable } ==> {
            &&& remove_existing == venv_exists
            &&& install_spec@ == pkg.spec@
            &&& venv is None
            &&& force
            &&& !no_cache
            &&& injected@ == pkg.injected@
            &&& editable == pkg.editable
            &&& ignore_python ==> python is None
            &&& !ignore_python ==> opt_view(python) == opt_view(pkg.python)
        },
{
}

} // verus!
