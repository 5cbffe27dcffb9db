//! What the lockfile records of one installed package, and what it is built from.

use vstd::prelude::*;
use crate::python_version::{extract_python_version, python_version_of};

verus! {

/// The installation record of one package, as the package listing reports it:
/// the fields that a lockfile entry is built from.
#[derive(Clone, Debug, PartialEq, Eq, Default)]
pub struct Metadata {
    /// Name of the package, which names its environment.
    pub name: String,
    /// The specification it was installed from (such as `black[d]`).
    pub install_spec: String,
    /// The version constraint the user asked for; empty when none was given.
    pub requested_version: String,
    /// The version that is installed.
    pub installed_version: String,
    /// The Python that the environment runs, as reported (such as `CPython 3.12.1`).
    pub python: String,
    /// Packages injected into the environment next to the main one.
    pub injected: Vec<String>,
    /// Whether the package was installed in editable mode.
    pub editable: bool,
}

/// One entry of a version-1 lockfile.
#[derive(Debug, PartialEq, Eq, PartialOrd, Ord, Hash, Default)]
pub struct PackageSpecV1 {
    /// The specification to install from.
    pub spec: String,
    /// The version constraint to install with.
    pub version: String,
    /// The `major.minor` Python version to install with, when one is known.
    pub python: Option<String>,
    /// Packages to inject next to the main one.
    pub injected: Vec<String>,
    /// Whether to install in editable mode.
    pub editable: bool,
}

/// The mathematical content of a [`PackageSpecV1`].
pub struct PackageView {
    pub spec: Seq<char>,
    pub version: Seq<char>,
    pub python: Option<Seq<char>>,
    pub injected: Seq<Seq<char>>,
    pub editable: bool,
}

/// The content of an optional string.
pub open spec fn opt_view(s: Option<String>) -> Option<Seq<char>> {
    match s {
        Some(s) => Some(s@),
        None => None,
    }
}

/// The contents of a list of strings.
pub open spec fn strings_view(v: Seq<String>) -> Seq<Seq<char>> {
    v.map_values(|s: String| s@)
}

impl View for PackageSpecV1 {
    type V = PackageView;

    open spec fn view(&self) -> PackageView {
        PackageView {
            spec: self.spec@,
            version: self.version@,
            python: opt_view(self.python),
            injected: strings_view(self.injected@),
            editable: self.editable,
        }
    }
}

/// A copy of a list of strings.
pub fn clone_strings(v: &Vec<String>) -> (res: Vec<String>)
    ensures
        res@ == v@,
{
    let mut res: Vec<String> = Vec::new();
    let mut i: usize = 0;
    while i < v.len()
        invariant
            i <= v.len(),
            res@ == v@.take(i as int),
        decreases v.len() - i,
    {
        res.push(v[i].clone());
        assert(res@ =~= v@.take(i as int + 1));
        i = i + 1;
    }
    assert(v@.take(v.len() as int) =~= v@);
    res
}

impl Clone for PackageSpecV1 {
    /// A copy with the same contents.
    fn clone(&self) -> (res: Self)
        ensures
            res@ == self@,
    {
        let python = match &self.python {
            Some(p) => Some(p.clone()),
            None => None,
        };
        let injected = clone_strings(&self.injected);
        PackageSpecV1 {
            spec: self.spec.clone(),
            version: self.version.clone(),
            python,
            injected,
            editable: self.editable,
        }
    }
}

/// How a constraint on the installed version is written when none was
/// requested: `~<installed>` (the freeze command's entries) or the
/// compatible-release form `~=<installed>` (the version-1 lockfile's own
/// builder).
#[derive(Clone, Copy, Debug, PartialEq, Eq, Structural)]
pub enum VersionStyle {
    Tilde,
    CompatibleRelease,
}

/// The operator that a style puts before the installed version.
pub open spec fn version_prefix(style: VersionStyle) -> Seq<char> {
    match style {
        VersionStyle::Tilde => "~"@,
        VersionStyle::CompatibleRelease => "~="@,
    }
}

/// The version constraint of an entry: the requested one, or, where none was
/// requested, the style's operator followed by the installed version.
pub open spec fn version_constraint(requested: Seq<char>, installed: Seq<char>, style: VersionStyle) -> Seq<char> {
    if requested.len() == 0 {
        version_prefix(style) + installed
    } else {
        requested
    }
}

/// The lockfile entry that the installation record `m` gives, with the
/// version constraint written in `style`.
pub open spec fn package_of(m: Metadata, style: VersionStyle) -> PackageView {
    PackageView {
        spec: m.install_spec@,
        version: version_constraint(m.requested_version@, m.installed_version@, style),
        python: python_version_of(m.python@),
        injected: strings_view(m.injected@),
        editable: m.editable,
    }
}

impl PackageSpecV1 {
    /// The lockfile entry for an installed package, with a compatible-release
    /// constraint (`~=<installed>`) where no version was requested.
    pub fn from(value: Metadata) -> (res: PackageSpecV1)
        ensures
            res@ == package_of(value, VersionStyle::CompatibleRelease),
    {
        Self::from_record(value, VersionStyle::CompatibleRelease)
    }

    /// The lockfile entry for an installed package, with the version
    /// constraint written in `style` where no version was requested.
    pub fn from_record(value: Metadata, style: VersionStyle) -> (res: PackageSpecV1)
        ensures
            res@ == package_of(value, style),
    {
        let version = if value.requested_version.as_str().is_empty() {
            let mut v = match style {
                VersionStyle::Tilde => String::from_str("~"),
                VersionStyle::CompatibleRelease => String::from_str("~="),
            };
            v.append(value.installed_version.as_str());
            v
        } else {
            value.requested_version
        };
        let python = extract_python_version(value.python.as_str());
        PackageSpecV1 {
            spec: value.install_spec,
            editable: value.editable,
            version,
            python,
            injected: value.injected,
        }
    }
}

/// An entry of a version-0 lockfile, which records nothing of a package.
#[derive(Clone, Copy, Debug, PartialEq, Eq, Default)]
pub struct PackageSpecV0;

impl PackageSpecV0 {
    /// The (empty) version-0 entry for an installed package.
    pub fn from(_value: Metadata) -> (res: PackageSpecV0)
        ensures
            res == PackageSpecV0,
    {
        PackageSpecV0
    }
}

/// An entry keeps the record's specification, injected packages (all of
/// them, in order) and editable flag; its version is the requested one when
/// there is one, else `~` (tilde style) or `~=` (compatible-release style)
/// followed by the installed version.
pub proof fn lemma_package_of(m: Metadata, style: VersionStyle)
    ensures
        package_of(m, style).spec == m.install_spec@,
        package_of(m, style).editable == m.editable,
        package_of(m, style).injected.len() == m.injected@.len(),
        forall|i: int| 0 <= i < m.injected@.len() ==> #[trigger] package_of(m, style).injected[i] == m.injected@[i]@,
        package_of(m, style).python == python_version_of(m.python@),
        m.requested_version@.len() > 0 ==> package_of(m, style).version == m.requested_version@,
        m.requested_version@.len() == 0 && style == VersionStyle::Tilde ==> {
            let v = package_of(m, style).version;
            &&& v.len() == m.installed_version@.len() + 1
            &&& v[0] == '~'
            &&& v.subrange(1, v.len() as int) == m.installed_version@
        },
        m.requested_version@.len() == 0 && style == VersionStyle::CompatibleRelease ==> {
            let v = package_of(m, style).version;
            &&& v.len() == m.installed_version@.len() + 2
            &&& v[0] == '~'
            &&& v[1] == '='
            &&& v.subrange(2, v.len() as int) == m.installed_version@
        },
{
    reveal_strlit("~");
    reveal_strlit("~=");
    let v = package_of(m, style).version;
    if m.requested_version@.len() == 0 {
        if style == VersionStyle::Tilde {
            assert(v.subrange(1, v.len() as int) =~= m.installed_version@);
        } else {
            assert(v.subrange(2, v.len() as int) =~= m.installed_version@);
        }
    }
}

} // verus!
