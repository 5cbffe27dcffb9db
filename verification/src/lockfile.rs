//! Lockfiles: their versions, the formats they are written in, and how a
//! lockfile of unknown format is recognised.

use vstd::prelude::*;
use crate::names::{compare_names, NameOrder};
use crate::package_map::PackageMap;

verus! {

/// A format that a lockfile is written in.
#[derive(Clone, Copy, Debug, PartialEq, Eq, Structural)]
pub enum OutputFormat {
    JSON,
    TOML,
    Binary,
}

/// The name of a format, as given on the command line and shown to the user.
pub open spec fn format_name(f: OutputFormat) -> Seq<char> {
    match f {
        OutputFormat::JSON => "json"@,
        OutputFormat::TOML => "toml"@,
        OutputFormat::Binary => "binary"@,
    }
}

/// A format name that no format has.
#[derive(Clone, Debug, PartialEq, Eq)]
pub struct UnsupportedFormat {
    /// The name that was given.
    pub name: String,
}

impl UnsupportedFormat {
    /// The message shown for this error: `Unsupported format <name>`.
    pub fn message(&self) -> (res: String)
        ensures
            res@ == "Unsupported format "@ + self.name@,
    {
        let mut m = String::from_str("Unsupported format ");
        m.append(self.name.as_str());
        m
    }
}

impl OutputFormat {
    /// The name of this format.
    pub fn as_str(&self) -> (res: &'static str)
        ensures
            res@ == format_name(*self),
    {
        match self {
            OutputFormat::JSON => "json",
            OutputFormat::TOML => "toml",
            OutputFormat::Binary => "binary",
        }
    }

    /// The format with the given name.
    pub fn from_name(name: &str) -> (res: Result<OutputFormat, UnsupportedFormat>)
        ensures
            match res {
                Ok(f) => format_name(f) == name@,
                Err(e) => e.name@ == name@ && forall|f: OutputFormat| format_name(f) != name@,
            },
    {
        if compare_names(name, "toml") == NameOrder::Equal {
            Ok(OutputFormat::TOML)
        } else if compare_names(name, "json") == NameOrder::Equal {
            Ok(OutputFormat::JSON)
        } else if compare_names(name, "binary") == NameOrder::Equal {
            Ok(OutputFormat::Binary)
        } else {
            assert forall|f: OutputFormat| format_name(f) != name@ by {
                match f {
                    OutputFormat::JSON => {},
                    OutputFormat::TOML => {},
                    OutputFormat::Binary => {},
                }
            }
            Err(UnsupportedFormat { name: String::from_str(name) })
        }
    }
}

/// The distinct formats have distinct names.
pub proof fn lemma_format_names_distinct(f: OutputFormat, g: OutputFormat)
    requires
        f != g,
    ensures
        format_name(f) != format_name(g),
{
    reveal_strlit("json");
    reveal_strlit("toml");
    reveal_strlit("binary");
    assert("json"@[0] != "toml"@[0]);
    assert("json"@[0] != "binary"@[0]);
    assert("toml"@[0] != "binary"@[0]);
}

/// A format name read back gives the same format.
pub proof fn lemma_format_name_round_trip(f: OutputFormat, g: OutputFormat)
    requires
        format_name(g) == format_name(f),
    ensures
        g == f,
{
    if g != f {
        lemma_format_names_distinct(f, g);
    }
}

/// The lockfile versions that can be written.
#[derive(Clone, Copy, Debug, PartialEq, Eq, Structural)]
pub enum LockfileVersion {
    V0,
    V1,
}

/// The version written when none is asked for.
pub const LATEST_VERSION: &'static str = "1";

/// A lockfile version that cannot be written.
#[derive(Clone, Debug, PartialEq, Eq)]
pub struct UnsupportedVersion;

impl UnsupportedVersion {
    /// The message shown for this error.
    pub fn message(&self) -> (res: &'static str)
        ensures
            res@ == "Unsupported version!"@,
    {
        "Unsupported version!"
    }
}

/// The version name asked for, or the latest.
pub open spec fn requested_version(requested: Option<Seq<char>>) -> Seq<char> {
    match requested {
        Some(v) => v,
        None => LATEST_VERSION@,
    }
}

/// The lockfile version to write, from the version asked for (the latest when
/// none is): `1` is known; `0`, a development format, is known only where
/// `allow_v0` says so (builds with debug assertions); anything else is refused.
pub fn lockfile_version(requested: Option<&str>, allow_v0: bool) -> (res: Result<LockfileVersion, UnsupportedVersion>)
    ensures
        ({
            let v = requested_version(match requested { Some(s) => Some(s@), None => None });
            &&& (v == "0"@ && allow_v0) <==> res == Ok::<LockfileVersion, UnsupportedVersion>(LockfileVersion::V0)
            &&& v == "1"@ <==> res == Ok::<LockfileVersion, UnsupportedVersion>(LockfileVersion::V1)
            &&& res is Err <==> (v != "1"@ && !(v == "0"@ && allow_v0))
        }),
{
    let version = match requested {
        Some(v) => v,
        None => LATEST_VERSION,
    };
    proof {
        reveal_strlit("0");
        reveal_strlit("1");
        assert("0"@ != "1"@) by { assert("0"@[0] != "1"@[0]); }
    }
    if allow_v0 && compare_names(version, "0") == NameOrder::Equal {
        Ok(LockfileVersion::V0)
    } else if compare_names(version, "1") == NameOrder::Equal {
        Ok(LockfileVersion::V1)
    } else {
        Err(UnsupportedVersion)
    }
}

/// A version-0 lockfile, which holds its version number only.
#[derive(Clone, Copy, Debug, PartialEq, Eq, Default)]
pub struct LockfileV0 {
    version: i8,
}

impl LockfileV0 {
    /// The version number it holds.
    pub closed spec fn version_number(&self) -> i8 {
        self.version
    }

    /// A new version-0 lockfile.
    pub fn new() -> (res: LockfileV0)
        ensures
            res.version_number() == 0,
    {
        LockfileV0 { version: 0 }
    }

    /// The version number it holds.
    pub fn version(&self) -> (res: i8)
        ensures
            res == self.version_number(),
    {
        self.version
    }
}

/// A version-1 lockfile: the version number and an entry per package.
#[derive(Clone, Debug, PartialEq, Eq, PartialOrd, Ord, Hash, Default)]
pub struct LockfileV1 {
    version: i8,
    packages: PackageMap,
}

impl LockfileV1 {
    /// The version number it holds.
    pub closed spec fn version_number(&self) -> i8 {
        self.version
    }

    /// Its entries.
    pub closed spec fn package_map(&self) -> PackageMap {
        self.packages
    }

    /// A new version-1 lockfile with the given entries.
    pub fn new(packages: PackageMap) -> (res: LockfileV1)
        ensures
            res.version_number() == 1,
            res.package_map() == packages,
    {
        LockfileV1 { version: 1, packages }
    }

    /// A lockfile as read back, with the version number it was written with.
    pub fn from_parts(version: i8, packages: PackageMap) -> (res: LockfileV1)
        ensures
            res.version_number() == version,
            res.package_map() == packages,
    {
        LockfileV1 { version, packages }
    }

    /// The version number it holds.
    pub fn version(&self) -> (res: i8)
        ensures
            res == self.version_number(),
    {
        self.version
    }

    /// Its entries.
    pub fn packages(&self) -> (res: &PackageMap)
        ensures
            *res == self.package_map(),
    {
        &self.packages
    }

    /// Hands out its entries.
    pub fn into_packages(self) -> (res: PackageMap)
        ensures
            res == self.package_map(),
    {
        self.packages
    }
}

/// The first of the decoding attempts that succeeded, tried in the order JSON,
/// MessagePack, TOML, with the format it was read in.
pub open spec fn first_decoded_spec<T>(json: Option<T>, binary: Option<T>, toml: Option<T>) -> Option<(T, OutputFormat)> {
    match json {
        Some(v) => Some((v, OutputFormat::JSON)),
        None => match binary {
            Some(v) => Some((v, OutputFormat::Binary)),
            None => match toml {
                Some(v) => Some((v, OutputFormat::TOML)),
                None => None,
            },
        },
    }
}

/// Recognises the format of a lockfile from what decoding it as JSON, as
/// MessagePack and as TOML gave: the first success in that order wins.
pub fn first_decoded<T>(json: Option<T>, binary: Option<T>, toml: Option<T>) -> (res: Option<(T, OutputFormat)>)
    ensures
        res == first_decoded_spec(json, binary, toml),
{
    match json {
        Some(v) => Some((v, OutputFormat::JSON)),
        None => match binary {
            Some(v) => Some((v, OutputFormat::Binary)),
            None => match toml {
                Some(v) => Some((v, OutputFormat::TOML)),
                None => None,
            },
        },
    }
}

/// Recognising a format: a successful JSON decode is taken whatever the other
/// decodes gave; MessagePack is taken only when JSON failed, TOML only when
/// both failed; nothing is recognised only when all three failed. The value
/// recognised is the decoded one.
pub proof fn lemma_first_decoded_order<T>(json: Option<T>, binary: Option<T>, toml: Option<T>)
    ensures
        json is Some ==> first_decoded_spec(json, binary, toml) == Some((json->0, OutputFormat::JSON)),
        json is None && binary is Some ==> first_decoded_spec(json, binary, toml) == Some((binary->0, OutputFormat::Binary)),
        json is None && binary is None && toml is Some ==> first_decoded_spec(json, binary, toml) == Some((toml->0, OutputFormat::TOML)),
        first_decoded_spec(json, binary, toml) is None <==> (json is None && binary is None && toml is None),
        first_decoded_spec(json, binary, toml) matches Some((_, f)) ==> (
            (f == OutputFormat::JSON ==> json is Some)
            && (f == OutputFormat::Binary ==> json is None && binary is Some)
            && (f == OutputFormat::TOML ==> json is None && binary is None && toml is Some)),
{
}

} // verus!
