# uvenv lockfiles

A verified library for the lockfiles of `uvenv`, which keeps one virtual
environment per installed Python package.

- `src/` (verified with Verus): package-name order (`names`), the sorted
  name-to-entry map (`package_map`), lockfile entries built from installation
  records (`package`, `python_version`), package selection for freezing
  (`freeze`), lockfile versions and formats (`lockfile`), reinstall steps
  (`thaw`), and the TOML table layout (`toml_layout`).
- `app/`: serde copies of the lockfile types, serialisation in JSON, TOML and
  MessagePack, file output, and the freeze/thaw commands over an
  `Environments` trait that lists, removes and installs environments.
- `tests/`: tests of the library on concrete values.

## Why `PackageMap` and not `BTreeMap<String, _>`

The verifier's library specifies `BTreeMap` only under `obeys_cmp::<Key>()`,
which it establishes for integer and similar types but not for `String`.
With `String` keys, no postcondition of `insert`, `get` or `iter` is
available, so nothing about the map could be proved. `PackageMap` keeps the
entries in a `Vec` sorted by name (the code-point order, which equals
`String`'s byte order) with each name once. That sorted-and-unique invariant is
what the ordered map gave, and its contracts state the map semantics and the
iteration order.

## Lockfile version 0

Version 0 is a development format, accepted only in builds with debug
assertions. The library takes that setting as an argument of
`lockfile_version`; `app/` passes `cfg!(debug_assertions)`.

## Version constraints

Where no version was requested, the freeze command writes `~<installed>`,
while the version-1 lockfile's own builder writes `~=<installed>`. Both are
kept, as `VersionStyle::Tilde` and `VersionStyle::CompatibleRelease`.
