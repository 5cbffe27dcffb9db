//! Lockfile model for a tool that manages one virtual environment per
//! installed Python package: selecting packages to freeze, building the
//! versioned lockfile, choosing the on-disk format and planning a thaw.

pub mod names;
pub mod package;
pub mod package_map;
pub mod python_version;
pub mod lockfile;
pub mod freeze;
pub mod thaw;
pub mod toml_layout;
