use uvenv::freeze::select_packages;
use uvenv::package::{Metadata, PackageSpecV0, PackageSpecV1, VersionStyle};
use uvenv::python_version::{extract_python_version, version_from_captures, CompiledPattern, PYTHON_VERSION_PATTERN};

fn meta(name: &str, requested: &str, installed: &str, python: &str) -> Metadata {
    Metadata {
        name: name.to_string(),
        install_spec: name.to_string(),
        requested_version: requested.to_string(),
        installed_version: installed.to_string(),
        python: python.to_string(),
        injected: vec![],
        editable: false,
    }
}

fn names(v: &[&str]) -> Vec<String> {
    v.iter().map(|s| s.to_string()).collect()
}

#[test]
fn python_version_from_description() {
    assert_eq!(extract_python_version("CPython 3.12.1"), Some("3.12".to_string()));
    assert_eq!(extract_python_version("Python 3.9"), Some("3.9".to_string()));
    assert_eq!(extract_python_version("pypy 10.22beta"), Some("10.22".to_string()));
    assert_eq!(extract_python_version("3."), None);
    assert_eq!(extract_python_version("unknown"), None);
    assert_eq!(extract_python_version(""), None);
    assert_eq!(extract_python_version("v.3 then 2.7.18"), Some("2.7".to_string()));
}

#[test]
fn version_from_captures_joins_groups() {
    let groups = Some(vec![Some("3.12".to_string()), Some("3".to_string()), Some("12".to_string())]);
    assert_eq!(version_from_captures(groups), Some("3.12".to_string()));
    assert_eq!(version_from_captures(None), None);
    assert_eq!(version_from_captures(Some(vec![Some("3".to_string())])), None);
    assert_eq!(version_from_captures(Some(vec![Some("x".to_string()), None, Some("1".to_string())])), None);
}

#[test]
fn compiled_pattern_captures_groups() {
    let p = CompiledPattern::new(PYTHON_VERSION_PATTERN).unwrap();
    assert_eq!(
        p.captures("CPython 3.12.1"),
        Some(vec![Some("3.12".to_string()), Some("3".to_string()), Some("12".to_string())])
    );
    assert_eq!(p.captures("none"), None);
    assert!(CompiledPattern::new("(").is_none());
}

#[test]
fn package_from_metadata_without_requested_version() {
    let mut m = meta("black", "", "24.1.0", "CPython 3.12.1");
    m.install_spec = "black[d]".to_string();
    m.injected = names(&["ipython"]);
    m.editable = true;
    let p = PackageSpecV1::from(m);
    assert_eq!(p.spec, "black[d]");
    assert_eq!(p.version, "~=24.1.0");
    assert_eq!(p.python, Some("3.12".to_string()));
    assert_eq!(p.injected, names(&["ipython"]));
    assert!(p.editable);
}

#[test]
fn package_from_metadata_keeps_requested_version() {
    let p = PackageSpecV1::from(meta("ruff", "<0.5", "0.4.2", "no python"));
    assert_eq!(p.version, "<0.5");
    assert_eq!(p.python, None);
    assert!(!p.editable);
}

#[test]
fn package_v0_records_nothing() {
    assert_eq!(PackageSpecV0::from(meta("ruff", "", "1", "")), PackageSpecV0);
}

#[test]
fn select_all_packages() {
    let metas = vec![meta("ruff", "", "1", ""), meta("black", "", "2", "")];
    let m = select_packages(metas, &vec![], &vec![], VersionStyle::CompatibleRelease);
    assert_eq!(m.len(), 2);
    assert_eq!(m.get("black").unwrap().version, "~=2");
    assert_eq!(m.get("ruff").unwrap().version, "~=1");
}

#[test]
fn select_only_listed_packages() {
    let metas = vec![meta("ruff", "", "1", ""), meta("black", "", "2", ""), meta("mypy", "", "3", "")];
    let m = select_packages(metas, &names(&["mypy", "absent"]), &names(&["mypy"]), VersionStyle::CompatibleRelease);
    assert_eq!(m.len(), 1);
    assert!(m.get("mypy").is_some());
    assert!(m.get("ruff").is_none());
}

#[test]
fn select_without_excluded_packages() {
    let metas = vec![meta("ruff", "", "1", ""), meta("black", "", "2", ""), meta("mypy", "", "3", "")];
    let m = select_packages(metas, &vec![], &names(&["black"]), VersionStyle::Tilde);
    assert_eq!(m.len(), 2);
    assert!(m.get("black").is_none());
    assert!(m.get("ruff").is_some());
    assert!(m.get("mypy").is_some());
}

#[test]
fn select_later_record_of_a_name_wins() {
    let metas = vec![meta("ruff", "", "1", ""), meta("ruff", "", "2", "")];
    let m = select_packages(metas, &vec![], &vec![], VersionStyle::CompatibleRelease);
    assert_eq!(m.len(), 1);
    assert_eq!(m.get("ruff").unwrap().version, "~=2");
}

#[test]
fn package_from_record_with_tilde_style() {
    let p = PackageSpecV1::from_record(meta("black", "", "24.1.0", "CPython 3.11.4"), VersionStyle::Tilde);
    assert_eq!(p.version, "~24.1.0");
    assert_eq!(p.python, Some("3.11".to_string()));
    let q = PackageSpecV1::from_record(meta("black", "==24", "24.1.0", ""), VersionStyle::Tilde);
    assert_eq!(q.version, "==24");
    let r = PackageSpecV1::from_record(meta("black", "", "24.1.0", ""), VersionStyle::CompatibleRelease);
    assert_eq!(r.version, "~=24.1.0");
}

#[test]
fn select_with_tilde_style() {
    let metas = vec![meta("ruff", "", "1", ""), meta("black", "", "2", "")];
    let m = select_packages(metas, &vec![], &vec![], VersionStyle::Tilde);
    assert_eq!(m.get("ruff").unwrap().version, "~1");
    assert_eq!(m.get("black").unwrap().version, "~2");
}

#[test]
fn package_clone_keeps_contents() {
    let p = PackageSpecV1::from(meta("ruff", "", "1", "Python 3.12"));
    assert_eq!(p.clone(), p);
}
