use uvenv::lockfile::{first_decoded, lockfile_version, LockfileV0, LockfileV1, LockfileVersion, OutputFormat};
use uvenv::package::PackageSpecV1;
use uvenv::package_map::PackageMap;
use uvenv::thaw::{packages_to_thaw, plan_thaw, thaw_step, ThawEntry, ThawStep};
use uvenv::toml_layout::promote_top_level_tables;

fn pkg(python: Option<&str>) -> PackageSpecV1 {
    PackageSpecV1 {
        spec: "ruff".to_string(),
        version: "~=0.4".to_string(),
        python: python.map(|p| p.to_string()),
        injected: vec!["ipython".to_string()],
        editable: false,
    }
}

#[test]
fn format_names_round_trip() {
    for f in [OutputFormat::JSON, OutputFormat::TOML, OutputFormat::Binary] {
        assert_eq!(OutputFormat::from_name(f.as_str()), Ok(f));
    }
    assert_eq!(OutputFormat::JSON.as_str(), "json");
    assert_eq!(OutputFormat::TOML.as_str(), "toml");
    assert_eq!(OutputFormat::Binary.as_str(), "binary");
}

#[test]
fn unknown_format_is_refused() {
    let e = OutputFormat::from_name("yaml").unwrap_err();
    assert_eq!(e.name, "yaml");
    assert_eq!(e.message(), "Unsupported format yaml");
    assert!(OutputFormat::from_name("JSON").is_err());
}

#[test]
fn lockfile_versions() {
    for allow_v0 in [false, true] {
        assert_eq!(lockfile_version(None, allow_v0), Ok(LockfileVersion::V1));
        assert_eq!(lockfile_version(Some("1"), allow_v0), Ok(LockfileVersion::V1));
        let e = lockfile_version(Some("2"), allow_v0).unwrap_err();
        assert_eq!(e.message(), "Unsupported version!");
        assert!(lockfile_version(Some(""), allow_v0).is_err());
        assert!(lockfile_version(Some("10"), allow_v0).is_err());
    }
    assert_eq!(lockfile_version(Some("0"), true), Ok(LockfileVersion::V0));
    let e = lockfile_version(Some("0"), false).unwrap_err();
    assert_eq!(e.message(), "Unsupported version!");
}

#[test]
fn new_lockfiles_carry_their_version() {
    assert_eq!(LockfileV0::new().version(), 0);
    let mut m = PackageMap::new();
    m.insert("ruff".to_string(), pkg(None));
    let l = LockfileV1::new(m.clone());
    assert_eq!(l.version(), 1);
    assert_eq!(l.packages(), &m);
    assert_eq!(LockfileV1::from_parts(7, m.clone()).version(), 7);
}

#[test]
fn first_successful_decoding_wins() {
    assert_eq!(first_decoded(Some(1), Some(2), Some(3)), Some((1, OutputFormat::JSON)));
    assert_eq!(first_decoded(None, Some(2), Some(3)), Some((2, OutputFormat::Binary)));
    assert_eq!(first_decoded(None, None, Some(3)), Some((3, OutputFormat::TOML)));
    assert_eq!(first_decoded::<i32>(None, None, None), None);
}

#[test]
fn thaw_steps() {
    let install = |remove_existing: bool, python: Option<&str>| ThawStep::Install {
        remove_existing,
        install_spec: "ruff".to_string(),
        venv: None,
        python: python.map(|p| p.to_string()),
        force: true,
        injected: vec!["ipython".to_string()],
        no_cache: false,
        editable: false,
    };
    assert_eq!(thaw_step(pkg(Some("3.12")), false, true, true), ThawStep::Skip);
    assert_eq!(thaw_step(pkg(Some("3.12")), false, false, true), install(true, Some("3.12")));
    assert_eq!(thaw_step(pkg(Some("3.12")), true, true, false), install(false, None));
    assert_eq!(thaw_step(pkg(Some("3.12")), false, true, false), install(false, Some("3.12")));
    let mut editable = pkg(None);
    editable.editable = true;
    match thaw_step(editable, false, false, false) {
        ThawStep::Install { editable, python, .. } => {
            assert!(editable);
            assert_eq!(python, None);
        },
        ThawStep::Skip => panic!("expected an install"),
    }
}

#[test]
fn thaw_needs_a_decoded_lockfile() {
    let e = packages_to_thaw(None).unwrap_err();
    assert_eq!(e.message(), "Could not thaw data.");
    let mut m = PackageMap::new();
    m.insert("ruff".to_string(), pkg(None));
    assert_eq!(packages_to_thaw(Some(LockfileV1::new(m.clone()))), Ok(m));
}

#[test]
fn top_level_inline_tables_become_tables() {
    let mut ruff = toml_edit::InlineTable::new();
    ruff.insert("spec", toml_edit::Value::from("ruff"));
    let mut packages = toml_edit::InlineTable::new();
    packages.insert("ruff", toml_edit::Value::InlineTable(ruff));
    let mut doc = toml_edit::DocumentMut::new();
    doc["version"] = toml_edit::value(1);
    doc["packages"] = toml_edit::Item::Value(toml_edit::Value::InlineTable(packages));
    doc["list"] = toml_edit::value(toml_edit::Array::from_iter([1]));
    assert!(doc["packages"].is_inline_table());
    promote_top_level_tables(&mut doc);
    assert!(doc["packages"].is_table());
    assert!(doc["packages"]["ruff"].is_inline_table());
    assert!(doc["version"].is_value());
    assert!(doc["list"].is_array());
    let keys: Vec<&str> = doc.iter().map(|(k, _)| k).collect();
    assert_eq!(keys, vec!["version", "packages", "list"]);
    assert!(doc.to_string().contains("[packages]"), "{}", doc.to_string());
    assert!(doc.to_string().contains("ruff = { spec = \"ruff\" }"), "{}", doc.to_string());
}

#[test]
fn promotion_leaves_a_non_table_root_alone() {
    let mut doc = toml_edit::DocumentMut::new();
    *doc.as_item_mut() = toml_edit::value(1);
    promote_top_level_tables(&mut doc);
    assert!(doc.as_item().is_value());
}

#[test]
fn thaw_plan_has_one_step_per_entry_in_order() {
    let entries = vec![
        ThawEntry { name: "black".to_string(), package: pkg(Some("3.12")), venv_exists: true },
        ThawEntry { name: "mypy".to_string(), package: pkg(None), venv_exists: false },
        ThawEntry { name: "ruff".to_string(), package: pkg(None), venv_exists: true },
    ];
    let plan = plan_thaw(entries, false, true);
    let names: Vec<&str> = plan.iter().map(|(n, _)| n.as_str()).collect();
    assert_eq!(names, vec!["black", "mypy", "ruff"]);
    assert_eq!(plan[0].1, ThawStep::Skip);
    assert!(matches!(plan[1].1, ThawStep::Install { remove_existing: false, .. }));
    assert_eq!(plan[2].1, ThawStep::Skip);
    let plan = plan_thaw(vec![], false, false);
    assert!(plan.is_empty());
}
