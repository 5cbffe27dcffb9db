use uvenv::names::{compare_names, contains_name, NameOrder};
use uvenv::package::PackageSpecV1;
use uvenv::package_map::PackageMap;

fn pkg(spec: &str) -> PackageSpecV1 {
    PackageSpecV1 {
        spec: spec.to_string(),
        version: "~=1.0".to_string(),
        python: None,
        injected: vec![],
        editable: false,
    }
}

#[test]
fn compare_names_orders_by_code_point() {
    assert_eq!(compare_names("black", "ruff"), NameOrder::Less);
    assert_eq!(compare_names("ruff", "black"), NameOrder::Greater);
    assert_eq!(compare_names("black", "black"), NameOrder::Equal);
    assert_eq!(compare_names("black", "blackd"), NameOrder::Less);
    assert_eq!(compare_names("", "a"), NameOrder::Less);
    assert_eq!(compare_names("", ""), NameOrder::Equal);
    assert_eq!(compare_names("Zed", "abc"), NameOrder::Less);
    assert_eq!(compare_names("é", "z"), NameOrder::Greater);
}

#[test]
fn compare_names_agrees_with_string_order() {
    let names = ["a", "ab", "b", "", "é", "z", "Z", "aa", "a-b", "a_b"];
    for x in names {
        for y in names {
            let expected = match x.cmp(y) {
                std::cmp::Ordering::Less => NameOrder::Less,
                std::cmp::Ordering::Equal => NameOrder::Equal,
                std::cmp::Ordering::Greater => NameOrder::Greater,
            };
            assert_eq!(compare_names(x, y), expected, "{x} vs {y}");
        }
    }
}

#[test]
fn contains_name_finds_exact_names() {
    let names = vec!["black".to_string(), "ruff".to_string()];
    assert!(contains_name(&names, "ruff"));
    assert!(!contains_name(&names, "ruf"));
    assert!(!contains_name(&vec![], "ruff"));
}

#[test]
fn package_map_insert_then_get() {
    let mut m = PackageMap::new();
    assert_eq!(m.len(), 0);
    m.insert("ruff".to_string(), pkg("ruff"));
    m.insert("black".to_string(), pkg("black"));
    assert_eq!(m.len(), 2);
    assert_eq!(m.get("ruff"), Some(&pkg("ruff")));
    assert_eq!(m.get("black"), Some(&pkg("black")));
    assert_eq!(m.get("mypy"), None);
}

#[test]
fn package_map_insert_replaces() {
    let mut m = PackageMap::new();
    m.insert("ruff".to_string(), pkg("ruff"));
    m.insert("ruff".to_string(), pkg("ruff[all]"));
    assert_eq!(m.len(), 1);
    assert_eq!(m.get("ruff"), Some(&pkg("ruff[all]")));
}

#[test]
fn package_map_entries_come_out_sorted() {
    let mut m = PackageMap::new();
    for name in ["uv", "black", "ruff", "mypy", "black", "a"] {
        m.insert(name.to_string(), pkg(name));
    }
    let names: Vec<String> = m.into_entries().into_iter().map(|(n, _)| n).collect();
    assert_eq!(names, vec!["a", "black", "mypy", "ruff", "uv"]);
}

#[test]
fn package_map_from_entries_later_pair_wins() {
    let m = PackageMap::from_entries(vec![
        ("ruff".to_string(), pkg("ruff")),
        ("black".to_string(), pkg("black")),
        ("ruff".to_string(), pkg("ruff[all]")),
    ]);
    assert_eq!(m.len(), 2);
    assert_eq!(m.get("ruff"), Some(&pkg("ruff[all]")));
    let names: Vec<String> = m.into_entries().into_iter().map(|(n, _)| n).collect();
    assert_eq!(names, vec!["black", "ruff"]);
}

#[test]
fn package_map_entries_rebuild_the_same_map() {
    let mut m = PackageMap::new();
    for name in ["uv", "black", "ruff"] {
        m.insert(name.to_string(), pkg(name));
    }
    let rebuilt = PackageMap::from_entries(m.clone().into_entries());
    assert_eq!(rebuilt, m);
}
