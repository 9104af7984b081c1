use rscan::descriptor::{ExecutionMode, ModuleDescriptor, Platform};
use rscan::registry::Registry;
use rscan::selector::{pick, select, select_sorted};

fn module(identifier: &str, category: &str, platforms: Vec<Platform>) -> ModuleDescriptor {
    ModuleDescriptor::new(
        identifier,
        identifier,
        "",
        "",
        "1",
        category,
        platforms,
        ExecutionMode::Sync,
    )
}

fn registry_of(entries: Vec<ModuleDescriptor>) -> Registry {
    let mut registry = Registry::new();
    for e in entries {
        registry.register(e).unwrap();
    }
    registry.freeze();
    registry
}

fn ids(selected: &Vec<&ModuleDescriptor>) -> Vec<String> {
    selected.iter().map(|d| d.identifier.clone()).collect()
}

#[test]
fn empty_request_selects_all_eligible_modules() {
    let registry = registry_of(vec![
        module("a", "A", vec![Platform::All]),
        module("w", "A", vec![Platform::Windows]),
        module("l", "A", vec![Platform::Linux]),
        module("m", "A", vec![Platform::MacOS, Platform::Linux]),
    ]);
    assert_eq!(ids(&select(&registry, &vec![], Platform::Linux)), vec!["a", "l", "m"]);
    assert_eq!(ids(&select(&registry, &vec![], Platform::Windows)), vec!["a", "w"]);
    assert_eq!(ids(&select(&registry, &vec![], Platform::MacOS)), vec!["a", "m"]);
}

#[test]
fn unknown_identifier_is_dropped_without_error() {
    let registry = registry_of(vec![module("a", "A", vec![Platform::All])]);
    let selected = select(&registry, &vec!["a", "unknown"], Platform::Linux);
    assert_eq!(selected.len(), 1);
    assert_eq!(selected[0].identifier, "a");
}

#[test]
fn request_of_unknown_identifiers_only_selects_nothing() {
    let registry = registry_of(vec![module("a", "A", vec![Platform::All])]);
    assert!(select(&registry, &vec!["unknown"], Platform::Linux).is_empty());
}

#[test]
fn windows_module_is_excluded_on_linux_even_when_requested() {
    let registry = registry_of(vec![
        module("win", "A", vec![Platform::Windows]),
        module("any", "A", vec![Platform::All]),
    ]);
    assert!(select(&registry, &vec!["win"], Platform::Linux).is_empty());
    assert_eq!(ids(&select(&registry, &vec!["win", "any"], Platform::Linux)), vec!["any"]);
    assert_eq!(ids(&select(&registry, &vec!["win"], Platform::Windows)), vec!["win"]);
}

#[test]
fn selection_follows_registration_order_not_request_order() {
    let registry = registry_of(vec![
        module("a", "C", vec![Platform::All]),
        module("b", "B", vec![Platform::All]),
        module("c", "A", vec![Platform::All]),
    ]);
    assert_eq!(ids(&select(&registry, &vec!["c", "a"], Platform::Linux)), vec!["a", "c"]);
    assert_eq!(ids(&select(&registry, &vec!["a", "a"], Platform::Linux)), vec!["a"]);
}

#[test]
fn select_sorted_lists_by_category() {
    let registry = registry_of(vec![
        module("a", "C", vec![Platform::All]),
        module("b", "B", vec![Platform::Windows]),
        module("c", "A", vec![Platform::All]),
    ]);
    assert_eq!(ids(&select_sorted(&registry, &vec![], Platform::Linux)), vec!["c", "a"]);
    assert_eq!(ids(&select_sorted(&registry, &vec![], Platform::Windows)), vec!["c", "b", "a"]);
    assert_eq!(ids(&select_sorted(&registry, &vec!["a", "b"], Platform::Windows)), vec!["b", "a"]);
}

#[test]
fn selection_from_empty_registry_is_empty() {
    let registry = registry_of(vec![]);
    assert!(select(&registry, &vec![], Platform::Linux).is_empty());
    assert!(select(&registry, &vec!["a"], Platform::Linux).is_empty());
}

#[test]
fn pick_filters_any_candidate_list() {
    let a = module("a", "A", vec![Platform::Linux]);
    let b = module("b", "A", vec![Platform::Windows]);
    let picked = pick(vec![&b, &a, &b], &vec![], Platform::Windows);
    assert_eq!(ids(&picked), vec!["b", "b"]);
}
