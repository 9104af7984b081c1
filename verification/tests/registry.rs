use rscan::descriptor::{format_module_info, ExecutionMode, ModuleDescriptor, Platform};
use rscan::engine::{list_by_category, list_names};
use rscan::error::RegistrationError;
use rscan::registry::{key_order_of, Registry};
use rscan::utils::{get, get_all, get_all_sorted_by_category, get_names};

fn entry(name: &str, identifier: &str, category: &str) -> ModuleDescriptor {
    ModuleDescriptor::new(
        name,
        identifier,
        "a description",
        "an author",
        "1.2",
        category,
        vec![Platform::All],
        ExecutionMode::Sync,
    )
}

fn filled(entries: Vec<ModuleDescriptor>) -> Registry {
    let mut registry = Registry::new();
    for e in entries {
        assert_eq!(registry.register(e), Ok(()));
    }
    registry.freeze();
    registry
}

#[test]
fn new_registry_is_empty_and_open() {
    let registry = Registry::new();
    assert_eq!(registry.len(), 0);
    assert!(!registry.is_frozen());
    assert!(registry.all().is_empty());
}

#[test]
fn register_keeps_registration_order() {
    let registry = filled(vec![entry("n1", "a", "A"), entry("n2", "b", "B"), entry("n3", "c", "C")]);
    let ids: Vec<&str> = registry.all().iter().map(|d| d.identifier.as_str()).collect();
    assert_eq!(ids, vec!["a", "b", "c"]);
    assert_eq!(registry.len(), 3);
}

#[test]
fn register_rejects_duplicate_identifier() {
    let mut registry = Registry::new();
    assert_eq!(registry.register(entry("first", "a", "A")), Ok(()));
    assert_eq!(registry.register(entry("second", "a", "B")), Err(RegistrationError::Duplicate));
    assert_eq!(registry.len(), 1);
    assert_eq!(registry.all()[0].display_name, "first");
}

#[test]
fn register_rejects_empty_identifier() {
    let mut registry = Registry::new();
    assert_eq!(registry.register(entry("name", "", "A")), Err(RegistrationError::Malformed));
    assert_eq!(registry.len(), 0);
}

#[test]
fn register_rejects_descriptor_without_platform() {
    let mut registry = Registry::new();
    let bare = ModuleDescriptor::new("n", "a", "", "", "", "A", vec![], ExecutionMode::Sync);
    assert_eq!(registry.register(bare), Err(RegistrationError::Malformed));
    assert_eq!(registry.len(), 0);
}

#[test]
fn register_after_freeze_is_refused() {
    let mut registry = Registry::new();
    assert_eq!(registry.register(entry("n1", "a", "A")), Ok(()));
    registry.freeze();
    assert!(registry.is_frozen());
    assert_eq!(registry.register(entry("n2", "b", "B")), Err(RegistrationError::Frozen));
    assert_eq!(registry.len(), 1);
}

#[test]
fn frozen_is_reported_before_malformed_and_duplicate() {
    let mut registry = Registry::new();
    assert_eq!(registry.register(entry("n1", "a", "A")), Ok(()));
    registry.freeze();
    assert_eq!(registry.register(entry("n", "", "A")), Err(RegistrationError::Frozen));
    assert_eq!(registry.register(entry("n", "a", "A")), Err(RegistrationError::Frozen));
}

#[test]
fn lookups_are_stable_across_repeated_calls() {
    let registry = filled(vec![entry("n1", "a", "A"), entry("n2", "b", "B")]);
    let wanted = vec!["b", "a"];
    let first: Vec<ModuleDescriptor> =
        registry.find_by_identifiers(&wanted).into_iter().cloned().collect();
    let second: Vec<ModuleDescriptor> =
        registry.find_by_identifiers(&wanted).into_iter().cloned().collect();
    assert_eq!(first, second);
    assert_eq!(registry.all().clone(), registry.all().clone());
    let ids: Vec<&str> = first.iter().map(|d| d.identifier.as_str()).collect();
    assert_eq!(ids, vec!["a", "b"]);
}

#[test]
fn find_by_identifiers_drops_unknown_keys() {
    let registry = filled(vec![entry("n1", "a", "A"), entry("n2", "b", "B")]);
    let found = registry.find_by_identifiers(&vec!["a", "unknown"]);
    assert_eq!(found.len(), 1);
    assert_eq!(found[0].identifier, "a");
    assert!(registry.find_by_identifiers(&vec![]).is_empty());
    assert!(registry.find_by_identifiers(&vec!["nothing"]).is_empty());
}

#[test]
fn contains_identifier_matches_whole_identifiers_only() {
    let registry = filled(vec![entry("n1", "arp", "A")]);
    assert!(registry.contains_identifier("arp"));
    assert!(!registry.contains_identifier("ar"));
    assert!(!registry.contains_identifier("arps"));
    assert!(!registry.contains_identifier(""));
}

#[test]
fn sorted_by_category_orders_by_category_then_name() {
    let registry = filled(vec![entry("n2", "x", "B"), entry("n2b", "y", "A"), entry("n1", "z", "A")]);
    let sorted = registry.sorted_by_category();
    let pairs: Vec<(&str, &str)> =
        sorted.iter().map(|d| (d.category.as_str(), d.display_name.as_str())).collect();
    assert_eq!(pairs, vec![("A", "n1"), ("A", "n2b"), ("B", "n2")]);
    assert_eq!(registry.category_order(), vec![2, 1, 0]);
}

#[test]
fn sorted_by_category_keeps_registration_order_among_equals() {
    let registry = filled(vec![
        entry("same", "first", "A"),
        entry("same", "second", "A"),
        entry("same", "third", "A"),
        entry("earlier", "fourth", "A"),
    ]);
    let ids: Vec<&str> =
        registry.sorted_by_category().iter().map(|d| d.identifier.as_str()).collect();
    assert_eq!(ids, vec!["fourth", "first", "second", "third"]);
}

#[test]
fn sorted_by_category_is_deterministic() {
    let registry = filled(vec![entry("b", "1", "Z"), entry("a", "2", "Z"), entry("c", "3", "Y")]);
    assert_eq!(registry.category_order(), registry.category_order());
    assert_eq!(registry.category_order(), vec![2, 1, 0]);
    assert!(Registry::new().sorted_by_category().is_empty());
}

#[test]
fn key_order_compares_bytes() {
    let a = entry("n", "1", "A");
    let b = entry("n", "2", "B");
    assert_eq!(key_order_of(&a, &b), -1);
    assert_eq!(key_order_of(&b, &a), 1);
    assert_eq!(key_order_of(&a, &a), 0);
    assert_eq!(key_order_of(&entry("Z", "1", "A"), &entry("a", "2", "A")), -1);
    assert_eq!(key_order_of(&entry("ab", "1", "A"), &entry("a", "2", "A")), 1);
    assert_eq!(key_order_of(&entry("n", "1", "é"), &entry("n", "2", "z")), 1);
}

#[test]
fn list_names_gives_identifiers_in_registration_order() {
    let registry = filled(vec![entry("n2", "x", "B"), entry("n1", "y", "A")]);
    assert_eq!(list_names(&registry), vec!["x".to_string(), "y".to_string()]);
    assert!(list_names(&Registry::new()).is_empty());
}

#[test]
fn list_by_category_gives_sorted_headings() {
    let registry = filled(vec![entry("n2", "x", "B"), entry("n2b", "y", "A"), entry("n1", "z", "A")]);
    let expected: Vec<(String, String)> = vec![
        ("A".to_string(), "n1".to_string()),
        ("A".to_string(), "n2b".to_string()),
        ("B".to_string(), "n2".to_string()),
    ];
    assert_eq!(list_by_category(&registry), expected);
}

fn named(name: &str, identifier: &str, platforms: Vec<Platform>) -> ModuleDescriptor {
    ModuleDescriptor::new(name, identifier, "", "", "1", "A", platforms, ExecutionMode::Sync)
}

fn found_ids(found: &Vec<Option<&ModuleDescriptor>>) -> Vec<String> {
    found.iter().map(|d| d.expect("every place holds a module").identifier.clone()).collect()
}

#[test]
fn get_selects_by_identifier_not_by_display_name() {
    let registry = filled(vec![
        named("Gateway", "gw", vec![Platform::All]),
        named("gw", "arp", vec![Platform::All]),
    ]);
    assert_eq!(found_ids(&get(&registry, &vec!["gw"], Platform::Linux)), vec!["gw"]);
    assert_eq!(found_ids(&get(&registry, &vec!["arp", "unknown"], Platform::Linux)), vec!["arp"]);
    assert!(get(&registry, &vec!["Gateway"], Platform::Linux).is_empty());
    assert!(get(&registry, &vec!["unknown"], Platform::Linux).is_empty());
}

#[test]
fn get_with_an_empty_request_gives_every_eligible_module() {
    let registry = filled(vec![
        named("n1", "a", vec![Platform::All]),
        named("n2", "w", vec![Platform::Windows]),
        named("n3", "l", vec![Platform::Linux]),
    ]);
    assert_eq!(found_ids(&get(&registry, &vec![], Platform::Linux)), vec!["a", "l"]);
    assert_eq!(found_ids(&get(&registry, &vec![], Platform::Windows)), vec!["a", "w"]);
    assert!(get(&Registry::new(), &vec![], Platform::Linux).is_empty());
}

#[test]
fn get_leaves_out_modules_of_other_platforms() {
    let registry = filled(vec![named("n", "w", vec![Platform::Windows])]);
    assert!(get(&registry, &vec!["w"], Platform::Linux).is_empty());
    assert_eq!(found_ids(&get(&registry, &vec!["w"], Platform::Windows)), vec!["w"]);
}

#[test]
fn get_selects_a_repeated_identifier_once() {
    let registry = filled(vec![named("other name", "a", vec![Platform::All])]);
    let found = get(&registry, &vec!["a", "a"], Platform::Linux);
    assert_eq!(found.len(), 1);
    assert_eq!(found[0].map(|d| d.identifier.as_str()), Some("a"));
}

#[test]
fn get_names_and_get_all_follow_registration_order() {
    let registry = filled(vec![entry("Gateway", "gw", "B"), entry("arp", "neigh", "A")]);
    assert_eq!(get_names(&registry), vec!["Gateway".to_string(), "arp".to_string()]);
    let all: Vec<&str> = get_all(&registry).iter().map(|d| d.identifier.as_str()).collect();
    assert_eq!(all, vec!["gw", "neigh"]);
    let sorted: Vec<&str> =
        get_all_sorted_by_category(&registry).iter().map(|d| d.identifier.as_str()).collect();
    assert_eq!(sorted, vec!["neigh", "gw"]);
}

#[test]
fn format_module_info_writes_one_line() {
    let d = ModuleDescriptor::new(
        "arp",
        "arp",
        "Lists neighbours",
        "Kidan",
        "0.1.0",
        "Network",
        vec![Platform::Linux],
        ExecutionMode::GlobalAsync,
    );
    assert_eq!(format_module_info(&d), "arp - Lists neighbours (v0.1.0) by Kidan: Network");
    assert_eq!(d.describe(), "arp\narp\nLists neighbours\nKidan\n0.1.0\nNetwork");
}

#[test]
fn declared_lowercases_the_function_name() {
    let d = ModuleDescriptor::declared("ARP_Scan", "Arp", "d", "a", "1", "Net", vec![Platform::All]);
    assert_eq!(d.identifier, "arp_scan");
    assert_eq!(d.display_name, "Arp");
    assert_eq!(d.execution_mode, ExecutionMode::Sync);
    let g = ModuleDescriptor::declared("ÉCOUTE", "x", "d", "a", "1", "Net", vec![Platform::All]);
    assert_eq!(g.identifier, "écoute");
}

#[test]
fn generated_fills_in_fixed_metadata() {
    let d = ModuleDescriptor::generated("ping", "icmp", "Net");
    assert_eq!(d.display_name, "ping");
    assert_eq!(d.identifier, "icmp");
    assert_eq!(d.description, "Automatically generated description");
    assert_eq!(d.author, "Auto Author");
    assert_eq!(d.version, "1.0");
    assert_eq!(d.category, "Net");
    assert_eq!(d.platforms, vec![Platform::All]);
    assert_eq!(d.execution_mode, ExecutionMode::GlobalAsync);
}

#[test]
fn runs_on_honours_all_and_the_host() {
    let windows_only = ModuleDescriptor::new("n", "i", "", "", "", "", vec![Platform::Windows], ExecutionMode::Sync);
    assert!(windows_only.runs_on(Platform::Windows));
    assert!(!windows_only.runs_on(Platform::Linux));
    assert!(!windows_only.runs_on(Platform::MacOS));
    let anywhere = ModuleDescriptor::new("n", "i", "", "", "", "", vec![Platform::All], ExecutionMode::Sync);
    assert!(anywhere.runs_on(Platform::Linux));
    assert!(anywhere.runs_on(Platform::MacOS));
    let two = ModuleDescriptor::new("n", "i", "", "", "", "", vec![Platform::Linux, Platform::MacOS], ExecutionMode::Sync);
    assert!(two.runs_on(Platform::MacOS));
    assert!(!two.runs_on(Platform::Windows));
    let none = ModuleDescriptor::new("n", "i", "", "", "", "", vec![], ExecutionMode::Sync);
    assert!(!none.runs_on(Platform::Linux));
    assert!(!none.is_well_formed());
    assert!(two.is_well_formed());
}
