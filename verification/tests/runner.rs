use rscan::descriptor::{ExecutionMode, ModuleDescriptor, Platform};
use rscan::dispatcher::{
    dispatch, lane_of, normalize, result_kind, result_kinds, Lane, ModuleResult, Outcome,
    ResultKind,
};
use rscan::engine::{run_all, select_and_run};
use rscan::error::{ModuleError, RegistrationError};
use rscan::registration::{register_module, Factories, ModuleExecution, ModuleHolder};
use rscan::modules::ModuleManager;
use rscan::registry::Registry;
use rscan::runner::{run_selected, Batch, GraceStep, GRACE_PERIOD_MS};
use rscan::table::{labeled_row, Table};
use rscan::utils::{execute, execute_all};

fn unit(identifier: &str, platforms: Vec<Platform>, mode: ExecutionMode) -> ModuleDescriptor {
    ModuleDescriptor::new(identifier, identifier, "", "", "1", "Net", platforms, mode)
}

fn table_named(name: &str) -> Table {
    let mut table = Table::new();
    table.add_row(labeled_row("module", name));
    table
}

fn stand_in(d: &ModuleDescriptor) -> ModuleResult {
    if d.identifier.starts_with('x') {
        Err(ModuleError::ExecutionError)
    } else {
        Ok(table_named(&d.identifier))
    }
}

fn registry_xy() -> Registry {
    let mut registry = Registry::new();
    registry.register(unit("x", vec![Platform::All], ExecutionMode::Sync)).unwrap();
    registry.register(unit("y", vec![Platform::All], ExecutionMode::GlobalAsync)).unwrap();
    registry.register(unit("w", vec![Platform::Windows], ExecutionMode::Blocking)).unwrap();
    registry.freeze();
    registry
}

#[test]
fn batch_with_failure_and_success_yields_both_in_order() {
    let registry = registry_xy();
    let results = select_and_run(&registry, &vec!["x", "y"], Platform::Linux, &stand_in);
    assert_eq!(results.len(), 2);
    assert_eq!(results[0], Err(ModuleError::ExecutionError));
    assert_eq!(results[1], Ok(table_named("y")));
}

#[test]
fn failure_does_not_stop_later_modules() {
    let mut registry = Registry::new();
    for id in ["a", "x1", "b", "x2", "c"] {
        registry.register(unit(id, vec![Platform::All], ExecutionMode::Sync)).unwrap();
    }
    let results = run_all(&registry, Platform::Linux, &stand_in);
    let kinds = result_kinds(&results);
    assert_eq!(
        kinds,
        vec![
            ResultKind::Success,
            ResultKind::Failure(ModuleError::ExecutionError),
            ResultKind::Success,
            ResultKind::Failure(ModuleError::ExecutionError),
            ResultKind::Success,
        ]
    );
    assert_eq!(results[4], Ok(table_named("c")));
}

#[test]
fn run_all_twice_gives_the_same_shape() {
    let registry = registry_xy();
    let first = run_all(&registry, Platform::Linux, &stand_in);
    let second = run_all(&registry, Platform::Linux, &stand_in);
    assert_eq!(first.len(), 2);
    assert_eq!(result_kinds(&first), result_kinds(&second));
    assert_eq!(
        result_kinds(&first),
        vec![ResultKind::Failure(ModuleError::ExecutionError), ResultKind::Success]
    );
}

#[test]
fn run_all_skips_modules_of_other_platforms() {
    let registry = registry_xy();
    assert_eq!(run_all(&registry, Platform::Linux, &stand_in).len(), 2);
    assert_eq!(run_all(&registry, Platform::Windows, &stand_in).len(), 3);
}

#[test]
fn empty_selection_runs_nothing() {
    let registry = registry_xy();
    let results = select_and_run(&registry, &vec!["unknown"], Platform::Linux, &stand_in);
    assert!(results.is_empty());
    assert!(run_selected(&vec![], &stand_in).is_empty());
    assert!(run_all(&Registry::new(), Platform::Linux, &stand_in).is_empty());
}

#[test]
fn dispatch_hands_back_what_the_module_returned() {
    let x = unit("x", vec![Platform::All], ExecutionMode::Sync);
    let y = unit("y", vec![Platform::All], ExecutionMode::Sync);
    assert_eq!(dispatch(&x, &stand_in), Err(ModuleError::ExecutionError));
    assert_eq!(dispatch(&y, &stand_in), Ok(table_named("y")));
}

fn renamed(name: &str, identifier: &str, platforms: Vec<Platform>) -> ModuleDescriptor {
    ModuleDescriptor::new(name, identifier, "", "", "1", "Net", platforms, ExecutionMode::Sync)
}

fn registry_with_other_names() -> Registry {
    let mut registry = Registry::new();
    registry.register(renamed("first", "x", vec![Platform::All])).unwrap();
    registry.register(renamed("second", "y", vec![Platform::All])).unwrap();
    registry.register(renamed("third", "w", vec![Platform::Windows])).unwrap();
    registry.freeze();
    registry
}

#[test]
fn execute_selects_by_identifier_and_host() {
    let registry = registry_with_other_names();
    let results = execute(&registry, &vec!["x", "y"], Platform::Linux, &stand_in);
    assert_eq!(results, vec![Err(ModuleError::ExecutionError), Ok(table_named("y"))]);
    let one = execute(&registry, &vec!["y", "unknown"], Platform::Linux, &stand_in);
    assert_eq!(one, vec![Ok(table_named("y"))]);
    assert!(execute(&registry, &vec!["second"], Platform::Linux, &stand_in).is_empty());
    assert!(execute(&registry, &vec!["unknown"], Platform::Linux, &stand_in).is_empty());
}

#[test]
fn execute_never_runs_a_module_of_another_platform() {
    let registry = registry_with_other_names();
    let ran = std::cell::Cell::new(0);
    let counting = |d: &ModuleDescriptor| -> ModuleResult {
        ran.set(ran.get() + 1);
        Ok(table_named(&d.identifier))
    };
    assert!(execute(&registry, &vec!["w"], Platform::Linux, &counting).is_empty());
    assert_eq!(ran.get(), 0);
    assert_eq!(execute(&registry, &vec!["w"], Platform::Windows, &counting), vec![Ok(table_named("w"))]);
    assert_eq!(ran.get(), 1);
}

#[test]
fn execute_with_an_empty_request_is_execute_all() {
    let registry = registry_with_other_names();
    for host in [Platform::Linux, Platform::Windows, Platform::MacOS] {
        assert_eq!(
            execute(&registry, &vec![], host, &stand_in),
            execute_all(&registry, host, &stand_in)
        );
    }
    assert_eq!(execute_all(&registry, Platform::Linux, &stand_in).len(), 2);
    assert_eq!(execute_all(&registry, Platform::Windows, &stand_in).len(), 3);
    assert_eq!(
        execute_all(&registry, Platform::Linux, &stand_in),
        run_all(&registry, Platform::Linux, &stand_in)
    );
}

#[test]
fn execute_gives_one_result_per_selected_module_whatever_fails() {
    let registry = registry_with_other_names();
    let failing = |_d: &ModuleDescriptor| -> ModuleResult { Err(ModuleError::ExecutionError) };
    let results = execute(&registry, &vec!["w", "x", "y"], Platform::Linux, &failing);
    assert_eq!(results, vec![Err(ModuleError::ExecutionError), Err(ModuleError::ExecutionError)]);
}

#[test]
fn lanes_follow_the_execution_mode() {
    assert_eq!(lane_of(ExecutionMode::Sync), Lane::Invoking);
    assert_eq!(lane_of(ExecutionMode::LocalAsync), Lane::Invoking);
    assert_eq!(lane_of(ExecutionMode::GlobalAsync), Lane::ConcurrentPool);
    assert_eq!(lane_of(ExecutionMode::Blocking), Lane::BlockingPool);
}

#[test]
fn normalize_captures_panic_and_abandonment() {
    assert_eq!(normalize(Outcome::Returned(Ok(table_named("t")))), Ok(table_named("t")));
    assert_eq!(
        normalize(Outcome::Returned(Err(ModuleError::ExecutionError))),
        Err(ModuleError::ExecutionError)
    );
    assert_eq!(normalize(Outcome::Panicked), Err(ModuleError::Panicked));
    assert_eq!(normalize(Outcome::Abandoned), Err(ModuleError::Cancelled));
    assert_eq!(result_kind(&Ok(table_named("t"))), ResultKind::Success);
    assert_eq!(
        result_kind(&Err(ModuleError::Panicked)),
        ResultKind::Failure(ModuleError::Panicked)
    );
}

#[test]
fn module_error_messages() {
    assert_eq!(ModuleError::ExecutionError.message(), "Module failed to execute");
    assert_eq!(ModuleError::Panicked.message(), "Module panicked");
    assert_eq!(ModuleError::Cancelled.message(), "Module was cancelled");
}

fn four_modes() -> Vec<ModuleDescriptor> {
    vec![
        unit("s", vec![Platform::All], ExecutionMode::Sync),
        unit("b", vec![Platform::All], ExecutionMode::Blocking),
        unit("g", vec![Platform::All], ExecutionMode::GlobalAsync),
        unit("l", vec![Platform::All], ExecutionMode::LocalAsync),
        unit("g2", vec![Platform::All], ExecutionMode::GlobalAsync),
    ]
}

#[test]
fn batch_partitions_slots_by_lane() {
    let modules = four_modes();
    let selection: Vec<&ModuleDescriptor> = modules.iter().collect();
    let batch = Batch::open(&selection);
    assert_eq!(batch.len(), 5);
    assert_eq!(batch.lane(Lane::Invoking), vec![0, 3]);
    assert_eq!(batch.lane(Lane::BlockingPool), vec![1]);
    assert_eq!(batch.lane(Lane::ConcurrentPool), vec![2, 4]);
}

#[test]
fn batch_results_keep_request_order_whatever_the_completion_order() {
    let modules = four_modes();
    let selection: Vec<&ModuleDescriptor> = modules.iter().collect();
    let mut batch = Batch::open(&selection);
    assert!(batch.complete(4, Outcome::Returned(Ok(table_named("g2")))));
    assert!(batch.complete(1, Outcome::Panicked));
    assert!(batch.complete(0, Outcome::Returned(Err(ModuleError::ExecutionError))));
    assert!(batch.complete(3, Outcome::Returned(Ok(table_named("l")))));
    assert!(!batch.is_finished());
    assert!(batch.complete(2, Outcome::Returned(Ok(table_named("g")))));
    assert!(batch.is_finished());
    let results = batch.into_results();
    assert_eq!(
        results,
        vec![
            Err(ModuleError::ExecutionError),
            Err(ModuleError::Panicked),
            Ok(table_named("g")),
            Ok(table_named("l")),
            Ok(table_named("g2")),
        ]
    );
}

#[test]
fn batch_two_modules_failure_then_success() {
    let x = unit("x", vec![Platform::All], ExecutionMode::GlobalAsync);
    let y = unit("y", vec![Platform::All], ExecutionMode::GlobalAsync);
    let mut batch = Batch::open(&vec![&x, &y]);
    assert!(batch.complete(1, Outcome::Returned(Ok(table_named("y")))));
    assert!(batch.complete(0, Outcome::Returned(Err(ModuleError::ExecutionError))));
    assert_eq!(
        batch.into_results(),
        vec![Err(ModuleError::ExecutionError), Ok(table_named("y"))]
    );
}

#[test]
fn batch_ignores_second_report_and_unknown_slot() {
    let modules = four_modes();
    let selection: Vec<&ModuleDescriptor> = modules.iter().collect();
    let mut batch = Batch::open(&selection);
    assert!(batch.complete(0, Outcome::Returned(Ok(table_named("first")))));
    assert!(!batch.complete(0, Outcome::Panicked));
    assert!(!batch.complete(5, Outcome::Panicked));
    assert_eq!(batch.result(0), Some(&Ok(table_named("first"))));
    assert_eq!(batch.result(1), None);
    assert_eq!(batch.result(9), None);
}

#[test]
fn batch_cancel_settles_pending_slots_only() {
    let modules = four_modes();
    let selection: Vec<&ModuleDescriptor> = modules.iter().collect();
    let mut batch = Batch::open(&selection);
    assert!(batch.complete(2, Outcome::Returned(Ok(table_named("g")))));
    batch.cancel();
    assert!(batch.is_finished());
    assert!(!batch.complete(0, Outcome::Returned(Ok(table_named("late")))));
    assert_eq!(
        batch.into_results(),
        vec![
            Err(ModuleError::Cancelled),
            Err(ModuleError::Cancelled),
            Ok(table_named("g")),
            Err(ModuleError::Cancelled),
            Err(ModuleError::Cancelled),
        ]
    );
}

#[test]
fn batch_into_results_counts_pending_as_cancelled() {
    let modules = four_modes();
    let selection: Vec<&ModuleDescriptor> = modules.iter().collect();
    let mut batch = Batch::open(&selection);
    assert!(batch.complete(1, Outcome::Returned(Ok(table_named("b")))));
    let results = batch.into_results();
    assert_eq!(results.len(), 5);
    assert_eq!(results[0], Err(ModuleError::Cancelled));
    assert_eq!(results[1], Ok(table_named("b")));
}

#[test]
fn batch_delivers_in_request_order() {
    let modules = four_modes();
    let selection: Vec<&ModuleDescriptor> = modules.iter().collect();
    let mut batch = Batch::open(&selection);
    assert_eq!(batch.next_ready(), None);
    assert!(batch.complete(1, Outcome::Panicked));
    assert_eq!(batch.next_ready(), None);
    assert!(batch.complete(0, Outcome::Panicked));
    assert_eq!(batch.next_ready(), Some(0));
    assert_eq!(batch.next_ready(), Some(1));
    assert_eq!(batch.next_ready(), None);
    batch.cancel();
    assert_eq!(batch.next_ready(), Some(2));
    assert_eq!(batch.next_ready(), Some(3));
    assert_eq!(batch.next_ready(), Some(4));
    assert_eq!(batch.next_ready(), None);
}

#[test]
fn empty_batch_is_finished_at_once() {
    let mut batch = Batch::open(&vec![]);
    assert_eq!(batch.len(), 0);
    assert!(batch.is_finished());
    assert_eq!(batch.next_ready(), None);
    assert!(batch.lane(Lane::Invoking).is_empty());
    assert!(batch.into_results().is_empty());
}

#[test]
fn module_manager_offers_four_modules() {
    let manager = ModuleManager::new();
    assert_eq!(
        manager.get_module_names(),
        vec!["Gateway".to_string(), "DNS Server".to_string(), "arp".to_string(), "LLDP Neighbors".to_string()]
    );
}

#[test]
fn module_manager_runs_selected_modules_in_its_own_order() {
    let manager = ModuleManager::new();
    let run = |d: &ModuleDescriptor| -> ModuleResult {
        if d.identifier == "dns" {
            Err(ModuleError::ExecutionError)
        } else {
            Ok(table_named(&d.identifier))
        }
    };
    let results =
        manager.run_selected_modules(&vec!["arp", "dns", "gateway", "nothing"], Platform::Linux, &run);
    assert_eq!(
        results,
        vec![Ok(table_named("gateway")), Err(ModuleError::ExecutionError), Ok(table_named("arp"))]
    );
    assert!(manager.run_selected_modules(&vec!["DNS Server"], Platform::Linux, &run).is_empty());
}

#[test]
fn module_manager_honours_the_host_and_the_empty_request() {
    let manager = ModuleManager::new();
    let run = |d: &ModuleDescriptor| -> ModuleResult { Ok(table_named(&d.identifier)) };
    let on_linux = manager.run_selected_modules(&vec![], Platform::Linux, &run);
    assert_eq!(
        on_linux,
        vec![
            Ok(table_named("gateway")),
            Ok(table_named("dns")),
            Ok(table_named("arp")),
            Ok(table_named("lldp")),
        ]
    );
    let on_mac = manager.run_selected_modules(&vec![], Platform::MacOS, &run);
    assert_eq!(on_mac, vec![Ok(table_named("lldp"))]);
    assert!(manager.run_selected_modules(&vec!["arp"], Platform::MacOS, &run).is_empty());
}

#[test]
fn cancelled_batch_waits_no_longer_than_the_grace_period() {
    assert_eq!(GRACE_PERIOD_MS, 500);
    let modules = four_modes();
    let selection: Vec<&ModuleDescriptor> = modules.iter().collect();
    let mut batch = Batch::open(&selection);
    assert_eq!(batch.grace_step(0), GraceStep::Wait(500));
    assert_eq!(batch.grace_step(120), GraceStep::Wait(380));
    assert_eq!(batch.grace_step(499), GraceStep::Wait(1));
    assert_eq!(batch.grace_step(500), GraceStep::Settle);
    assert_eq!(batch.grace_step(u64::MAX), GraceStep::Settle);
    for slot in 0..5 {
        assert!(batch.complete(slot, Outcome::Panicked));
    }
    assert_eq!(batch.grace_step(0), GraceStep::Settle);
    assert_eq!(Batch::open(&vec![]).grace_step(0), GraceStep::Settle);
}

#[test]
fn batch_streams_results_in_order_of_arrival() {
    let modules = four_modes();
    let selection: Vec<&ModuleDescriptor> = modules.iter().collect();
    let mut batch = Batch::open(&selection);
    assert_eq!(batch.next_arrival(), None);
    assert!(batch.complete(3, Outcome::Panicked));
    assert!(batch.complete(1, Outcome::Panicked));
    assert!(!batch.complete(3, Outcome::Abandoned));
    assert_eq!(batch.next_arrival(), Some(3));
    assert_eq!(batch.next_arrival(), Some(1));
    assert_eq!(batch.next_arrival(), None);
    assert!(batch.complete(0, Outcome::Returned(Ok(table_named("s")))));
    assert_eq!(batch.next_arrival(), Some(0));
    batch.cancel();
    assert_eq!(batch.next_arrival(), Some(2));
    assert_eq!(batch.next_arrival(), Some(4));
    assert_eq!(batch.next_arrival(), None);
    assert_eq!(batch.next_ready(), Some(0));
}

#[test]
fn modules_register_with_their_constructors() {
    let mut registry = Registry::new();
    let mut factories: Factories<u32> = Factories::new();
    let a = unit("a", vec![Platform::All], ExecutionMode::Sync);
    let b = unit("b", vec![Platform::All], ExecutionMode::Sync);
    assert_eq!(register_module(&mut registry, &mut factories, a.clone(), 1), Ok(()));
    assert_eq!(register_module(&mut registry, &mut factories, b, 2), Ok(()));
    assert_eq!(
        register_module(&mut registry, &mut factories, a, 3),
        Err(RegistrationError::Duplicate)
    );
    assert_eq!(registry.len(), 2);
    assert_eq!(factories.len(), 2);
    assert_eq!(factories.constructor_for("a"), Some(&1));
    assert_eq!(factories.constructor_for("b"), Some(&2));
    assert_eq!(factories.constructor_for("c"), None);
    registry.freeze();
    let c = unit("c", vec![Platform::All], ExecutionMode::Sync);
    assert_eq!(
        register_module(&mut registry, &mut factories, c, 4),
        Err(RegistrationError::Frozen)
    );
    assert_eq!(factories.constructor_for("c"), None);
}

#[test]
fn first_holder_wins() {
    let mut factories: Factories<&str> = Factories::new();
    factories.insert(ModuleHolder { identifier: "a".to_string(), constructor: "first" });
    factories.insert(ModuleHolder { identifier: "a".to_string(), constructor: "second" });
    assert_eq!(factories.constructor_for("a"), Some(&"first"));
}

#[test]
fn module_execution_declares_its_mode() {
    let local: ModuleExecution<u8, u8, u8> = ModuleExecution::Local(1);
    let global: ModuleExecution<u8, u8, u8> = ModuleExecution::Global(1);
    let blocking: ModuleExecution<u8, u8, u8> = ModuleExecution::Blocking(1);
    assert_eq!(local.execution_mode(), ExecutionMode::LocalAsync);
    assert_eq!(global.execution_mode(), ExecutionMode::GlobalAsync);
    assert_eq!(blocking.execution_mode(), ExecutionMode::Blocking);
}
