//! The registry's lookups and runs as plain functions: what is registered,
//! what a request selects on this host, and what running it gives.

use crate::descriptor::{ModuleDescriptor, Platform};
use crate::dispatcher::ModuleResult;
use crate::engine::{run_all, select_and_run};
use crate::registry::{derefs, is_sorted_listing, Registry};
use crate::runner::{accepts_each, is_run_of};
use crate::selector::{select, selection};
use crate::text::{string_views, views_of};
use vstd::prelude::*;
use vstd::string::*;

verus! {

/// The display names of `entries`, one by one.
pub open spec fn display_names_of(entries: Seq<ModuleDescriptor>) -> Seq<Seq<char>> {
    Seq::new(entries.len(), |i: int| entries[i].display_name@)
}

/// The descriptors that a list of found modules holds, one by one.
pub open spec fn present(found: Seq<Option<&ModuleDescriptor>>) -> Seq<ModuleDescriptor> {
    Seq::new(found.len(), |i: int| *found[i]->Some_0)
}

/// The modules that a request selects on `host`: those whose identifier is
/// one of `identifiers` (all of them where `identifiers` is empty) and that
/// apply to `host`, in registration order, each wrapped in `Some`.
/// Identifiers that match nothing are passed over.
pub fn get<'a>(registry: &'a Registry, identifiers: &Vec<&str>, host: Platform) -> (out: Vec<
    Option<&'a ModuleDescriptor>,
>)
    ensures
        forall|i: int| 0 <= i < out@.len() ==> (#[trigger] out@[i]) is Some,
        present(out@) == selection(registry.entries(), views_of(identifiers@), host),
{
    let found = select(registry, identifiers, host);
    let mut out: Vec<Option<&'a ModuleDescriptor>> = Vec::new();
    let n = found.len();
    let mut i: usize = 0;
    while i < n
        invariant
            i <= n,
            n == found@.len(),
            out@.len() == i,
            forall|k: int| 0 <= k < i ==> (#[trigger] out@[k]) == Some(found@[k]),
        decreases n - i,
    {
        out.push(Some(found[i]));
        i = i + 1;
    }
    assert(present(out@) =~= derefs(found@));
    out
}

/// The display name of every registered module, in registration order.
pub fn get_names(registry: &Registry) -> (out: Vec<String>)
    ensures
        string_views(out@) == display_names_of(registry.entries()),
{
    let entries = registry.all();
    let mut out: Vec<String> = Vec::new();
    let n = entries.len();
    let mut i: usize = 0;
    while i < n
        invariant
            i <= n,
            n == entries@.len(),
            out@.len() == i,
            forall|k: int| 0 <= k < i ==> (#[trigger] out@[k])@ == entries@[k].display_name@,
        decreases n - i,
    {
        out.push(entries[i].display_name.clone());
        i = i + 1;
    }
    assert(string_views(out@) =~= display_names_of(registry.entries()));
    out
}

/// Every registered module, in registration order.
pub fn get_all<'a>(registry: &'a Registry) -> (out: Vec<&'a ModuleDescriptor>)
    ensures
        derefs(out@) == registry.entries(),
{
    registry.refs()
}

/// Runs every registered module that applies to `host` and hands back one
/// result per such module, in registration order.
pub fn execute_all<F: Fn(&ModuleDescriptor) -> ModuleResult>(
    registry: &Registry,
    host: Platform,
    run: &F,
) -> (out: Vec<ModuleResult>)
    requires
        accepts_each(*run, registry.entries()),
    ensures
        is_run_of(*run, selection(registry.entries(), Seq::empty(), host), out@),
{
    run_all(registry, host, run)
}

/// Runs the modules that a request selects on `host` and hands back one
/// result per selected module, in registration order. An empty request
/// runs what `execute_all` runs.
pub fn execute<F: Fn(&ModuleDescriptor) -> ModuleResult>(
    registry: &Registry,
    identifiers: &Vec<&str>,
    host: Platform,
    run: &F,
) -> (out: Vec<ModuleResult>)
    requires
        accepts_each(*run, registry.entries()),
    ensures
        is_run_of(*run, selection(registry.entries(), views_of(identifiers@), host), out@),
{
    select_and_run(registry, identifiers, host, run)
}

/// Every registered module, sorted by category, then by display name;
/// modules that agree on both stay in registration order.
pub fn get_all_sorted_by_category<'a>(registry: &'a Registry) -> (out: Vec<&'a ModuleDescriptor>)
    ensures
        is_sorted_listing(registry.entries(), derefs(out@)),
{
    registry.sorted_by_category()
}

} // verus!
