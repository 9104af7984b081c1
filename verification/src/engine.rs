//! The interface that a command line or a terminal front end works with:
//! listings of what is registered, and runs of what was selected.

use crate::descriptor::{ModuleDescriptor, Platform};
use crate::dispatcher::ModuleResult;
use crate::registry::{derefs, is_sorted_listing, Registry};
use crate::runner::{accepts_each, is_run_of, run_selected};
use crate::selector::{lemma_selection_sound, pick, selection};
use crate::text::{string_views, views_of};
use vstd::prelude::*;
use vstd::string::*;

verus! {

/// The identifiers of `entries`, one by one.
pub open spec fn identifiers_of(entries: Seq<ModuleDescriptor>) -> Seq<Seq<char>> {
    Seq::new(entries.len(), |i: int| entries[i].identifier@)
}

/// The category and display name of each entry, one by one.
pub open spec fn headings_of(entries: Seq<ModuleDescriptor>) -> Seq<(Seq<char>, Seq<char>)> {
    Seq::new(entries.len(), |i: int| (entries[i].category@, entries[i].display_name@))
}

/// The views of a vector of pairs of strings, one by one.
pub open spec fn pair_views(pairs: Seq<(String, String)>) -> Seq<(Seq<char>, Seq<char>)> {
    Seq::new(pairs.len(), |i: int| (pairs[i].0@, pairs[i].1@))
}

/// The identifiers that can be asked for, in registration order.
pub fn list_names(registry: &Registry) -> (out: Vec<String>)
    ensures
        string_views(out@) == identifiers_of(registry.entries()),
{
    let entries = registry.all();
    let mut out: Vec<String> = Vec::new();
    let n = entries.len();
    let mut i: usize = 0;
    while i < n
        invariant
            i <= n,
            n == entries@.len(),
            out@.len() == i,
            forall|k: int| 0 <= k < i ==> (#[trigger] out@[k])@ == entries@[k].identifier@,
        decreases n - i,
    {
        out.push(entries[i].identifier.clone());
        i = i + 1;
    }
    assert(string_views(out@) =~= identifiers_of(registry.entries()));
    out
}

/// Category and display name of every registered module, sorted by
/// category, then by display name; modules that agree on both stay in
/// registration order.
pub fn list_by_category(registry: &Registry) -> (out: Vec<(String, String)>)
    ensures
        exists|listing: Seq<ModuleDescriptor>|
            #![auto]
            is_sorted_listing(registry.entries(), listing) && pair_views(out@) == headings_of(
                listing,
            ),
{
    let sorted = registry.sorted_by_category();
    let ghost listing = derefs(sorted@);
    let mut out: Vec<(String, String)> = Vec::new();
    let n = sorted.len();
    let mut i: usize = 0;
    while i < n
        invariant
            i <= n,
            n == sorted@.len(),
            out@.len() == i,
            forall|k: int|
                0 <= k < i ==> (#[trigger] out@[k]).0@ == sorted@[k].category@ && out@[k].1@
                    == sorted@[k].display_name@,
        decreases n - i,
    {
        let entry = sorted[i];
        out.push((entry.category.clone(), entry.display_name.clone()));
        i = i + 1;
    }
    assert(pair_views(out@) =~= headings_of(listing));
    assert(is_sorted_listing(registry.entries(), listing) && pair_views(out@) == headings_of(
        listing,
    ));
    out
}

/// Runs, of the candidates, those that were asked for and apply to `host`:
/// each goes through `run`, and one result per such module comes back, in
/// the order of the candidates.
pub fn run_picked<F: Fn(&ModuleDescriptor) -> ModuleResult>(
    candidates: Vec<&ModuleDescriptor>,
    identifiers: &Vec<&str>,
    host: Platform,
    run: &F,
) -> (out: Vec<ModuleResult>)
    requires
        accepts_each(*run, derefs(candidates@)),
    ensures
        is_run_of(*run, selection(derefs(candidates@), views_of(identifiers@), host), out@),
{
    let ghost all = derefs(candidates@);
    let ghost chosen = selection(all, views_of(identifiers@), host);
    let selected = pick(candidates, identifiers, host);
    proof {
        assert forall|i: int| 0 <= i < selected@.len() implies call_requires(
            *run,
            (#[trigger] selected@[i],),
        ) by {
            assert(derefs(selected@)[i] == *selected@[i]);
            lemma_selection_sound(all, views_of(identifiers@), host, i);
            let k = choose|k: int| 0 <= k < all.len() && all[k] == chosen[i];
            assert(call_requires(*run, (&all[k],)));
        }
    }
    let out = run_selected(&selected, run);
    proof {
        assert forall|i: int| 0 <= i < chosen.len() implies call_ensures(
            *run,
            (&chosen[i],),
            #[trigger] out@[i],
        ) by {
            assert(chosen[i] == *selected@[i]);
        }
    }
    out
}

/// Selects the modules that were asked for and apply to `host`, runs each
/// through `run`, and hands back one result per selected module in the
/// order of selection. A failing module yields a failure in its place and
/// stops nothing; an empty selection yields no result.
pub fn select_and_run<F: Fn(&ModuleDescriptor) -> ModuleResult>(
    registry: &Registry,
    identifiers: &Vec<&str>,
    host: Platform,
    run: &F,
) -> (out: Vec<ModuleResult>)
    requires
        accepts_each(*run, registry.entries()),
    ensures
        is_run_of(*run, selection(registry.entries(), views_of(identifiers@), host), out@),
{
    run_picked(registry.refs(), identifiers, host, run)
}

/// Runs every registered module that applies to `host`.
pub fn run_all<F: Fn(&ModuleDescriptor) -> ModuleResult>(
    registry: &Registry,
    host: Platform,
    run: &F,
) -> (out: Vec<ModuleResult>)
    requires
        accepts_each(*run, registry.entries()),
    ensures
        is_run_of(*run, selection(registry.entries(), Seq::empty(), host), out@),
{
    let nothing: Vec<&str> = Vec::new();
    assert(views_of(nothing@) =~= Seq::<Seq<char>>::empty());
    select_and_run(registry, &nothing, host, run)
}

} // verus!
