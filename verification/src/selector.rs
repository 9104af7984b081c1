//! The selector: from a request (a list of identifiers, or none for "run
//! everything") and the host platform to the modules that will run.

use crate::descriptor::{ModuleDescriptor, Platform};
use crate::registry::{derefs, has_identifier, is_sorted_listing, name_listed, Registry};
use crate::text::views_of;
use vstd::prelude::*;

verus! {

/// The test that selection applies to each descriptor: it was asked for (an
/// empty request asks for all) and it applies to `host`.
pub open spec fn selected_by(names: Seq<Seq<char>>, host: Platform) -> spec_fn(
    ModuleDescriptor,
) -> bool {
    |d: ModuleDescriptor| (names.len() == 0 || names.contains(d.identifier@)) && d.supports(host)
}

/// The test "applies to `host`".
pub open spec fn eligible_on(host: Platform) -> spec_fn(ModuleDescriptor) -> bool {
    |d: ModuleDescriptor| d.supports(host)
}

/// The modules selected from `entries`: those that pass `selected_by`, in the
/// order of `entries`.
pub open spec fn selection(
    entries: Seq<ModuleDescriptor>,
    names: Seq<Seq<char>>,
    host: Platform,
) -> Seq<ModuleDescriptor> {
    entries.filter(selected_by(names, host))
}

/// Two tests that agree on every element of `s` filter `s` alike.
pub proof fn lemma_filter_agree<A>(s: Seq<A>, p: spec_fn(A) -> bool, q: spec_fn(A) -> bool)
    requires
        forall|i: int| 0 <= i < s.len() ==> p(#[trigger] s[i]) == q(s[i]),
    ensures
        s.filter(p) == s.filter(q),
    decreases s.len(),
{
    reveal(Seq::filter);
    if s.len() > 0 {
        lemma_filter_agree(s.drop_last(), p, q);
        assert(p(s[s.len() - 1]) == q(s[s.len() - 1]));
    }
}

/// Selecting with an empty request selects every module that applies to the
/// host.
pub proof fn lemma_empty_request_selects_all_eligible(
    entries: Seq<ModuleDescriptor>,
    host: Platform,
)
    ensures
        selection(entries, Seq::empty(), host) == entries.filter(eligible_on(host)),
{
    lemma_filter_agree(entries, selected_by(Seq::empty(), host), eligible_on(host));
}

/// A request that names no identifier is the empty request: it selects
/// every module that applies to the host.
pub proof fn lemma_request_without_identifiers(
    entries: Seq<ModuleDescriptor>,
    names: Seq<Seq<char>>,
    host: Platform,
)
    requires
        names.len() == 0,
    ensures
        selection(entries, names, host) == entries.filter(eligible_on(host)),
{
    assert(names =~= Seq::<Seq<char>>::empty());
    lemma_empty_request_selects_all_eligible(entries, host);
}

/// Every selected module applies to the host and, where identifiers were
/// requested, carries one of them: a module that does not apply to the host
/// is left out even when it is asked for by identifier.
pub proof fn lemma_selection_sound(
    entries: Seq<ModuleDescriptor>,
    names: Seq<Seq<char>>,
    host: Platform,
    i: int,
)
    requires
        0 <= i < selection(entries, names, host).len(),
    ensures
        selection(entries, names, host)[i].supports(host),
        names.len() > 0 ==> names.contains(selection(entries, names, host)[i].identifier@),
        entries.contains(selection(entries, names, host)[i]),
{
    let pred = selected_by(names, host);
    entries.lemma_filter_pred(pred, i);
    lemma_filter_within(entries, pred, i);
}

/// Every element of a filtered sequence is an element of the sequence.
proof fn lemma_filter_within<A>(s: Seq<A>, p: spec_fn(A) -> bool, i: int)
    requires
        0 <= i < s.filter(p).len(),
    ensures
        s.contains(s.filter(p)[i]),
    decreases s.len(),
{
    reveal(Seq::filter);
    if s.len() > 0 {
        let rest = s.drop_last().filter(p);
        if i < rest.len() {
            lemma_filter_within(s.drop_last(), p, i);
            let k = choose|k: int| 0 <= k < s.drop_last().len() && s.drop_last()[k] == rest[i];
            assert(s[k] == rest[i]);
        } else {
            assert(s[s.len() - 1] == s.filter(p)[i]);
        }
    }
}

/// Every module that was asked for and applies to the host is selected.
pub proof fn lemma_selection_complete(
    entries: Seq<ModuleDescriptor>,
    names: Seq<Seq<char>>,
    host: Platform,
    k: int,
)
    requires
        0 <= k < entries.len(),
        entries[k].supports(host),
        names.len() == 0 || names.contains(entries[k].identifier@),
    ensures
        selection(entries, names, host).contains(entries[k]),
{
    entries.lemma_filter_contains(selected_by(names, host), k);
}

/// An identifier that no module carries changes nothing when it is added to
/// a request that already names something: it is dropped without an error.
pub proof fn lemma_unknown_identifier_dropped(
    entries: Seq<ModuleDescriptor>,
    names: Seq<Seq<char>>,
    unknown: Seq<char>,
    host: Platform,
)
    requires
        names.len() > 0,
        !has_identifier(entries, unknown),
    ensures
        selection(entries, names.push(unknown), host) == selection(entries, names, host),
{
    let longer = names.push(unknown);
    assert forall|i: int| 0 <= i < entries.len() implies selected_by(longer, host)(
        #[trigger] entries[i],
    ) == selected_by(names, host)(entries[i]) by {
        let id = entries[i].identifier@;
        assert(id != unknown);
        if names.contains(id) {
            let k = choose|k: int| 0 <= k < names.len() && names[k] == id;
            assert(longer[k] == id);
        }
        if longer.contains(id) {
            let k = choose|k: int| 0 <= k < longer.len() && longer[k] == id;
            assert(names[k] == id);
        }
    }
    lemma_filter_agree(entries, selected_by(longer, host), selected_by(names, host));
}

/// Keeps, in order, the candidates that were asked for and apply to `host`.
pub fn pick<'a>(
    candidates: Vec<&'a ModuleDescriptor>,
    identifiers: &Vec<&str>,
    host: Platform,
) -> (out: Vec<&'a ModuleDescriptor>)
    ensures
        derefs(out@) == selection(derefs(candidates@), views_of(identifiers@), host),
{
    let ghost names = views_of(identifiers@);
    let ghost pred = selected_by(names, host);
    let ghost all = derefs(candidates@);
    let mut out: Vec<&'a ModuleDescriptor> = Vec::new();
    let n = candidates.len();
    let everything = identifiers.len() == 0;
    let mut i: usize = 0;
    proof {
        reveal(Seq::filter);
        assert(all.take(0) =~= Seq::<ModuleDescriptor>::empty());
        assert(derefs(out@) =~= all.take(0).filter(pred));
    }
    while i < n
        invariant
            i <= n,
            n == candidates@.len(),
            all == derefs(candidates@),
            names == views_of(identifiers@),
            pred == selected_by(names, host),
            everything == (names.len() == 0),
            derefs(out@) == all.take(i as int).filter(pred),
        decreases n - i,
    {
        let candidate = candidates[i];
        let keep = (everything || name_listed(identifiers, candidate.identifier.as_str()))
            && candidate.runs_on(host);
        let ghost before = derefs(out@);
        if keep {
            out.push(candidate);
        }
        proof {
            reveal(Seq::filter);
            assert(all.take(i as int + 1).drop_last() =~= all.take(i as int));
            assert(all.take(i as int + 1).last() == *candidate);
            if keep {
                assert(derefs(out@) =~= before.push(*candidate));
            }
        }
        i = i + 1;
    }
    assert(all.take(n as int) =~= all);
    out
}

/// The modules to run for a request: those of the registry that were asked
/// for (all of them where `identifiers` is empty) and that apply to `host`,
/// in registration order. Unknown identifiers are passed over.
pub fn select<'a>(registry: &'a Registry, identifiers: &Vec<&str>, host: Platform) -> (out: Vec<
    &'a ModuleDescriptor,
>)
    ensures
        derefs(out@) == selection(registry.entries(), views_of(identifiers@), host),
{
    pick(registry.refs(), identifiers, host)
}

/// As `select`, with the modules listed by category and display name instead
/// of registration order.
pub fn select_sorted<'a>(registry: &'a Registry, identifiers: &Vec<&str>, host: Platform) -> (out:
    Vec<&'a ModuleDescriptor>)
    ensures
        exists|listing: Seq<ModuleDescriptor>|
            #![auto]
            is_sorted_listing(registry.entries(), listing) && derefs(out@) == selection(
                listing,
                views_of(identifiers@),
                host,
            ),
{
    let sorted = registry.sorted_by_category();
    let ghost listing = derefs(sorted@);
    let out = pick(sorted, identifiers, host);
    assert(is_sorted_listing(registry.entries(), listing) && derefs(out@) == selection(
        listing,
        views_of(identifiers@),
        host,
    ));
    out
}

} // verus!
