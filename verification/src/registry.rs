//! The registry: every module descriptor known to the process, filled during
//! start-up, frozen before the first query and read-only from then on.

use crate::descriptor::ModuleDescriptor;
use crate::error::RegistrationError;
use crate::order::{lemma_byte_order_transitive, lemma_text_order_total, order_of, text_order};
use crate::text::{same_text, views_of};
use vstd::prelude::*;
use vstd::string::*;
use vstd::utf8::encode_utf8;

verus! {

/// The descriptors behind a vector of references.
pub open spec fn derefs(refs: Seq<&ModuleDescriptor>) -> Seq<ModuleDescriptor> {
    Seq::new(refs.len(), |i: int| *refs[i])
}

/// Whether some entry carries the identifier `id`.
pub open spec fn has_identifier(entries: Seq<ModuleDescriptor>, id: Seq<char>) -> bool {
    exists|i: int| 0 <= i < entries.len() && (#[trigger] entries[i]).identifier@ == id
}

/// The test "the identifier is one of `names`".
pub open spec fn named_in(names: Seq<Seq<char>>) -> spec_fn(ModuleDescriptor) -> bool {
    |d: ModuleDescriptor| names.contains(d.identifier@)
}

/// What `register` answers for a descriptor, given what the registry holds
/// and whether it is frozen: the first refusal that applies, or `Ok`.
pub open spec fn register_outcome(
    entries: Seq<ModuleDescriptor>,
    frozen: bool,
    descriptor: ModuleDescriptor,
) -> Result<(), RegistrationError> {
    if frozen {
        Err(RegistrationError::Frozen)
    } else if !descriptor.well_formed() {
        Err(RegistrationError::Malformed)
    } else if has_identifier(entries, descriptor.identifier@) {
        Err(RegistrationError::Duplicate)
    } else {
        Ok(())
    }
}

/// What the registry holds after `register`: the descriptor comes last if
/// it was taken, and nothing changes if it was refused.
pub open spec fn entries_after_register(
    entries: Seq<ModuleDescriptor>,
    frozen: bool,
    descriptor: ModuleDescriptor,
) -> Seq<ModuleDescriptor> {
    if register_outcome(entries, frozen, descriptor) is Ok {
        entries.push(descriptor)
    } else {
        entries
    }
}

/// A frozen registry is immutable: it refuses every descriptor and holds
/// afterwards what it held before, so every lookup by identifier and every
/// sorted listing is the same before and after.
pub proof fn lemma_frozen_registry_is_immutable(
    entries: Seq<ModuleDescriptor>,
    descriptor: ModuleDescriptor,
    names: Seq<Seq<char>>,
    listing: Seq<ModuleDescriptor>,
)
    ensures
        register_outcome(entries, true, descriptor) == Err::<(), RegistrationError>(
            RegistrationError::Frozen,
        ),
        entries_after_register(entries, true, descriptor) == entries,
        entries_after_register(entries, true, descriptor).filter(named_in(names)) == entries.filter(
            named_in(names),
        ),
        is_sorted_listing(entries_after_register(entries, true, descriptor), listing)
            == is_sorted_listing(entries, listing),
{
}

/// Where no two elements of `s` pass the test `p`, at most one element is
/// kept by it, and one is kept exactly if one passes.
pub proof fn lemma_filter_at_most_one<A>(s: Seq<A>, p: spec_fn(A) -> bool)
    requires
        forall|i: int, j: int| 0 <= i < j < s.len() ==> !(p(#[trigger] s[i]) && p(#[trigger] s[j])),
    ensures
        s.filter(p).len() <= 1,
        s.filter(p).len() == 1 <==> exists|i: int| 0 <= i < s.len() && p(#[trigger] s[i]),
    decreases s.len(),
{
    reveal(Seq::filter);
    if s.len() > 0 {
        let init = s.drop_last();
        assert forall|i: int, j: int| 0 <= i < j < init.len() implies !(p(#[trigger] init[i]) && p(
            #[trigger] init[j],
        )) by {
            assert(init[i] == s[i] && init[j] == s[j]);
        }
        lemma_filter_at_most_one(init, p);
        if p(s.last()) {
            assert(s[s.len() - 1] == s.last());
            if exists|i: int| 0 <= i < init.len() && p(#[trigger] init[i]) {
                let i = choose|i: int| 0 <= i < init.len() && p(#[trigger] init[i]);
                assert(init[i] == s[i]);
                assert(false);
            }
        } else {
            if exists|i: int| 0 <= i < s.len() && p(#[trigger] s[i]) {
                let i = choose|i: int| 0 <= i < s.len() && p(#[trigger] s[i]);
                assert(i < init.len());
                assert(init[i] == s[i]);
            }
            if exists|i: int| 0 <= i < init.len() && p(#[trigger] init[i]) {
                let i = choose|i: int| 0 <= i < init.len() && p(#[trigger] init[i]);
                assert(init[i] == s[i]);
            }
        }
    }
}

/// The order of two descriptors in a sorted listing, as `-1`, `0` or `1`:
/// by category first, by display name where the categories are equal.
pub open spec fn key_order(a: ModuleDescriptor, b: ModuleDescriptor) -> int {
    let by_category = text_order(a.category@, b.category@);
    if by_category != 0 {
        by_category
    } else {
        text_order(a.display_name@, b.display_name@)
    }
}

/// Whether the entry at index `a` comes strictly before the entry at index
/// `b` in a sorted listing: its key is smaller, or the keys are equal and it
/// was registered first.
pub open spec fn precedes(entries: Seq<ModuleDescriptor>, a: int, b: int) -> bool {
    let k = key_order(entries[a], entries[b]);
    k < 0 || (k == 0 && a < b)
}

/// Whether the index `v` occurs in `order`.
pub open spec fn occurs(order: Seq<usize>, v: int) -> bool {
    exists|i: int| 0 <= i < order.len() && #[trigger] order[i] == v
}

/// Whether `order` lists every index of `entries` exactly once, sorted by
/// category and name, entries with equal keys in registration order.
pub open spec fn is_category_order(entries: Seq<ModuleDescriptor>, order: Seq<usize>) -> bool {
    &&& order.len() == entries.len()
    &&& forall|i: int| 0 <= i < order.len() ==> (#[trigger] order[i]) < entries.len()
    &&& forall|v: int| 0 <= v < entries.len() ==> #[trigger] occurs(order, v)
    &&& forall|i: int, j: int|
        0 <= i < j < order.len() ==> precedes(entries, #[trigger] order[i] as int, #[trigger] order[j] as int)
}

/// Whether `listing` is `entries` sorted by category and name, entries with
/// equal keys in registration order.
pub open spec fn is_sorted_listing(
    entries: Seq<ModuleDescriptor>,
    listing: Seq<ModuleDescriptor>,
) -> bool {
    exists|order: Seq<usize>|
        #![auto]
        is_category_order(entries, order) && listing == Seq::new(
            entries.len(),
            |i: int| entries[order[i] as int],
        )
}

/// `key_order` is antisymmetric and transitive.
pub proof fn lemma_key_order(a: ModuleDescriptor, b: ModuleDescriptor, c: ModuleDescriptor)
    ensures
        -1 <= key_order(a, b) <= 1,
        key_order(b, a) == -key_order(a, b),
        key_order(a, b) <= 0 && key_order(b, c) <= 0 ==> key_order(a, c) <= 0,
        key_order(a, b) <= 0 && key_order(b, c) <= 0 && (key_order(a, b) < 0 || key_order(b, c)
            < 0) ==> key_order(a, c) < 0,
{
    lemma_text_order_total(a.category@, b.category@);
    lemma_text_order_total(b.category@, c.category@);
    lemma_text_order_total(a.category@, c.category@);
    lemma_text_order_total(a.display_name@, b.display_name@);
    lemma_text_order_total(b.display_name@, c.display_name@);
    lemma_text_order_total(a.display_name@, c.display_name@);
    if key_order(a, b) <= 0 && key_order(b, c) <= 0 {
        lemma_byte_order_transitive(
            encode_utf8(a.category@),
            encode_utf8(b.category@),
            encode_utf8(c.category@),
        );
        if text_order(a.category@, b.category@) == 0 && text_order(b.category@, c.category@) == 0 {
            lemma_byte_order_transitive(
                encode_utf8(a.display_name@),
                encode_utf8(b.display_name@),
                encode_utf8(c.display_name@),
            );
        }
    }
}

/// `precedes` is a strict order on the indices of `entries`: it is
/// asymmetric and transitive.
pub proof fn lemma_precedes(entries: Seq<ModuleDescriptor>, a: int, b: int, c: int)
    ensures
        !(precedes(entries, a, b) && precedes(entries, b, a)),
        precedes(entries, a, b) && precedes(entries, b, c) ==> precedes(entries, a, c),
        a != b ==> precedes(entries, a, b) || precedes(entries, b, a),
{
    lemma_key_order(entries[a], entries[b], entries[c]);
    lemma_key_order(entries[b], entries[a], entries[c]);
}

/// Two sorted orders of the same entries agree on their first `k` places.
proof fn lemma_orders_agree(
    entries: Seq<ModuleDescriptor>,
    first: Seq<usize>,
    second: Seq<usize>,
    k: int,
)
    requires
        is_category_order(entries, first),
        is_category_order(entries, second),
        0 <= k <= entries.len(),
    ensures
        forall|j: int| 0 <= j < k ==> first[j] == second[j],
    decreases k,
{
    if k > 0 {
        lemma_orders_agree(entries, first, second, k - 1);
        let x = first[k - 1] as int;
        let y = second[k - 1] as int;
        if x != y {
            assert(occurs(second, x));
            assert(occurs(first, y));
            let j = choose|j: int| 0 <= j < second.len() && second[j] == x;
            let i = choose|i: int| 0 <= i < first.len() && first[i] == y;
            lemma_precedes(entries, x, y, x);
            lemma_precedes(entries, x, x, x);
            lemma_precedes(entries, y, y, y);
            if j < k - 1 {
                assert(precedes(entries, first[j] as int, first[k - 1] as int));
            }
            if i < k - 1 {
                assert(precedes(entries, second[i] as int, second[k - 1] as int));
            }
            assert(precedes(entries, second[k - 1] as int, second[j] as int));
            assert(precedes(entries, first[k - 1] as int, first[i] as int));
        }
    }
}

/// There is only one sorted order of given entries: sorting is deterministic.
pub proof fn lemma_category_order_unique(
    entries: Seq<ModuleDescriptor>,
    first: Seq<usize>,
    second: Seq<usize>,
)
    requires
        is_category_order(entries, first),
        is_category_order(entries, second),
    ensures
        first == second,
{
    lemma_orders_agree(entries, first, second, entries.len() as int);
    assert(first =~= second);
}

/// There is only one sorted listing of given entries.
pub proof fn lemma_sorted_listing_unique(
    entries: Seq<ModuleDescriptor>,
    first: Seq<ModuleDescriptor>,
    second: Seq<ModuleDescriptor>,
)
    requires
        is_sorted_listing(entries, first),
        is_sorted_listing(entries, second),
    ensures
        first == second,
{
    let o1 = choose|order: Seq<usize>|
        #![auto]
        is_category_order(entries, order) && first == Seq::new(
            entries.len(),
            |i: int| entries[order[i] as int],
        );
    let o2 = choose|order: Seq<usize>|
        #![auto]
        is_category_order(entries, order) && second == Seq::new(
            entries.len(),
            |i: int| entries[order[i] as int],
        );
    lemma_category_order_unique(entries, o1, o2);
}

/// Compares two descriptors by category, then by display name.
pub fn key_order_of(a: &ModuleDescriptor, b: &ModuleDescriptor) -> (r: i8)
    ensures
        r == key_order(*a, *b),
{
    let by_category = order_of(a.category.as_str(), b.category.as_str());
    if by_category != 0 {
        by_category
    } else {
        order_of(a.display_name.as_str(), b.display_name.as_str())
    }
}

/// The store of all registered descriptors.
pub struct Registry {
    entries: Vec<ModuleDescriptor>,
    frozen: bool,
}

impl Registry {
    /// The registered descriptors, in registration order.
    pub closed spec fn entries(&self) -> Seq<ModuleDescriptor> {
        self.entries@
    }

    /// Whether registration is over.
    pub closed spec fn frozen(&self) -> bool {
        self.frozen
    }

    /// What `new`, `register` and `freeze` keep true of a registry: each entry
    /// is well formed and no two entries share an identifier.
    pub closed spec fn valid(&self) -> bool {
        &&& forall|i: int| 0 <= i < self.entries@.len() ==> (#[trigger] self.entries@[i]).well_formed()
        &&& forall|i: int, j: int|
            0 <= i < j < self.entries@.len() ==> (#[trigger] self.entries@[i]).identifier@
                != (#[trigger] self.entries@[j]).identifier@
    }

    /// What `valid` says, over `entries`.
    pub proof fn lemma_valid(&self)
        requires
            self.valid(),
        ensures
            forall|i: int| 0 <= i < self.entries().len() ==> (#[trigger] self.entries()[i]).well_formed(),
            forall|i: int, j: int|
                0 <= i < j < self.entries().len() ==> (#[trigger] self.entries()[i]).identifier@
                    != (#[trigger] self.entries()[j]).identifier@,
    {
    }

    /// An identifier is a key: a lookup by one identifier finds one
    /// descriptor if the identifier is registered and none if it is not.
    pub proof fn lemma_identifier_is_a_key(&self, identifier: Seq<char>)
        requires
            self.valid(),
        ensures
            self.entries().filter(named_in(seq![identifier])).len() == (if has_identifier(
                self.entries(),
                identifier,
            ) {
                1nat
            } else {
                0nat
            }),
    {
        let entries = self.entries();
        let p = named_in(seq![identifier]);
        assert forall|i: int| 0 <= i < entries.len() implies p(#[trigger] entries[i]) == (
        entries[i].identifier@ == identifier) by {
            if entries[i].identifier@ == identifier {
                assert(seq![identifier][0] == entries[i].identifier@);
            }
        }
        lemma_filter_at_most_one(entries, p);
        if has_identifier(entries, identifier) {
            let i = choose|i: int| 0 <= i < entries.len() && (#[trigger] entries[i]).identifier@ == identifier;
            assert(p(entries[i]));
        }
    }

    /// An empty registry, open for registration.
    pub fn new() -> (out: Registry)
        ensures
            out.entries() == Seq::<ModuleDescriptor>::empty(),
            !out.frozen(),
            out.valid(),
    {
        Registry { entries: Vec::new(), frozen: false }
    }

    /// Whether a descriptor with this identifier is registered.
    pub fn contains_identifier(&self, identifier: &str) -> (b: bool)
        ensures
            b == has_identifier(self.entries(), identifier@),
    {
        let n = self.entries.len();
        let mut i: usize = 0;
        while i < n
            invariant
                i <= n,
                n == self.entries@.len(),
                forall|k: int| 0 <= k < i ==> (#[trigger] self.entries@[k]).identifier@ != identifier@,
            decreases n - i,
        {
            if same_text(self.entries[i].identifier.as_str(), identifier) {
                return true;
            }
            i = i + 1;
        }
        false
    }

    /// Takes a descriptor into the registry. The call is refused, and the
    /// registry left as it was, when the registry is frozen, when the
    /// descriptor is malformed, or when its identifier is already taken; the
    /// first of these that applies is reported.
    pub fn register(&mut self, descriptor: ModuleDescriptor) -> (out: Result<
        (),
        RegistrationError,
    >)
        requires
            old(self).valid(),
        ensures
            final(self).valid(),
            final(self).frozen() == old(self).frozen(),
            out == register_outcome(old(self).entries(), old(self).frozen(), descriptor),
            final(self).entries() == entries_after_register(
                old(self).entries(),
                old(self).frozen(),
                descriptor,
            ),
    {
        if self.frozen {
            return Err(RegistrationError::Frozen);
        }
        if !descriptor.is_well_formed() {
            return Err(RegistrationError::Malformed);
        }
        if self.contains_identifier(descriptor.identifier.as_str()) {
            return Err(RegistrationError::Duplicate);
        }
        self.entries.push(descriptor);
        Ok(())
    }

    /// Ends registration: every later `register` is refused.
    pub fn freeze(&mut self)
        requires
            old(self).valid(),
        ensures
            final(self).valid(),
            final(self).frozen(),
            final(self).entries() == old(self).entries(),
    {
        self.frozen = true;
    }

    /// Whether registration is over.
    pub fn is_frozen(&self) -> (b: bool)
        ensures
            b == self.frozen(),
    {
        self.frozen
    }

    /// Number of registered descriptors.
    pub fn len(&self) -> (n: usize)
        ensures
            n == self.entries().len(),
    {
        self.entries.len()
    }

    /// Every registered descriptor, in registration order.
    pub fn all(&self) -> (out: &Vec<ModuleDescriptor>)
        ensures
            out@ == self.entries(),
    {
        &self.entries
    }

    /// A reference to every registered descriptor, in registration order.
    pub fn refs<'a>(&'a self) -> (out: Vec<&'a ModuleDescriptor>)
        ensures
            derefs(out@) == self.entries(),
    {
        let mut out: Vec<&'a ModuleDescriptor> = Vec::new();
        let n = self.entries.len();
        let mut i: usize = 0;
        while i < n
            invariant
                i <= n,
                n == self.entries@.len(),
                out@.len() == i,
                forall|k: int| 0 <= k < i ==> *(#[trigger] out@[k]) == self.entries@[k],
            decreases n - i,
        {
            out.push(&self.entries[i]);
            i = i + 1;
        }
        assert(derefs(out@) =~= self.entries@);
        out
    }

    /// The registered descriptors whose identifier is one of `identifiers`,
    /// in registration order. Identifiers that match nothing are passed over.
    pub fn find_by_identifiers<'a>(&'a self, identifiers: &Vec<&str>) -> (out: Vec<
        &'a ModuleDescriptor,
    >)
        ensures
            derefs(out@) == self.entries().filter(named_in(views_of(identifiers@))),
    {
        let ghost wanted = named_in(views_of(identifiers@));
        let mut out: Vec<&'a ModuleDescriptor> = Vec::new();
        let n = self.entries.len();
        let mut i: usize = 0;
        proof {
            reveal(Seq::filter);
            assert(self.entries@.take(0) =~= Seq::<ModuleDescriptor>::empty());
            assert(derefs(out@) =~= self.entries@.take(0).filter(wanted));
        }
        while i < n
            invariant
                i <= n,
                n == self.entries@.len(),
                wanted == named_in(views_of(identifiers@)),
                derefs(out@) == self.entries@.take(i as int).filter(wanted),
            decreases n - i,
        {
            let entry = &self.entries[i];
            let hit = name_listed(identifiers, entry.identifier.as_str());
            let ghost before = derefs(out@);
            if hit {
                out.push(entry);
            }
            proof {
                reveal(Seq::filter);
                assert(self.entries@.take(i as int + 1).drop_last() =~= self.entries@.take(
                    i as int,
                ));
                if hit {
                    assert(derefs(out@) =~= before.push(*entry));
                }
            }
            i = i + 1;
        }
        assert(self.entries@.take(n as int) =~= self.entries@);
        out
    }

    /// The indices of the registered descriptors in sorted order: by
    /// category, then by display name, then by registration order.
    pub fn category_order(&self) -> (order: Vec<usize>)
        ensures
            is_category_order(self.entries(), order@),
    {
        let n = self.entries.len();
        let mut order: Vec<usize> = Vec::new();
        let mut i: usize = 0;
        while i < n
            invariant
                i <= n,
                n == self.entries@.len(),
                order@.len() == i,
                forall|k: int| 0 <= k < order@.len() ==> (#[trigger] order@[k]) < i,
                forall|v: int| 0 <= v < i ==> #[trigger] occurs(order@, v),
                forall|a: int, b: int|
                    0 <= a < b < order@.len() ==> precedes(
                        self.entries@,
                        #[trigger] order@[a] as int,
                        #[trigger] order@[b] as int,
                    ),
            decreases n - i,
        {
            let mut p: usize = order.len();
            while p > 0 && key_order_of(&self.entries[order[p - 1]], &self.entries[i]) > 0
                invariant
                    p <= order@.len(),
                    i < n,
                    n == self.entries@.len(),
                    forall|k: int| 0 <= k < order@.len() ==> (#[trigger] order@[k]) < i,
                    forall|q: int|
                        p <= q < order@.len() ==> key_order(
                            self.entries@[#[trigger] order@[q] as int],
                            self.entries@[i as int],
                        ) > 0,
                decreases p,
            {
                p = p - 1;
            }
            let ghost before = order@;
            order.insert(p, i);
            proof {
                let after = order@;
                let entries = self.entries@;
                assert forall|v: int| 0 <= v < i + 1 implies #[trigger] occurs(after, v) by {
                    if v == i {
                        assert(after[p as int] == v);
                    } else {
                        assert(occurs(before, v));
                        let k = choose|k: int| 0 <= k < before.len() && before[k] == v;
                        if k < p {
                            assert(after[k] == v);
                        } else {
                            assert(after[k + 1] == v);
                        }
                    }
                }
                assert forall|a: int, b: int| 0 <= a < b < after.len() implies precedes(
                    entries,
                    #[trigger] after[a] as int,
                    #[trigger] after[b] as int,
                ) by {
                    if b < p {
                        assert(after[a] == before[a] && after[b] == before[b]);
                    } else if b == p {
                        assert(after[a] == before[a]);
                        assert(before[p - 1] < i);
                        assert(precedes(entries, before[p - 1] as int, i as int));
                        if a < p - 1 {
                            assert(precedes(entries, before[a] as int, before[p - 1] as int));
                            lemma_precedes(entries, before[a] as int, before[p - 1] as int, i as int);
                        }
                    } else if a == p {
                        assert(after[b] == before[b - 1]);
                        lemma_key_order(entries[before[b - 1] as int], entries[i as int], entries[i as int]);
                    } else if a < p {
                        assert(after[a] == before[a] && after[b] == before[b - 1]);
                    } else {
                        assert(after[a] == before[a - 1] && after[b] == before[b - 1]);
                    }
                }
            }
            i = i + 1;
        }
        order
    }

    /// The registered descriptors sorted by category, then by display name;
    /// descriptors that agree on both keep their registration order.
    pub fn sorted_by_category<'a>(&'a self) -> (out: Vec<&'a ModuleDescriptor>)
        ensures
            is_sorted_listing(self.entries(), derefs(out@)),
    {
        let order = self.category_order();
        let n = order.len();
        let mut out: Vec<&'a ModuleDescriptor> = Vec::new();
        let mut i: usize = 0;
        while i < n
            invariant
                i <= n,
                n == order@.len(),
                is_category_order(self.entries@, order@),
                out@.len() == i,
                forall|k: int| 0 <= k < i ==> *(#[trigger] out@[k]) == self.entries@[order@[k] as int],
            decreases n - i,
        {
            out.push(&self.entries[order[i]]);
            i = i + 1;
        }
        assert(derefs(out@) =~= Seq::new(
            self.entries@.len(),
            |i: int| self.entries@[order@[i] as int],
        ));
        out
    }
}

/// Whether `name` is one of `names`.
pub fn name_listed(names: &Vec<&str>, name: &str) -> (b: bool)
    ensures
        b == views_of(names@).contains(name@),
{
    let n = names.len();
    let mut i: usize = 0;
    while i < n
        invariant
            i <= n,
            n == names@.len(),
            forall|k: int| 0 <= k < i ==> (#[trigger] names@[k])@ != name@,
        decreases n - i,
    {
        if same_text(names[i], name) {
            assert(views_of(names@)[i as int] == name@);
            return true;
        }
        i = i + 1;
    }
    assert forall|k: int| 0 <= k < views_of(names@).len() implies views_of(names@)[k]
        != name@ by {
        assert(names@[k]@ != name@);
    }
    false
}

} // verus!
