//! Registration of a module together with the code behind it: the
//! descriptor goes to the registry, the constructor of the runnable module
//! is kept under the module's identifier.

use crate::descriptor::{ExecutionMode, ModuleDescriptor};
use crate::error::RegistrationError;
use crate::registry::{entries_after_register, register_outcome, Registry};
use crate::text::same_text;
use vstd::prelude::*;
use vstd::string::*;

verus! {

/// A runnable module, by the way it runs.
#[derive(Debug)]
pub enum ModuleExecution<L, G, B> {
    /// Runs on the calling context only.
    Local(L),
    /// May run on any worker.
    Global(G),
    /// Blocks the worker it runs on.
    Blocking(B),
}

impl<L, G, B> ModuleExecution<L, G, B> {
    /// The execution mode that goes with each kind of module.
    pub open spec fn mode(&self) -> ExecutionMode {
        match self {
            ModuleExecution::Local(_) => ExecutionMode::LocalAsync,
            ModuleExecution::Global(_) => ExecutionMode::GlobalAsync,
            ModuleExecution::Blocking(_) => ExecutionMode::Blocking,
        }
    }

    /// The execution mode to declare for this module.
    pub fn execution_mode(&self) -> (out: ExecutionMode)
        ensures
            out == self.mode(),
    {
        match self {
            ModuleExecution::Local(_) => ExecutionMode::LocalAsync,
            ModuleExecution::Global(_) => ExecutionMode::GlobalAsync,
            ModuleExecution::Blocking(_) => ExecutionMode::Blocking,
        }
    }
}

/// The constructor of a module, kept under the module's identifier.
#[derive(Debug)]
pub struct ModuleHolder<F> {
    pub identifier: String,
    pub constructor: F,
}

/// The constructors of the registered modules.
pub struct Factories<F> {
    holders: Vec<ModuleHolder<F>>,
}

/// The place of the first holder with this identifier, if there is one.
pub open spec fn first_holder<F>(holders: Seq<ModuleHolder<F>>, identifier: Seq<char>) -> Option<
    int,
>
    decreases holders.len(),
{
    if holders.len() == 0 {
        None
    } else {
        match first_holder(holders.drop_last(), identifier) {
            Some(i) => Some(i),
            None => if holders.last().identifier@ == identifier {
                Some(holders.len() - 1)
            } else {
                None
            },
        }
    }
}

/// `first_holder` finds a holder with the identifier, the first of them,
/// and finds none only where there is none.
pub proof fn lemma_first_holder<F>(holders: Seq<ModuleHolder<F>>, identifier: Seq<char>)
    ensures
        match first_holder(holders, identifier) {
            Some(i) => 0 <= i < holders.len() && holders[i].identifier@ == identifier && forall|
                k: int,
            | 0 <= k < i ==> (#[trigger] holders[k]).identifier@ != identifier,
            None => forall|k: int|
                0 <= k < holders.len() ==> (#[trigger] holders[k]).identifier@ != identifier,
        },
    decreases holders.len(),
{
    if holders.len() > 0 {
        let init = holders.drop_last();
        lemma_first_holder(init, identifier);
        match first_holder(init, identifier) {
            Some(i) => {
                assert(init[i] == holders[i]);
                assert forall|k: int| 0 <= k < i implies (#[trigger] holders[k]).identifier@
                    != identifier by {
                    assert(init[k] == holders[k]);
                }
            },
            None => {
                assert forall|k: int| 0 <= k < holders.len() - 1 implies (
                #[trigger] holders[k]).identifier@ != identifier by {
                    assert(init[k] == holders[k]);
                }
            },
        }
    }
}

impl<F> Factories<F> {
    /// The holders, in the order they were put in.
    pub closed spec fn holders(&self) -> Seq<ModuleHolder<F>> {
        self.holders@
    }

    /// No constructors yet.
    pub fn new() -> (out: Factories<F>)
        ensures
            out.holders() == Seq::<ModuleHolder<F>>::empty(),
    {
        Factories { holders: Vec::new() }
    }

    /// Number of constructors.
    pub fn len(&self) -> (n: usize)
        ensures
            n == self.holders().len(),
    {
        self.holders.len()
    }

    /// Puts a holder in, after the others.
    pub fn insert(&mut self, holder: ModuleHolder<F>)
        ensures
            final(self).holders() == old(self).holders().push(holder),
    {
        self.holders.push(holder);
    }

    /// The constructor kept under `identifier`: that of the first holder
    /// with this identifier.
    pub fn constructor_for(&self, identifier: &str) -> (out: Option<&F>)
        ensures
            match first_holder(self.holders(), identifier@) {
                Some(i) => out == Some(&self.holders()[i].constructor),
                None => out is None,
            },
    {
        let n = self.holders.len();
        let mut i: usize = 0;
        assert(self.holders@.take(0) =~= Seq::<ModuleHolder<F>>::empty());
        while i < n
            invariant
                i <= n,
                n == self.holders@.len(),
                first_holder(self.holders@.take(i as int), identifier@) is None,
            decreases n - i,
        {
            assert(self.holders@.take(i as int + 1).drop_last() =~= self.holders@.take(i as int));
            if same_text(self.holders[i].identifier.as_str(), identifier) {
                proof {
                    lemma_first_holder_extends(self.holders@, i as int + 1, identifier@);
                }
                return Some(&self.holders[i].constructor);
            }
            i = i + 1;
        }
        assert(self.holders@.take(n as int) =~= self.holders@);
        None
    }
}

/// What `first_holder` finds in a prefix, it finds in the whole.
proof fn lemma_first_holder_extends<F>(
    holders: Seq<ModuleHolder<F>>,
    upto: int,
    identifier: Seq<char>,
)
    requires
        0 <= upto <= holders.len(),
        first_holder(holders.take(upto), identifier) is Some,
    ensures
        first_holder(holders, identifier) == first_holder(holders.take(upto), identifier),
    decreases holders.len() - upto,
{
    if upto < holders.len() {
        assert(holders.take(upto + 1).drop_last() =~= holders.take(upto));
        lemma_first_holder_extends(holders, upto + 1, identifier);
    } else {
        assert(holders.take(upto) =~= holders);
    }
}

/// Registers a module with the code behind it: the descriptor is taken into
/// the registry as `Registry::register` takes it, and the constructor is
/// kept under the descriptor's identifier if, and only if, the descriptor
/// was taken.
pub fn register_module<F>(
    registry: &mut Registry,
    factories: &mut Factories<F>,
    descriptor: ModuleDescriptor,
    constructor: F,
) -> (out: Result<(), RegistrationError>)
    requires
        old(registry).valid(),
    ensures
        final(registry).valid(),
        final(registry).frozen() == old(registry).frozen(),
        out == register_outcome(old(registry).entries(), old(registry).frozen(), descriptor),
        final(registry).entries() == entries_after_register(
            old(registry).entries(),
            old(registry).frozen(),
            descriptor,
        ),
        out is Err ==> final(factories).holders() == old(factories).holders(),
        out is Ok ==> final(factories).holders() == old(factories).holders().push(
            (ModuleHolder { identifier: descriptor.identifier, constructor }),
        ),
{
    let identifier = descriptor.identifier.clone();
    match registry.register(descriptor) {
        Ok(()) => {
            factories.insert(ModuleHolder { identifier, constructor });
            Ok(())
        },
        Err(e) => Err(e),
    }
}

} // verus!
