//! The registry as a state machine over plain mathematical values, and what
//! holds of every run of it.

use crate::registry::identity::RenderId;
use vstd::prelude::*;

verus! {

/// What a registry knows.
pub struct RegistryState {
    /// The names of the factories.
    pub factories: Set<Seq<char>>,
    /// The loaded renders, each with the name of the factory it came from.
    pub renders: Map<RenderId, Seq<char>>,
    /// The render that is drawn, if one is.
    pub selected: Option<RenderId>,
    /// Every identity that was ever given to a render.
    pub issued: Set<RenderId>,
}

/// One call on a registry, together with what decided its result from
/// outside: for a load, the identity that the new render got, or `None` where
/// the factory was missing or constructed nothing.
pub enum Operation {
    Load { factory_name: Seq<char>, loaded: Option<RenderId> },
    Unload { id: RenderId },
    Select { id: RenderId },
}

impl RegistryState {
    /// The registry with the given factories before anything is loaded.
    pub open spec fn initial(factories: Set<Seq<char>>) -> RegistryState {
        RegistryState { factories, renders: Map::empty(), selected: None, issued: Set::empty() }
    }

    /// Whether the selected render is loaded, and every loaded render has an
    /// identity that was issued and comes from a factory of the registry.
    pub open spec fn wf(self) -> bool {
        &&& self.selected matches Some(id) ==> self.renders.dom().contains(id)
        &&& forall|id: RenderId| #[trigger]
            self.renders.dom().contains(id) ==> self.issued.contains(id)
                && self.factories.contains(self.renders[id])
    }

    /// The state after a render from `factory_name` was stored under `id`.
    pub open spec fn load(self, factory_name: Seq<char>, id: RenderId) -> RegistryState {
        RegistryState {
            renders: self.renders.insert(id, factory_name),
            issued: self.issued.insert(id),
            ..self
        }
    }

    /// The state after the render `id` was removed. A selection of `id` goes
    /// with it.
    pub open spec fn unload(self, id: RenderId) -> RegistryState {
        RegistryState {
            renders: self.renders.remove(id),
            selected: if self.selected == Some(id) {
                None
            } else {
                self.selected
            },
            ..self
        }
    }

    /// The state after `id` was selected.
    pub open spec fn select(self, id: RenderId) -> RegistryState {
        RegistryState { selected: Some(id), ..self }
    }

    /// Whether the operation can happen in this state: a load stores a render
    /// only from a factory of the registry, and under an identity that was
    /// never issued.
    pub open spec fn admits(self, operation: Operation) -> bool {
        match operation {
            Operation::Load { factory_name, loaded: Some(id) } => self.factories.contains(
                factory_name,
            ) && !self.issued.contains(id),
            _ => true,
        }
    }

    /// The state after the operation. An operation that fails changes nothing.
    pub open spec fn apply(self, operation: Operation) -> RegistryState {
        match operation {
            Operation::Load { factory_name, loaded: Some(id) } => self.load(factory_name, id),
            Operation::Load { factory_name, loaded: None } => self,
            Operation::Unload { id } => if self.renders.dom().contains(id) {
                self.unload(id)
            } else {
                self
            },
            Operation::Select { id } => if self.renders.dom().contains(id) {
                self.select(id)
            } else {
                self
            },
        }
    }

    /// The state after the first `n` of the operations.
    pub open spec fn after(self, operations: Seq<Operation>, n: nat) -> RegistryState
        decreases n,
    {
        if n == 0 {
            self
        } else {
            self.after(operations, (n - 1) as nat).apply(operations[n - 1])
        }
    }

    /// Whether each of the operations can happen in the state that the ones
    /// before it lead to.
    pub open spec fn admits_all(self, operations: Seq<Operation>) -> bool {
        forall|n: nat|
            n < operations.len() ==> (#[trigger] self.after(operations, n)).admits(
                operations[n as int],
            )
    }
}

/// An operation that can happen keeps the state well formed.
pub proof fn lemma_apply_keeps_wf(state: RegistryState, operation: Operation)
    requires
        state.wf(),
        state.admits(operation),
    ensures
        state.apply(operation).wf(),
{
}

/// After every single operation of a run, the selected render, if there is
/// one, is loaded.
pub proof fn lemma_selection_is_loaded(state: RegistryState, operations: Seq<Operation>, n: nat)
    requires
        state.wf(),
        state.admits_all(operations),
        n <= operations.len(),
    ensures
        state.after(operations, n).wf(),
        state.after(operations, n).selected matches Some(id) ==> state.after(
            operations,
            n,
        ).renders.dom().contains(id),
    decreases n,
{
    if n > 0 {
        let m = (n - 1) as nat;
        lemma_selection_is_loaded(state, operations, m);
        assert(state.after(operations, m).admits(operations[m as int]));
        lemma_apply_keeps_wf(state.after(operations, m), operations[m as int]);
    }
}

/// No operation takes an identity back: what was issued stays issued.
pub proof fn lemma_issued_grows(state: RegistryState, operations: Seq<Operation>, m: nat, n: nat)
    requires
        m <= n <= operations.len(),
    ensures
        state.after(operations, m).issued.subset_of(state.after(operations, n).issued),
    decreases n,
{
    if m < n {
        lemma_issued_grows(state, operations, m, (n - 1) as nat);
    }
}

/// No two loads of a run give the same identity, and none gives one that was
/// issued before the run.
pub proof fn lemma_identities_are_unique(
    state: RegistryState,
    operations: Seq<Operation>,
    i: int,
    j: int,
)
    requires
        state.admits_all(operations),
        0 <= i < j < operations.len(),
        operations[i] matches Operation::Load { loaded: Some(_), .. },
        operations[j] matches Operation::Load { loaded: Some(_), .. },
    ensures
        operations[i]->loaded != operations[j]->loaded,
        !state.issued.contains(operations[i]->loaded->0),
        !state.issued.contains(operations[j]->loaded->0),
{
    let first = operations[i]->loaded->0;
    let second = operations[j]->loaded->0;
    assert(state.after(operations, i as nat).admits(operations[i]));
    assert(state.after(operations, j as nat).admits(operations[j]));
    assert(state.after(operations, (i + 1) as nat).issued.contains(first));
    lemma_issued_grows(state, operations, (i + 1) as nat, j as nat);
    lemma_issued_grows(state, operations, 0, i as nat);
    lemma_issued_grows(state, operations, 0, j as nat);
}

/// Unloading the selected render leaves nothing selected; unloading another
/// one, or one that is not loaded, leaves the selection as it was.
pub proof fn lemma_unload_and_selection(state: RegistryState, id: RenderId)
    ensures
        state.apply(Operation::Unload { id }).selected == if state.renders.dom().contains(id)
            && state.selected == Some(id) {
            None
        } else {
            state.selected
        },
        state.wf() && state.selected == Some(id) ==> state.apply(
            Operation::Unload { id },
        ).selected is None,
{
}

} // verus!
