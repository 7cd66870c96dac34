//! The store of render factories and of the renders loaded from them.

use crate::canvas::{Canvas, Image};
use crate::geometry::Size;
use crate::render::{LoadError, Render, RenderError, RenderFactory};
use crate::text::same_text;
use std::collections::{HashMap, HashSet};
use vstd::prelude::*;
use vstd::std_specs::hash::spec_hash_map_iter;
use vstd::std_specs::iter::IteratorSpec;

pub mod error;
pub mod identity;
pub mod model;

pub use error::RegistryError;
pub use identity::RenderId;
pub use model::{Operation, RegistryState};

use identity::{first_free, is_first_free};

verus! {

/// A loaded render and the name of the factory that constructed it.
pub struct RenderEntry<R> {
    pub render: R,
    pub factory_name: String,
}

/// Holds named factories and the renders loaded from them, each under an
/// identity of its own, and draws the one that is selected.
#[verifier::reject_recursive_types(F)]
#[verifier::reject_recursive_types(D)]
pub struct Registry<F, D> where D: Canvas, F: RenderFactory<D> {
    factory_entries: Vec<F>,
    render_entries: HashMap<u128, RenderEntry<F::Output>>,
    selected: Option<RenderId>,
    issued: HashSet<u128>,
}

/// The names of the factories in `factories`.
pub open spec fn names_of<F: RenderFactory<D>, D: Canvas>(factories: Seq<F>) -> Set<Seq<char>> {
    Set::new(
        |name: Seq<char>|
            exists|i: int| 0 <= i < factories.len() && #[trigger] factories[i].name() == name,
    )
}

/// Whether no two of the factories have the same name.
pub open spec fn distinct_names<F: RenderFactory<D>, D: Canvas>(factories: Seq<F>) -> bool {
    forall|i: int, j: int|
        0 <= i < j < factories.len() ==> #[trigger] factories[i].name() != #[trigger] factories[j].name()
}

/// Whether place `i` of `factories` holds the last factory of its name.
pub open spec fn is_last_of_name<F: RenderFactory<D>, D: Canvas>(factories: Seq<F>, i: int) -> bool {
    &&& 0 <= i < factories.len()
    &&& forall|j: int| i < j < factories.len() ==> #[trigger] factories[j].name() != factories[i].name()
}

/// Whether `factory` is, of the factories of its name in `factories`, the last.
pub open spec fn is_kept_of<F: RenderFactory<D>, D: Canvas>(factories: Seq<F>, factory: F) -> bool {
    exists|i: int| #[trigger] is_last_of_name(factories, i) && factories[i] == factory
}

impl<F, D> View for Registry<F, D> where D: Canvas, F: RenderFactory<D> {
    type V = RegistryState;

    open spec fn view(&self) -> RegistryState {
        RegistryState {
            factories: names_of(self.factories()),
            renders: Map::new(
                |id: RenderId| self.entries().dom().contains(id),
                |id: RenderId| self.entries()[id].factory_name@,
            ),
            selected: self.selected(),
            issued: self.issued(),
        }
    }
}

impl<F, D> Registry<F, D> where D: Canvas, F: RenderFactory<D> {
    /// The factories, in the order in which they are listed.
    pub closed spec fn factories(&self) -> Seq<F> {
        self.factory_entries@
    }

    /// The loaded renders by identity.
    pub closed spec fn entries(&self) -> Map<RenderId, RenderEntry<F::Output>> {
        Map::new(
            |id: RenderId| self.render_entries@.contains_key(id.value),
            |id: RenderId| self.render_entries@[id.value],
        )
    }

    /// The identity of the render that is drawn, if one is.
    pub closed spec fn selected(&self) -> Option<RenderId> {
        self.selected
    }

    /// The values of the identities that the registry ever gave to a render.
    pub closed spec fn issued_values(&self) -> Set<u128> {
        self.issued@
    }

    /// Every identity that the registry ever gave to a render.
    pub open spec fn issued(&self) -> Set<RenderId> {
        Set::new(|id: RenderId| self.issued_values().contains(id.value))
    }

    /// Whether the registry is in a consistent state: no two factories share
    /// a name, finitely many identities were issued, and the state is well
    /// formed, so that the selected render, if there is one, is loaded.
    pub open spec fn wf(&self) -> bool {
        &&& distinct_names(self.factories())
        &&& self.issued_values().finite()
        &&& self@.wf()
    }

    /// The place of the factory called `name`, if there is one.
    fn position(factories: &Vec<F>, name: &str) -> (place: Option<usize>)
        ensures
            match place {
                Some(i) => i < factories@.len() && factories@[i as int].name() == name@,
                None => !names_of(factories@).contains(name@),
            },
    {
        let mut i: usize = 0;
        while i < factories.len()
            invariant
                0 <= i <= factories@.len(),
                forall|j: int| 0 <= j < i ==> #[trigger] factories@[j].name() != name@,
            decreases factories@.len() - i,
        {
            if same_text(factories[i].render_name(), name) {
                return Some(i);
            }
            i += 1;
        }
        None
    }

    /// A registry of the given factories in which nothing is loaded. Where
    /// several factories have one name, the last of them is kept.
    pub fn new(factories: Vec<F>) -> (registry: Self)
        ensures
            registry.wf(),
            registry@ == RegistryState::initial(names_of(factories@)),
            registry.entries() == Map::<RenderId, RenderEntry<F::Output>>::empty(),
            forall|k: int|
                0 <= k < registry.factories().len() ==> is_kept_of(
                    factories@,
                    #[trigger] registry.factories()[k],
                ),
    {
        let mut rest = factories;
        let mut kept: Vec<F> = Vec::new();
        while rest.len() > 0
            invariant
                rest@.len() <= factories@.len(),
                rest@ == factories@.take(rest@.len() as int),
                distinct_names(kept@),
                forall|k: int|
                    0 <= k < kept@.len() ==> is_kept_of(factories@, #[trigger] kept@[k]),
                forall|i: int|
                    rest@.len() <= i < factories@.len() ==> names_of(kept@).contains(
                        #[trigger] factories@[i].name(),
                    ),
            decreases rest@.len(),
        {
            let ghost place = rest@.len() - 1;
            let ghost before = kept@;
            let factory = rest.pop().unwrap();
            assert(factory == factories@[place]);
            let found = Self::position(&kept, factory.render_name());
            if found.is_none() {
                kept.push(factory);
                proof {
                    assert(is_last_of_name(factories@, place)) by {
                        assert forall|j: int| place < j < factories@.len() implies #[trigger] factories@[j].name()
                            != factories@[place].name() by {
                            assert(names_of(before).contains(factories@[j].name()));
                        }
                    }
                    assert forall|i: int|
                        rest@.len() <= i < factories@.len() implies names_of(kept@).contains(
                        #[trigger] factories@[i].name(),
                    ) by {
                        if i == place {
                            assert(kept@[kept@.len() - 1].name() == factories@[i].name());
                        } else {
                            let k = choose|k: int|
                                0 <= k < before.len() && #[trigger] before[k].name()
                                    == factories@[i].name();
                            assert(kept@[k].name() == factories@[i].name());
                        }
                    }
                    assert forall|k: int| 0 <= k < kept@.len() implies is_kept_of(
                        factories@,
                        #[trigger] kept@[k],
                    ) by {
                        if k < before.len() {
                            assert(is_kept_of(factories@, before[k]));
                        }
                    }
                }
            } else {
                proof {
                    assert forall|i: int|
                        rest@.len() <= i < factories@.len() implies names_of(kept@).contains(
                        #[trigger] factories@[i].name(),
                    ) by {
                        if i == place {
                            assert(kept@[found.unwrap() as int].name() == factories@[i].name());
                        }
                    }
                }
            }
        }
        let registry = Registry {
            factory_entries: kept,
            render_entries: HashMap::new(),
            selected: None,
            issued: HashSet::new(),
        };
        proof {
            assert(names_of(kept@) =~= names_of(factories@)) by {
                assert forall|name: Seq<char>| names_of(kept@).contains(name) implies names_of(
                    factories@,
                ).contains(name) by {
                    let k = choose|k: int| 0 <= k < kept@.len() && #[trigger] kept@[k].name() == name;
                    let i = choose|i: int|
                        #[trigger] is_last_of_name(factories@, i) && factories@[i] == kept@[k];
                    assert(factories@[i].name() == name);
                }
                assert forall|name: Seq<char>| names_of(factories@).contains(name) implies names_of(
                    kept@,
                ).contains(name) by {
                    let i = choose|i: int|
                        0 <= i < factories@.len() && #[trigger] factories@[i].name() == name;
                    assert(names_of(kept@).contains(factories@[i].name()));
                }
            }
            assert(registry@.renders =~= Map::<RenderId, Seq<char>>::empty());
            assert(registry@.issued =~= Set::<RenderId>::empty());
            assert(registry.entries() =~= Map::<RenderId, RenderEntry<F::Output>>::empty());
        }
        registry
    }

    /// Whether the registry is `earlier` but for the loaded renders and what
    /// follows from them: it has the factories and the selection of `earlier`.
    pub open spec fn keeps(&self, earlier: &Self) -> bool {
        &&& self.factories() == earlier.factories()
        &&& self.selected() == earlier.selected()
    }

    /// Whether nothing of `earlier` has changed.
    pub open spec fn unchanged(&self, earlier: &Self) -> bool {
        &&& self.keeps(earlier)
        &&& self.entries() == earlier.entries()
        &&& self.issued_values() == earlier.issued_values()
        &&& self@ == earlier@
    }

    /// Whether `self` is `earlier` with `render`, constructed by the factory
    /// called `factory_name`, stored under `id`.
    pub open spec fn stores(
        &self,
        earlier: &Self,
        id: RenderId,
        render: F::Output,
        factory_name: Seq<char>,
    ) -> bool {
        &&& self.keeps(earlier)
        &&& self.issued_values() == earlier.issued_values().insert(id.value)
        &&& self.entries().dom() == earlier.entries().dom().insert(id)
        &&& self.entries()[id].render == render
        &&& self.entries()[id].factory_name@ == factory_name
        &&& forall|other: RenderId|
            other != id && earlier.entries().dom().contains(other) ==> #[trigger] self.entries()[other]
                == earlier.entries()[other]
        &&& self@ == earlier@.load(factory_name, id)
    }

    /// Stores what the factory called `factory_name` constructed. The render
    /// gets the identity `candidate`, or, where that one was issued before,
    /// the first one after it that was not. Nothing is stored where the
    /// registry has no such factory or the factory constructed nothing.
    pub fn store(
        &mut self,
        factory_name: &str,
        constructed: Result<F::Output, LoadError>,
        candidate: RenderId,
    ) -> (loaded: Result<RenderId, RegistryError>)
        requires
            old(self).wf(),
        ensures
            final(self).wf(),
            match loaded {
                Ok(id) => {
                    &&& old(self)@.factories.contains(factory_name@)
                    &&& constructed is Ok
                    &&& is_first_free(old(self).issued_values(), candidate.value, id.value)
                    &&& !old(self).issued().contains(id)
                    &&& final(self).stores(old(self), id, constructed->Ok_0, factory_name@)
                },
                Err(RegistryError::FactoryNotFound(name)) => {
                    &&& name@ == factory_name@
                    &&& !old(self)@.factories.contains(factory_name@)
                    &&& final(self).unchanged(old(self))
                },
                Err(RegistryError::FileIoError) => {
                    &&& old(self)@.factories.contains(factory_name@)
                    &&& constructed is Err
                    &&& final(self).unchanged(old(self))
                },
                Err(_) => false,
            },
    {
        if Self::position(&self.factory_entries, factory_name).is_none() {
            return Err(RegistryError::FactoryNotFound(factory_name.to_owned()));
        }
        let render = match constructed {
            Ok(render) => render,
            Err(_) => {
                return Err(RegistryError::FileIoError);
            },
        };
        let value = first_free(&self.issued, candidate.value);
        let id = RenderId { value };
        let entry = RenderEntry { render, factory_name: factory_name.to_owned() };
        self.issued.insert(value);
        self.render_entries.insert(value, entry);
        proof {
            assert(self.entries().dom() =~= old(self).entries().dom().insert(id));
            assert(self.issued() =~= old(self).issued().insert(id));
            assert(self@.renders =~= old(self)@.load(factory_name@, id).renders);
            assert(self@ == old(self)@.load(factory_name@, id));
            assert(old(self)@.admits(
                Operation::Load { factory_name: factory_name@, loaded: Some(id) },
            ));
            model::lemma_apply_keeps_wf(
                old(self)@,
                Operation::Load { factory_name: factory_name@, loaded: Some(id) },
            );
        }
        Ok(id)
    }

    /// Loads a render: asks the factory called `factory_name` to construct one
    /// from `config` and, if it does, stores the render under an identity of
    /// its own, which was never issued before. Where there is such a factory,
    /// the load succeeds exactly when the factory constructs a render.
    pub fn load(&mut self, factory_name: &str, config: &[u8]) -> (loaded: Result<
        RenderId,
        RegistryError,
    >)
        requires
            old(self).wf(),
        ensures
            final(self).wf(),
            match loaded {
                Ok(id) => {
                    &&& old(self)@.admits(
                        Operation::Load { factory_name: factory_name@, loaded: Some(id) },
                    )
                    &&& exists|render: F::Output|
                        final(self).stores(old(self), id, render, factory_name@)
                },
                Err(RegistryError::FactoryNotFound(name)) => {
                    &&& name@ == factory_name@
                    &&& !old(self)@.factories.contains(factory_name@)
                    &&& final(self).unchanged(old(self))
                },
                Err(RegistryError::FileIoError) => {
                    &&& old(self)@.factories.contains(factory_name@)
                    &&& final(self).unchanged(old(self))
                },
                Err(_) => false,
            },
            old(self)@.factories.contains(factory_name@) ==> exists|
                i: int,
                constructed: Result<F::Output, LoadError>,
            |
                {
                    &&& 0 <= i < old(self).factories().len()
                    &&& old(self).factories()[i].name() == factory_name@
                    &&& #[trigger] old(self).factories()[i].constructs(config@, constructed)
                    &&& (loaded is Ok <==> constructed is Ok)
                    &&& (loaded matches Ok(id) ==> final(self).stores(
                        old(self),
                        id,
                        constructed->Ok_0,
                        factory_name@,
                    ))
                },
    {
        let place = match Self::position(&self.factory_entries, factory_name) {
            Some(place) => place,
            None => {
                return Err(RegistryError::FactoryNotFound(factory_name.to_owned()));
            },
        };
        let constructed = self.factory_entries[place].load_from_config(config);
        let ghost answer = constructed;
        let loaded = match constructed {
            Ok(render) => {
                let candidate = RenderId::random();
                self.store(factory_name, Ok(render), candidate)
            },
            Err(_) => Err(RegistryError::FileIoError),
        };
        proof {
            assert(old(self).factories()[place as int].constructs(config@, answer));
            if loaded is Ok {
                assert(self.stores(old(self), loaded->Ok_0, answer->Ok_0, factory_name@));
            }
        }
        loaded
    }

    /// Removes the render `id`. Where it was the selected one, nothing is
    /// selected afterwards.
    pub fn unload(&mut self, id: &RenderId) -> (unloaded: Result<(), RegistryError>)
        requires
            old(self).wf(),
        ensures
            final(self).wf(),
            final(self)@ == old(self)@.apply(Operation::Unload { id: *id }),
            final(self).factories() == old(self).factories(),
            final(self).issued_values() == old(self).issued_values(),
            final(self).entries() == old(self).entries().remove(*id),
            final(self).selected() == if old(self).selected() == Some(*id) {
                None
            } else {
                old(self).selected()
            },
            match unloaded {
                Ok(_) => old(self).entries().dom().contains(*id),
                Err(RegistryError::RenderNotFound(missing)) => missing == *id && !old(
                    self,
                ).entries().dom().contains(*id),
                Err(_) => false,
            },
    {
        if let Some(selected) = self.selected {
            if selected.value == id.value {
                self.selected = None;
            }
        }
        let removed = self.render_entries.remove(&id.value);
        proof {
            assert(self.entries() =~= old(self).entries().remove(*id));
            assert(self@.renders =~= old(self)@.apply(Operation::Unload { id: *id }).renders);
        }
        match removed {
            Some(_) => Ok(()),
            None => Err(RegistryError::RenderNotFound(*id)),
        }
    }

    /// Selects the render `id` for drawing, in place of the one that was
    /// selected.
    pub fn select(&mut self, id: &RenderId) -> (selected: Result<(), RegistryError>)
        requires
            old(self).wf(),
        ensures
            final(self).wf(),
            final(self)@ == old(self)@.apply(Operation::Select { id: *id }),
            final(self).factories() == old(self).factories(),
            final(self).issued_values() == old(self).issued_values(),
            final(self).entries() == old(self).entries(),
            match selected {
                Ok(_) => old(self).entries().dom().contains(*id) && final(self).selected() == Some(
                    *id,
                ),
                Err(RegistryError::RenderNotFound(missing)) => {
                    &&& missing == *id
                    &&& !old(self).entries().dom().contains(*id)
                    &&& final(self).selected() == old(self).selected()
                },
                Err(_) => false,
            },
    {
        if !self.render_entries.contains_key(&id.value) {
            Err(RegistryError::RenderNotFound(*id))
        } else {
            self.selected = Some(*id);
            Ok(())
        }
    }
}

impl<F, D> Registry<F, D> where D: Canvas, F: RenderFactory<D> {
    /// The factories with their names, in the order of `factories`.
    pub fn factory_iter(&self) -> (listed: Vec<(&'static str, &F)>)
        ensures
            listed@.len() == self.factories().len(),
            forall|i: int|
                0 <= i < listed@.len() ==> (#[trigger] listed@[i]).0@ == self.factories()[i].name()
                    && *listed@[i].1 == self.factories()[i],
    {
        let mut listed: Vec<(&'static str, &F)> = Vec::new();
        let mut i: usize = 0;
        while i < self.factory_entries.len()
            invariant
                0 <= i <= self.factory_entries@.len(),
                listed@.len() == i,
                forall|k: int|
                    0 <= k < i ==> (#[trigger] listed@[k]).0@ == self.factory_entries@[k].name()
                        && *listed@[k].1 == self.factory_entries@[k],
            decreases self.factory_entries@.len() - i,
        {
            let factory = &self.factory_entries[i];
            listed.push((factory.render_name(), factory));
            i += 1;
        }
        listed
    }

    /// The loaded renders with their identities, each once, in no
    /// particular order.
    pub fn render_iter(&self) -> (listed: Vec<(RenderId, &RenderEntry<F::Output>)>)
        ensures
            forall|i: int|
                0 <= i < listed@.len() ==> self.entries().dom().contains((#[trigger] listed@[i]).0)
                    && *listed@[i].1 == self.entries()[listed@[i].0],
            forall|i: int, j: int|
                0 <= i < j < listed@.len() ==> (#[trigger] listed@[i]).0 != (#[trigger] listed@[j]).0,
            forall|id: RenderId|
                self.entries().dom().contains(id) ==> exists|i: int|
                    0 <= i < listed@.len() && (#[trigger] listed@[i]).0 == id,
    {
        let mut listed: Vec<(RenderId, &RenderEntry<F::Output>)> = Vec::new();
        let ghost all = spec_hash_map_iter(&self.render_entries).remaining();
        for pair in it: self.render_entries.iter()
            invariant
                it.seq() == all,
                all.no_duplicates(),
                listed@.len() == it.index(),
                forall|k: int|
                    0 <= k < listed@.len() ==> (#[trigger] listed@[k]).0.value == *all[k].0
                        && listed@[k].1 == all[k].1,
        {
            let (key, entry) = pair;
            listed.push((RenderId { value: *key }, entry));
        }
        proof {
            assert(listed@.len() == all.len());
            assert forall|i: int, j: int| 0 <= i < j < listed@.len() implies (
            #[trigger] listed@[i]).0 != (#[trigger] listed@[j]).0 by {
                if listed@[i].0 == listed@[j].0 {
                    assert(self.render_entries@[*all[i].0] == *all[i].1);
                    assert(self.render_entries@[*all[j].0] == *all[j].1);
                    assert(all[i] == all[j]);
                }
            }
            assert forall|id: RenderId| self.entries().dom().contains(id) implies exists|i: int|
                0 <= i < listed@.len() && (#[trigger] listed@[i]).0 == id by {
                let key = id.value;
                assert(self.render_entries@.contains_key(key));
                assert(all.contains((&key, &self.render_entries@[key])));
                let i = choose|i: int|
                    0 <= i < all.len() && all[i] == (&key, &self.render_entries@[key]);
                assert(listed@[i].0 == id);
            }
        }
        listed
    }
}

impl<F, D> Render<D> for Registry<F, D> where D: Canvas, F: RenderFactory<D> {
    /// The selected render draws, if one is selected and loaded. If not, the
    /// surface stays as it is and the call succeeds.
    open spec fn draws(
        &self,
        before: Image,
        extent: Size,
        after: Image,
        outcome: Result<(), RenderError>,
    ) -> bool {
        match self.selected() {
            Some(id) if self.entries().dom().contains(id) => self.entries()[id].render.draws(
                before,
                extent,
                after,
                outcome,
            ),
            _ => outcome is Ok && after == before,
        }
    }

    fn render(&self, canvas: &mut D) -> (outcome: Result<(), RenderError>)
        ensures
            self.selected() is None ==> outcome is Ok && final(canvas).image() == old(
                canvas,
            ).image(),
    {
        if let Some(selected) = self.selected {
            if let Some(render_entry) = self.render_entries.get(&selected.value) {
                return render_entry.render.render(canvas);
            }
        }
        Ok(())
    }
}

} // verus!
