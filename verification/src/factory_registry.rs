//! A store of render factories that keeps at most one render for each
//! factory, by the factory's name.

use crate::canvas::{Canvas, Image};
use crate::geometry::Size;
use crate::registry::{distinct_names, is_kept_of, names_of};
use crate::render::{LoadError, Render, RenderError, RenderFactory};
use crate::text::same_text;
use vstd::prelude::*;
use vstd::string::StringExecFns;

verus! {

/// A factory and the render that was loaded from it, if one was.
struct FactoryRecord<F, R> {
    factory: F,
    state: Option<R>,
}

/// Holds named factories, loads at most one render from each, and draws the
/// one that is selected.
#[verifier::reject_recursive_types(F)]
#[verifier::reject_recursive_types(D)]
pub struct FactoryRegistry<F, D> where D: Canvas, F: RenderFactory<D> {
    records_map: Vec<FactoryRecord<F, F::Output>>,
    selected: Option<String>,
}

#[derive(Debug)]
pub enum FactoryRegistryError {
    /// No factory has the name.
    FactoryNotFound(String),
    /// Nothing is loaded from the factory.
    RenderNotLoaded,
    /// A render is already loaded from the factory.
    RenderNotUnload,
    /// The factory constructed no render from the configuration.
    FileIoError,
}

impl FactoryRegistryError {
    /// The error in words.
    pub open spec fn spec_message(&self) -> Seq<char> {
        match self {
            FactoryRegistryError::FactoryNotFound(name) => "Factory \""@ + name@
                + "\" was not found"@,
            FactoryRegistryError::RenderNotLoaded => "Render was not loaded"@,
            FactoryRegistryError::RenderNotUnload => "Render was not unloaded"@,
            FactoryRegistryError::FileIoError => "File IO error"@,
        }
    }

    /// The error in words.
    pub fn message(&self) -> (message: String)
        ensures
            message@ == self.spec_message(),
    {
        match self {
            FactoryRegistryError::FactoryNotFound(name) => String::from_str("Factory \"").concat(
                name.as_str(),
            ).concat("\" was not found"),
            FactoryRegistryError::RenderNotLoaded => String::from_str("Render was not loaded"),
            FactoryRegistryError::RenderNotUnload => String::from_str("Render was not unloaded"),
            FactoryRegistryError::FileIoError => String::from_str("File IO error"),
        }
    }
}

/// The name and the description of a factory.
#[derive(Debug)]
pub struct FactoryEntry {
    pub name: String,
    pub description: String,
}

/// The names and descriptions of the factories of a registry.
#[derive(Debug)]
pub struct FactoryEntries(pub Vec<FactoryEntry>);

/// Whether `place` is the first place in `factories` of a factory called `name`.
pub open spec fn is_first_named<F: RenderFactory<D>, D: Canvas>(
    factories: Seq<F>,
    name: Seq<char>,
    place: int,
) -> bool {
    &&& 0 <= place < factories.len()
    &&& factories[place].name() == name
    &&& forall|j: int| 0 <= j < place ==> #[trigger] factories[j].name() != name
}

/// The first place in `factories` of a factory called `name`, if there is one.
pub open spec fn first_named<F: RenderFactory<D>, D: Canvas>(
    factories: Seq<F>,
    name: Seq<char>,
) -> Option<int> {
    if exists|i: int| is_first_named(factories, name, i) {
        Some(choose|i: int| is_first_named(factories, name, i))
    } else {
        None
    }
}

impl<F, D> FactoryRegistry<F, D> where D: Canvas, F: RenderFactory<D> {
    /// The factories, in the order in which they are listed.
    pub closed spec fn factories(&self) -> Seq<F> {
        Seq::new(self.records_map@.len(), |i: int| self.records_map@[i].factory)
    }

    /// The render loaded from each factory, in the order of `factories`.
    pub closed spec fn renders(&self) -> Seq<Option<F::Output>> {
        Seq::new(self.records_map@.len(), |i: int| self.records_map@[i].state)
    }

    /// The name of the factory whose render is drawn, if one is.
    pub closed spec fn selected(&self) -> Option<Seq<char>> {
        match self.selected {
            Some(name) => Some(name@),
            None => None,
        }
    }

    /// Whether `place` is the first place of a factory called `name`.
    pub open spec fn is_first_place(&self, name: Seq<char>, place: int) -> bool {
        is_first_named(self.factories(), name, place)
    }

    /// The place of the factory called `name`, if there is one.
    pub open spec fn place_of(&self, name: Seq<char>) -> Option<int> {
        first_named(self.factories(), name)
    }

    /// Whether a render is loaded from the factory called `name`.
    pub open spec fn is_loaded(&self, name: Seq<char>) -> bool {
        self.place_of(name) matches Some(i) && self.renders()[i] is Some
    }

    /// Whether the registry is in a consistent state: no two factories share
    /// a name, and the factory that is selected has a render loaded.
    pub open spec fn wf(&self) -> bool {
        &&& self.factories().len() == self.renders().len()
        &&& distinct_names(self.factories())
        &&& self.selected() matches Some(name) ==> self.is_loaded(name)
    }

    /// The place of the factory called `name`, if there is one.
    fn position(&self, name: &str) -> (place: Option<usize>)
        ensures
            match place {
                Some(i) => self.place_of(name@) == Some(i as int) && self.is_first_place(
                    name@,
                    i as int,
                ),
                None => self.place_of(name@) is None && !names_of(self.factories()).contains(name@),
            },
    {
        let mut i: usize = 0;
        while i < self.records_map.len()
            invariant
                0 <= i <= self.records_map@.len(),
                forall|j: int| 0 <= j < i ==> #[trigger] self.factories()[j].name() != name@,
            decreases self.records_map@.len() - i,
        {
            if same_text(self.records_map[i].factory.render_name(), name) {
                proof {
                    assert(self.is_first_place(name@, i as int));
                    let chosen = choose|k: int| is_first_named(self.factories(), name@, k);
                    assert(self.is_first_place(name@, chosen));
                    assert(chosen == i) by {
                        if chosen < i {
                            assert(self.factories()[chosen].name() != name@);
                        }
                        if chosen > i {
                            assert(self.factories()[i as int].name() != name@);
                        }
                    }
                }
                return Some(i);
            }
            i += 1;
        }
        proof {
            assert forall|k: int| !self.is_first_place(name@, k) by {
                if self.is_first_place(name@, k) {
                    assert(self.factories()[k].name() != name@);
                }
            }
        }
        None
    }

    /// A registry of the given factories in which nothing is loaded. Where
    /// several factories have one name, the last of them is kept.
    pub fn new(factories: Vec<F>) -> (registry: Self)
        ensures
            registry.wf(),
            registry.selected() is None,
            names_of(registry.factories()) == names_of(factories@),
            forall|k: int|
                0 <= k < registry.factories().len() ==> is_kept_of(
                    factories@,
                    #[trigger] registry.factories()[k],
                ) && registry.renders()[k] is None,
    {
        let mut rest = factories;
        let mut registry = FactoryRegistry { records_map: Vec::new(), selected: None };
        while rest.len() > 0
            invariant
                rest@.len() <= factories@.len(),
                rest@ == factories@.take(rest@.len() as int),
                registry.wf(),
                registry.selected() is None,
                forall|k: int|
                    0 <= k < registry.factories().len() ==> is_kept_of(
                        factories@,
                        #[trigger] registry.factories()[k],
                    ) && registry.renders()[k] is None,
                forall|i: int|
                    rest@.len() <= i < factories@.len() ==> names_of(registry.factories()).contains(
                        #[trigger] factories@[i].name(),
                    ),
                forall|name: Seq<char>| #[trigger]
                    names_of(registry.factories()).contains(name) ==> exists|i: int|
                        rest@.len() <= i < factories@.len() && #[trigger] factories@[i].name()
                            == name,
            decreases rest@.len(),
        {
            let ghost place = rest@.len() - 1;
            let ghost before = registry.factories();
            let ghost renders_before = registry.renders();
            let factory = rest.pop().unwrap();
            assert(factory == factories@[place]);
            if registry.position(factory.render_name()).is_none() {
                registry.records_map.push(FactoryRecord { factory, state: None });
                proof {
                    assert(registry.factories() =~= before.push(factory));
                    assert(registry.renders() =~= renders_before.push(None));
                    assert(crate::registry::is_last_of_name(factories@, place)) by {
                        assert forall|j: int| place < j < factories@.len() implies #[trigger] factories@[j].name()
                            != factories@[place].name() by {
                            assert(names_of(before).contains(factories@[j].name()));
                        }
                    }
                    assert forall|i: int| rest@.len() <= i < factories@.len() implies names_of(
                        registry.factories(),
                    ).contains(#[trigger] factories@[i].name()) by {
                        if i == place {
                            assert(registry.factories()[before.len() as int].name()
                                == factories@[i].name());
                        } else {
                            let k = choose|k: int|
                                0 <= k < before.len() && #[trigger] before[k].name()
                                    == factories@[i].name();
                            assert(registry.factories()[k].name() == factories@[i].name());
                        }
                    }
                    assert forall|name: Seq<char>| #[trigger]
                        names_of(registry.factories()).contains(name) implies exists|i: int|
                        rest@.len() <= i < factories@.len() && #[trigger] factories@[i].name()
                            == name by {
                        let k = choose|k: int|
                            0 <= k < registry.factories().len() && #[trigger] registry.factories()[k].name()
                                == name;
                        if k < before.len() {
                            assert(names_of(before).contains(before[k].name()));
                        } else {
                            assert(factories@[place].name() == name);
                        }
                    }
                    assert forall|k: int| 0 <= k < registry.factories().len() implies is_kept_of(
                        factories@,
                        #[trigger] registry.factories()[k],
                    ) && registry.renders()[k] is None by {
                        if k < before.len() {
                            assert(is_kept_of(factories@, before[k]));
                            assert(renders_before[k] is None);
                        }
                    }
                    assert(distinct_names(registry.factories())) by {
                        assert forall|i: int, j: int|
                            0 <= i < j < registry.factories().len() implies #[trigger] registry.factories()[i].name()
                            != #[trigger] registry.factories()[j].name() by {
                            if j == before.len() {
                                assert(names_of(before).contains(before[i].name()));
                            }
                        }
                    }
                }
            } else {
                proof {
                    assert(registry.factories() == before);
                    assert(registry.renders() == renders_before);
                    assert forall|k: int| 0 <= k < registry.factories().len() implies is_kept_of(
                        factories@,
                        #[trigger] registry.factories()[k],
                    ) && registry.renders()[k] is None by {
                        assert(is_kept_of(factories@, before[k]));
                        assert(renders_before[k] is None);
                    }
                }
            }
        }
        proof {
            assert(names_of(registry.factories()) =~= names_of(factories@));
        }
        registry
    }

    /// Whether nothing of `earlier` has changed.
    pub open spec fn unchanged(&self, earlier: &Self) -> bool {
        &&& self.factories() == earlier.factories()
        &&& self.renders() == earlier.renders()
        &&& self.selected() == earlier.selected()
    }

    /// Whether `self` is `earlier` but for the render of the factory at
    /// `place`, which is `render`.
    pub open spec fn replaces(&self, earlier: &Self, place: int, render: Option<F::Output>) -> bool {
        &&& self.factories() == earlier.factories()
        &&& self.renders() == earlier.renders().update(place, render)
    }

    /// Keeps what the factory called `name` constructed as the render of that
    /// factory. Nothing is kept where there is no such factory, where it has a
    /// render already, or where it constructed nothing.
    pub fn install(&mut self, name: &str, constructed: Result<F::Output, LoadError>) -> (installed:
        Result<(), FactoryRegistryError>)
        requires
            old(self).wf(),
        ensures
            final(self).wf(),
            match installed {
                Ok(_) => {
                    &&& old(self).place_of(name@) is Some
                    &&& !old(self).is_loaded(name@)
                    &&& constructed is Ok
                    &&& final(self).replaces(
                        old(self),
                        old(self).place_of(name@)->0,
                        Some(constructed->Ok_0),
                    )
                    &&& final(self).selected() == old(self).selected()
                },
                Err(FactoryRegistryError::FactoryNotFound(missing)) => {
                    &&& missing@ == name@
                    &&& old(self).place_of(name@) is None
                    &&& final(self).unchanged(old(self))
                },
                Err(FactoryRegistryError::RenderNotUnload) => {
                    &&& old(self).is_loaded(name@)
                    &&& final(self).unchanged(old(self))
                },
                Err(FactoryRegistryError::FileIoError) => {
                    &&& old(self).place_of(name@) is Some
                    &&& !old(self).is_loaded(name@)
                    &&& constructed is Err
                    &&& final(self).unchanged(old(self))
                },
                Err(FactoryRegistryError::RenderNotLoaded) => false,
            },
    {
        let place = match self.position(name) {
            Some(place) => place,
            None => {
                return Err(FactoryRegistryError::FactoryNotFound(name.to_owned()));
            },
        };
        if self.records_map[place].state.is_some() {
            return Err(FactoryRegistryError::RenderNotUnload);
        }
        match constructed {
            Ok(render) => {
                self.records_map[place].state = Some(render);
                proof {
                    assert(self.factories() =~= old(self).factories());
                    assert(self.renders() =~= old(self).renders().update(place as int, Some(render)));
                    self.lemma_selection_stays(old(self), place as int);
                }
                Ok(())
            },
            Err(_) => Err(FactoryRegistryError::FileIoError),
        }
    }

    /// A selection that names a factory other than the one at `place`, or one
    /// whose render is still there, stays a selection of a loaded render.
    proof fn lemma_selection_stays(&self, earlier: &Self, place: int)
        requires
            earlier.wf(),
            0 <= place < earlier.factories().len(),
            self.factories() == earlier.factories(),
            self.renders().len() == earlier.renders().len(),
            forall|k: int|
                0 <= k < earlier.renders().len() && k != place ==> self.renders()[k]
                    == earlier.renders()[k],
            self.selected() == earlier.selected() || self.selected() is None,
            self.renders()[place] is Some || self.selected() is None || earlier.place_of(
                self.selected()->0,
            ) != Some(place),
        ensures
            self.wf(),
    {
    }

    /// Loads a render: asks the factory called `name`, if nothing is loaded
    /// from it, to construct one from `config`, and keeps it. Where the factory
    /// is asked, the load succeeds exactly when it constructs a render.
    pub fn load(&mut self, name: &str, config: &[u8]) -> (loaded: Result<(), FactoryRegistryError>)
        requires
            old(self).wf(),
        ensures
            final(self).wf(),
            match loaded {
                Ok(_) => {
                    &&& old(self).place_of(name@) is Some
                    &&& !old(self).is_loaded(name@)
                    &&& final(self).is_loaded(name@)
                    &&& exists|render: F::Output|
                        final(self).replaces(
                            old(self),
                            old(self).place_of(name@)->0,
                            Some(render),
                        )
                    &&& final(self).selected() == old(self).selected()
                },
                Err(FactoryRegistryError::FactoryNotFound(missing)) => {
                    &&& missing@ == name@
                    &&& old(self).place_of(name@) is None
                    &&& final(self).unchanged(old(self))
                },
                Err(FactoryRegistryError::RenderNotUnload) => {
                    &&& old(self).is_loaded(name@)
                    &&& final(self).unchanged(old(self))
                },
                Err(FactoryRegistryError::FileIoError) => {
                    &&& old(self).place_of(name@) is Some
                    &&& !old(self).is_loaded(name@)
                    &&& final(self).unchanged(old(self))
                },
                Err(FactoryRegistryError::RenderNotLoaded) => false,
            },
            old(self).place_of(name@) is Some && !old(self).is_loaded(name@) ==> exists|
                constructed: Result<F::Output, LoadError>,
            |
                {
                    &&& #[trigger] old(self).factories()[old(self).place_of(
                        name@,
                    )->0].constructs(config@, constructed)
                    &&& (loaded is Ok <==> constructed is Ok)
                    &&& (loaded is Ok ==> final(self).replaces(
                        old(self),
                        old(self).place_of(name@)->0,
                        Some(constructed->Ok_0),
                    ))
                },
    {
        let place = match self.position(name) {
            Some(place) => place,
            None => {
                return Err(FactoryRegistryError::FactoryNotFound(name.to_owned()));
            },
        };
        if self.records_map[place].state.is_some() {
            return Err(FactoryRegistryError::RenderNotUnload);
        }
        let constructed = self.records_map[place].factory.load_from_config(config);
        let installed = self.install(name, constructed);
        proof {
            assert(old(self).factories()[place as int].constructs(config@, constructed));
            if installed is Ok {
                assert(self.replaces(old(self), place as int, Some(constructed->Ok_0)));
            }
        }
        installed
    }

    /// Drops the render of the factory called `name`. Where it was the
    /// selected one, nothing is selected afterwards.
    pub fn unload(&mut self, name: &str) -> (unloaded: Result<(), FactoryRegistryError>)
        requires
            old(self).wf(),
        ensures
            final(self).wf(),
            match unloaded {
                Ok(_) => {
                    &&& old(self).is_loaded(name@)
                    &&& final(self).replaces(old(self), old(self).place_of(name@)->0, None)
                    &&& final(self).selected() == if old(self).selected() == Some(name@) {
                        None
                    } else {
                        old(self).selected()
                    }
                },
                Err(FactoryRegistryError::FactoryNotFound(missing)) => {
                    &&& missing@ == name@
                    &&& old(self).place_of(name@) is None
                    &&& final(self).unchanged(old(self))
                },
                Err(FactoryRegistryError::RenderNotLoaded) => {
                    &&& old(self).place_of(name@) is Some
                    &&& !old(self).is_loaded(name@)
                    &&& final(self).unchanged(old(self))
                },
                Err(_) => false,
            },
    {
        let place = match self.position(name) {
            Some(place) => place,
            None => {
                return Err(FactoryRegistryError::FactoryNotFound(name.to_owned()));
            },
        };
        if self.records_map[place].state.is_none() {
            return Err(FactoryRegistryError::RenderNotLoaded);
        }
        let is_selected = match &self.selected {
            Some(selected) => same_text(name, selected.as_str()),
            None => false,
        };
        if is_selected {
            self.selected = None;
        }
        self.records_map[place].state = None;
        proof {
            assert(self.factories() =~= old(self).factories());
            assert(self.renders() =~= old(self).renders().update(place as int, None));
            self.lemma_selection_stays(old(self), place as int);
        }
        Ok(())
    }

    /// Selects the render of the factory called `name` for drawing.
    pub fn select(&mut self, name: &str) -> (selected: Result<(), FactoryRegistryError>)
        requires
            old(self).wf(),
        ensures
            final(self).wf(),
            final(self).factories() == old(self).factories(),
            final(self).renders() == old(self).renders(),
            match selected {
                Ok(_) => old(self).is_loaded(name@) && final(self).selected() == Some(name@),
                Err(FactoryRegistryError::FactoryNotFound(missing)) => {
                    &&& missing@ == name@
                    &&& old(self).place_of(name@) is None
                    &&& final(self).selected() == old(self).selected()
                },
                Err(FactoryRegistryError::RenderNotLoaded) => {
                    &&& old(self).place_of(name@) is Some
                    &&& !old(self).is_loaded(name@)
                    &&& final(self).selected() == old(self).selected()
                },
                Err(_) => false,
            },
    {
        let place = match self.position(name) {
            Some(place) => place,
            None => {
                return Err(FactoryRegistryError::FactoryNotFound(name.to_owned()));
            },
        };
        if self.records_map[place].state.is_none() {
            return Err(FactoryRegistryError::RenderNotLoaded);
        }
        self.selected = Some(name.to_owned());
        Ok(())
    }

    /// Selects nothing, and gives back the name that was selected.
    pub fn clear(&mut self) -> (was: Option<String>)
        requires
            old(self).wf(),
        ensures
            final(self).wf(),
            final(self).selected() is None,
            final(self).factories() == old(self).factories(),
            final(self).renders() == old(self).renders(),
            match was {
                Some(name) => old(self).selected() == Some(name@),
                None => old(self).selected() is None,
            },
    {
        self.selected.take()
    }

    /// The factories, in the order of `factories`.
    pub fn iter(&self) -> (listed: Vec<&F>)
        ensures
            listed@.len() == self.factories().len(),
            forall|i: int| 0 <= i < listed@.len() ==> *(#[trigger] listed@[i]) == self.factories()[i],
    {
        let mut listed: Vec<&F> = Vec::new();
        let mut i: usize = 0;
        while i < self.records_map.len()
            invariant
                0 <= i <= self.records_map@.len(),
                listed@.len() == i,
                forall|k: int| 0 <= k < i ==> *(#[trigger] listed@[k]) == self.factories()[k],
            decreases self.records_map@.len() - i,
        {
            listed.push(&self.records_map[i].factory);
            i += 1;
        }
        listed
    }
}

impl<F, D> Render<D> for FactoryRegistry<F, D> where D: Canvas, F: RenderFactory<D> {
    /// The render of the selected factory draws, if a factory is selected and
    /// has a render. If not, the surface stays as it is and the call succeeds.
    open spec fn draws(
        &self,
        before: Image,
        extent: Size,
        after: Image,
        outcome: Result<(), RenderError>,
    ) -> bool {
        match self.selected() {
            Some(name) if self.is_loaded(name) => self.renders()[self.place_of(name)->0]->0.draws(
                before,
                extent,
                after,
                outcome,
            ),
            _ => outcome is Ok && after == before,
        }
    }

    fn render(&self, canvas: &mut D) -> (outcome: Result<(), RenderError>)
        ensures
            self.selected() is None ==> outcome is Ok && final(canvas).image() == old(
                canvas,
            ).image(),
    {
        if let Some(selected) = &self.selected {
            if let Some(place) = self.position(selected.as_str()) {
                if let Some(render) = &self.records_map[place].state {
                    return render.render(canvas);
                }
            }
        }
        Ok(())
    }
}

impl FactoryEntries {
    /// The names and descriptions of the factories of `factory_registry`, in
    /// the order of its factories.
    pub fn from<F, D>(factory_registry: &FactoryRegistry<F, D>) -> (entries: FactoryEntries) where
        D: Canvas,
        F: RenderFactory<D>,

        ensures
            entries.0@.len() == factory_registry.factories().len(),
            forall|i: int|
                0 <= i < entries.0@.len() ==> (#[trigger] entries.0@[i]).name@
                    == factory_registry.factories()[i].name() && entries.0@[i].description@
                    == factory_registry.factories()[i].description(),
    {
        let factories = factory_registry.iter();
        let mut entries: Vec<FactoryEntry> = Vec::new();
        let mut i: usize = 0;
        while i < factories.len()
            invariant
                0 <= i <= factories@.len(),
                factories@.len() == factory_registry.factories().len(),
                forall|k: int|
                    0 <= k < factories@.len() ==> *(#[trigger] factories@[k])
                        == factory_registry.factories()[k],
                entries@.len() == i,
                forall|k: int|
                    0 <= k < i ==> (#[trigger] entries@[k]).name@
                        == factory_registry.factories()[k].name() && entries@[k].description@
                        == factory_registry.factories()[k].description(),
            decreases factories@.len() - i,
        {
            let factory = factories[i];
            entries.push(
                FactoryEntry {
                    name: factory.render_name().to_owned(),
                    description: factory.render_description().to_owned(),
                },
            );
            i += 1;
        }
        FactoryEntries(entries)
    }
}

} // verus!
