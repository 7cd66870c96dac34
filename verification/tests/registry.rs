use rustic_pixel_display::canvas::{Canvas, Image};
use rustic_pixel_display::geometry::{Point, Rgb888, Size};
use rustic_pixel_display::registry::{Registry, RegistryError, RenderId};
use rustic_pixel_display::render::{Bytes, CachedCanvas, LoadError, Render, RenderError, RenderFactory};
use rustic_pixel_display::text::Text;

const WHITE: Rgb888 = Rgb888 { r: 255, g: 255, b: 255 };

/// Fills the canvas with its colour.
struct Paint {
    color: Rgb888,
}

impl Render<CachedCanvas> for Paint {
    fn draws(&self, _: Image, _: Size, _: Image, _: Result<(), RenderError>) -> bool {
        unreachable!()
    }

    fn render(&self, canvas: &mut CachedCanvas) -> Result<(), RenderError> {
        canvas.clear(self.color);
        Ok(())
    }
}

/// Constructs a `Paint` from the three bytes of a colour.
struct PaintFactory {
    name: &'static str,
    description: &'static str,
}

impl RenderFactory<CachedCanvas> for PaintFactory {
    type Output = Paint;

    fn constructs(&self, _: Bytes, _: Result<Paint, LoadError>) -> bool {
        unreachable!()
    }

    fn name(&self) -> Text {
        unreachable!()
    }

    fn description(&self) -> Text {
        unreachable!()
    }

    fn render_name(&self) -> &'static str {
        self.name
    }

    fn render_description(&self) -> &'static str {
        self.description
    }

    fn load_from_config(&self, config: &[u8]) -> Result<Paint, LoadError> {
        match config {
            [r, g, b] => Ok(Paint { color: Rgb888::new(*r, *g, *b) }),
            _ => Err(LoadError { message: "a colour has three bytes".to_string() }),
        }
    }
}

fn factory(name: &'static str) -> PaintFactory {
    PaintFactory { name, description: "fills the canvas" }
}

fn registry() -> Registry<PaintFactory, CachedCanvas> {
    Registry::new(vec![factory("FactoryA"), factory("FactoryB")])
}

/// What the registry draws on a white canvas of one pixel.
fn drawn(registry: &Registry<PaintFactory, CachedCanvas>) -> Rgb888 {
    let mut canvas = CachedCanvas::new(Size::new(1, 1));
    canvas.clear(WHITE);
    assert!(registry.render(&mut canvas).is_ok());
    canvas.pixel(Point::new(0, 0)).unwrap()
}

fn loaded(registry: &Registry<PaintFactory, CachedCanvas>) -> Vec<(RenderId, String)> {
    let mut listed: Vec<(RenderId, String)> = registry
        .render_iter()
        .into_iter()
        .map(|(id, entry)| (id, entry.factory_name.clone()))
        .collect();
    listed.sort_by_key(|(id, _)| id.value);
    listed
}

#[test]
fn load_select_render_unload() {
    let mut registry = Registry::new(vec![factory("FactoryA")]);
    let id1 = registry.load("FactoryA", &[10, 20, 30]).unwrap();
    assert!(registry.select(&id1).is_ok());
    assert_eq!(drawn(&registry), Rgb888::new(10, 20, 30));
    assert!(registry.unload(&id1).is_ok());
    assert_eq!(drawn(&registry), WHITE);
}

#[test]
fn loading_from_a_missing_factory_fails_and_changes_nothing() {
    let mut registry = registry();
    let id = registry.load("FactoryA", &[1, 2, 3]).unwrap();
    registry.select(&id).unwrap();
    let before = loaded(&registry);
    match registry.load("Missing", &[1, 2, 3]) {
        Err(RegistryError::FactoryNotFound(name)) => assert_eq!(name, "Missing"),
        other => panic!("{:?}", other),
    }
    assert_eq!(loaded(&registry), before);
    assert_eq!(drawn(&registry), Rgb888::new(1, 2, 3));
    assert_eq!(registry.factory_iter().len(), 2);
}

#[test]
fn selecting_an_unknown_identity_fails() {
    let mut registry = registry();
    let unknown = RenderId::random();
    match registry.select(&unknown) {
        Err(RegistryError::RenderNotFound(id)) => assert_eq!(id, unknown),
        other => panic!("{:?}", other),
    }
    assert_eq!(drawn(&registry), WHITE);
}

#[test]
fn unloading_an_unknown_identity_fails() {
    let mut registry = registry();
    let unknown = RenderId::from_u128(77);
    match registry.unload(&unknown) {
        Err(RegistryError::RenderNotFound(id)) => assert_eq!(id, unknown),
        other => panic!("{:?}", other),
    }
}

#[test]
fn a_configuration_that_the_factory_refuses_fails_and_changes_nothing() {
    let mut registry = registry();
    assert!(matches!(registry.load("FactoryA", &[1, 2]), Err(RegistryError::FileIoError)));
    assert!(matches!(registry.load("FactoryA", &[]), Err(RegistryError::FileIoError)));
    assert!(loaded(&registry).is_empty());
}

#[test]
fn a_registry_without_selection_draws_nothing() {
    let mut registry = registry();
    assert_eq!(drawn(&registry), WHITE);
    registry.load("FactoryA", &[1, 2, 3]).unwrap();
    assert_eq!(drawn(&registry), WHITE);
}

#[test]
fn loading_does_not_select() {
    let mut registry = registry();
    let first = registry.load("FactoryA", &[1, 1, 1]).unwrap();
    registry.select(&first).unwrap();
    registry.load("FactoryB", &[2, 2, 2]).unwrap();
    assert_eq!(drawn(&registry), Rgb888::new(1, 1, 1));
}

#[test]
fn selecting_replaces_the_selection() {
    let mut registry = registry();
    let first = registry.load("FactoryA", &[1, 1, 1]).unwrap();
    let second = registry.load("FactoryA", &[2, 2, 2]).unwrap();
    registry.select(&first).unwrap();
    registry.select(&second).unwrap();
    assert_eq!(drawn(&registry), Rgb888::new(2, 2, 2));
}

#[test]
fn unloading_another_render_keeps_the_selection() {
    let mut registry = registry();
    let first = registry.load("FactoryA", &[1, 1, 1]).unwrap();
    let second = registry.load("FactoryB", &[2, 2, 2]).unwrap();
    registry.select(&first).unwrap();
    registry.unload(&second).unwrap();
    assert_eq!(drawn(&registry), Rgb888::new(1, 1, 1));
    assert_eq!(loaded(&registry), vec![(first, "FactoryA".to_string())]);
}

#[test]
fn unloading_the_selected_render_clears_the_selection() {
    let mut registry = registry();
    let first = registry.load("FactoryA", &[1, 1, 1]).unwrap();
    let second = registry.load("FactoryB", &[2, 2, 2]).unwrap();
    registry.select(&first).unwrap();
    registry.unload(&first).unwrap();
    assert_eq!(drawn(&registry), WHITE);
    assert!(matches!(registry.select(&first), Err(RegistryError::RenderNotFound(_))));
    assert_eq!(drawn(&registry), WHITE);
    registry.select(&second).unwrap();
    assert_eq!(drawn(&registry), Rgb888::new(2, 2, 2));
}

#[test]
fn a_failed_select_keeps_the_selection() {
    let mut registry = registry();
    let first = registry.load("FactoryA", &[1, 1, 1]).unwrap();
    registry.select(&first).unwrap();
    assert!(registry.select(&RenderId::from_u128(first.value.wrapping_add(1))).is_err());
    assert_eq!(drawn(&registry), Rgb888::new(1, 1, 1));
}

#[test]
fn no_two_loads_give_the_same_identity() {
    let mut registry = registry();
    let mut seen: Vec<RenderId> = Vec::new();
    for round in 0..200u8 {
        let id = registry.load("FactoryA", &[round, 0, 0]).unwrap();
        assert!(!seen.contains(&id));
        seen.push(id);
        if round % 3 == 0 {
            registry.unload(&id).unwrap();
        }
    }
}

#[test]
fn a_candidate_that_was_issued_is_passed_over() {
    let mut registry = registry();
    let candidate = RenderId::from_u128(41);
    let first = registry.store("FactoryA", Ok(Paint { color: WHITE }), candidate).unwrap();
    let second = registry.store("FactoryA", Ok(Paint { color: WHITE }), candidate).unwrap();
    let third = registry.store("FactoryB", Ok(Paint { color: WHITE }), candidate).unwrap();
    assert_eq!(first, RenderId::from_u128(41));
    assert_eq!(second, RenderId::from_u128(42));
    assert_eq!(third, RenderId::from_u128(43));
    // An identity is not given again after its render is gone.
    registry.unload(&first).unwrap();
    let fourth = registry.store("FactoryA", Ok(Paint { color: WHITE }), candidate).unwrap();
    assert_eq!(fourth, RenderId::from_u128(44));
    assert_eq!(
        loaded(&registry),
        vec![
            (second, "FactoryA".to_string()),
            (third, "FactoryB".to_string()),
            (fourth, "FactoryA".to_string()),
        ]
    );
}

#[test]
fn the_search_for_a_free_identity_goes_on_at_zero() {
    let mut registry = registry();
    let last = RenderId::from_u128(u128::MAX);
    assert_eq!(registry.store("FactoryA", Ok(Paint { color: WHITE }), last).unwrap(), last);
    assert_eq!(
        registry.store("FactoryA", Ok(Paint { color: WHITE }), last).unwrap(),
        RenderId::from_u128(0)
    );
    assert_eq!(
        registry.store("FactoryA", Ok(Paint { color: WHITE }), last).unwrap(),
        RenderId::from_u128(1)
    );
}

#[test]
fn storing_what_a_factory_refused_or_for_a_missing_factory_fails() {
    let mut registry = registry();
    let candidate = RenderId::from_u128(5);
    let refused = Err(LoadError { message: "no".to_string() });
    assert!(matches!(registry.store("FactoryA", refused, candidate), Err(RegistryError::FileIoError)));
    match registry.store("Missing", Ok(Paint { color: WHITE }), candidate) {
        Err(RegistryError::FactoryNotFound(name)) => assert_eq!(name, "Missing"),
        other => panic!("{:?}", other),
    }
    assert!(loaded(&registry).is_empty());
    // The candidate was not used up.
    assert_eq!(registry.store("FactoryA", Ok(Paint { color: WHITE }), candidate).unwrap(), candidate);
}

#[test]
fn the_factories_are_listed_with_their_names() {
    let registry = registry();
    let mut names: Vec<&str> = registry.factory_iter().into_iter().map(|(name, _)| name).collect();
    names.sort();
    assert_eq!(names, vec!["FactoryA", "FactoryB"]);
    for (name, factory) in registry.factory_iter() {
        assert_eq!(name, factory.render_name());
        assert_eq!(factory.render_description(), "fills the canvas");
    }
}

#[test]
fn of_factories_with_one_name_the_last_is_kept() {
    let registry: Registry<PaintFactory, CachedCanvas> = Registry::new(vec![
        PaintFactory { name: "Same", description: "first" },
        PaintFactory { name: "Other", description: "other" },
        PaintFactory { name: "Same", description: "last" },
    ]);
    let mut listed: Vec<(&str, &str)> = registry
        .factory_iter()
        .into_iter()
        .map(|(name, factory)| (name, factory.render_description()))
        .collect();
    listed.sort();
    assert_eq!(listed, vec![("Other", "other"), ("Same", "last")]);
}

#[test]
fn the_loaded_renders_are_listed_with_their_factories() {
    let mut registry = registry();
    assert!(registry.render_iter().is_empty());
    let first = registry.load("FactoryA", &[1, 1, 1]).unwrap();
    let second = registry.load("FactoryB", &[2, 2, 2]).unwrap();
    let mut expected = vec![(first, "FactoryA".to_string()), (second, "FactoryB".to_string())];
    expected.sort_by_key(|(id, _)| id.value);
    assert_eq!(loaded(&registry), expected);
    for (_, entry) in registry.render_iter() {
        let mut canvas = CachedCanvas::new(Size::new(1, 1));
        entry.render.render(&mut canvas).unwrap();
        let level = if entry.factory_name == "FactoryA" { 1 } else { 2 };
        assert_eq!(canvas.pixel(Point::new(0, 0)), Some(Rgb888::new(level, level, level)));
    }
}

#[test]
fn the_errors_in_words() {
    assert_eq!(
        RegistryError::FactoryNotFound("Missing".to_string()).message(),
        "Factory \"Missing\" was not found"
    );
    assert_eq!(
        RegistryError::RenderNotFound(RenderId::from_u128(0xa1a2a3a4b1b2c1c2d1d2d3d4d5d6d7d8)).message(),
        "Render \"a1a2a3a4-b1b2-c1c2-d1d2-d3d4d5d6d7d8\" was not found"
    );
    assert_eq!(RegistryError::RenderNotLoaded.message(), "Render was not loaded");
    assert_eq!(RegistryError::RenderNotUnload.message(), "Render was not unloaded");
    assert_eq!(RegistryError::FileIoError.message(), "File IO error");
}

#[test]
fn the_selection_is_a_loaded_render_after_every_operation() {
    let mut registry = registry();
    // What the registry should hold: the colour of each loaded render, and
    // the selection.
    let mut colors: Vec<(RenderId, Rgb888)> = Vec::new();
    let mut selected: Option<RenderId> = None;
    let mut gone: Vec<RenderId> = Vec::new();
    let mut state: u32 = 12345;
    for round in 0..400u32 {
        state = state.wrapping_mul(1664525).wrapping_add(1013904223);
        let pick = (state >> 16) as usize;
        match pick % 4 {
            0 => {
                let color = Rgb888::new((round % 250) as u8 + 1, 0, 0);
                let name = if pick % 8 < 4 { "FactoryA" } else { "FactoryB" };
                let id = registry.load(name, &[color.r, color.g, color.b]).unwrap();
                assert!(colors.iter().all(|(other, _)| *other != id));
                assert!(!gone.contains(&id));
                colors.push((id, color));
            }
            1 if !colors.is_empty() => {
                let (id, _) = colors.remove(pick / 4 % colors.len());
                assert!(registry.unload(&id).is_ok());
                if selected == Some(id) {
                    selected = None;
                }
                gone.push(id);
            }
            2 if !colors.is_empty() => {
                let (id, _) = colors[pick / 4 % colors.len()];
                assert!(registry.select(&id).is_ok());
                selected = Some(id);
            }
            _ => {
                if let Some(id) = gone.last() {
                    assert!(matches!(registry.select(id), Err(RegistryError::RenderNotFound(_))));
                    assert!(matches!(registry.unload(id), Err(RegistryError::RenderNotFound(_))));
                }
            }
        }
        let expected = match selected {
            Some(id) => colors.iter().find(|(other, _)| *other == id).unwrap().1,
            None => WHITE,
        };
        assert_eq!(drawn(&registry), expected);
        assert_eq!(registry.render_iter().len(), colors.len());
    }
}
