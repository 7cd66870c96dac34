use rustic_pixel_display::canvas::{Canvas, Image};
use rustic_pixel_display::factory_list::{Either, List, Node};
use rustic_pixel_display::factory_registry::{FactoryEntries, FactoryRegistry, FactoryRegistryError};
use rustic_pixel_display::geometry::{Point, Rgb888, Size};
use rustic_pixel_display::render::{Bytes, CachedCanvas, LoadError, Render, RenderError, RenderFactory};
use rustic_pixel_display::text::Text;

const WHITE: Rgb888 = Rgb888 { r: 255, g: 255, b: 255 };

struct Paint {
    color: Rgb888,
}

impl Render<CachedCanvas> for Paint {
    fn draws(&self, _: Image, _: Size, _: Image, _: Result<(), RenderError>) -> bool {
        unreachable!()
    }

    fn render(&self, canvas: &mut CachedCanvas) -> Result<(), RenderError> {
        canvas.clear(self.color);
        Ok(())
    }
}

struct PaintFactory {
    name: &'static str,
    description: &'static str,
}

impl RenderFactory<CachedCanvas> for PaintFactory {
    type Output = Paint;

    fn constructs(&self, _: Bytes, _: Result<Paint, LoadError>) -> bool {
        unreachable!()
    }

    fn name(&self) -> Text {
        unreachable!()
    }

    fn description(&self) -> Text {
        unreachable!()
    }

    fn render_name(&self) -> &'static str {
        self.name
    }

    fn render_description(&self) -> &'static str {
        self.description
    }

    fn load_from_config(&self, config: &[u8]) -> Result<Paint, LoadError> {
        match config {
            [r, g, b] => Ok(Paint { color: Rgb888::new(*r, *g, *b) }),
            _ => Err(LoadError { message: "a colour has three bytes".to_string() }),
        }
    }
}

fn registry() -> FactoryRegistry<PaintFactory, CachedCanvas> {
    FactoryRegistry::new(vec![
        PaintFactory { name: "Red", description: "paints red" },
        PaintFactory { name: "Blue", description: "paints blue" },
    ])
}

fn drawn(registry: &FactoryRegistry<PaintFactory, CachedCanvas>) -> Rgb888 {
    let mut canvas = CachedCanvas::new(Size::new(1, 1));
    canvas.clear(WHITE);
    assert!(registry.render(&mut canvas).is_ok());
    canvas.pixel(Point::new(0, 0)).unwrap()
}

#[test]
fn a_factory_loads_one_render_at_a_time() {
    let mut registry = registry();
    assert!(registry.load("Red", &[200, 0, 0]).is_ok());
    assert!(matches!(registry.load("Red", &[100, 0, 0]), Err(FactoryRegistryError::RenderNotUnload)));
    assert!(registry.select("Red").is_ok());
    assert_eq!(drawn(&registry), Rgb888::new(200, 0, 0));
    assert!(registry.unload("Red").is_ok());
    assert!(registry.load("Red", &[100, 0, 0]).is_ok());
}

#[test]
fn a_missing_factory_is_reported_by_every_operation() {
    let mut registry = registry();
    match registry.load("Green", &[0, 1, 0]) {
        Err(FactoryRegistryError::FactoryNotFound(name)) => assert_eq!(name, "Green"),
        other => panic!("{:?}", other),
    }
    match registry.unload("Green") {
        Err(FactoryRegistryError::FactoryNotFound(name)) => assert_eq!(name, "Green"),
        other => panic!("{:?}", other),
    }
    match registry.select("Green") {
        Err(FactoryRegistryError::FactoryNotFound(name)) => assert_eq!(name, "Green"),
        other => panic!("{:?}", other),
    }
    match registry.install("Green", Ok(Paint { color: WHITE })) {
        Err(FactoryRegistryError::FactoryNotFound(name)) => assert_eq!(name, "Green"),
        other => panic!("{:?}", other),
    }
}

#[test]
fn what_is_not_loaded_cannot_be_selected_or_unloaded() {
    let mut registry = registry();
    assert!(matches!(registry.select("Red"), Err(FactoryRegistryError::RenderNotLoaded)));
    assert!(matches!(registry.unload("Red"), Err(FactoryRegistryError::RenderNotLoaded)));
    assert_eq!(drawn(&registry), WHITE);
}

#[test]
fn a_refused_configuration_loads_nothing() {
    let mut registry = registry();
    assert!(matches!(registry.load("Red", &[1]), Err(FactoryRegistryError::FileIoError)));
    assert!(matches!(registry.select("Red"), Err(FactoryRegistryError::RenderNotLoaded)));
    let refused = Err(LoadError { message: "no".to_string() });
    assert!(matches!(registry.install("Red", refused), Err(FactoryRegistryError::FileIoError)));
    assert!(registry.install("Red", Ok(Paint { color: Rgb888::new(1, 2, 3) })).is_ok());
    assert!(matches!(
        registry.install("Red", Ok(Paint { color: WHITE })),
        Err(FactoryRegistryError::RenderNotUnload)
    ));
    registry.select("Red").unwrap();
    assert_eq!(drawn(&registry), Rgb888::new(1, 2, 3));
}

#[test]
fn unloading_the_selected_factory_clears_the_selection() {
    let mut registry = registry();
    registry.load("Red", &[200, 0, 0]).unwrap();
    registry.load("Blue", &[0, 0, 200]).unwrap();
    registry.select("Red").unwrap();
    registry.unload("Blue").unwrap();
    assert_eq!(drawn(&registry), Rgb888::new(200, 0, 0));
    registry.unload("Red").unwrap();
    assert_eq!(drawn(&registry), WHITE);
    assert_eq!(registry.clear(), None);
}

#[test]
fn clear_gives_back_the_selection() {
    let mut registry = registry();
    assert_eq!(registry.clear(), None);
    registry.load("Blue", &[0, 0, 200]).unwrap();
    registry.select("Blue").unwrap();
    assert_eq!(registry.clear(), Some("Blue".to_string()));
    assert_eq!(drawn(&registry), WHITE);
    assert_eq!(registry.clear(), None);
    registry.select("Blue").unwrap();
    assert_eq!(drawn(&registry), Rgb888::new(0, 0, 200));
}

#[test]
fn the_factories_are_listed_with_their_descriptions() {
    let registry = registry();
    let mut names: Vec<&str> = registry.iter().into_iter().map(|factory| factory.render_name()).collect();
    names.sort();
    assert_eq!(names, vec!["Blue", "Red"]);
    let entries = FactoryEntries::from(&registry);
    let mut listed: Vec<(String, String)> =
        entries.0.into_iter().map(|entry| (entry.name, entry.description)).collect();
    listed.sort();
    assert_eq!(
        listed,
        vec![
            ("Blue".to_string(), "paints blue".to_string()),
            ("Red".to_string(), "paints red".to_string()),
        ]
    );
}

#[test]
fn of_factories_with_one_name_the_last_one_counts() {
    let registry: FactoryRegistry<PaintFactory, CachedCanvas> = FactoryRegistry::new(vec![
        PaintFactory { name: "Same", description: "first" },
        PaintFactory { name: "Same", description: "last" },
    ]);
    let entries = FactoryEntries::from(&registry);
    assert_eq!(entries.0.len(), 1);
    assert_eq!(entries.0[0].name, "Same");
    assert_eq!(entries.0[0].description, "last");
}

#[test]
fn the_registry_errors_in_words() {
    assert_eq!(
        FactoryRegistryError::FactoryNotFound("Green".to_string()).message(),
        "Factory \"Green\" was not found"
    );
    assert_eq!(FactoryRegistryError::RenderNotLoaded.message(), "Render was not loaded");
    assert_eq!(FactoryRegistryError::RenderNotUnload.message(), "Render was not unloaded");
    assert_eq!(FactoryRegistryError::FileIoError.message(), "File IO error");
}

#[test]
fn a_list_of_factories_stands_for_the_one_in_front() {
    let list = List::new(PaintFactory { name: "Red", description: "paints red" });
    assert_eq!(list.render_name(), "Red");
    assert_eq!(list.render_description(), "paints red");
    assert!(list.load_from_config(&[1, 2, 3]).is_ok());
    assert!(list.load_from_config(&[1, 2]).is_err());

    let node: Node<PaintFactory, List<PaintFactory>> =
        list.append(PaintFactory { name: "Blue", description: "paints blue" });
    assert_eq!(node.render_name(), "Blue");
    assert_eq!(node.render_description(), "paints blue");
    assert_eq!(node.parent.value.name, "Red");
    let render = node.load_from_config(&[7, 8, 9]).unwrap();
    assert_eq!(render.color, Rgb888::new(7, 8, 9));

    let longer = node.append(PaintFactory { name: "Green", description: "paints green" });
    assert_eq!(longer.value.name, "Green");
    assert_eq!(longer.parent.value.name, "Blue");
    assert_eq!(longer.parent.parent.value.name, "Red");
    assert_eq!(longer.render_name(), "Green");
}

/// Paints the canvas black, whatever the configuration.
struct Blackout;

impl Render<CachedCanvas> for Blackout {
    fn draws(&self, _: Image, _: Size, _: Image, _: Result<(), RenderError>) -> bool {
        unreachable!()
    }

    fn render(&self, canvas: &mut CachedCanvas) -> Result<(), RenderError> {
        canvas.clear(Rgb888::black());
        Ok(())
    }
}

struct BlackoutFactory;

impl RenderFactory<CachedCanvas> for BlackoutFactory {
    type Output = Blackout;

    fn constructs(&self, _: Bytes, _: Result<Blackout, LoadError>) -> bool {
        unreachable!()
    }

    fn name(&self) -> Text {
        unreachable!()
    }

    fn description(&self) -> Text {
        unreachable!()
    }

    fn render_name(&self) -> &'static str {
        "Blackout"
    }

    fn render_description(&self) -> &'static str {
        "paints black"
    }

    fn load_from_config(&self, _: &[u8]) -> Result<Blackout, LoadError> {
        Ok(Blackout)
    }
}

#[test]
fn a_choice_of_factories_stands_for_the_one_it_holds() {
    let factories: Vec<Either<PaintFactory, BlackoutFactory>> = vec![
        Either::Left(PaintFactory { name: "Red", description: "paints red" }),
        Either::Right(BlackoutFactory),
    ];
    assert_eq!(factories[0].render_name(), "Red");
    assert_eq!(factories[0].render_description(), "paints red");
    assert_eq!(factories[1].render_name(), "Blackout");
    assert_eq!(factories[1].render_description(), "paints black");
    assert!(matches!(factories[0].load_from_config(&[1, 2, 3]), Ok(Either::Left(_))));
    assert!(factories[0].load_from_config(&[1, 2]).is_err());
    assert!(matches!(factories[1].load_from_config(&[]), Ok(Either::Right(_))));

    let mut registry: FactoryRegistry<Either<PaintFactory, BlackoutFactory>, CachedCanvas> =
        FactoryRegistry::new(factories);
    registry.load("Red", &[9, 9, 9]).unwrap();
    registry.load("Blackout", &[]).unwrap();
    let mut canvas = CachedCanvas::new(Size::new(1, 1));
    registry.select("Red").unwrap();
    registry.render(&mut canvas).unwrap();
    assert_eq!(canvas.pixel(Point::new(0, 0)), Some(Rgb888::new(9, 9, 9)));
    registry.select("Blackout").unwrap();
    registry.render(&mut canvas).unwrap();
    assert_eq!(canvas.pixel(Point::new(0, 0)), Some(Rgb888::new(0, 0, 0)));
}
