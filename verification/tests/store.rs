use shapelang::rectangles::{ParseError, RectangleProperties};
use shapelang::store::{Command, Outcome, RectangleStore, Shape};

fn name(s: &str) -> Option<String> {
    Some(s.to_string())
}

fn corners(store: &RectangleStore, n: &str) -> Vec<(i32, i32)> {
    store.get(&n.to_string()).unwrap().get_points().iter().map(|p| (p.x, p.y)).collect()
}

fn run(store: &mut RectangleStore, cmd: Command) -> Result<Outcome, ParseError> {
    store.execute(&cmd).expect("the command stays within i32")
}

#[test]
fn define_then_measure_the_last_rectangle() {
    let mut s = RectangleStore::new();
    assert!(matches!(run(&mut s, Command::Define { name: name("ABCD"), shape: Shape::Default }), Ok(Outcome::Defined)));
    match run(&mut s, Command::Area { name: None }) {
        Ok(Outcome::Area { name, value }) => assert_eq!((name.as_str(), value), ("ABCD", 200)),
        other => panic!("{:?}", other),
    }
    match run(&mut s, Command::Perimeter { name: None }) {
        Ok(Outcome::Perimeter { value, .. }) => assert_eq!(value, 60),
        other => panic!("{:?}", other),
    }
    match run(&mut s, Command::Diagonal { name: None }) {
        Ok(Outcome::Diagonal { value, .. }) => assert_eq!(value, 22),
        other => panic!("{:?}", other),
    }
    let props = s.get(&"ABCD".to_string()).unwrap().get_properties().clone();
    assert_eq!(
        props,
        vec![RectangleProperties::Area(200), RectangleProperties::Perimeter(60), RectangleProperties::Diagonal(500)]
    );
}

#[test]
fn recording_twice_keeps_one_value() {
    let mut s = RectangleStore::new();
    run(&mut s, Command::Define { name: name("ABCD"), shape: Shape::Default }).unwrap();
    run(&mut s, Command::Area { name: None }).unwrap();
    run(&mut s, Command::Area { name: None }).unwrap();
    assert_eq!(s.get(&"ABCD".to_string()).unwrap().get_properties().len(), 1);
}

#[test]
fn missing_rectangles_are_errors() {
    let mut s = RectangleStore::new();
    match run(&mut s, Command::Area { name: None }) {
        Err(ParseError::RectangleNotFound(m)) => assert_eq!(m, "No rectangle specified."),
        other => panic!("{:?}", other),
    }
    match run(&mut s, Command::Area { name: name("WXYZ") }) {
        Err(ParseError::RectangleNotFound(m)) => assert_eq!(m, "Rectangle WXYZ not found"),
        other => panic!("{:?}", other),
    }
}

#[test]
fn bad_names_are_refused() {
    let mut s = RectangleStore::new();
    match run(&mut s, Command::Define { name: name("ABC"), shape: Shape::Default }) {
        Err(ParseError::IncorrectName(m)) => {
            assert_eq!(m, "Incorrect name format: ABC. Must contain exactly 4 unique point names.")
        },
        other => panic!("{:?}", other),
    }
    match run(&mut s, Command::Define { name: name("ABCA"), shape: Shape::Default }) {
        Err(ParseError::IncorrectName(m)) => assert_eq!(m, "Duplicate point names in: ABCA. Points must be unique."),
        other => panic!("{:?}", other),
    }
    assert!(s.rectangles().is_empty());
}

#[test]
fn coordinates_must_form_a_rectangle() {
    let mut s = RectangleStore::new();
    let shape = Shape::Coordinates(vec![(0, 0), (0, 2), (3, 2), (3, 0)]);
    run(&mut s, Command::Define { name: name("ABCD"), shape }).unwrap();
    let r = s.get(&"ABCD".to_string()).unwrap();
    assert_eq!((r.get_width(), r.get_height()), (3, 2));
    let shape = Shape::Coordinates(vec![(0, 0), (0, 2), (5, 7), (3, 0)]);
    match run(&mut s, Command::Define { name: name("EFGH"), shape }) {
        Err(ParseError::IncorrectInput(m)) => assert_eq!(m, "Provided coordinates do not form a rectangle."),
        other => panic!("{:?}", other),
    }
    let shape = Shape::Coordinates(vec![(0, 0), (0, 2), (3, 2)]);
    match run(&mut s, Command::Define { name: name("EFGH"), shape }) {
        Err(ParseError::IncorrectInput(m)) => assert_eq!(m, "Exactly 4 coordinates are required to define a rectangle."),
        other => panic!("{:?}", other),
    }
    assert!(matches!(run(&mut s, Command::Define { name: name("EFGH"), shape: Shape::Unrecognized }), Ok(Outcome::Ignored)));
    assert_eq!(s.rectangles().len(), 1);
}

#[test]
fn moving_and_mirroring() {
    let mut s = RectangleStore::new();
    run(&mut s, Command::Define { name: name("ABCD"), shape: Shape::Default }).unwrap();
    run(&mut s, Command::MoveBy { name: None, dx: -5, dy: -3 }).unwrap();
    assert_eq!(corners(&s, "ABCD"), vec![(-5, -3), (-5, 17), (5, 17), (5, -3)]);
    run(&mut s, Command::MoveTo { name: None, x: 20, y: 20 }).unwrap();
    assert_eq!(corners(&s, "ABCD"), vec![(20, 20), (20, 40), (30, 40), (30, 20)]);
    run(&mut s, Command::Reflect { name: None, axis: 'X' }).unwrap();
    assert_eq!(corners(&s, "ABCD"), vec![(20, 20), (20, 0), (30, 0), (30, 20)]);
    run(&mut s, Command::Reflect { name: None, axis: 'X' }).unwrap();
    assert_eq!(corners(&s, "ABCD"), vec![(20, 20), (20, 40), (30, 40), (30, 20)]);
    run(&mut s, Command::MoveBy { name: None, dx: 4, dy: 9 }).unwrap();
    run(&mut s, Command::MoveBy { name: None, dx: -4, dy: -9 }).unwrap();
    assert_eq!(corners(&s, "ABCD"), vec![(20, 20), (20, 40), (30, 40), (30, 20)]);
}

#[test]
fn intersections_are_stored() {
    let mut s = RectangleStore::new();
    run(&mut s, Command::Define { name: name("ABCD"), shape: Shape::Default }).unwrap();
    let shape = Shape::Size { width: 10, height: 10, x: 5, y: 5 };
    run(&mut s, Command::Define { name: name("EFGH"), shape }).unwrap();
    match run(&mut s, Command::MarkIntersection { first: "ABCD".to_string(), second: None }) {
        Ok(Outcome::IntersectionAdded { name }) => assert_eq!(name, "IAE"),
        other => panic!("{:?}", other),
    }
    assert_eq!(corners(&s, "IAE"), vec![(5, 5), (5, 15), (10, 15), (10, 5)]);
    let i = s.get(&"IAE".to_string()).unwrap();
    assert_eq!((i.get_width(), i.get_height()), (5, 10));
    assert_eq!(
        s.get(&"IAE".to_string()).unwrap().get_properties().clone(),
        vec![RectangleProperties::IsIntersection(true)]
    );
    let far = Shape::Size { width: 1, height: 1, x: 100, y: 100 };
    run(&mut s, Command::Define { name: name("KLMN"), shape: far }).unwrap();
    assert!(matches!(
        run(&mut s, Command::MarkIntersection { first: "ABCD".to_string(), second: name("KLMN") }),
        Ok(Outcome::NoIntersection { .. })
    ));
}

#[test]
fn intersection_of_a_missing_rectangle_is_not_run() {
    let mut s = RectangleStore::new();
    run(&mut s, Command::Define { name: name("ABCD"), shape: Shape::Default }).unwrap();
    assert!(s.execute(&Command::MarkIntersection { first: "WXYZ".to_string(), second: None }).is_none());
}

#[test]
fn renaming_a_point_renames_the_rectangle() {
    let mut s = RectangleStore::new();
    run(&mut s, Command::Define { name: name("ABCD"), shape: Shape::Default }).unwrap();
    let cmd = Command::RenamePoint { name: name("ABCD"), old_name: "C".to_string(), new_name: "L".to_string() };
    assert!(matches!(run(&mut s, cmd), Ok(Outcome::Renamed)));
    assert!(s.get(&"ABCD".to_string()).is_none());
    let renamed = s.get(&"ABLD".to_string()).unwrap();
    assert_eq!((renamed.get_width(), renamed.get_height()), (10, 20));
    assert_eq!(renamed.get_name(), "ABLD");
    let cmd = Command::RenamePoint { name: name("ABLD"), old_name: "Q".to_string(), new_name: "R".to_string() };
    match run(&mut s, cmd) {
        Err(ParseError::IncorrectInput(m)) => assert_eq!(m, "The point Q was not found in rectangle."),
        other => panic!("{:?}", other),
    }
    assert!(s.rectangles().is_empty());
}

#[test]
fn refused_rename_keeps_the_rectangle_out() {
    let mut s = RectangleStore::new();
    run(&mut s, Command::Define { name: name("ABCD"), shape: Shape::Default }).unwrap();
    let cmd = Command::RenamePoint { name: name("ABCD"), old_name: "C".to_string(), new_name: "B".to_string() };
    match run(&mut s, cmd) {
        Ok(Outcome::RenameFailed(ParseError::IncorrectName(m))) => {
            assert_eq!(m, "The point name B is already used in the rectangle.")
        },
        other => panic!("{:?}", other),
    }
    assert!(s.rectangles().is_empty());
}

#[test]
fn overflowing_commands_are_not_run() {
    let mut s = RectangleStore::new();
    let shape = Shape::Size { width: i32::MAX, height: 1, x: 1, y: 0 };
    assert!(s.execute(&Command::Define { name: name("ABCD"), shape }).is_none());
    assert!(s.rectangles().is_empty());
    run(&mut s, Command::Define { name: name("ABCD"), shape: Shape::Default }).unwrap();
    assert!(s.execute(&Command::MoveBy { name: None, dx: i32::MAX, dy: 0 }).is_none());
    assert_eq!(corners(&s, "ABCD"), vec![(0, 0), (0, 20), (10, 20), (10, 0)]);
    assert!(s.command_fits(&Command::MoveBy { name: None, dx: 1, dy: 1 }));
}

#[test]
fn redefining_replaces() {
    let mut s = RectangleStore::new();
    run(&mut s, Command::Define { name: name("ABCD"), shape: Shape::Default }).unwrap();
    let shape = Shape::Size { width: 3, height: 4, x: 0, y: 0 };
    run(&mut s, Command::Define { name: name("ABCD"), shape }).unwrap();
    assert_eq!(s.rectangles().len(), 1);
    match run(&mut s, Command::Diagonal { name: name("ABCD") }) {
        Ok(Outcome::Diagonal { value, .. }) => assert_eq!(value, 5),
        other => panic!("{:?}", other),
    }
}
