use shapelang::rectangles::{ParseError, Rectangle, RectangleProperties};

fn n(s: &str) -> String {
    s.to_string()
}

fn corners(r: &Rectangle) -> Vec<(i32, i32)> {
    r.get_points().iter().map(|p| (p.x, p.y)).collect()
}

#[test]
fn new_rectangle_has_named_corners() {
    let r = Rectangle::new(1, 2, 3, 4, &n("A1B2C3D4")).unwrap();
    assert_eq!(corners(&r), vec![(1, 2), (1, 6), (4, 6), (4, 2)]);
    let names: Vec<String> = r.get_points().iter().map(|p| p.name.clone()).collect();
    assert_eq!(names, vec!["A1", "B2", "C3", "D4"]);
    assert_eq!(r.get_position(), (1, 2));
    assert!(r.has_point(&n("C3")));
    assert!(!r.has_point(&n("C")));
}

#[test]
fn sizes_from_corners() {
    let r = Rectangle::new_from_coords(&n("ABCD"), &[(0, 0), (0, 5), (4, 5), (4, 0)]).unwrap();
    assert_eq!((r.get_width(), r.get_height()), (4, 5));
    assert!(matches!(Rectangle::new_from_coords(&n("ABCD"), &[(0, 0)]), Err(ParseError::IncorrectInput(_))));
}

#[test]
fn measures() {
    let mut r = Rectangle::new(0, 0, -3, 4, &n("ABCD")).unwrap();
    assert_eq!(r.area(), 12);
    assert_eq!(r.perimeter(), 14);
    assert_eq!(r.diagonal(), 5);
    assert_eq!(
        r.get_properties().clone(),
        vec![RectangleProperties::Area(12), RectangleProperties::Perimeter(14), RectangleProperties::Diagonal(25)]
    );
}

#[test]
fn perimeter_is_capped() {
    let mut r = Rectangle::new(0, 0, i32::MAX, 10, &n("ABCD")).unwrap();
    assert_eq!(r.perimeter(), i32::MAX);
    assert_eq!(r.get_properties().clone(), vec![RectangleProperties::Perimeter(2 * (i32::MAX as i64 + 10))]);
}

#[test]
fn moving_reflecting_and_overlap() {
    let mut r = Rectangle::new(0, 0, 2, 2, &n("ABCD")).unwrap();
    r.move_rectangle(3, 4);
    assert_eq!(corners(&r), vec![(3, 4), (3, 6), (5, 6), (5, 4)]);
    r.move_to(0, 0);
    assert_eq!(corners(&r), vec![(0, 0), (0, 2), (2, 2), (2, 0)]);
    r.reflect_rectangle('Y');
    assert_eq!(corners(&r), vec![(0, 0), (0, 2), (-2, 2), (-2, 0)]);
    r.reflect_rectangle('Z');
    assert_eq!(corners(&r), vec![(0, 0), (0, 2), (-2, 2), (-2, 0)]);
    let a = Rectangle::new(0, 0, 4, 4, &n("ABCD")).unwrap();
    let b = Rectangle::new(2, 2, 4, 4, &n("EFGH")).unwrap();
    let i = a.intersection(&b).unwrap();
    let j = b.intersection(&a).unwrap();
    assert_eq!(corners(&i), vec![(2, 2), (2, 4), (4, 4), (4, 2)]);
    assert_eq!(corners(&i), corners(&j));
    assert_eq!(i.get_name(), "IAE");
    assert_eq!(j.get_name(), "IEA");
}

#[test]
fn renaming_points() {
    let mut r = Rectangle::new(0, 0, 1, 1, &n("ABCD")).unwrap();
    r.rename_point("B", "Q7").unwrap();
    assert_eq!(r.get_name(), "AQ7CD");
    match r.rename_point("A", "q") {
        Err(ParseError::IncorrectName(m)) => {
            assert_eq!(m, "Incorrect new name format: q.Must be a capital letter and optional digits.")
        },
        other => panic!("{:?}", other),
    }
    match r.rename_point("X", "Z") {
        Err(ParseError::IncorrectName(m)) => assert_eq!(m, "Point X not found."),
        other => panic!("{:?}", other),
    }
}

#[test]
fn ratios_and_names() {
    assert!(Rectangle::check_ratio(&n("ABCD"), (4, 5)).is_ok());
    match Rectangle::check_ratio(&n("ABCD"), (0, 5)) {
        Err(ParseError::IncorrectInput(m)) => assert_eq!(m, "Incorrect ratio."),
        other => panic!("{:?}", other),
    }
    assert!(matches!(Rectangle::check_ratio(&n("ABC"), (1, 5)), Err(ParseError::IncorrectName(_))));
    assert!(Rectangle::validate_name(&n("M0H1LA")).is_ok());
    assert!(Rectangle::validate_name(&n("M0H1L")).is_err());
}

#[test]
fn rescaling_recomputes_recorded_values() {
    let mut r = Rectangle::new(0, 0, 2, 3, &n("ABCD")).unwrap();
    r.area();
    r.rescale(4, 6, &[(0, 0), (0, 6), (4, 6), (4, 0)]);
    assert_eq!(r.get_properties().clone(), vec![RectangleProperties::Area(24)]);
    assert_eq!(corners(&r), vec![(0, 0), (0, 6), (4, 6), (4, 0)]);
    r.set_corners(&[(1, 1), (1, 7), (5, 7), (5, 1)]);
    assert_eq!(r.get_width(), 4);
}

#[test]
fn renaming_back_restores_the_names() {
    let mut r = Rectangle::new(0, 0, 1, 1, &n("ABCD")).unwrap();
    r.rename_point("B", "Q7").unwrap();
    r.rename_point("Q7", "B").unwrap();
    assert_eq!(r.get_name(), "ABCD");
    let names: Vec<String> = r.get_points().iter().map(|p| p.name.clone()).collect();
    assert_eq!(names, vec!["A", "B", "C", "D"]);
}

#[test]
fn point_names_from_found_pieces() {
    let v = |xs: &[&str]| xs.iter().map(|x| x.to_string()).collect::<Vec<String>>();
    assert_eq!(Rectangle::point_names_from_matches(v(&["A", "B1", "C", "D"]), &n("AB1CD")).unwrap(), v(&["A", "B1", "C", "D"]));
    match Rectangle::point_names_from_matches(v(&["A", "B"]), &n("AB")) {
        Err(ParseError::IncorrectName(m)) => {
            assert_eq!(m, "Incorrect name format: AB. Must contain exactly 4 unique point names.")
        },
        other => panic!("{:?}", other),
    }
    match Rectangle::point_names_from_matches(v(&["A", "B", "A", "D"]), &n("ABAD")) {
        Err(ParseError::IncorrectName(m)) => assert_eq!(m, "Duplicate point names in: ABAD. Points must be unique."),
        other => panic!("{:?}", other),
    }
}

#[test]
fn intersection_is_symmetric_but_for_its_name() {
    let a = Rectangle::new(0, 0, 5, 3, &n("ABCD")).unwrap();
    let b = Rectangle::new(-2, 1, 4, 6, &n("EFGH")).unwrap();
    let i = a.intersection(&b).unwrap();
    let j = b.intersection(&a).unwrap();
    assert_eq!(corners(&i), corners(&j));
    assert_eq!((i.get_width(), i.get_height()), (j.get_width(), j.get_height()));
    assert_eq!((i.get_width(), i.get_height()), (2, 2));
    let names: Vec<String> = i.get_points().iter().map(|p| p.name.clone()).collect();
    assert_eq!(names, vec!["IAE1", "IAE2", "IAE3", "IAE4"]);
    let far = Rectangle::new(50, 50, 1, 1, &n("KLMN")).unwrap();
    assert!(a.intersection(&far).is_none() && far.intersection(&a).is_none());
}
