use shapelang::geometry::{
    GeometryTaskAnalyser, PlanStep, RatioMethod, RectData, RectOp, RectState, RectTarget,
    RectTraitKey, SideClass, Solver,
};

fn words(ws: &[&str]) -> Vec<String> {
    ws.iter().map(|w| w.to_string()).collect()
}

#[test]
fn perimeter_given_and_area_asked() {
    let (task, targets) =
        GeometryTaskAnalyser::get_task_data(words(&["периметр", "прямокутник", "20", "знайти", "площа"]));
    assert_eq!(task.perimeter, Some(RectData::Perimeter(2)));
    assert_eq!(task.area, None);
    assert_eq!(targets, vec![RectTarget::Area]);
}

#[test]
fn next_number_is_found_within_ten_words() {
    let ws = words(&["a", "b", "3.5", "c"]);
    assert_eq!(GeometryTaskAnalyser::find_next_number(&ws, 0), Some(2));
    assert_eq!(GeometryTaskAnalyser::find_next_number(&ws, 3), None);
    let far = words(&["a", "a", "a", "a", "a", "a", "a", "a", "a", "a", "7"]);
    assert_eq!(GeometryTaskAnalyser::find_next_number(&far, 0), None);
    assert_eq!(GeometryTaskAnalyser::find_next_number(&far, 1), Some(10));
}

#[test]
fn word_before_the_next_number() {
    let ws = words(&["діагональ", "коло", "5"]);
    assert!(GeometryTaskAnalyser::word_before_next_data("коло", &ws, 0));
    let ws = words(&["5", "коло"]);
    assert!(!GeometryTaskAnalyser::word_before_next_data("коло", &ws, 0));
}

#[test]
fn keyword_check_never_stops_a_number() {
    let ws = words(&["периметр", "площа", "1"]);
    assert!(!GeometryTaskAnalyser::keyword_before_number(&ws, 0));
}

#[test]
fn planner_asks_for_sides_first() {
    let state = RectState { known: vec![RectTraitKey::Perimeter], width: SideClass::Zero, height: SideClass::Zero };
    let mut targets = vec![RectTarget::Area];
    let step = Solver::plan_step(&mut targets, &state);
    assert!(matches!(step, PlanStep::Requires(RectTarget::Sides)));
    assert_eq!(targets, vec![RectTarget::Sides, RectTarget::Area]);
    let step = Solver::plan_step(&mut targets, &state);
    assert!(matches!(
        step,
        PlanStep::Resolved { op: Some(RectOp::FindSideByPerimeter), note: Some("Found sides using side and perimeter") }
    ));
    assert_eq!(targets, vec![RectTarget::Area]);
}

#[test]
fn planner_uses_known_sides() {
    let state = RectState { known: vec![], width: SideClass::Positive, height: SideClass::Positive };
    let mut targets = vec![RectTarget::Diagonal];
    let step = Solver::plan_step(&mut targets, &state);
    assert!(matches!(step, PlanStep::Resolved { op: Some(RectOp::Diagonal), .. }));
    assert!(targets.is_empty());
}

#[test]
fn planner_already_known() {
    let state = RectState { known: vec![RectTraitKey::Area], width: SideClass::Zero, height: SideClass::Zero };
    let mut targets = vec![RectTarget::Area];
    let step = Solver::plan_step(&mut targets, &state);
    assert!(matches!(step, PlanStep::Resolved { op: None, note: Some("Area is already known") }));
    assert!(targets.is_empty());
}

#[test]
fn planner_gives_up_without_data() {
    let state = RectState { known: vec![], width: SideClass::Zero, height: SideClass::Zero };
    let mut targets = vec![RectTarget::Sides];
    let step = Solver::plan_step(&mut targets, &state);
    assert!(matches!(step, PlanStep::GiveUp));
    assert_eq!(targets, vec![RectTarget::Sides]);
}

#[test]
fn settling_asks_for_missing_sides() {
    let mut targets = vec![];
    Solver::settle(&mut targets, SideClass::Zero, SideClass::Positive);
    assert_eq!(targets, vec![RectTarget::Sides]);
    let mut targets = vec![];
    Solver::settle(&mut targets, SideClass::Positive, SideClass::Positive);
    assert!(targets.is_empty());
    let mut targets = vec![RectTarget::Area];
    Solver::settle(&mut targets, SideClass::Zero, SideClass::Zero);
    assert_eq!(targets, vec![RectTarget::Area]);
}

#[test]
fn ratio_methods() {
    let (task, _) = GeometryTaskAnalyser::get_task_data(words(&["відношення", "2", "3", "периметр", "10"]));
    assert_eq!(task.ratio, Some(RectData::Ratio(1, 2)));
    assert_eq!(Solver::ratio_method(&task), Some(RatioMethod::FromPerimeter));
    let (task, _) = GeometryTaskAnalyser::get_task_data(words(&["периметр", "10"]));
    assert_eq!(Solver::ratio_method(&task), None);
}

#[test]
fn data_recorded_at_the_start() {
    let (task, _) = GeometryTaskAnalyser::get_task_data(words(&["периметр", "20", "площа", "12", "діаметер", "5"]));
    assert_eq!(
        Solver::initial_known(&task),
        vec![(RectTraitKey::Perimeter, RectData::Perimeter(1)), (RectTraitKey::Area, RectData::Area(3))]
    );
    let (task, _) = GeometryTaskAnalyser::get_task_data(words(&["радіус", "4"]));
    assert_eq!(
        Solver::initial_known(&task),
        vec![(RectTraitKey::CircumscribedCircleRadius, RectData::CircumscribedCircleRadius(1))]
    );
}
