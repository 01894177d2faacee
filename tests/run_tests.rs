use stm32_bindings_gen::run::{advance, Stage};

#[test]
fn successful_run_visits_specs_in_order_then_index() {
    let mut stage = Stage::Prepare;
    let mut seen = Vec::new();
    for _ in 0..6 {
        seen.push(stage);
        stage = advance(stage, true, 3);
    }
    assert_eq!(
        seen,
        vec![
            Stage::Prepare,
            Stage::Generate(0),
            Stage::Generate(1),
            Stage::Generate(2),
            Stage::WriteIndex,
            Stage::Done,
        ]
    );
    assert_eq!(stage, Stage::Done);
}

#[test]
fn empty_registry_goes_straight_to_index() {
    assert_eq!(advance(Stage::Prepare, true, 0), Stage::WriteIndex);
}

#[test]
fn failure_aborts_and_stays_aborted() {
    assert_eq!(advance(Stage::Generate(1), false, 3), Stage::Aborted);
    assert_eq!(advance(Stage::Prepare, false, 3), Stage::Aborted);
    assert_eq!(advance(Stage::WriteIndex, false, 3), Stage::Aborted);
    assert_eq!(advance(Stage::Aborted, true, 3), Stage::Aborted);
    assert_eq!(advance(Stage::Done, false, 3), Stage::Done);
}
