use brinsfield_silence_simulation::world::{count_expression, employee_slot, Expression};

#[test]
fn expression_labels() {
    assert_eq!(Expression::Voice.label(), "voice");
    assert_eq!(Expression::Silence.label(), "silence");
    assert_eq!(Expression::Neutral.label(), "neutral");
}

#[test]
fn counts_each_expression() {
    let e = [
        Expression::Silence,
        Expression::Voice,
        Expression::Silence,
        Expression::Neutral,
        Expression::Silence,
    ];
    assert_eq!(count_expression(&e, Expression::Silence), 3);
    assert_eq!(count_expression(&e, Expression::Voice), 1);
    assert_eq!(count_expression(&e, Expression::Neutral), 1);
    assert_eq!(count_expression(&[], Expression::Silence), 0);
}

#[test]
fn isolated_agent_has_no_silent_neighbours() {
    let neighbours: Vec<Expression> = Vec::new();
    assert_eq!(count_expression(&neighbours, Expression::Silence), 0);
    assert_eq!(count_expression(&neighbours, Expression::Voice), 0);
}

#[test]
fn employees_fill_teams_in_order() {
    // 2 teams of 4, 2 levels.
    let slots: Vec<(usize, u8)> = (0..8).map(|i| employee_slot(i, 4, 2)).collect();
    assert_eq!(
        slots,
        vec![(0, 0), (0, 1), (0, 0), (0, 1), (1, 0), (1, 1), (1, 0), (1, 1)]
    );
    // Zero levels behaves as one level.
    assert_eq!(employee_slot(7, 3, 0), (2, 0));
    assert_eq!(employee_slot(300, 100, 255), (3, 45));
}
