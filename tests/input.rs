use game_of_life::{
    visible_positions, InputSystem, PaintAction, Position, Universe, CELL_IS_FREE,
    CELL_IS_POPULATED,
};

#[test]
fn paint_requests_populate_and_free_cells() {
    let mut universe = Universe::new(5, 4).unwrap();
    let mut actions = vec![PaintAction::Populate, PaintAction::Populate, PaintAction::Free];
    let mut positions = vec![
        Position { x: 1, y: 2 },
        Position { x: 3, y: 0 },
        Position { x: 3, y: 0 },
    ];
    let mut system = InputSystem {};
    system.run(&mut universe, &mut actions, &mut positions);
    // the latest request is taken first, so the earlier populate of (0, 3) wins
    assert_eq!(universe.get_cell_state(2, 1), CELL_IS_POPULATED);
    assert_eq!(universe.get_cell_state(0, 3), CELL_IS_POPULATED);
    assert!(actions.is_empty());
    assert!(positions.is_empty());
}

#[test]
fn paint_positions_are_clamped_into_the_universe() {
    let mut universe = Universe::new(5, 4).unwrap();
    let mut actions = vec![PaintAction::Populate];
    let mut positions = vec![Position { x: 200, y: 9 }];
    InputSystem {}.run(&mut universe, &mut actions, &mut positions);
    assert_eq!(universe.get_cell_state(3, 4), CELL_IS_POPULATED);
    for row in 0..4u8 {
        for column in 0..5u8 {
            if (row, column) != (3, 4) {
                assert_eq!(universe.get_cell_state(row, column), CELL_IS_FREE);
            }
        }
    }
}

#[test]
fn ignored_requests_change_nothing_and_leftovers_stay() {
    let mut universe = Universe::new(3, 3).unwrap();
    let mut actions = vec![PaintAction::Populate, PaintAction::Ignore];
    let mut positions = vec![
        Position { x: 0, y: 0 },
        Position { x: 1, y: 1 },
        Position { x: 2, y: 2 },
    ];
    InputSystem {}.run(&mut universe, &mut actions, &mut positions);
    // pairs: (Ignore, (2, 2)) then (Populate, (1, 1)); (0, 0) is left over
    assert_eq!(universe.get_cell_state(2, 2), CELL_IS_FREE);
    assert_eq!(universe.get_cell_state(1, 1), CELL_IS_POPULATED);
    assert_eq!(universe.get_cell_state(0, 0), CELL_IS_FREE);
    assert!(actions.is_empty());
    assert_eq!(positions, vec![Position { x: 0, y: 0 }]);
}

#[test]
fn only_populated_cells_are_visible() {
    let mut universe = Universe::new(3, 2).unwrap();
    universe.populate_cell(0, 1);
    universe.populate_cell(1, 2);
    let mut positions = Vec::new();
    for y in 0..2u8 {
        for x in 0..3u8 {
            positions.push(Position { x, y });
        }
    }
    let visible = visible_positions(&universe, &positions);
    assert_eq!(visible, vec![Position { x: 1, y: 0 }, Position { x: 2, y: 1 }]);
    let free = Universe::new(3, 2).unwrap();
    assert!(visible_positions(&free, &positions).is_empty());
}
