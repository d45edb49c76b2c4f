use game_of_life::rules::{is_need_to_be_alived, is_need_to_be_killed, next_cell_state};
use game_of_life::{CELL_IS_FREE, CELL_IS_POPULATED};

#[test]
fn rule_table_for_populated_cells() {
    let expected = [
        CELL_IS_FREE,
        CELL_IS_FREE,
        CELL_IS_POPULATED,
        CELL_IS_POPULATED,
        CELL_IS_FREE,
        CELL_IS_FREE,
        CELL_IS_FREE,
        CELL_IS_FREE,
        CELL_IS_FREE,
    ];
    for (count, state) in expected.iter().enumerate() {
        assert_eq!(next_cell_state(CELL_IS_POPULATED, count as u8), *state, "count {}", count);
    }
}

#[test]
fn rule_table_for_free_cells() {
    for count in 0u8..=8 {
        let expected = if count == 3 { CELL_IS_POPULATED } else { CELL_IS_FREE };
        assert_eq!(next_cell_state(CELL_IS_FREE, count), expected, "count {}", count);
    }
}

#[test]
fn killing_and_birth_predicates() {
    assert!(is_need_to_be_killed(CELL_IS_POPULATED, 1));
    assert!(is_need_to_be_killed(CELL_IS_POPULATED, 4));
    assert!(!is_need_to_be_killed(CELL_IS_POPULATED, 2));
    assert!(!is_need_to_be_killed(CELL_IS_FREE, 0));
    assert!(is_need_to_be_alived(CELL_IS_FREE, 3));
    assert!(!is_need_to_be_alived(CELL_IS_FREE, 2));
    assert!(!is_need_to_be_alived(CELL_IS_POPULATED, 3));
}
