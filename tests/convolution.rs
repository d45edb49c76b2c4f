use game_of_life::convolve_torus;

/// A plane of `height` by `width` free cells inside a halo one cell wide.
fn plane(height: usize, width: usize) -> Vec<Vec<u8>> {
    vec![vec![0u8; width + 2]; height + 2]
}

fn populate(plane: &mut Vec<Vec<u8>>, row: usize, column: usize) {
    plane[row + 1][column + 1] = 1;
}

fn count_at(counts: &Vec<Vec<u8>>, row: usize, column: usize) -> u8 {
    counts[row + 1][column + 1]
}

#[test]
fn top_row_neighbours_bottom_row() {
    let (height, width) = (5, 6);
    for column in 0..width {
        let mut p = plane(height, width);
        populate(&mut p, 0, column);
        let counts = convolve_torus(&mut p);
        assert_eq!(count_at(&counts, height - 1, column), 1);

        let mut p = plane(height, width);
        populate(&mut p, height - 1, column);
        let counts = convolve_torus(&mut p);
        assert_eq!(count_at(&counts, 0, column), 1);
    }
}

#[test]
fn left_column_neighbours_right_column() {
    let (height, width) = (6, 5);
    for row in 0..height {
        let mut p = plane(height, width);
        populate(&mut p, row, 0);
        let counts = convolve_torus(&mut p);
        assert_eq!(count_at(&counts, row, width - 1), 1);

        let mut p = plane(height, width);
        populate(&mut p, row, width - 1);
        let counts = convolve_torus(&mut p);
        assert_eq!(count_at(&counts, row, 0), 1);
    }
}

#[test]
fn corners_are_diagonal_neighbours() {
    let (height, width) = (4, 5);
    let mut p = plane(height, width);
    populate(&mut p, 0, 0);
    let counts = convolve_torus(&mut p);
    assert_eq!(count_at(&counts, height - 1, width - 1), 1);

    let mut p = plane(height, width);
    populate(&mut p, 0, width - 1);
    let counts = convolve_torus(&mut p);
    assert_eq!(count_at(&counts, height - 1, 0), 1);
}

#[test]
fn counts_of_a_lone_cell() {
    let (height, width) = (5, 5);
    let mut p = plane(height, width);
    populate(&mut p, 2, 2);
    let counts = convolve_torus(&mut p);
    for row in 0..height {
        for column in 0..width {
            let near = row.abs_diff(2) <= 1 && column.abs_diff(2) <= 1;
            let expected = if near && (row, column) != (2, 2) { 1 } else { 0 };
            assert_eq!(count_at(&counts, row, column), expected);
        }
    }
}

#[test]
fn counts_of_a_full_plane_are_eight() {
    let (height, width) = (3, 4);
    let mut p = vec![vec![1u8; width + 2]; height + 2];
    let counts = convolve_torus(&mut p);
    for row in 0..height {
        for column in 0..width {
            assert_eq!(count_at(&counts, row, column), 8);
        }
    }
}

#[test]
fn halo_mirrors_the_opposite_edges() {
    let (height, width) = (3, 4);
    let mut p = plane(height, width);
    populate(&mut p, 0, 0);
    populate(&mut p, 2, 3);
    populate(&mut p, 1, 2);
    let counts = convolve_torus(&mut p);
    let expected: Vec<Vec<u8>> = vec![
        vec![1, 0, 0, 0, 1, 0],
        vec![0, 1, 0, 0, 0, 1],
        vec![0, 0, 0, 1, 0, 0],
        vec![1, 0, 0, 0, 1, 0],
        vec![0, 1, 0, 0, 0, 1],
    ];
    assert_eq!(p, expected);
    // the halo of the counts holds zero
    assert!(counts[0].iter().all(|&n| n == 0));
    assert!(counts.iter().all(|row| row[0] == 0 && row[width + 1] == 0));
    // (0, 0) sees (2, 3) diagonally and (1, 2) not at all
    assert_eq!(count_at(&counts, 0, 0), 1);
    // (1, 3) sees (0, 0), (2, 3) and (1, 2)
    assert_eq!(count_at(&counts, 1, 3), 3);
}
