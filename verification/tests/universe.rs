use game_of_life::universe::{apply_rule, Universe};

fn dead(width: u32, height: u32) -> Universe {
    Universe::new(width, height, &vec![false; (width * height) as usize])
}

fn with_cells(width: u32, height: u32, cells: &[(u32, u32)]) -> Universe {
    let mut universe = dead(width, height);
    universe.set_cells(cells);
    universe
}

fn is_alive(universe: &Universe, row: u32, col: u32) -> bool {
    universe.grid().get(universe.get_index(row, col))
}

fn live_cells(universe: &Universe) -> Vec<(u32, u32)> {
    let mut cells = Vec::new();
    for row in 0..universe.height() {
        for col in 0..universe.width() {
            if is_alive(universe, row, col) {
                cells.push((row, col));
            }
        }
    }
    cells
}

/// The cells around the middle of a three-by-three grid.
const RING: [(u32, u32); 8] = [(0, 0), (0, 1), (0, 2), (1, 0), (1, 2), (2, 0), (2, 1), (2, 2)];

#[test]
fn new_takes_the_seed_row_by_row() {
    let seed = [true, false, false, false, true, true];
    let universe = Universe::new(3, 2, &seed);
    assert_eq!(universe.width(), 3);
    assert_eq!(universe.height(), 2);
    assert_eq!(live_cells(&universe), vec![(0, 0), (1, 1), (1, 2)]);
    assert_eq!(universe.get_cells(), &[0b110_001u32][..]);
}

#[test]
fn new_of_one_cell() {
    assert_eq!(live_cells(&Universe::new(1, 1, &[true])), vec![(0, 0)]);
    assert_eq!(live_cells(&Universe::new(1, 1, &[false])), Vec::<(u32, u32)>::new());
}

#[test]
fn get_index_is_row_major() {
    let universe = dead(64, 48);
    assert_eq!(universe.get_index(0, 0), 0);
    assert_eq!(universe.get_index(0, 63), 63);
    assert_eq!(universe.get_index(1, 0), 64);
    assert_eq!(universe.get_index(47, 63), 64 * 48 - 1);
}

#[test]
fn the_rule_on_a_live_cell() {
    let expected = [false, false, true, true, false, false, false, false, false];
    for neighbors in 0..=8u8 {
        assert_eq!(apply_rule(true, neighbors), expected[neighbors as usize]);
    }
}

#[test]
fn the_rule_on_a_dead_cell() {
    let expected = [false, false, false, true, false, false, false, false, false];
    for neighbors in 0..=8u8 {
        assert_eq!(apply_rule(false, neighbors), expected[neighbors as usize]);
    }
}

#[test]
fn tick_applies_the_rule_to_a_live_cell_with_each_count() {
    let expected = [false, false, true, true, false, false, false, false, false];
    for neighbors in 0..=8usize {
        let mut cells = vec![(1, 1)];
        cells.extend_from_slice(&RING[..neighbors]);
        let mut universe = with_cells(3, 3, &cells);
        assert_eq!(universe.live_neighbor_count(1, 1) as usize, neighbors);
        universe.tick();
        assert_eq!(is_alive(&universe, 1, 1), expected[neighbors]);
    }
}

#[test]
fn tick_applies_the_rule_to_a_dead_cell_with_each_count() {
    let expected = [false, false, false, true, false, false, false, false, false];
    for neighbors in 0..=8usize {
        let mut universe = with_cells(3, 3, &RING[..neighbors]);
        assert_eq!(universe.live_neighbor_count(1, 1) as usize, neighbors);
        universe.tick();
        assert_eq!(is_alive(&universe, 1, 1), expected[neighbors]);
    }
}

#[test]
fn tick_counts_in_the_old_generation() {
    // With counts taken in a half-updated grid the row would not turn.
    let mut universe = with_cells(5, 5, &[(0, 1), (0, 2), (0, 3)]);
    universe.tick();
    assert_eq!(live_cells(&universe), vec![(0, 2), (1, 2), (4, 2)]);
}

#[test]
fn live_neighbor_count_in_the_middle() {
    let universe = with_cells(5, 5, &[(1, 1), (1, 2), (2, 3), (3, 3), (2, 2), (0, 0), (4, 4)]);
    assert_eq!(universe.live_neighbor_count(2, 2), 4);
    assert_eq!(universe.live_neighbor_count(2, 3), 3);
    assert_eq!(universe.live_neighbor_count(0, 4), 2);
}

#[test]
fn live_neighbor_count_goes_round_the_edges() {
    let universe = with_cells(4, 3, &[(2, 3), (2, 0), (2, 1), (0, 3), (1, 3), (1, 0), (1, 1), (0, 1)]);
    assert_eq!(universe.live_neighbor_count(0, 0), 8);
    assert_eq!(universe.live_neighbor_count(2, 2), 6);
    let corner = with_cells(6, 5, &[(4, 5)]);
    assert_eq!(corner.live_neighbor_count(0, 0), 1);
    assert_eq!(corner.live_neighbor_count(3, 4), 1);
    assert_eq!(corner.live_neighbor_count(4, 0), 1);
    assert_eq!(corner.live_neighbor_count(0, 5), 1);
    assert_eq!(corner.live_neighbor_count(4, 5), 0);
    assert_eq!(corner.live_neighbor_count(2, 2), 0);
}

#[test]
fn live_neighbor_count_takes_rows_and_columns_modulo_the_dimensions() {
    let universe = with_cells(5, 4, &[(0, 0), (1, 1), (3, 4), (2, 2), (3, 0)]);
    for row in 0..4u32 {
        for col in 0..5u32 {
            let count = universe.live_neighbor_count(row, col);
            assert_eq!(universe.live_neighbor_count(row + 4, col), count);
            assert_eq!(universe.live_neighbor_count(row, col + 5), count);
            assert_eq!(universe.live_neighbor_count(row + 12, col + 35), count);
        }
    }
    assert_eq!(universe.live_neighbor_count(4, 5), universe.live_neighbor_count(0, 0));
    assert_eq!(universe.live_neighbor_count(4, 5), 3);
}

#[test]
fn live_neighbor_count_of_the_largest_coordinates() {
    // 4294967295 is 3 modulo 4 and 0 modulo 5.
    let universe = with_cells(5, 4, &[(0, 0), (1, 1), (3, 4), (2, 2), (3, 0)]);
    assert_eq!(universe.live_neighbor_count(u32::MAX, u32::MAX), universe.live_neighbor_count(3, 0));
    assert_eq!(universe.live_neighbor_count(u32::MAX, u32::MAX), 2);
}

#[test]
fn on_a_grid_two_high_the_row_above_is_the_row_below() {
    let universe = with_cells(4, 2, &[(1, 1)]);
    assert_eq!(universe.live_neighbor_count(0, 1), 2);
    assert_eq!(universe.live_neighbor_count(0, 0), 2);
    assert_eq!(universe.live_neighbor_count(1, 0), 1);
    assert_eq!(universe.live_neighbor_count(1, 1), 0);
    let full = Universe::new(2, 2, &[true; 4]);
    assert_eq!(full.live_neighbor_count(0, 0), 8);
}

#[test]
fn on_a_grid_one_high_a_cell_is_its_own_neighbor() {
    let single = Universe::new(1, 1, &[true]);
    assert_eq!(single.live_neighbor_count(0, 0), 5);
    let row = with_cells(4, 1, &[(0, 1)]);
    assert_eq!(row.live_neighbor_count(0, 1), 1);
    assert_eq!(row.live_neighbor_count(0, 0), 3);
    assert_eq!(row.live_neighbor_count(0, 2), 3);
    assert_eq!(row.live_neighbor_count(0, 3), 0);
    let column = with_cells(1, 4, &[(1, 0)]);
    assert_eq!(column.live_neighbor_count(1, 0), 1);
    assert_eq!(column.live_neighbor_count(0, 0), 3);
    assert_eq!(column.live_neighbor_count(2, 0), 3);
    assert_eq!(column.live_neighbor_count(3, 0), 0);
}

#[test]
fn a_single_live_cell_on_a_grid_of_one_dies() {
    let mut universe = Universe::new(1, 1, &[true]);
    universe.tick();
    assert_eq!(live_cells(&universe), Vec::<(u32, u32)>::new());
}

#[test]
fn set_cells_reads_back_alive_where_listed_and_dead_elsewhere() {
    let listed = [(1, 2), (2, 3), (3, 1), (3, 2), (3, 3)];
    let mut universe = Universe::new(6, 5, &[true; 30]);
    universe.set_cells(&listed);
    for row in 0..5 {
        for col in 0..6 {
            assert_eq!(is_alive(&universe, row, col), listed.contains(&(row, col)));
        }
    }
}

#[test]
fn set_cells_with_nothing_listed_leaves_no_live_cell() {
    let mut universe = Universe::new(3, 3, &[true; 9]);
    universe.set_cells(&[]);
    assert_eq!(live_cells(&universe), Vec::<(u32, u32)>::new());
    assert_eq!(universe.get_cells(), &[0u32][..]);
}

#[test]
fn get_cells_packs_the_cells_lowest_bit_first() {
    let universe = with_cells(8, 8, &[(0, 0), (0, 7), (3, 7), (4, 0), (7, 7)]);
    assert_eq!(universe.get_cells(), &[0x8000_0081u32, 0x8000_0001u32][..]);
    let small = with_cells(3, 3, &[(0, 0), (1, 1), (2, 2)]);
    assert_eq!(small.get_cells(), &[0b100_010_001u32][..]);
}

#[test]
fn get_cells_has_a_block_for_every_thirty_two_cells() {
    assert_eq!(dead(64, 64).get_cells().len(), 128);
    assert_eq!(dead(5, 13).get_cells().len(), 3);
    assert_eq!(dead(1, 1).get_cells().len(), 1);
}

#[test]
fn cell_size_is_the_smaller_of_the_two_quotients() {
    let universe = dead(64, 64);
    assert_eq!(universe.cell_size(640, 480), 5);
    assert_eq!(universe.cell_size(480, 640), 5);
    assert_eq!(universe.cell_size(128, 128), 0);
    assert_eq!(universe.cell_size(191, 1000), 0);
    assert_eq!(universe.cell_size(192, 1000), 1);
    let wide = dead(10, 3);
    assert_eq!(wide.cell_size(100, 100), 8);
    assert_eq!(wide.cell_size(100, 20), 4);
    assert_eq!(wide.cell_size(u32::MAX, u32::MAX), 429496727);
}

#[test]
fn equal_states_tick_to_equal_states() {
    let seed: Vec<bool> = (0..35 * 21).map(|i| (i * i + 3 * i) % 7 < 3).collect();
    let mut first = Universe::new(35, 21, &seed);
    let mut second = Universe::new(35, 21, &seed);
    for _ in 0..12 {
        first.tick();
        second.tick();
        assert_eq!(first.get_cells(), second.get_cells());
        assert_eq!(live_cells(&first), live_cells(&second));
    }
}

#[test]
fn tick_keeps_the_dimensions() {
    let mut universe = with_cells(7, 4, &[(1, 1), (1, 2), (1, 3)]);
    universe.tick();
    assert_eq!(universe.width(), 7);
    assert_eq!(universe.height(), 4);
    assert_eq!(universe.get_cells().len(), 1);
}
