//! What holds of every grid and of every generation.

use crate::state::{next_state, GridState};
use vstd::arithmetic::div_mod::{
    lemma_add_mod_noop_right, lemma_fundamental_div_mod_converse, lemma_mod_add_multiples_vanish,
    lemma_mod_bound, lemma_small_mod,
};
use vstd::prelude::*;

verus! {

/// One for a live cell, nothing for a dead one.
pub open spec fn one_if(alive: bool) -> nat {
    if alive {
        1
    } else {
        0
    }
}

/// The place after `i` on a ring of `n` places.
pub open spec fn ring_next(i: int, n: int) -> int {
    if i + 1 == n {
        0
    } else {
        i + 1
    }
}

/// The place before `i` on a ring of `n` places.
pub open spec fn ring_prev(i: int, n: int) -> int {
    if i == 0 {
        n - 1
    } else {
        i - 1
    }
}

/// On a ring of `n` places, adding one or `n - 1` to a place and reducing
/// modulo `n` gives the place after it or before it.
pub proof fn lemma_ring(i: int, n: int)
    requires
        0 <= i < n,
    ensures
        i % n == i,
        (i + 0) % n == i,
        (i + 1) % n == ring_next(i, n),
        (i + (n - 1)) % n == ring_prev(i, n),
        (i - 1) % n == ring_prev(i, n),
        0 <= ring_next(i, n) < n,
        0 <= ring_prev(i, n) < n,
{
    lemma_small_mod(i as nat, n as nat);
    if i + 1 == n {
        lemma_fundamental_div_mod_converse(i + 1, n, 1, 0);
    } else {
        lemma_small_mod((i + 1) as nat, n as nat);
    }
    if i == 0 {
        lemma_small_mod((n - 1) as nat, n as nat);
        lemma_fundamental_div_mod_converse(-1, n, -1, n - 1);
    } else {
        lemma_fundamental_div_mod_converse(i + (n - 1), n, 1, i - 1);
        lemma_small_mod((i - 1) as nat, n as nat);
    }
}

/// The rule, row by row of its table: a live cell with fewer than two live
/// neighbours dies, one with two or three lives on, one with more than three
/// dies; a dead cell with exactly three comes alive, and every other dead cell
/// stays dead.
pub proof fn lemma_rule_table(alive: bool, live_neighbors: nat)
    ensures
        alive && live_neighbors < 2 ==> !next_state(alive, live_neighbors),
        alive && (live_neighbors == 2 || live_neighbors == 3) ==> next_state(alive, live_neighbors),
        alive && live_neighbors > 3 ==> !next_state(alive, live_neighbors),
        !alive && live_neighbors == 3 ==> next_state(alive, live_neighbors),
        !alive && live_neighbors != 3 ==> !next_state(alive, live_neighbors),
{
}

/// A cell has at most eight live neighbours.
pub proof fn lemma_at_most_eight(state: GridState, row: int, col: int)
    ensures
        state.live_neighbors(row, col) <= 8,
{
}

/// Whether a cell is alive, and how many live neighbours it has, depends on
/// its row only modulo the height and on its column only modulo the width.
pub proof fn lemma_wraps(state: GridState, row: int, col: int)
    requires
        state.wf(),
    ensures
        state.alive(row, col) == state.alive(
            row % (state.height as int),
            col % (state.width as int),
        ),
        state.live_neighbors(row, col) == state.live_neighbors(
            row % (state.height as int),
            col % (state.width as int),
        ),
{
    let h = state.height as int;
    let w = state.width as int;
    lemma_add_mod_noop_right(0, row, h);
    lemma_add_mod_noop_right(0, col, w);
    assert forall|delta_row: int, delta_col: int|
        state.contribution(row, col, delta_row, delta_col) == #[trigger] state.contribution(
            row % h,
            col % w,
            delta_row,
            delta_col,
        ) by {
        lemma_add_mod_noop_right(delta_row, row, h);
        lemma_add_mod_noop_right(delta_col, col, w);
        assert(row % h + delta_row == delta_row + row % h);
        assert(col % w + delta_col == delta_col + col % w);
    }
}

/// On a grid at least two wide and two high, the live neighbours of a cell
/// are the live cells among the eight around it: the three above, the two
/// beside and the three below, each place taken on the torus.
pub proof fn lemma_eight_neighbors(state: GridState, row: int, col: int)
    requires
        state.wf(),
        state.width >= 2,
        state.height >= 2,
    ensures
        state.live_neighbors(row, col) == one_if(state.alive(row - 1, col - 1)) + one_if(
            state.alive(row - 1, col),
        ) + one_if(state.alive(row - 1, col + 1)) + one_if(state.alive(row, col - 1)) + one_if(
            state.alive(row, col + 1),
        ) + one_if(state.alive(row + 1, col - 1)) + one_if(state.alive(row + 1, col)) + one_if(
            state.alive(row + 1, col + 1),
        ),
{
    let h = state.height as int;
    let w = state.width as int;
    lemma_mod_add_multiples_vanish(row - 1, h);
    lemma_mod_add_multiples_vanish(col - 1, w);
    assert(row + (h - 1) == h + (row - 1));
    assert(col + (w - 1) == w + (col - 1));
}

/// The next generation has the dimensions of this one, and each of its cells
/// is what the rule makes of that cell and its live neighbours in this one.
pub proof fn lemma_step(state: GridState, row: int, col: int)
    requires
        state.wf(),
    ensures
        state.step().wf(),
        state.step().width == state.width,
        state.step().height == state.height,
        state.step().alive(row, col) == next_state(
            state.alive(row, col),
            state.live_neighbors(row, col),
        ),
{
    let h = state.height as int;
    let w = state.width as int;
    lemma_wraps(state, row, col);
    lemma_mod_bound(row, h);
    lemma_mod_bound(col, w);
    state.lemma_index_of_position(row % h, col % w);
}

/// Two grids of the same dimensions with the same cells alive are the same
/// grid.
pub proof fn lemma_same_cells(a: GridState, b: GridState)
    requires
        a.wf(),
        b.wf(),
        a.width == b.width,
        a.height == b.height,
        forall|row: int, col: int|
            a.in_bounds(row, col) ==> #[trigger] a.alive(row, col) == b.alive(row, col),
    ensures
        a == b,
{
    let h = a.height as int;
    let w = a.width as int;
    assert forall|i: int| 0 <= i < a.cells.len() implies a.cells[i] == b.cells[i] by {
        a.lemma_position_of_index(i);
        lemma_ring(i / w, h);
        lemma_ring(i % w, w);
        assert(a.alive(i / w, i % w) == b.alive(i / w, i % w));
    }
    assert(a.cells =~= b.cells);
}

/// The next generation is a function of the state alone: from two grids of
/// the same dimensions whose cells agree one by one, any number of
/// generations lead to the same grid.
pub proof fn lemma_deterministic(a: GridState, b: GridState, generations: nat)
    requires
        a.width == b.width,
        a.height == b.height,
        a.cells.len() == b.cells.len(),
        forall|i: int| 0 <= i < a.cells.len() ==> a.cells[i] == b.cells[i],
    ensures
        a.step() == b.step(),
        a.after(generations) == b.after(generations),
{
    assert(a.cells =~= b.cells);
}

/// Every generation of a well-formed grid is well formed and has its
/// dimensions.
pub proof fn lemma_after(state: GridState, generations: nat)
    requires
        state.wf(),
    ensures
        state.after(generations).wf(),
        state.after(generations).width == state.width,
        state.after(generations).height == state.height,
    decreases generations,
{
    if generations > 0 {
        lemma_step(state, 0, 0);
        lemma_after(state.step(), (generations - 1) as nat);
    }
}

/// A grid that its next generation equals stays as it is for ever.
pub proof fn lemma_fixed_for_ever(state: GridState, generations: nat)
    requires
        state.step() == state,
    ensures
        state.after(generations) == state,
    decreases generations,
{
    if generations > 0 {
        lemma_fixed_for_ever(state, (generations - 1) as nat);
    }
}

/// A grid without a live cell has none in any later generation.
pub proof fn lemma_dead_stays_dead(width: nat, height: nat, generations: nat)
    requires
        width > 0,
        height > 0,
    ensures
        GridState::dead(width, height).after(generations) == GridState::dead(width, height),
{
    let state = GridState::dead(width, height);
    assert forall|row: int, col: int| state.in_bounds(row, col) implies #[trigger] state.step().alive(
        row,
        col,
    ) == state.alive(row, col) by {
        lemma_step(state, row, col);
        lemma_ring(row, height as int);
        lemma_ring(col, width as int);
        state.lemma_index_of_position(row, col);
        assert forall|r: int, c: int| !#[trigger] state.alive(r, c) by {
            lemma_mod_bound(r, height as int);
            lemma_mod_bound(c, width as int);
            state.lemma_index_of_position(r % (height as int), c % (width as int));
        }
    }
    lemma_step(state, 0, 0);
    lemma_same_cells(state.step(), state);
    lemma_fixed_for_ever(state, generations);
}

/// After seeding, a cell is alive if its position is among the coordinates
/// and dead if it is not.
pub proof fn lemma_seeded(state: GridState, coordinates: Seq<(u32, u32)>, row: int, col: int)
    requires
        state.wf(),
        state.in_bounds(row, col),
    ensures
        state.seeded(coordinates).wf(),
        state.seeded(coordinates).width == state.width,
        state.seeded(coordinates).height == state.height,
        state.seeded(coordinates).alive(row, col) == GridState::listed(coordinates, row, col),
        state.seeded(coordinates).cells[state.index(row, col)] == GridState::listed(
            coordinates,
            row,
            col,
        ),
{
    lemma_ring(row, state.height as int);
    lemma_ring(col, state.width as int);
    state.lemma_index_of_position(row, col);
}

/// The live neighbours of a position of the grid, counted at the places
/// before and after its row and its column on their rings.
pub proof fn lemma_neighbors_on_rings(state: GridState, row: int, col: int)
    requires
        state.wf(),
        state.width >= 2,
        state.height >= 2,
        state.in_bounds(row, col),
    ensures
        ({
            let up = ring_prev(row, state.height as int);
            let down = ring_next(row, state.height as int);
            let left = ring_prev(col, state.width as int);
            let right = ring_next(col, state.width as int);
            &&& 0 <= up < state.height
            &&& 0 <= down < state.height
            &&& 0 <= left < state.width
            &&& 0 <= right < state.width
            &&& state.live_neighbors(row, col) == one_if(state.alive(up, left)) + one_if(
                state.alive(up, col),
            ) + one_if(state.alive(up, right)) + one_if(state.alive(row, left)) + one_if(
                state.alive(row, right),
            ) + one_if(state.alive(down, left)) + one_if(state.alive(down, col)) + one_if(
                state.alive(down, right),
            )
        }),
{
    lemma_eight_neighbors(state, row, col);
    lemma_ring(row, state.height as int);
    lemma_ring(col, state.width as int);
    lemma_wraps(state, row - 1, col - 1);
    lemma_wraps(state, row - 1, col);
    lemma_wraps(state, row - 1, col + 1);
    lemma_wraps(state, row, col - 1);
    lemma_wraps(state, row, col + 1);
    lemma_wraps(state, row + 1, col - 1);
    lemma_wraps(state, row + 1, col);
    lemma_wraps(state, row + 1, col + 1);
}

/// Whether the live cells are exactly the four of the two-by-two block whose
/// upper left corner is `(row, col)`, the block going round the torus where
/// it meets an edge.
pub open spec fn is_block(state: GridState, row: int, col: int) -> bool {
    let below = (row + 1) % (state.height as int);
    let right = (col + 1) % (state.width as int);
    forall|i: int, j: int|
        state.in_bounds(i, j) ==> (#[trigger] state.alive(i, j) <==> (i == row || i == below) && (j
            == col || j == right))
}

/// Whether the live cells are exactly three in a row, the middle one at
/// `(row, col)`.
pub open spec fn is_row_of_three(state: GridState, row: int, col: int) -> bool {
    let left = (col - 1) % (state.width as int);
    let right = (col + 1) % (state.width as int);
    forall|i: int, j: int|
        state.in_bounds(i, j) ==> (#[trigger] state.alive(i, j) <==> i == row && (j == left || j
            == col || j == right))
}

/// Whether the live cells are exactly three in a column, the middle one at
/// `(row, col)`.
pub open spec fn is_column_of_three(state: GridState, row: int, col: int) -> bool {
    let above = (row - 1) % (state.height as int);
    let below = (row + 1) % (state.height as int);
    forall|i: int, j: int|
        state.in_bounds(i, j) ==> (#[trigger] state.alive(i, j) <==> j == col && (i == above || i
            == row || i == below))
}

/// A block is a still life: on a grid at least three wide and three high it
/// is the same in every later generation.
pub proof fn lemma_block_is_still(state: GridState, row: int, col: int, generations: nat)
    requires
        state.wf(),
        state.width >= 3,
        state.height >= 3,
        state.in_bounds(row, col),
        is_block(state, row, col),
    ensures
        state.after(generations) == state,
{
    lemma_ring(row, state.height as int);
    lemma_ring(col, state.width as int);
    assert forall|i: int, j: int| state.in_bounds(i, j) implies #[trigger] state.step().alive(i, j)
        == state.alive(i, j) by {
        lemma_step(state, i, j);
        lemma_neighbors_on_rings(state, i, j);
    }
    lemma_step(state, 0, 0);
    lemma_same_cells(state.step(), state);
    lemma_fixed_for_ever(state, generations);
}

/// Three live cells in a row become three in a column in the next
/// generation, on a grid at least four wide and three high.
pub proof fn lemma_row_turns_to_column(state: GridState, row: int, col: int)
    requires
        state.wf(),
        state.width >= 4,
        state.height >= 3,
        state.in_bounds(row, col),
        is_row_of_three(state, row, col),
    ensures
        is_column_of_three(state.step(), row, col),
{
    let above = ring_prev(row, state.height as int);
    let below = ring_next(row, state.height as int);
    lemma_ring(row, state.height as int);
    lemma_ring(col, state.width as int);
    assert forall|i: int, j: int| state.in_bounds(i, j) implies (#[trigger] state.step().alive(i, j)
        <==> j == col && (i == above || i == row || i == below)) by {
        lemma_step(state, i, j);
        lemma_neighbors_on_rings(state, i, j);
    }
    lemma_step(state, 0, 0);
}

/// Three live cells in a column become three in a row in the next
/// generation, on a grid at least three wide and four high.
pub proof fn lemma_column_turns_to_row(state: GridState, row: int, col: int)
    requires
        state.wf(),
        state.width >= 3,
        state.height >= 4,
        state.in_bounds(row, col),
        is_column_of_three(state, row, col),
    ensures
        is_row_of_three(state.step(), row, col),
{
    let left = ring_prev(col, state.width as int);
    let right = ring_next(col, state.width as int);
    lemma_ring(row, state.height as int);
    lemma_ring(col, state.width as int);
    assert forall|i: int, j: int| state.in_bounds(i, j) implies (#[trigger] state.step().alive(i, j)
        <==> i == row && (j == left || j == col || j == right)) by {
        lemma_step(state, i, j);
        lemma_neighbors_on_rings(state, i, j);
    }
    lemma_step(state, 0, 0);
}

/// A blinker has period two: on a grid at least four wide and four high,
/// three live cells in a row or in a column are not what they were after one
/// generation and are what they were after two.
pub proof fn lemma_blinker_has_period_two(state: GridState, row: int, col: int)
    requires
        state.wf(),
        state.width >= 4,
        state.height >= 4,
        state.in_bounds(row, col),
        is_row_of_three(state, row, col) || is_column_of_three(state, row, col),
    ensures
        state.after(1) != state,
        state.after(2) == state,
{
    let h = state.height as int;
    let w = state.width as int;
    let turned = state.step();
    let back = turned.step();
    lemma_step(state, 0, 0);
    lemma_step(turned, 0, 0);
    lemma_ring(row, h);
    lemma_ring(col, w);
    if is_row_of_three(state, row, col) {
        lemma_row_turns_to_column(state, row, col);
        lemma_column_turns_to_row(turned, row, col);
        assert(state.alive(row, ring_next(col, w)));
        assert(!turned.alive(row, ring_next(col, w)));
    } else {
        lemma_column_turns_to_row(state, row, col);
        lemma_row_turns_to_column(turned, row, col);
        assert(state.alive(ring_next(row, h), col));
        assert(!turned.alive(ring_next(row, h), col));
    }
    lemma_same_cells(back, state);
    reveal_with_fuel(GridState::after, 3);
}

} // verus!
