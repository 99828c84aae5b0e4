//! The engine's laws: properties of the update step, stated over the
//! abstract game state and proved once and for all.

use crate::snake::all_cells;
use crate::snake::cell_in_grid;
use crate::snake::change_direction_view;
use crate::snake::free_cells;
use crate::snake::is_reversal;
use crate::snake::step_target;
use crate::snake::target_in_grid;
use crate::snake::tick_target;
use crate::snake::tick_view;
use crate::snake::wf_view;
use crate::snake::Direction;
use crate::snake::GameView;
use crate::snake::Position;
use vstd::prelude::*;

verus! {

/// A direction request equal to the committed direction, or equal to its
/// 180-degree reversal, changes nothing at all: the state is untouched and
/// the following tick proceeds exactly as if the request had never been
/// made.
pub proof fn lemma_reversal_request_ignored(g: GameView, requested: Direction, rand: usize)
    requires
        requested == g.direction || is_reversal(g.direction, requested),
    ensures
        change_direction_view(g, requested) == g,
        tick_view(change_direction_view(g, requested), rand) == tick_view(g, rand),
{
}

/// A request that is neither the committed direction nor its reversal
/// becomes the pending direction, and the tick that follows moves the head
/// exactly one step that way whenever the move is legal (in the grid and
/// not on the body).
pub proof fn lemma_valid_turn(g: GameView, requested: Direction, rand: usize)
    requires
        wf_view(g),
        !g.finished,
        requested != g.direction,
        !is_reversal(g.direction, requested),
        target_in_grid(g.width, g.height, step_target(g.snake[0], requested)),
        !g.snake.contains(
            (
                (step_target(g.snake[0], requested).0 as usize),
                (step_target(g.snake[0], requested).1 as usize),
            ),
        ),
    ensures
        change_direction_view(g, requested).pending == requested,
        tick_view(change_direction_view(g, requested), rand).snake[0] == (
            (step_target(g.snake[0], requested).0 as usize),
            (step_target(g.snake[0], requested).1 as usize),
        ),
        tick_view(change_direction_view(g, requested), rand).direction == requested,
{
    let g1 = change_direction_view(g, requested);
    let nh = tick_target(g1);
    if nh == g1.food {
        lemma_free_cell_exists(g.width, g.height, g.snake, nh);
    }
}

/// A tick whose target cell already carries a segment of the body (the
/// still-occupied tail cell included) ends the game and leaves snake and
/// food exactly as they were.
pub proof fn lemma_self_collision(g: GameView, rand: usize)
    requires
        !g.finished,
        g.snake.contains(tick_target(g)),
    ensures
        tick_view(g, rand).finished,
        tick_view(g, rand).snake == g.snake,
        tick_view(g, rand).food == g.food,
{
}

/// A tick whose target lies outside the grid — a snake at the boundary
/// moving outward — ends the game and leaves snake and food exactly as they
/// were.
pub proof fn lemma_wall_collision(g: GameView, rand: usize)
    requires
        !g.finished,
        !target_in_grid(g.width, g.height, step_target(g.snake[0], g.pending)),
    ensures
        tick_view(g, rand).finished,
        tick_view(g, rand).snake == g.snake,
        tick_view(g, rand).food == g.food,
{
}

/// When the target cell is exactly the food, the tick grows the snake by
/// one segment and, provided the random draw does not select the head's own
/// landing cell, moves the food to a cell that differs from its old one and
/// lies on no segment of the grown body.
pub proof fn lemma_growth(g: GameView, rand: usize)
    requires
        wf_view(g),
        !g.finished,
        target_in_grid(g.width, g.height, step_target(g.snake[0], g.pending)),
        !g.snake.contains(tick_target(g)),
        tick_target(g) == g.food,
        free_cells(g.width, g.height, g.snake)[rand as int % free_cells(
            g.width,
            g.height,
            g.snake,
        ).len() as int] != tick_target(g),
    ensures
        !tick_view(g, rand).finished,
        tick_view(g, rand).snake.len() == g.snake.len() + 1,
        tick_view(g, rand).food != g.food,
        !tick_view(g, rand).snake.contains(tick_view(g, rand).food),
{
    let nh = tick_target(g);
    lemma_free_cell_exists(g.width, g.height, g.snake, nh);
    let free = free_cells(g.width, g.height, g.snake);
    let idx = rand as int % free.len() as int;
    vstd::arithmetic::div_mod::lemma_mod_bound(rand as int, free.len() as int);
    all_cells(g.width, g.height).lemma_filter_pred(|p: Position| !g.snake.contains(p), idx);
    let post = tick_view(g, rand);
    assert(post.food == free[idx]);
    assert(!g.snake.contains(post.food));
    assert forall|m: int| 0 <= m < post.snake.len() implies #[trigger] post.snake[m]
        != post.food by {
        if m > 0 {
            assert(post.snake[m] == g.snake[m - 1]);
            assert(g.snake.contains(g.snake[m - 1]));
        }
    }
}

/// The grid-full clause of a growth move: were no cell free of the
/// pre-growth body, the tick would end the game with snake and food
/// unchanged. On a well-formed state this clause never fires — the head's
/// own landing cell is free, see `lemma_free_cell_exists` — but it pins the
/// transition for every state.
pub proof fn lemma_grid_full_growth_finishes(g: GameView, rand: usize)
    requires
        !g.finished,
        target_in_grid(g.width, g.height, step_target(g.snake[0], g.pending)),
        !g.snake.contains(tick_target(g)),
        tick_target(g) == g.food,
        free_cells(g.width, g.height, g.snake).len() == 0,
    ensures
        tick_view(g, rand).finished,
        tick_view(g, rand).snake == g.snake,
        tick_view(g, rand).food == g.food,
{
}

/// A finished game is a fixed point of the tick: however often the host
/// keeps ticking, snake, food and the terminal flag stay as they are.
pub proof fn lemma_terminal_state_idempotent(g: GameView, rand: usize)
    requires
        g.finished,
    ensures
        tick_view(g, rand) == g,
{
}

/// Apart from relocating the food after a growth move, the tick never reads
/// the random draw: on any non-growth step two draws give the same next
/// state, so a run of non-growth ticks is fully determined by the initial
/// state and the direction requests.
pub proof fn lemma_deterministic_without_growth(g: GameView, r1: usize, r2: usize)
    requires
        g.finished || !target_in_grid(g.width, g.height, step_target(g.snake[0], g.pending))
            || g.snake.contains(tick_target(g)) || tick_target(g) != g.food,
    ensures
        tick_view(g, r1) == tick_view(g, r2),
{
}

/// Every in-grid cell appears in the row-major cell listing, at the index
/// its row and column give.
pub proof fn lemma_grid_cell_listed(width: usize, height: usize, cell: Position)
    requires
        1 <= width,
        cell_in_grid(width, height, cell),
    ensures
        0 <= cell.1 * width + cell.0 < all_cells(width, height).len(),
        all_cells(width, height)[cell.1 * width + cell.0] == cell,
        all_cells(width, height).contains(cell),
{
    let w = width as int;
    let k: int = cell.1 * w + cell.0;
    assert(0 <= k) by {
        vstd::arithmetic::mul::lemma_mul_nonnegative(cell.1 as int, w);
    }
    assert(k < w * height) by {
        vstd::arithmetic::mul::lemma_mul_inequality(cell.1 as int, height - 1, w);
        vstd::arithmetic::mul::lemma_mul_is_commutative(height - 1, w);
        vstd::arithmetic::mul::lemma_mul_is_distributive_sub(w, height as int, 1);
        vstd::arithmetic::mul::lemma_mul_is_commutative(w, height as int);
    }
    vstd::arithmetic::div_mod::lemma_fundamental_div_mod_converse(k, w, cell.1 as int, cell.0 as int);
    vstd::arithmetic::mul::lemma_mul_is_commutative(w, height as int);
    assert(all_cells(width, height)[k] == cell);
}

/// Every in-grid cell that the snake does not occupy appears among the free
/// cells; in particular a legal growth move always finds the free-cell list
/// non-empty, since the head's own landing cell is free.
pub proof fn lemma_free_cell_exists(
    width: usize,
    height: usize,
    snake: Seq<Position>,
    cell: Position,
)
    requires
        1 <= width,
        cell_in_grid(width, height, cell),
        !snake.contains(cell),
    ensures
        free_cells(width, height, snake).contains(cell),
        free_cells(width, height, snake).len() > 0,
{
    lemma_grid_cell_listed(width, height, cell);
    let k: int = cell.1 * width + cell.0;
    all_cells(width, height).lemma_filter_contains(|p: Position| !snake.contains(p), k);
}

/// The snake always fits the grid: its segments are distinct cells of a
/// `width` by `height` grid, so the body length never exceeds the cell
/// count.
pub proof fn lemma_snake_fits_grid(g: GameView)
    requires
        wf_view(g),
    ensures
        g.snake.len() <= g.width * g.height,
{
    broadcast use vstd::seq_lib::seq_to_set_is_finite;

    assert(g.snake.no_duplicates());
    g.snake.unique_seq_to_set();
    let cells = all_cells(g.width, g.height);
    cells.lemma_cardinality_of_set();
    assert forall|p: Position| g.snake.to_set().contains(p) implies cells.to_set().contains(
        p,
    ) by {
        assert(g.snake.contains(p));
        let i = choose|i: int| 0 <= i < g.snake.len() && g.snake[i] == p;
        assert(cell_in_grid(g.width, g.height, g.snake[i]));
        lemma_grid_cell_listed(g.width, g.height, p);
    }
    vstd::set_lib::lemma_len_subset(g.snake.to_set(), cells.to_set());
}

} // verus!
