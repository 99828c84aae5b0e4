//! The game engine: state, input filtering, and the per-tick update step.

use std::collections::VecDeque;
use vstd::prelude::*;

verus! {

/// A cell of the grid: `(x, y)` with `0 <= x < width` and `0 <= y < height`.
pub type Position = (usize, usize);

/// A movement direction of the snake.
#[derive(Clone, Copy, Debug, PartialEq, Eq, Structural)]
pub enum Direction {
    Up,
    Right,
    Down,
    Left,
}

/// The abstract value of a [`SnakeGame`]: the same state, with the snake
/// body as a `Seq` and the pending direction exposed.
#[verifier::ext_equal]
pub ghost struct GameView {
    pub width: usize,
    pub height: usize,
    pub snake: Seq<Position>,
    pub direction: Direction,
    pub pending: Direction,
    pub food: Position,
    pub finished: bool,
}

/// True when `b` is the 180-degree reversal of `a`.
pub open spec fn is_reversal(a: Direction, b: Direction) -> bool {
    ||| (a == Direction::Up && b == Direction::Down)
    ||| (a == Direction::Down && b == Direction::Up)
    ||| (a == Direction::Left && b == Direction::Right)
    ||| (a == Direction::Right && b == Direction::Left)
}

/// True when `p` lies inside a `width` by `height` grid.
pub open spec fn cell_in_grid(width: usize, height: usize, p: Position) -> bool {
    p.0 < width && p.1 < height
}

/// Well-formedness of a game state: a usable grid, a non-empty snake whose
/// segments are distinct cells of the grid, and food on the grid.
pub open spec fn wf_view(g: GameView) -> bool {
    &&& 2 <= g.width
    &&& 1 <= g.height
    &&& g.width * g.height <= usize::MAX
    &&& 1 <= g.snake.len()
    &&& forall|i: int| 0 <= i < g.snake.len() ==> cell_in_grid(g.width, g.height, #[trigger] g.snake[i])
    &&& forall|i: int, j: int|
        0 <= i < j < g.snake.len() ==> #[trigger] g.snake[i] != #[trigger] g.snake[j]
    &&& cell_in_grid(g.width, g.height, g.food)
}

/// The state a fresh game starts in: a one-segment snake at
/// `(width - 2, height / 2)`, food at `(min(2, width - 1), height / 2)`,
/// both directions Left, not finished.
pub open spec fn init_view(width: usize, height: usize) -> GameView {
    GameView {
        width,
        height,
        snake: seq![(((width - 2) as usize, (height / 2) as usize))],
        direction: Direction::Left,
        pending: Direction::Left,
        food: (if width - 1 < 2 { (width - 1) as usize } else { 2usize }, (height / 2) as usize),
        finished: false,
    }
}

/// The signed x offset of one step in direction `d`.
pub open spec fn step_dx(d: Direction) -> int {
    match d {
        Direction::Left => -1,
        Direction::Right => 1,
        Direction::Up => 0,
        Direction::Down => 0,
    }
}

/// The signed y offset of one step in direction `d`.
pub open spec fn step_dy(d: Direction) -> int {
    match d {
        Direction::Up => -1,
        Direction::Down => 1,
        Direction::Left => 0,
        Direction::Right => 0,
    }
}

/// The cell one step from `head` in direction `d`, over unbounded integers
/// so that a step off the low edge stays representable.
pub open spec fn step_target(head: Position, d: Direction) -> (int, int) {
    (head.0 + step_dx(d), head.1 + step_dy(d))
}

/// True when the target `t` of a step lies inside the grid.
pub open spec fn target_in_grid(width: usize, height: usize, t: (int, int)) -> bool {
    0 <= t.0 < width && 0 <= t.1 < height
}

/// Every cell of a `width` by `height` grid in row-major order: cell `k` is
/// `(k % width, k / width)`.
pub open spec fn all_cells(width: usize, height: usize) -> Seq<Position> {
    Seq::new(
        (width * height) as nat,
        |k: int| (((k % (width as int)) as usize, (k / (width as int)) as usize)),
    )
}

/// The cells of the grid that no segment of `snake` occupies, in row-major
/// order.
pub open spec fn free_cells(width: usize, height: usize, snake: Seq<Position>) -> Seq<Position> {
    all_cells(width, height).filter(|p: Position| !snake.contains(p))
}

/// The cell the head lands on this tick: one step from the head in the
/// pending direction, as grid coordinates (meaningful only when that step
/// stays in the grid).
pub open spec fn tick_target(g: GameView) -> Position {
    (
        (step_target(g.snake[0], g.pending).0 as usize),
        (step_target(g.snake[0], g.pending).1 as usize),
    )
}

/// How `tick` updates the state, given the random draw `rand`.
///
/// A finished game is left untouched. Otherwise the pending direction is
/// committed and the head's neighbour in that direction becomes the target.
/// A target off the grid or on the current body (the still-occupied tail
/// cell included) ends the game. A target on the food grows the snake by
/// pushing the new head without removing the tail, and moves the food to the
/// cell at index `rand % count` of the cells the pre-growth body leaves
/// free; were no cell free, the game would end instead. Any other target
/// moves the snake: the tail is dropped and the new head pushed.
pub open spec fn tick_view(g: GameView, rand: usize) -> GameView {
    if g.finished {
        g
    } else {
        let d = g.pending;
        let committed = GameView { direction: d, ..g };
        let t = step_target(g.snake[0], d);
        if !target_in_grid(g.width, g.height, t) || g.snake.contains(
            ((t.0 as usize, t.1 as usize)),
        ) {
            GameView { finished: true, ..committed }
        } else {
            let new_head = ((t.0 as usize, t.1 as usize));
            if new_head == g.food {
                let free = free_cells(g.width, g.height, g.snake);
                if free.len() == 0 {
                    GameView { finished: true, ..committed }
                } else {
                    GameView {
                        snake: seq![new_head] + g.snake,
                        food: free[rand as int % free.len() as int],
                        ..committed
                    }
                }
            } else {
                GameView { snake: seq![new_head] + g.snake.drop_last(), ..committed }
            }
        }
    }
}

/// How `change_direction` updates the state: the pending direction takes the
/// requested value unless the request equals the committed direction or is
/// its reversal, in which case nothing changes.
pub open spec fn change_direction_view(g: GameView, requested: Direction) -> GameView {
    if g.direction == requested || is_reversal(g.direction, requested) {
        g
    } else {
        GameView { pending: requested, ..g }
    }
}

/// The game state: grid size, snake body (head first), committed and pending
/// directions, food cell, and the terminal flag.
#[derive(Debug)]
pub struct SnakeGame {
    pub width: usize,
    pub height: usize,
    pub snake: VecDeque<Position>,
    pub direction: Direction,
    next_direction: Direction,
    pub food: Position,
    pub finished: bool,
}

impl View for SnakeGame {
    type V = GameView;

    closed spec fn view(&self) -> GameView {
        GameView {
            width: self.width,
            height: self.height,
            snake: self.snake@,
            direction: self.direction,
            pending: self.next_direction,
            food: self.food,
            finished: self.finished,
        }
    }
}

impl SnakeGame {
    /// Creates a fresh game on a `width` by `height` grid.
    ///
    /// The grid must be at least two cells wide (initial placement reads
    /// `width - 2`) and its cell count must fit in `usize`.
    pub fn new(width: usize, height: usize) -> (g: SnakeGame)
        requires
            2 <= width,
            1 <= height,
            width * height <= usize::MAX,
        ensures
            g@ == init_view(width, height),
            wf_view(g@),
    {
        let mut snake: VecDeque<Position> = VecDeque::new();
        snake.push_back((width - 2, height / 2));
        let food_x: usize = if width - 1 < 2 {
            width - 1
        } else {
            2
        };
        let g = SnakeGame {
            width,
            height,
            snake,
            direction: Direction::Left,
            next_direction: Direction::Left,
            food: (food_x, height / 2),
            finished: false,
        };
        proof {
            assert(g@.snake =~= init_view(width, height).snake);
            assert(g@ =~= init_view(width, height));
        }
        g
    }

    /// Requests a movement direction for the next tick. A request equal to
    /// the committed direction, or equal to its 180-degree reversal, is
    /// silently ignored; otherwise it becomes the pending direction.
    pub fn change_direction(&mut self, direction: Direction)
        ensures
            final(self)@ == change_direction_view(old(self)@, direction),
            wf_view(old(self)@) ==> wf_view(final(self)@),
    {
        match (self.direction, direction) {
            (Direction::Up, Direction::Up)
            | (Direction::Right, Direction::Right)
            | (Direction::Down, Direction::Down)
            | (Direction::Left, Direction::Left)
            | (Direction::Right, Direction::Left)
            | (Direction::Left, Direction::Right)
            | (Direction::Down, Direction::Up)
            | (Direction::Up, Direction::Down) => {
            }
            (_, requested) => {
                self.next_direction = requested;
            }
        }
    }

    /// True when `pos` lies inside the grid.
    pub fn is_valid(&self, pos: Position) -> (r: bool)
        ensures
            r == cell_in_grid(self@.width, self@.height, pos),
    {
        pos.0 < self.width && pos.1 < self.height
    }

    /// Advances the game one simulation step: commits the pending direction
    /// and moves the head one cell that way. Leaving the grid or hitting the
    /// body (the still-occupied tail cell included) ends the game; landing
    /// on the food grows the snake and moves the food to the free cell that
    /// `rand` selects; any other move drops the tail. A finished game is
    /// left untouched.
    ///
    /// `rand` is the host's random draw; the food lands on the free cell at
    /// index `rand % free_count`, so a uniformly distributed draw over a
    /// range much larger than the grid gives a near-uniform placement.
    pub fn tick(&mut self, rand: usize)
        requires
            wf_view(old(self)@),
        ensures
            final(self)@ == tick_view(old(self)@, rand),
            wf_view(final(self)@),
    {
        if self.finished {
            return;
        }
        self.direction = self.next_direction;
        let ghost pre = old(self)@;
        proof {
            assert(cell_in_grid(pre.width, pre.height, pre.snake[0]));
        }
        let head = self.snake[0];
        // A step off the top or left edge has no unsigned representation:
        // it is caught here and treated as an invalid move, never wrapped.
        let candidate: Option<Position> = match self.direction {
            Direction::Up => if head.1 == 0 {
                None
            } else {
                Some((head.0, head.1 - 1))
            },
            Direction::Right => Some((head.0 + 1, head.1)),
            Direction::Down => Some((head.0, head.1 + 1)),
            Direction::Left => if head.0 == 0 {
                None
            } else {
                Some((head.0 - 1, head.1))
            },
        };
        match candidate {
            None => {
                self.finished = true;
            }
            Some(new_head) => {
                if !self.is_valid(new_head) || body_contains(&self.snake, new_head) {
                    self.finished = true;
                } else {
                    if new_head.0 == self.food.0 && new_head.1 == self.food.1 {
                        let free = self.free_cells_exec();
                        if free.len() == 0 {
                            self.finished = true;
                        } else {
                            self.food = pick(&free, rand);
                            self.snake.push_front(new_head);
                            proof {
                                let s2 = self@.snake;
                                assert forall|i: int|
                                    0 <= i < s2.len() implies cell_in_grid(
                                    pre.width,
                                    pre.height,
                                    #[trigger] s2[i],
                                ) by {
                                    if i > 0 {
                                        assert(s2[i] == pre.snake[i - 1]);
                                    }
                                }
                                assert forall|i: int, j: int|
                                    0 <= i < j < s2.len() implies #[trigger] s2[i]
                                    != #[trigger] s2[j] by {
                                    assert(s2[j] == pre.snake[j - 1]);
                                    if i == 0 {
                                        assert(pre.snake.contains(pre.snake[j - 1]));
                                    } else {
                                        assert(s2[i] == pre.snake[i - 1]);
                                    }
                                }
                            }
                        }
                    } else {
                        self.snake.pop_back();
                        self.snake.push_front(new_head);
                        proof {
                            assert(pre.snake.drop_last() =~= pre.snake.subrange(
                                0,
                                pre.snake.len() as int - 1,
                            ));
                            let s2 = self@.snake;
                            assert(s2 == seq![new_head] + pre.snake.drop_last());
                            assert forall|i: int|
                                0 <= i < s2.len() implies cell_in_grid(
                                pre.width,
                                pre.height,
                                #[trigger] s2[i],
                            ) by {
                                if i > 0 {
                                    assert(s2[i] == pre.snake[i - 1]);
                                }
                            }
                            assert forall|i: int, j: int|
                                0 <= i < j < s2.len() implies #[trigger] s2[i]
                                != #[trigger] s2[j] by {
                                assert(s2[j] == pre.snake[j - 1]);
                                if i == 0 {
                                    assert(pre.snake.contains(pre.snake[j - 1]));
                                } else {
                                    assert(s2[i] == pre.snake[i - 1]);
                                }
                            }
                        }
                    }
                }
            }
        }
    }

    /// Collects the cells of the grid that the snake does not occupy, in
    /// row-major order.
    fn free_cells_exec(&self) -> (v: Vec<Position>)
        requires
            wf_view(self@),
        ensures
            v@ == free_cells(self@.width, self@.height, self@.snake),
            forall|m: int| 0 <= m < v@.len() ==> cell_in_grid(self@.width, self@.height, #[trigger] v@[m]),
    {
        let w = self.width;
        let h = self.height;
        let total = w * h;
        let mut v: Vec<Position> = Vec::new();
        let mut k: usize = 0;
        while k < total
            invariant
                w == self@.width,
                h == self@.height,
                2 <= w,
                total == w * h,
                w * h <= usize::MAX,
                0 <= k <= total,
                v@ == all_cells(w, h).take(k as int).filter(
                    |p: Position| !self@.snake.contains(p),
                ),
                forall|m: int| 0 <= m < v@.len() ==> cell_in_grid(w, h, #[trigger] v@[m]),
            decreases total - k,
        {
            let x = k % w;
            let y = k / w;
            let cell = (x, y);
            proof {
                assert(y < h) by {
                    vstd::arithmetic::div_mod::lemma_fundamental_div_mod(k as int, w as int);
                    vstd::arithmetic::div_mod::lemma_mod_bound(k as int, w as int);
                    let q = k as int / w as int;
                    if q >= h {
                        vstd::arithmetic::mul::lemma_mul_inequality(h as int, q, w as int);
                        vstd::arithmetic::mul::lemma_mul_is_commutative(h as int, w as int);
                        vstd::arithmetic::mul::lemma_mul_is_commutative(q, w as int);
                        assert(false);
                    }
                }
                let cells = all_cells(w, h);
                assert(cells[k as int] == cell);
                assert(cells.take(k as int + 1) =~= cells.take(k as int).push(cell));
                lemma_filter_push(
                    cells.take(k as int),
                    |p: Position| !self@.snake.contains(p),
                    cell,
                );
            }
            let occupied = body_contains(&self.snake, cell);
            if !occupied {
                v.push(cell);
            }
            k = k + 1;
        }
        proof {
            assert(all_cells(w, h).take(total as int) =~= all_cells(w, h));
        }
        v
    }
}

/// True when some segment of `snake` occupies `p`.
fn body_contains(snake: &VecDeque<Position>, p: Position) -> (r: bool)
    ensures
        r == snake@.contains(p),
{
    let n = snake.len();
    let mut i: usize = 0;
    while i < n
        invariant
            n == snake@.len(),
            0 <= i <= n,
            forall|j: int| 0 <= j < i ==> snake@[j] != p,
        decreases n - i,
    {
        let q = snake[i];
        if q.0 == p.0 && q.1 == p.1 {
            proof {
                assert(snake@[i as int] == p);
            }
            return true;
        }
        i = i + 1;
    }
    false
}

/// Picks the candidate that the random draw `rand` selects: the one at index
/// `rand` reduced modulo the number of candidates.
pub fn pick(candidates: &Vec<Position>, rand: usize) -> (p: Position)
    requires
        candidates@.len() > 0,
    ensures
        p == candidates@[rand as int % candidates@.len() as int],
{
    candidates[rand % candidates.len()]
}

/// Filtering a sequence extended by one element keeps the old filtration and
/// appends the element exactly when it satisfies the predicate.
proof fn lemma_filter_push(s: Seq<Position>, pred: spec_fn(Position) -> bool, x: Position)
    ensures
        s.push(x).filter(pred) == if pred(x) {
            s.filter(pred).push(x)
        } else {
            s.filter(pred)
        },
{
    reveal_with_fuel(Seq::<Position>::filter, 2);
    assert(s.push(x).drop_last() =~= s);
    assert(s.push(x).last() == x);
}

} // verus!
