//! The game engine: grid, snake body, apple set and current direction.
//!
//! The grid is 20 cells wide and 10 cells high. The snake is an ordered
//! sequence of points, head first; moving past an edge wraps around to the
//! opposite edge. The plane (the rendered cell buffer) is always rebuilt
//! from the snake and the apple set, never updated incrementally.

use vstd::prelude::*;
use vstd::string::StringExecFns;
use std::collections::VecDeque;

verus! {

/// On each tick, an apple spawn is attempted with probability one in this.
pub const APPLE_SPAWN_ONE_IN: usize = 20;

/// Grid width in cells.
pub const PLANE_WIDTH: u32 = 20;

/// Grid height in cells.
pub const PLANE_HEIGHT: u32 = 10;

/// The state of one grid cell.
#[derive(Clone, Copy, Debug, PartialEq, Eq, Structural)]
pub enum PlaneField {
    Empty,
    Body,
    Apple,
}

/// A direction the snake can face or move in.
#[derive(Clone, Copy, Debug, PartialEq, Eq, Structural)]
pub enum Direction {
    Up,
    Down,
    Left,
    Right,
}

/// A grid coordinate: x (column) first, y (row) second.
#[derive(Clone, Copy, Debug, PartialEq, Eq, Hash, Structural)]
pub struct Point(pub u32, pub u32);

/// Whether a point lies on the grid.
pub open spec fn in_bounds(p: Point) -> bool {
    p.0 < PLANE_WIDTH && p.1 < PLANE_HEIGHT
}

/// Where a point ends up after one step in a direction, wrapping around
/// the grid edges.
pub open spec fn wrap_step(p: Point, d: Direction) -> Point {
    match d {
        Direction::Up => if p.1 == 0 { Point(p.0, (PLANE_HEIGHT - 1) as u32) } else { Point(p.0, (p.1 - 1) as u32) },
        Direction::Down => if p.1 >= PLANE_HEIGHT - 1 { Point(p.0, 0) } else { Point(p.0, (p.1 + 1) as u32) },
        Direction::Left => if p.0 == 0 { Point((PLANE_WIDTH - 1) as u32, p.1) } else { Point((p.0 - 1) as u32, p.1) },
        Direction::Right => if p.0 >= PLANE_WIDTH - 1 { Point(0, p.1) } else { Point((p.0 + 1) as u32, p.1) },
    }
}

/// One wrapping step from `p` in direction `d`.
fn next_head(p: Point, d: Direction) -> (r: Point)
    requires
        in_bounds(p),
    ensures
        r == wrap_step(p, d),
        in_bounds(r),
{
    match d {
        Direction::Up => if p.1 == 0 { Point(p.0, PLANE_HEIGHT - 1) } else { Point(p.0, p.1 - 1) },
        Direction::Down => if p.1 >= PLANE_HEIGHT - 1 { Point(p.0, 0) } else { Point(p.0, p.1 + 1) },
        Direction::Left => if p.0 == 0 { Point(PLANE_WIDTH - 1, p.1) } else { Point(p.0 - 1, p.1) },
        Direction::Right => if p.0 >= PLANE_WIDTH - 1 { Point(0, p.1) } else { Point(p.0 + 1, p.1) },
    }
}

/// Returned when a direction change is requested along the axis the snake
/// already travels on; the request is refused and nothing changes.
#[derive(Debug, Clone, PartialEq, Eq, Structural)]
pub struct DirectionChangeError;

/// Returned when an apple cannot be inserted: the cell is off the grid,
/// occupied by the snake, or already holds an apple.
#[derive(Debug, Clone, PartialEq, Eq, Structural)]
pub struct AppleInsertError;

/// The column of the snake's head segment at the start of a game.
pub const SNAKE_INITIAL_POSITION_X: u32 = 10;

/// The row the snake lies on at the start of a game.
pub const SNAKE_INITIAL_POSITION_Y: u32 = 5;

/// The full game state: rendered plane, snake body (head first), apple
/// cells and current facing. The plane is derived from the other fields.
#[derive(Debug)]
pub struct SnakeContext {
    plane: Vec<Vec<PlaneField>>,
    snake: VecDeque<Point>,
    apples: Vec<Point>,
    direction: Direction,
}

/// The mathematical model of a `SnakeContext`: the snake as a sequence of
/// points (head first), the apples as a duplicate-free sequence, the plane
/// as rows of cells.
pub ghost struct GameView {
    pub plane: Seq<Seq<PlaneField>>,
    pub snake: Seq<Point>,
    pub apples: Seq<Point>,
    pub direction: Direction,
}

impl View for SnakeContext {
    type V = GameView;

    closed spec fn view(&self) -> GameView {
        GameView {
            plane: Seq::new(self.plane@.len(), |y: int| self.plane@[y]@),
            snake: self.snake@,
            apples: self.apples@,
            direction: self.direction,
        }
    }
}

impl GameView {
    /// The snake and the apples lie on the grid, and no cell holds two
    /// apples. This holds of every reachable state.
    pub open spec fn content_wf(self) -> bool {
        &&& forall|i: int| 0 <= i < self.snake.len() ==> in_bounds(#[trigger] self.snake[i])
        &&& forall|i: int| 0 <= i < self.apples.len() ==> in_bounds(#[trigger] self.apples[i])
        &&& forall|i: int, j: int|
            0 <= i < j < self.apples.len() ==> #[trigger] self.apples[i] != #[trigger] self.apples[j]
    }

    /// `content_wf` plus the plane having exactly `PLANE_HEIGHT` rows of
    /// `PLANE_WIDTH` cells each.
    pub open spec fn wf(self) -> bool {
        &&& self.content_wf()
        &&& self.plane.len() == PLANE_HEIGHT
        &&& forall|y: int| 0 <= y < PLANE_HEIGHT ==> (#[trigger] self.plane[y]).len() == PLANE_WIDTH
    }

    /// A game is under way: the snake has its minimum length of three.
    pub open spec fn started(self) -> bool {
        self.snake.len() >= 3
    }

    /// What a cell derived from the snake and apple content shows: the
    /// snake takes precedence over an apple on the same cell.
    pub open spec fn cell(self, x: int, y: int) -> PlaneField {
        if self.snake.contains(Point(x as u32, y as u32)) {
            PlaneField::Body
        } else if self.apples.contains(Point(x as u32, y as u32)) {
            PlaneField::Apple
        } else {
            PlaneField::Empty
        }
    }

    /// Every plane cell agrees with the state it is derived from.
    pub open spec fn plane_synced(self) -> bool {
        forall|x: int, y: int|
            0 <= x < PLANE_WIDTH && 0 <= y < PLANE_HEIGHT ==> #[trigger] self.plane[y][x] == self.cell(
                x,
                y,
            )
    }

    /// The snake's first two segments share a row, so it faces left or
    /// right.
    pub open spec fn horizontal(self) -> bool {
        self.snake[0].1 == self.snake[1].1
    }

    /// Whether a direction change request is accepted: repeating the
    /// current direction is a no-op success, and otherwise only a request
    /// perpendicular to the current facing is allowed.
    pub open spec fn change_allowed(self, direction: Direction) -> bool {
        ||| direction == self.direction
        ||| (if self.horizontal() {
            direction == Direction::Up || direction == Direction::Down
        } else {
            direction == Direction::Left || direction == Direction::Right
        })
    }

    /// The state `new_game` produces: a three-segment snake on the start
    /// row facing left, no apples, and a plane derived from that.
    pub open spec fn fresh_game(self) -> bool {
        &&& self.snake =~= seq![
            Point(SNAKE_INITIAL_POSITION_X, SNAKE_INITIAL_POSITION_Y),
            Point((SNAKE_INITIAL_POSITION_X + 1) as u32, SNAKE_INITIAL_POSITION_Y),
            Point((SNAKE_INITIAL_POSITION_X + 2) as u32, SNAKE_INITIAL_POSITION_Y),
        ]
        &&& self.apples =~= Seq::<Point>::empty()
        &&& self.direction == Direction::Left
        &&& self.wf()
        &&& self.plane_synced()
    }

    /// The character at position `i` of the textual snapshot: each row is
    /// its `PLANE_WIDTH` cells rendered in order, followed by a newline.
    pub open spec fn plane_char(self, i: int) -> char
        recommends
            0 <= i < (PLANE_WIDTH + 1) * PLANE_HEIGHT,
    {
        let row_len = (PLANE_WIDTH + 1) as int;
        if i % row_len == PLANE_WIDTH as int {
            '\n'
        } else {
            render_char(self.plane[i / row_len][i % row_len])
        }
    }
}

/// The character a cell is rendered as.
pub open spec fn render_char(f: PlaneField) -> char {
    match f {
        PlaneField::Empty => '-',
        PlaneField::Body => 'X',
        PlaneField::Apple => '0',
    }
}

/// Where the grown tail segment goes: one more step from `last` (the
/// tail) continuing its prior direction of travel away from `prev` (the
/// segment before the tail), wrapping at the grid edges — the cell the
/// removed tail had just vacated.
pub open spec fn tail_extension(prev: Point, last: Point) -> Point {
    Point(
        ((2 * last.0 + PLANE_WIDTH - prev.0) % (PLANE_WIDTH as int)) as u32,
        ((2 * last.1 + PLANE_HEIGHT - prev.1) % (PLANE_HEIGHT as int)) as u32,
    )
}

/// Whether an apple may be inserted at `p` beside the given snake and
/// apple content: on the grid, not on the snake, not on another apple.
pub open spec fn can_insert(p: Point, snake: Seq<Point>, apples: Seq<Point>) -> bool {
    in_bounds(p) && !snake.contains(p) && !apples.contains(p)
}

/// How one simulation tick relates the state before (`pre`) to the state
/// after (`post`), given the apple cell the tick tried to spawn (`None`
/// when no spawn was attempted). The tail is removed, the head advances
/// one wrapping step; landing on the remaining body resets the game to a
/// fresh one; landing on an apple removes that apple and re-extends the
/// tail by one step in its prior direction of travel; finally the spawn
/// candidate is inserted if insertion is allowed, and silently dropped
/// otherwise.
pub open spec fn tick_rel(pre: GameView, spawn: Option<Point>, post: GameView) -> bool
    recommends
        pre.wf(),
        pre.started(),
{
    let popped = pre.snake.drop_last();
    let head = wrap_step(pre.snake[0], pre.direction);
    if popped.contains(head) {
        post.fresh_game()
    } else {
        let eats = pre.apples.contains(head);
        let body = if eats {
            seq![head] + popped.push(tail_extension(popped[popped.len() - 2], popped.last()))
        } else {
            seq![head] + popped
        };
        let apples_after_eat = if eats {
            pre.apples.remove_value(head)
        } else {
            pre.apples
        };
        let apples_after_spawn = match spawn {
            Some(p) => if can_insert(p, body, apples_after_eat) {
                apples_after_eat.push(p)
            } else {
                apples_after_eat
            },
            None => apples_after_eat,
        };
        &&& post.snake =~= body
        &&& post.apples =~= apples_after_spawn
        &&& post.direction == pre.direction
    }
}

/// A random spawn candidate is drawn from the top-left part of the grid:
/// the rightmost column and the bottom row are never drawn.
pub open spec fn spawn_candidate_ok(spawn: Option<Point>) -> bool {
    spawn matches Some(p) ==> p.0 < PLANE_WIDTH - 1 && p.1 < PLANE_HEIGHT - 1
}

/// On a synced plane, Body and Apple cells partition the grid exactly: a
/// cell shows Body iff some snake segment occupies it, and Apple iff an
/// apple occupies it and no snake segment does; no cell shows both.
pub proof fn lemma_plane_partitions_cells(v: GameView, x: int, y: int)
    requires
        v.plane_synced(),
        0 <= x < PLANE_WIDTH,
        0 <= y < PLANE_HEIGHT,
    ensures
        v.plane[y][x] == PlaneField::Body <==> v.snake.contains(Point(x as u32, y as u32)),
        v.plane[y][x] == PlaneField::Apple <==> (v.apples.contains(Point(x as u32, y as u32))
            && !v.snake.contains(Point(x as u32, y as u32))),
{
}

/// A direction request along the snake's current axis (other than
/// repeating the current direction, which is a no-op success) is always
/// refused, and a perpendicular request is always accepted.
pub proof fn lemma_change_direction_axis(v: GameView, d: Direction)
    requires
        v.snake.len() >= 2,
    ensures
        v.horizontal() && (d == Direction::Left || d == Direction::Right) && d != v.direction
            ==> !v.change_allowed(d),
        !v.horizontal() && (d == Direction::Up || d == Direction::Down) && d != v.direction
            ==> !v.change_allowed(d),
        v.horizontal() && (d == Direction::Up || d == Direction::Down) ==> v.change_allowed(d),
        !v.horizontal() && (d == Direction::Left || d == Direction::Right) ==> v.change_allowed(d),
{
}

/// A tick whose new head lands on an apple grows the snake by exactly one
/// segment, removes that apple, and leaves every other apple in place (a
/// spawned apple cannot reappear on the eaten cell, which the new head
/// occupies).
pub proof fn lemma_apple_tick_grows(pre: GameView, spawn: Option<Point>, post: GameView)
    requires
        pre.wf(),
        pre.started(),
        tick_rel(pre, spawn, post),
        !pre.snake.drop_last().contains(wrap_step(pre.snake[0], pre.direction)),
        pre.apples.contains(wrap_step(pre.snake[0], pre.direction)),
    ensures
        post.snake.len() == pre.snake.len() + 1,
        !post.apples.contains(wrap_step(pre.snake[0], pre.direction)),
        forall|q: Point|
            pre.apples.contains(q) && q != wrap_step(pre.snake[0], pre.direction)
                ==> post.apples.contains(q),
{
    let head = wrap_step(pre.snake[0], pre.direction);
    let s = pre.apples;
    s.index_of_first_ensures(head);
    let idx = s.index_of_first(head).unwrap();
    let s1 = s.remove(idx);
    assert forall|k: int| 0 <= k < s1.len() implies #[trigger] s1[k] != head by {
        if k < idx {
            assert(s1[k] == s[k]);
        } else {
            assert(s1[k] == s[k + 1]);
            assert(s[idx] == head);
        }
    }
    if s1.contains(head) {
        let k = choose|k: int| 0 <= k < s1.len() && s1[k] == head;
        assert(false);
    }
    assert forall|q: Point| pre.apples.contains(q) && q != head implies s1.contains(q) by {
        let j = choose|j: int| 0 <= j < s.len() && s[j] == q;
        if j < idx {
            assert(s1[j] == q);
        } else {
            assert(j != idx);
            assert(s1[j - 1] == q);
        }
    }
    assert(s1 == s.remove_value(head));
    let body = seq![head] + pre.snake.drop_last().push(
        tail_extension(
            pre.snake.drop_last()[pre.snake.drop_last().len() - 2],
            pre.snake.drop_last().last(),
        ),
    );
    assert(body[0] == head);
    assert(body.contains(head));
    match spawn {
        Some(p) => {
            if can_insert(p, body, s1) {
                assert(p != head);
                assert(post.apples =~= s1.push(p));
                assert forall|k: int| 0 <= k < post.apples.len() implies #[trigger] post.apples[k]
                    != head by {
                    if k < s1.len() {
                        assert(post.apples[k] == s1[k]);
                    }
                }
                if post.apples.contains(head) {
                    let k = choose|k: int| 0 <= k < post.apples.len() && post.apples[k] == head;
                    assert(false);
                }
            }
        },
        None => {},
    }
    assert forall|q: Point| pre.apples.contains(q) && q != head implies post.apples.contains(
        q,
    ) by {
        assert(s1.contains(q));
        let k = choose|k: int| 0 <= k < s1.len() && s1[k] == q;
        assert(post.apples[k] == q);
    }
}

/// A tick whose new head lands on a remaining body segment resets the
/// game at once: the state afterwards is a fresh game.
pub proof fn lemma_self_collision_resets(pre: GameView, spawn: Option<Point>, post: GameView)
    requires
        tick_rel(pre, spawn, post),
        pre.snake.drop_last().contains(wrap_step(pre.snake[0], pre.direction)),
    ensures
        post.fresh_game(),
{
}

/// Any two fresh games are indistinguishable: they agree on the snake,
/// the apples, the facing, and every plane cell — a reset after a
/// self-collision cannot be told apart from a plain `new_game`.
pub proof fn lemma_fresh_games_indistinguishable(a: GameView, b: GameView)
    requires
        a.fresh_game(),
        b.fresh_game(),
    ensures
        a.snake == b.snake,
        a.apples == b.apples,
        a.direction == b.direction,
        a.plane == b.plane,
{
    assert forall|y: int| 0 <= y < PLANE_HEIGHT implies a.plane[y] =~= b.plane[y] by {
        assert(a.plane[y].len() == PLANE_WIDTH);
        assert(b.plane[y].len() == PLANE_WIDTH);
        assert forall|x: int| 0 <= x < PLANE_WIDTH implies a.plane[y][x] == b.plane[y][x] by {
            assert(a.plane[y][x] == a.cell(x, y));
            assert(b.plane[y][x] == b.cell(x, y));
        }
    }
    assert(a.plane =~~= b.plane);
}

/// The random apple-spawn attempt of one tick: with probability one in
/// `APPLE_SPAWN_ONE_IN`, a candidate drawn uniformly from the grid without
/// its rightmost column and bottom row; otherwise no attempt.
fn random_apple_candidate() -> (spawn: Option<Point>)
    ensures
        spawn_candidate_ok(spawn),
{
    let roll = crate::rng::random_below(APPLE_SPAWN_ONE_IN);
    let random_x = crate::rng::random_below((PLANE_WIDTH - 1) as usize);
    let random_y = crate::rng::random_below((PLANE_HEIGHT - 1) as usize);
    if roll == 0 {
        Some(Point(random_x as u32, random_y as u32))
    } else {
        None
    }
}

/// Stepping from an in-bounds point stays on the grid, and stepping across
/// an edge re-enters from the opposite edge along the same row or column.
pub proof fn lemma_wrap_around_edges(p: Point, d: Direction)
    requires
        in_bounds(p),
    ensures
        in_bounds(wrap_step(p, d)),
        d == Direction::Left && p.0 == 0 ==> wrap_step(p, d) == Point((PLANE_WIDTH - 1) as u32, p.1),
        d == Direction::Right && p.0 == PLANE_WIDTH - 1 ==> wrap_step(p, d) == Point(0, p.1),
        d == Direction::Up && p.1 == 0 ==> wrap_step(p, d) == Point(p.0, (PLANE_HEIGHT - 1) as u32),
        d == Direction::Down && p.1 == PLANE_HEIGHT - 1 ==> wrap_step(p, d) == Point(p.0, 0),
        d == Direction::Left && p.0 > 0 ==> wrap_step(p, d) == Point((p.0 - 1) as u32, p.1),
        d == Direction::Right && p.0 < PLANE_WIDTH - 1 ==> wrap_step(p, d) == Point((p.0 + 1) as u32, p.1),
        d == Direction::Up && p.1 > 0 ==> wrap_step(p, d) == Point(p.0, (p.1 - 1) as u32),
        d == Direction::Down && p.1 < PLANE_HEIGHT - 1 ==> wrap_step(p, d) == Point(p.0, (p.1 + 1) as u32),
{
}

impl SnakeContext {
    /// A context with no snake, no apples, an all-empty plane and the
    /// default facing. `new_game` must run before the game can be played.
    pub fn new() -> (s: Self)
        ensures
            s@.wf(),
            s@.plane_synced(),
            s@.snake =~= Seq::<Point>::empty(),
            s@.apples =~= Seq::<Point>::empty(),
            s@.direction == Direction::Left,
    {
        let mut s = SnakeContext {
            plane: Vec::new(),
            snake: VecDeque::new(),
            apples: Vec::new(),
            direction: Direction::Left,
        };
        s.clear_plane();
        s
    }

    /// The direction the snake currently faces.
    pub fn current_direction(&self) -> (d: Direction)
        ensures
            d == self@.direction,
    {
        self.direction
    }

    /// The rendered state of the cell in column `x`, row `y`.
    pub fn plane_field(&self, x: u32, y: u32) -> (f: PlaneField)
        requires
            self@.wf(),
            x < PLANE_WIDTH,
            y < PLANE_HEIGHT,
        ensures
            f == self@.plane[y as int][x as int],
    {
        self.plane[y as usize][x as usize]
    }

    /// How many segments the snake has.
    pub fn snake_length(&self) -> (n: usize)
        ensures
            n == self@.snake.len(),
    {
        self.snake.len()
    }

    /// Whether an apple lies at `p`.
    pub fn has_apple(&self, p: Point) -> (r: bool)
        ensures
            r == self@.apples.contains(p),
    {
        self.apples_contain(p)
    }

    /// Whether some snake segment occupies `p`.
    fn snake_contains(&self, p: Point) -> (r: bool)
        ensures
            r == self@.snake.contains(p),
    {
        let n = self.snake.len();
        let mut i: usize = 0;
        while i < n
            invariant
                n == self@.snake.len(),
                i <= n,
                forall|j: int| 0 <= j < i ==> #[trigger] self@.snake[j] != p,
            decreases n - i,
        {
            if self.snake[i] == p {
                return true;
            }
            i = i + 1;
        }
        false
    }

    /// Whether moving the head to `head` would hit the snake's body: the
    /// move is terminal for the current game if it does.
    pub fn check_for_game_over(&self, head: Point) -> (r: bool)
        ensures
            r == self@.snake.contains(head),
    {
        self.snake_contains(head)
    }

    /// Whether some apple occupies `p`.
    fn apples_contain(&self, p: Point) -> (r: bool)
        ensures
            r == self@.apples.contains(p),
    {
        let n = self.apples.len();
        let mut i: usize = 0;
        while i < n
            invariant
                n == self@.apples.len(),
                i <= n,
                forall|j: int| 0 <= j < i ==> #[trigger] self@.apples[j] != p,
            decreases n - i,
        {
            if self.apples[i] == p {
                return true;
            }
            i = i + 1;
        }
        false
    }

    /// The derived state of the cell in column `x`, row `y`.
    fn cell_at(&self, x: u32, y: u32) -> (f: PlaneField)
        requires
            x < PLANE_WIDTH,
            y < PLANE_HEIGHT,
        ensures
            f == self@.cell(x as int, y as int),
    {
        if self.snake_contains(Point(x, y)) {
            PlaneField::Body
        } else if self.apples_contain(Point(x, y)) {
            PlaneField::Apple
        } else {
            PlaneField::Empty
        }
    }

    /// Resets the plane to all-empty cells.
    pub fn clear_plane(&mut self)
        ensures
            final(self)@.snake == old(self)@.snake,
            final(self)@.apples == old(self)@.apples,
            final(self)@.direction == old(self)@.direction,
            final(self)@.plane.len() == PLANE_HEIGHT,
            forall|y: int|
                0 <= y < PLANE_HEIGHT ==> (#[trigger] final(self)@.plane[y]).len() == PLANE_WIDTH,
            forall|x: int, y: int|
                0 <= x < PLANE_WIDTH && 0 <= y < PLANE_HEIGHT ==> final(self)@.plane[y][x]
                    == PlaneField::Empty,
    {
        let mut plane: Vec<Vec<PlaneField>> = Vec::new();
        let mut y: u32 = 0;
        while y < PLANE_HEIGHT
            invariant
                y <= PLANE_HEIGHT,
                plane@.len() == y,
                forall|yy: int| 0 <= yy < y ==> (#[trigger] plane@[yy])@.len() == PLANE_WIDTH,
                forall|yy: int, xx: int|
                    0 <= yy < y && 0 <= xx < PLANE_WIDTH ==> plane@[yy]@[xx] == PlaneField::Empty,
            decreases PLANE_HEIGHT - y,
        {
            let mut row: Vec<PlaneField> = Vec::new();
            let mut x: u32 = 0;
            while x < PLANE_WIDTH
                invariant
                    x <= PLANE_WIDTH,
                    row@.len() == x,
                    forall|xx: int| 0 <= xx < x ==> row@[xx] == PlaneField::Empty,
                decreases PLANE_WIDTH - x,
            {
                row.push(PlaneField::Empty);
                x = x + 1;
            }
            plane.push(row);
            y = y + 1;
        }
        self.plane = plane;
    }

    /// Rebuilds every plane cell from the snake and the apple set.
    pub fn update_plane(&mut self)
        ensures
            final(self)@.snake == old(self)@.snake,
            final(self)@.apples == old(self)@.apples,
            final(self)@.direction == old(self)@.direction,
            final(self)@.plane.len() == PLANE_HEIGHT,
            forall|y: int|
                0 <= y < PLANE_HEIGHT ==> (#[trigger] final(self)@.plane[y]).len() == PLANE_WIDTH,
            final(self)@.plane_synced(),
            old(self)@.content_wf() ==> final(self)@.wf(),
    {
        let mut plane: Vec<Vec<PlaneField>> = Vec::new();
        let mut y: u32 = 0;
        while y < PLANE_HEIGHT
            invariant
                *self == *old(self),
                y <= PLANE_HEIGHT,
                plane@.len() == y,
                forall|yy: int| 0 <= yy < y ==> (#[trigger] plane@[yy])@.len() == PLANE_WIDTH,
                forall|yy: int, xx: int|
                    0 <= yy < y && 0 <= xx < PLANE_WIDTH ==> plane@[yy]@[xx] == self@.cell(xx, yy),
            decreases PLANE_HEIGHT - y,
        {
            let mut row: Vec<PlaneField> = Vec::new();
            let mut x: u32 = 0;
            while x < PLANE_WIDTH
                invariant
                    *self == *old(self),
                    y < PLANE_HEIGHT,
                    x <= PLANE_WIDTH,
                    row@.len() == x,
                    forall|xx: int| 0 <= xx < x ==> row@[xx] == self@.cell(xx, y as int),
                decreases PLANE_WIDTH - x,
            {
                let f = self.cell_at(x, y);
                row.push(f);
                x = x + 1;
            }
            plane.push(row);
            y = y + 1;
        }
        let ghost gplane = plane@;
        self.plane = plane;
        proof {
            assert forall|y: int| 0 <= y < PLANE_HEIGHT implies (#[trigger] self@.plane[y]).len()
                == PLANE_WIDTH by {
                assert(self@.plane[y] == gplane[y]@);
            }
            assert forall|x: int, y: int|
                0 <= x < PLANE_WIDTH && 0 <= y < PLANE_HEIGHT implies #[trigger] self@.plane[y][x]
                == self@.cell(x, y) by {
                assert(self@.plane[y] == gplane[y]@);
                assert(gplane[y]@[x] == old(self)@.cell(x, y));
            }
        }
    }

    /// Clears the snake and the apples and restores the default facing;
    /// the plane is left as it was.
    pub fn reset_game(&mut self)
        ensures
            final(self)@.snake =~= Seq::<Point>::empty(),
            final(self)@.apples =~= Seq::<Point>::empty(),
            final(self)@.direction == Direction::Left,
            final(self)@.plane == old(self)@.plane,
    {
        self.snake.clear();
        self.apples.clear();
        self.direction = Direction::Left;
    }

    /// Appends the three initial snake segments, head first, on the start
    /// row.
    pub fn generate_snake(&mut self)
        ensures
            final(self)@.snake =~= old(self)@.snake + seq![
                Point(SNAKE_INITIAL_POSITION_X, SNAKE_INITIAL_POSITION_Y),
                Point((SNAKE_INITIAL_POSITION_X + 1) as u32, SNAKE_INITIAL_POSITION_Y),
                Point((SNAKE_INITIAL_POSITION_X + 2) as u32, SNAKE_INITIAL_POSITION_Y),
            ],
            final(self)@.apples == old(self)@.apples,
            final(self)@.direction == old(self)@.direction,
            final(self)@.plane == old(self)@.plane,
    {
        self.snake.push_back(Point(SNAKE_INITIAL_POSITION_X, SNAKE_INITIAL_POSITION_Y));
        self.snake.push_back(Point(SNAKE_INITIAL_POSITION_X + 1, SNAKE_INITIAL_POSITION_Y));
        self.snake.push_back(Point(SNAKE_INITIAL_POSITION_X + 2, SNAKE_INITIAL_POSITION_Y));
    }

    /// Requests a change of facing. Repeating the current direction is a
    /// no-op success; otherwise the request succeeds exactly when it is
    /// perpendicular to the snake's current orientation, and a request
    /// along the current axis (in particular a reversal into the body) is
    /// refused without changing anything.
    pub fn change_direction(&mut self, direction: Direction) -> (r: Result<
        (),
        DirectionChangeError,
    >)
        requires
            old(self)@.snake.len() >= 2,
        ensures
            final(self)@.snake == old(self)@.snake,
            final(self)@.apples == old(self)@.apples,
            final(self)@.plane == old(self)@.plane,
            r is Ok <==> old(self)@.change_allowed(direction),
            final(self)@.direction == (if old(self)@.change_allowed(direction) {
                direction
            } else {
                old(self)@.direction
            }),
    {
        if self.direction == direction {
            return Ok(());
        }
        let is_faced_horizontally = self.snake[0].1 == self.snake[1].1;
        if is_faced_horizontally && (direction == Direction::Left || direction
            == Direction::Right) {
            return Err(DirectionChangeError);
        } else if !is_faced_horizontally && (direction == Direction::Up || direction
            == Direction::Down) {
            return Err(DirectionChangeError);
        }
        self.direction = direction;
        Ok(())
    }

    /// Places an apple at `apple_position` if the cell is on the grid and
    /// free of both snake and apples; otherwise reports the collision and
    /// changes nothing. The plane is not rebuilt here.
    pub fn insert_apple(&mut self, apple_position: Point) -> (r: Result<(), AppleInsertError>)
        ensures
            final(self)@.snake == old(self)@.snake,
            final(self)@.plane == old(self)@.plane,
            final(self)@.direction == old(self)@.direction,
            r is Ok <==> can_insert(apple_position, old(self)@.snake, old(self)@.apples),
            r is Ok ==> final(self)@.apples =~= old(self)@.apples.push(apple_position),
            !(r is Ok) ==> final(self)@.apples == old(self)@.apples,
            old(self)@.content_wf() ==> final(self)@.content_wf(),
    {
        if apple_position.0 >= PLANE_WIDTH || apple_position.1 >= PLANE_HEIGHT {
            return Err(AppleInsertError);
        }
        let collides_with_snake = self.snake_contains(apple_position);
        let collides_with_other_apples = self.apples_contain(apple_position);
        if collides_with_snake || collides_with_other_apples {
            return Err(AppleInsertError);
        }
        self.apples.push(apple_position);
        Ok(())
    }

    /// Grows the snake by one segment appended at the tail, continuing the
    /// tail's prior direction of travel by one more step, wrapping at the
    /// grid edges.
    pub fn append_snake(&mut self)
        requires
            old(self)@.snake.len() >= 2,
            old(self)@.content_wf(),
        ensures
            final(self)@.snake =~= old(self)@.snake.push(
                tail_extension(
                    old(self)@.snake[old(self)@.snake.len() - 2],
                    old(self)@.snake.last(),
                ),
            ),
            final(self)@.apples == old(self)@.apples,
            final(self)@.plane == old(self)@.plane,
            final(self)@.direction == old(self)@.direction,
            final(self)@.content_wf(),
    {
        let n = self.snake.len();
        let before_last = self.snake[n - 2];
        let last = self.snake[n - 1];
        proof {
            assert(in_bounds(self@.snake[n - 2]));
            assert(in_bounds(self@.snake[n - 1]));
        }

        let x = (2 * last.0 + PLANE_WIDTH - before_last.0) % PLANE_WIDTH;
        let y = (2 * last.1 + PLANE_HEIGHT - before_last.1) % PLANE_HEIGHT;
        self.snake.push_back(Point(x, y));
        proof {
            let s = old(self)@.snake;
            let pt = tail_extension(s[s.len() - 2], s.last());
            assert(in_bounds(pt));
            assert forall|k: int| 0 <= k < self@.snake.len() implies in_bounds(
                #[trigger] self@.snake[k],
            ) by {
                if k < s.len() {
                    assert(self@.snake[k] == s[k]);
                } else {
                    assert(self@.snake[k] == pt);
                }
            }
            assert(self@.apples == old(self)@.apples);
        }
    }

    /// If the new head lands on an apple, removes that apple and grows the
    /// snake at the tail; otherwise changes nothing.
    pub fn handle_collisions_with_apples(&mut self, head: Point)
        requires
            old(self)@.snake.len() >= 2,
            old(self)@.content_wf(),
        ensures
            final(self)@.plane == old(self)@.plane,
            final(self)@.direction == old(self)@.direction,
            final(self)@.content_wf(),
            old(self)@.apples.contains(head) ==> {
                &&& final(self)@.apples =~= old(self)@.apples.remove_value(head)
                &&& final(self)@.snake =~= old(self)@.snake.push(
                    tail_extension(
                        old(self)@.snake[old(self)@.snake.len() - 2],
                        old(self)@.snake.last(),
                    ),
                )
            },
            !old(self)@.apples.contains(head) ==> {
                &&& final(self)@.apples == old(self)@.apples
                &&& final(self)@.snake == old(self)@.snake
            },
    {
        let collides_with_apple = self.apples_contain(head);
        if collides_with_apple {
            let n = self.apples.len();
            let mut i: usize = 0;
            while i < n && self.apples[i] != head
                invariant
                    *self == *old(self),
                    n == self@.apples.len(),
                    i <= n,
                    forall|j: int| 0 <= j < i ==> #[trigger] self@.apples[j] != head,
                decreases n - i,
            {
                i = i + 1;
            }
            proof {
                if i == n {
                    let j = choose|j: int|
                        0 <= j < self@.apples.len() && self@.apples[j] == head;
                    assert(self@.apples[j] != head);
                    assert(false);
                }
            }
            proof {
                let s = self@.apples;
                assert(s[i as int] == head);
                s.index_of_first_ensures(head);
                let idx = s.index_of_first(head).unwrap();
                assert(s[idx] == head);
                if idx < i as int {
                    assert(s[idx] != head);
                }
                if (i as int) < idx {
                    assert(s[i as int] != head);
                }
                assert(idx == i as int);
            }
            self.apples.remove(i);
            self.append_snake();
            proof {
                let s = old(self)@.apples;
                assert forall|a: int, b: int|
                    0 <= a < b < self@.apples.len() implies #[trigger] self@.apples[a]
                    != #[trigger] self@.apples[b] by {
                    assert(self@.apples[a] == if a < i as int {
                        s[a]
                    } else {
                        s[a + 1]
                    });
                    assert(self@.apples[b] == if b < i as int {
                        s[b]
                    } else {
                        s[b + 1]
                    });
                }
                assert forall|a: int| 0 <= a < self@.apples.len() implies in_bounds(
                    #[trigger] self@.apples[a],
                ) by {
                    assert(self@.apples[a] == if a < i as int {
                        s[a]
                    } else {
                        s[a + 1]
                    });
                }
            }
        }
    }

    /// Starts a fresh game: a three-segment snake at the start position
    /// facing left, no apples, and the plane rebuilt to match.
    pub fn new_game(&mut self)
        ensures
            final(self)@.fresh_game(),
    {
        self.reset_game();
        self.generate_snake();
        self.clear_plane();
        self.update_plane();
    }

    /// One simulation tick with a known spawn candidate: the tail is
    /// removed, the head advances one wrapping step; hitting the body
    /// resets to a fresh game, hitting an apple eats it and grows the
    /// tail back plus one; then `spawn` (if any) is inserted as an apple
    /// when insertion is allowed, and the plane is rebuilt.
    pub fn tick(&mut self, spawn: Option<Point>)
        requires
            old(self)@.content_wf(),
            old(self)@.started(),
        ensures
            final(self)@.wf(),
            final(self)@.started(),
            final(self)@.plane_synced(),
            tick_rel(old(self)@, spawn, final(self)@),
    {
        proof {
            assert(in_bounds(old(self)@.snake[0]));
        }
        let _ = self.snake.pop_back();
        proof {
            assert(self@.apples == old(self)@.apples);
            assert(self@.snake =~= old(self)@.snake.drop_last());
            assert forall|k: int| 0 <= k < self@.snake.len() implies in_bounds(
                #[trigger] self@.snake[k],
            ) by {
                assert(self@.snake[k] == old(self)@.snake[k]);
            }
            assert(self@.content_wf());
        }
        let snake_head = self.snake[0];
        let new_head = next_head(snake_head, self.direction);
        if self.check_for_game_over(new_head) {
            self.new_game();
            return ;
        }
        self.handle_collisions_with_apples(new_head);
        self.snake.push_front(new_head);
        if let Some(p) = spawn {
            let _ = self.insert_apple(p);
        }
        self.update_plane();
    }

    /// One simulation tick as the scheduler drives it: with probability
    /// one in `APPLE_SPAWN_ONE_IN`, a spawn candidate is drawn uniformly
    /// from the grid without its rightmost column and bottom row, and the
    /// tick is taken with it.
    pub fn update_position(&mut self)
        requires
            old(self)@.content_wf(),
            old(self)@.started(),
        ensures
            final(self)@.wf(),
            final(self)@.started(),
            final(self)@.plane_synced(),
            exists|spawn: Option<Point>|
                #[trigger] tick_rel(old(self)@, spawn, final(self)@) && spawn_candidate_ok(spawn),
    {
        let spawn = random_apple_candidate();
        self.tick(spawn);
        proof {
            assert(tick_rel(old(self)@, spawn, self@) && spawn_candidate_ok(spawn));
        }
    }

    /// The textual snapshot of the plane: one line of `PLANE_WIDTH`
    /// characters per row, `'-'` for an empty cell, `'X'` for the snake's
    /// body, `'0'` for an apple, each row ended by a newline.
    pub fn get_plane_string(&self) -> (r: String)
        requires
            self@.wf(),
        ensures
            r@.len() == (PLANE_WIDTH + 1) * PLANE_HEIGHT,
            forall|i: int| 0 <= i < r@.len() ==> r@[i] == self@.plane_char(i),
    {
        let mut str_buff = String::new();
        let mut y: u32 = 0;
        while y < PLANE_HEIGHT
            invariant
                self@.wf(),
                y <= PLANE_HEIGHT,
                str_buff@.len() == y * (PLANE_WIDTH + 1),
                forall|i: int| 0 <= i < str_buff@.len() ==> str_buff@[i] == self@.plane_char(i),
            decreases PLANE_HEIGHT - y,
        {
            let mut x: u32 = 0;
            while x < PLANE_WIDTH
                invariant
                    self@.wf(),
                    y < PLANE_HEIGHT,
                    x <= PLANE_WIDTH,
                    str_buff@.len() == y * (PLANE_WIDTH + 1) + x,
                    forall|i: int| 0 <= i < str_buff@.len() ==> str_buff@[i] == self@.plane_char(i),
                decreases PLANE_WIDTH - x,
            {
                proof {
                    assert(self.plane@.len() == self@.plane.len());
                    assert((#[trigger] self@.plane[y as int]).len() == PLANE_WIDTH);
                    assert(self.plane@[y as int]@ == self@.plane[y as int]);
                }
                let f = self.plane[y as usize][x as usize];
                let char_to_display: &str = match f {
                    PlaneField::Empty => "-",
                    PlaneField::Body => "X",
                    PlaneField::Apple => "0",
                };
                let ghost prev = str_buff@;
                str_buff.append(char_to_display);
                proof {
                    reveal_strlit("-");
                    reveal_strlit("X");
                    reveal_strlit("0");
                    assert(char_to_display@.len() == 1);
                    assert(char_to_display@[0] == render_char(self@.plane[y as int][x as int]));
                    vstd::arithmetic::div_mod::lemma_fundamental_div_mod_converse(
                        y * (PLANE_WIDTH + 1) + x,
                        (PLANE_WIDTH + 1) as int,
                        y as int,
                        x as int,
                    );
                    assert(self@.plane_char(prev.len() as int) == render_char(
                        self@.plane[y as int][x as int],
                    ));
                    assert forall|i: int| 0 <= i < str_buff@.len() implies str_buff@[i]
                        == self@.plane_char(i) by {
                        if i < prev.len() {
                            assert(str_buff@[i] == prev[i]);
                        } else {
                            assert(str_buff@[i] == char_to_display@[0]);
                        }
                    }
                }
                x = x + 1;
            }
            let ghost prev = str_buff@;
            str_buff.append("\n");
            proof {
                reveal_strlit("\n");
                assert("\n"@.len() == 1);
                vstd::arithmetic::div_mod::lemma_fundamental_div_mod_converse(
                    y * (PLANE_WIDTH + 1) + PLANE_WIDTH,
                    (PLANE_WIDTH + 1) as int,
                    y as int,
                    PLANE_WIDTH as int,
                );
                assert(self@.plane_char(prev.len() as int) == '\n');
                assert forall|i: int| 0 <= i < str_buff@.len() implies str_buff@[i]
                    == self@.plane_char(i) by {
                    if i < prev.len() {
                        assert(str_buff@[i] == prev[i]);
                    } else {
                        assert(str_buff@[i] == "\n"@[0]);
                    }
                }
                assert((y + 1) * (PLANE_WIDTH + 1) == y * (PLANE_WIDTH + 1) + (PLANE_WIDTH
                    + 1)) by (nonlinear_arith);
            }
            y = y + 1;
        }
        str_buff
    }
}

} // verus!
