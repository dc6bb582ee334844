//! The snake, the food, and the game that moves them one tick at a time.
use vstd::prelude::*;

use crate::geometry::{point_sum, sum_fits, Direction, Grid, Point};
use crate::random::random_below;

verus! {

/// The cell that one move in heading `d` reaches from `p`.
pub open spec fn advance(p: Point, d: Direction) -> Point {
    point_sum(d.offset_spec(), p)
}

/// The body after one move in heading `d`: a new head in front, and the tail
/// dropped unless growth is pending.
pub open spec fn moved_body(body: Seq<Point>, d: Direction, growth: int) -> Seq<Point> {
    let grown = seq![advance(body[0], d)] + body;
    if growth <= 0 {
        grown.drop_last()
    } else {
        grown
    }
}

/// The growth counter after one move.
pub open spec fn growth_after_move(growth: int) -> int {
    if growth <= 0 {
        growth
    } else {
        growth - 1
    }
}

/// The heading after a request to turn to `d`: a reversal is refused.
pub open spec fn turned(cur: Direction, d: Direction) -> Direction {
    if d == cur.opposite_spec() {
        cur
    } else {
        d
    }
}

/// The snake: its body, head first; the moves for which its tail stays put;
/// its heading.
pub struct Snake {
    pub body: Vec<Point>,
    growth: i32,
    dir: Direction,
}

impl Snake {
    /// The body, head first.
    pub closed spec fn segments(&self) -> Seq<Point> {
        self.body@
    }

    /// Moves still owed to growth: the tail stays put for that many moves.
    pub closed spec fn growth_spec(&self) -> int {
        self.growth as int
    }

    /// The current heading.
    pub closed spec fn heading(&self) -> Direction {
        self.dir
    }

    /// The body has a head, and one move keeps it within `i32`.
    pub open spec fn can_move(&self) -> bool {
        self.segments().len() > 0 && sum_fits(self.heading().offset_spec(), self.segments()[0])
    }

    /// A snake with no body yet, heading `dir`.
    pub fn new(dir: Direction) -> (r: Snake)
        ensures
            r.segments() == Seq::<Point>::empty(),
            r.growth_spec() == 0,
            r.heading() == dir,
    {
        Snake { body: Vec::new(), growth: 0, dir }
    }

    /// Lets the tail stay put for `n` more moves.
    pub fn add_growth(&mut self, n: i32)
        requires
            i32::MIN <= old(self).growth_spec() + n <= i32::MAX,
        ensures
            final(self).growth_spec() == old(self).growth_spec() + n,
            final(self).segments() == old(self).segments(),
            final(self).heading() == old(self).heading(),
    {
        self.growth = self.growth + n;
    }

    /// Turns to `dir`, unless `dir` points straight back.
    pub fn set_dir(&mut self, dir: Direction)
        ensures
            final(self).heading() == turned(old(self).heading(), dir),
            final(self).segments() == old(self).segments(),
            final(self).growth_spec() == old(self).growth_spec(),
    {
        if self.dir != dir.opposite() {
            self.dir = dir;
        }
    }

    /// The first segment, if there is one.
    pub fn head(&self) -> (r: Option<&Point>)
        ensures
            match r {
                Some(p) => self.segments().len() > 0 && *p == self.segments()[0],
                None => self.segments().len() == 0,
            },
    {
        if self.body.len() > 0 {
            Some(&self.body[0])
        } else {
            None
        }
    }

    /// Moves the snake one cell along its heading.
    pub fn step(&mut self)
        requires
            old(self).can_move(),
        ensures
            final(self).segments() == moved_body(
                old(self).segments(),
                old(self).heading(),
                old(self).growth_spec(),
            ),
            final(self).segments()[0] == advance(old(self).segments()[0], old(self).heading()),
            final(self).growth_spec() == growth_after_move(old(self).growth_spec()),
            final(self).heading() == old(self).heading(),
            old(self).growth_spec() <= 0 ==> final(self).segments().len() == old(self).segments().len(),
            old(self).growth_spec() > 0 ==> final(self).segments().len() == old(self).segments().len() + 1
                && final(self).growth_spec() == old(self).growth_spec() - 1,
    {
        let head = self.body[0];
        let new_head = self.dir.offset().add(head);
        self.body.insert(0, new_head);
        assert(self.body@ =~= seq![new_head] + old(self).body@);
        if self.growth <= 0 {
            self.body.pop();
        } else {
            self.growth = self.growth - 1;
        }
    }

    /// Whether some segment lies on `point`.
    pub fn in_self(&self, point: &Point) -> (r: bool)
        ensures
            r == self.segments().contains(*point),
    {
        let mut i: usize = 0;
        while i < self.body.len()
            invariant
                0 <= i <= self.body@.len(),
                forall|j: int| 0 <= j < i ==> self.body@[j] != *point,
            decreases self.body@.len() - i,
        {
            if self.body[i] == *point {
                assert(self.body@[i as int] == *point);
                return true;
            }
            i += 1;
        }
        false
    }

    /// The current heading.
    pub fn dir(&self) -> (r: Direction)
        ensures
            r == self.heading(),
    {
        self.dir
    }

    /// The moves still owed to growth.
    pub fn growth(&self) -> (r: i32)
        ensures
            r == self.growth_spec(),
    {
        self.growth
    }
}

/// The collectible item, and the field it is placed on.
pub struct Food {
    pub position: Point,
    pub grid: Grid,
}

impl Food {
    /// Food at the corner cell; `reset` gives it a real place.
    pub fn new(grid: Grid) -> (r: Food)
        ensures
            r.position == (Point { x: 0, y: 0 }),
            r.grid == grid,
    {
        Food { position: Point { x: 0, y: 0 }, grid }
    }

    /// Moves the food to a cell of the field drawn at random, and returns it.
    /// The cell may lie under the snake: callers draw again where it matters.
    pub fn reset(&mut self) -> (r: Point)
        requires
            old(self).grid.wf(),
        ensures
            final(self).grid == old(self).grid,
            final(self).grid.contains(final(self).position),
            r == final(self).position,
    {
        let y = random_below(self.grid.height);
        let x = random_below(self.grid.width);
        self.position = Point { x, y };
        self.position
    }
}

/// Where a game stands.
#[derive(Clone, Copy, Debug, PartialEq, Eq, Structural)]
pub enum GameState {
    Ongoing,
    Defeat,
    Win,
}

/// A signal collected by the driver between two ticks.
#[derive(Clone, Copy, Debug, PartialEq, Eq, Structural)]
pub enum Input {
    KeyUp,
    KeyDown,
    KeyRight,
    KeyLeft,
    Quit,
    Other,
}

/// The heading after one input: the arrow keys ask for a turn, the rest
/// leave the heading alone.
pub open spec fn steer(d: Direction, input: Input) -> Direction {
    match input {
        Input::KeyUp => turned(d, Direction::Up),
        Input::KeyDown => turned(d, Direction::Down),
        Input::KeyRight => turned(d, Direction::Right),
        Input::KeyLeft => turned(d, Direction::Left),
        _ => d,
    }
}

/// The heading after a batch of inputs, applied in order.
pub open spec fn heading_after(d: Direction, inputs: Seq<Input>) -> Direction
    decreases inputs.len(),
{
    if inputs.len() == 0 {
        d
    } else {
        steer(heading_after(d, inputs.drop_last()), inputs.last())
    }
}

/// Whether the batch holds a request to quit.
pub open spec fn quits(inputs: Seq<Input>) -> bool {
    inputs.contains(Input::Quit)
}

/// Every cell of the field holds a segment.
pub open spec fn covers(grid: Grid, body: Seq<Point>) -> bool {
    forall|p: Point| grid.contains(p) ==> body.contains(p)
}

/// The food lies on the field and off the body, unless the body leaves no
/// cell free.
pub open spec fn food_placed(grid: Grid, body: Seq<Point>, food: Point) -> bool {
    grid.contains(food) && (!body.contains(food) || covers(grid, body))
}

/// The head has left the field or runs into another segment.
pub open spec fn crashed(grid: Grid, body: Seq<Point>) -> bool {
    !grid.contains(body[0]) || body.subrange(1, body.len() as int).contains(body[0])
}

/// How many random draws the food gets before the field is searched in order.
const RANDOM_DRAWS: u32 = 64;

/// Moves the food to a cell off the snake. A few random draws come first;
/// should all of them land on the snake, the first free cell in reading order
/// is taken, so that placement always ends. On a field that the snake covers
/// whole the food keeps a cell of the field.
fn place_food(food: &mut Food, snake: &Snake)
    requires
        old(food).grid.wf(),
        old(food).grid.contains(old(food).position),
    ensures
        final(food).grid == old(food).grid,
        food_placed(final(food).grid, snake.segments(), final(food).position),
{
    let mut draws: u32 = 0;
    while draws < RANDOM_DRAWS
        invariant
            food.grid == old(food).grid,
            food.grid.wf(),
            food.grid.contains(food.position),
        decreases RANDOM_DRAWS - draws,
    {
        let p = food.reset();
        if !snake.in_self(&p) {
            return;
        }
        draws += 1;
    }
    let mut y: i32 = 0;
    while y < food.grid.height
        invariant
            food.grid == old(food).grid,
            food.grid.wf(),
            food.grid.contains(food.position),
            0 <= y <= food.grid.height,
            forall|p: Point| #[trigger]
                food.grid.contains(p) && p.y < y ==> snake.body@.contains(p),
        decreases food.grid.height - y,
    {
        let mut x: i32 = 0;
        while x < food.grid.width
            invariant
                food.grid == old(food).grid,
                food.grid.wf(),
                food.grid.contains(food.position),
                0 <= y < food.grid.height,
                0 <= x <= food.grid.width,
                forall|p: Point| #[trigger]
                    food.grid.contains(p) && (p.y < y || (p.y == y && p.x < x))
                        ==> snake.body@.contains(p),
            decreases food.grid.width - x,
        {
            let p = Point { x, y };
            if !snake.in_self(&p) {
                food.position = p;
                return;
            }
            x += 1;
        }
        y += 1;
    }
}

/// What the head ran into on the last move.
enum Collision {
    Food,
    Wall,
    Body,
}

/// The collision that a body meets, checked in order: food, wall, body.
spec fn collision_of(grid: Grid, food: Point, body: Seq<Point>) -> Option<Collision> {
    if body.len() == 0 {
        None
    } else if body[0] == food {
        Some(Collision::Food)
    } else if !grid.contains(body[0]) {
        Some(Collision::Wall)
    } else if body.subrange(1, body.len() as int).contains(body[0]) {
        Some(Collision::Body)
    } else {
        None
    }
}

/// One play session: the field, the snake, the food and the outcome so far.
pub struct Game {
    pub grid: Grid,
    pub snake: Snake,
    pub food: Food,
    pub state: GameState,
}

/// The body at the end of a tick that starts from `g` and reads `inputs`.
pub open spec fn tick_body(g: Game, inputs: Seq<Input>) -> Seq<Point> {
    moved_body(
        g.snake.segments(),
        heading_after(g.snake.heading(), inputs),
        g.snake.growth_spec(),
    )
}

impl Game {
    /// The game is neither lost nor won.
    pub open spec fn ongoing(&self) -> bool {
        self.state == GameState::Ongoing
    }

    /// What holds of a game between ticks: the snake has a head, growth is at
    /// most one move ahead, the food lies on the field, and while the game is
    /// on the head lies on the field and the food off the body.
    pub open spec fn wf(&self) -> bool {
        &&& self.grid.wf()
        &&& self.food.grid == self.grid
        &&& self.snake.segments().len() > 0
        &&& 0 <= self.snake.growth_spec() <= 1
        &&& self.grid.contains(self.food.position)
        &&& self.ongoing() ==> {
            &&& self.grid.contains(self.snake.segments()[0])
            &&& food_placed(self.grid, self.snake.segments(), self.food.position)
        }
    }

    /// A game on a `width` x `height` field, with a one-segment snake in the
    /// middle heading right, and food off the snake wherever a cell is free.
    pub fn new(width: i32, height: i32) -> (r: Game)
        requires
            width >= 1,
            height >= 1,
        ensures
            r.wf(),
            r.ongoing(),
            r.grid == (Grid { width, height }),
            r.snake.segments() == seq![Point { x: (width / 2) as i32, y: (height / 2) as i32 }],
            r.snake.heading() == Direction::Right,
            r.snake.growth_spec() == 0,
            width >= 2 || height >= 2 ==> !r.snake.segments().contains(r.food.position),
    {
        let grid = Grid { width, height };
        let mut food = Food::new(grid);
        let mut snake = Snake::new(Direction::Right);
        snake.body.push(Point { x: width / 2, y: height / 2 });
        place_food(&mut food, &snake);
        proof {
            let corner = Point { x: 0, y: 0 };
            if width >= 2 || height >= 2 {
                assert(snake.body@ =~= seq![Point { x: (width / 2) as i32, y: (height / 2) as i32 }]);
                assert(!snake.body@.contains(corner)) by {
                    if snake.body@.contains(corner) {
                        let i = choose|i: int| 0 <= i < snake.body@.len() && snake.body@[i] == corner;
                        assert(i == 0);
                    }
                }
                assert(grid.contains(corner));
            }
        }
        Game { grid, snake, food, state: GameState::Ongoing }
    }

    /// The collision that the head meets where it stands.
    fn check_collision(&self) -> (r: Option<Collision>)
        ensures
            r == collision_of(self.grid, self.food.position, self.snake.segments()),
    {
        let snake_head = match self.snake.head() {
            Some(p) => p,
            None => {
                return None;
            },
        };
        if *snake_head == self.food.position {
            return Some(Collision::Food);
        }
        if self.grid.ofb(snake_head) {
            return Some(Collision::Wall);
        }
        let body = &self.snake.body;
        let mut i: usize = 1;
        while i < body.len()
            invariant
                1 <= i <= body@.len(),
                *snake_head == body@[0],
                body@ == self.snake.segments(),
                body@[0] != self.food.position,
                self.grid.contains(body@[0]),
                forall|j: int| 1 <= j < i ==> body@[j] != *snake_head,
            decreases body@.len() - i,
        {
            if body[i] == *snake_head {
                let ghost rest = body@.subrange(1, body@.len() as int);
                assert(rest[i - 1] == body@[0]);
                assert(rest.contains(body@[0]));
                return Some(Collision::Body);
            }
            i += 1;
        }
        assert(!body@.subrange(1, body@.len() as int).contains(body@[0])) by {
            if body@.subrange(1, body@.len() as int).contains(body@[0]) {
                let k = choose|k: int|
                    0 <= k < body@.len() - 1 && body@.subrange(1, body@.len() as int)[k]
                        == body@[0];
                assert(body@[k + 1] == body@[0]);
            }
        }
        None
    }

    /// Applies one input: an arrow key asks the snake to turn, `Quit` ends
    /// the game, anything else is ignored.
    fn handle_input(&mut self, input: &Input)
        ensures
            final(self).snake.heading() == steer(old(self).snake.heading(), *input),
            final(self).snake.segments() == old(self).snake.segments(),
            final(self).snake.growth_spec() == old(self).snake.growth_spec(),
            final(self).state == (if *input == Input::Quit {
                GameState::Defeat
            } else {
                old(self).state
            }),
            final(self).grid == old(self).grid,
            final(self).food == old(self).food,
    {
        match input {
            Input::KeyDown => self.snake.set_dir(Direction::Down),
            Input::KeyLeft => self.snake.set_dir(Direction::Left),
            Input::KeyUp => self.snake.set_dir(Direction::Up),
            Input::KeyRight => self.snake.set_dir(Direction::Right),
            Input::Quit => self.state = GameState::Defeat,
            Input::Other => {},
        }
    }

    /// Advances the game by one tick. The inputs are applied in order; then
    /// the snake moves one cell, and the new head is checked, in this order,
    /// against the food (the snake grows and the food moves), the walls and
    /// the rest of the body (the game is lost). A game that is over stays as
    /// it is.
    pub fn update(&mut self, inputs: Vec<Input>)
        requires
            old(self).wf(),
        ensures
            final(self).wf(),
            final(self).snake.segments().len() >= old(self).snake.segments().len(),
            !old(self).ongoing() ==> *final(self) == *old(self),
            old(self).ongoing() ==> final(self).grid == old(self).grid,
            old(self).ongoing() ==> final(self).snake.heading() == heading_after(
                old(self).snake.heading(),
                inputs@,
            ),
            old(self).ongoing() ==> final(self).snake.segments() == tick_body(*old(self), inputs@),
            old(self).ongoing() && eats(*old(self), inputs@) ==> final(self).snake.growth_spec()
                == growth_after_move(old(self).snake.growth_spec()) + 1,
            old(self).ongoing() && eats(*old(self), inputs@) ==> food_placed(
                final(self).grid,
                final(self).snake.segments(),
                final(self).food.position,
            ),
            old(self).ongoing() && eats(*old(self), inputs@) ==> final(self).state == (if quits(
                inputs@,
            ) {
                GameState::Defeat
            } else {
                GameState::Ongoing
            }),
            old(self).ongoing() && !eats(*old(self), inputs@) ==> final(self).snake.growth_spec()
                == growth_after_move(old(self).snake.growth_spec()),
            old(self).ongoing() && !eats(*old(self), inputs@) ==> final(self).food == old(self).food,
            old(self).ongoing() && !eats(*old(self), inputs@) ==> final(self).state == (if quits(
                inputs@,
            ) || crashed(final(self).grid, final(self).snake.segments()) {
                GameState::Defeat
            } else {
                GameState::Ongoing
            }),
    {
        if !self.is_ongoing() {
            return;
        }
        let mut i: usize = 0;
        while i < inputs.len()
            invariant
                0 <= i <= inputs@.len(),
                self.grid == old(self).grid,
                self.food == old(self).food,
                self.snake.segments() == old(self).snake.segments(),
                self.snake.growth_spec() == old(self).snake.growth_spec(),
                self.snake.heading() == heading_after(
                    old(self).snake.heading(),
                    inputs@.subrange(0, i as int),
                ),
                self.state == (if quits(inputs@.subrange(0, i as int)) {
                    GameState::Defeat
                } else {
                    GameState::Ongoing
                }),
            decreases inputs@.len() - i,
        {
            proof {
                let next = inputs@.subrange(0, i + 1);
                assert(next =~= inputs@.subrange(0, i as int).push(inputs@[i as int]));
                assert(next.drop_last() =~= inputs@.subrange(0, i as int));
                lemma_quits_push(inputs@.subrange(0, i as int), inputs@[i as int]);
            }
            self.handle_input(&inputs[i]);
            i += 1;
        }
        assert(inputs@.subrange(0, inputs@.len() as int) =~= inputs@);
        let ghost before = self.snake.segments();
        self.snake.step();
        let ghost moved = self.snake.segments();
        assert(forall|k: int| 0 <= k < moved.len() - 1 ==> moved[k + 1] == before[k]);
        match self.check_collision() {
            Some(Collision::Food) => {
                self.snake.add_growth(1);
                place_food(&mut self.food, &self.snake);
            },
            Some(Collision::Wall) => {
                self.state = GameState::Defeat;
            },
            Some(Collision::Body) => {
                self.state = GameState::Defeat;
            },
            None => {
                if self.is_ongoing() {
                    proof {
                        lemma_food_stays_placed(self.grid, before, moved, self.food.position);
                    }
                }
            },
        }
    }

    /// The score: the length of the body.
    pub fn score(&self) -> (r: i32)
        requires
            self.snake.segments().len() <= i32::MAX,
        ensures
            r == self.snake.segments().len(),
    {
        self.snake.body.len() as i32
    }

    /// Whether the game is still being played.
    pub fn is_ongoing(&self) -> (r: bool)
        ensures
            r == self.ongoing(),
    {
        match self.state {
            GameState::Ongoing => true,
            _ => false,
        }
    }
}

/// Whether the head, after the tick's move, lands on the food.
pub open spec fn eats(g: Game, inputs: Seq<Input>) -> bool {
    tick_body(g, inputs)[0] == g.food.position
}

proof fn lemma_quits_push(s: Seq<Input>, x: Input)
    ensures
        quits(s.push(x)) == (quits(s) || x == Input::Quit),
{
    let t = s.push(x);
    if quits(t) {
        let k = choose|k: int| 0 <= k < t.len() && t[k] == Input::Quit;
        if k < s.len() {
            assert(s[k] == Input::Quit);
        }
    }
    if quits(s) {
        let k = choose|k: int| 0 <= k < s.len() && s[k] == Input::Quit;
        assert(t[k] == Input::Quit);
    }
    if x == Input::Quit {
        assert(t[s.len() as int] == Input::Quit);
    }
}

/// A move that neither eats nor crashes keeps the food off the body: the
/// cells of the new body are the new head and cells of the old body, and a
/// body that covered the field still covers it.
proof fn lemma_food_stays_placed(grid: Grid, body: Seq<Point>, moved: Seq<Point>, food: Point)
    requires
        body.len() > 0,
        food_placed(grid, body, food),
        moved.len() == body.len() || moved.len() == body.len() + 1,
        forall|i: int| 0 <= i < moved.len() - 1 ==> moved[i + 1] == body[i],
        moved[0] != food,
        grid.contains(moved[0]),
        !moved.subrange(1, moved.len() as int).contains(moved[0]),
    ensures
        food_placed(grid, moved, food),
{
    if !body.contains(food) {
        if moved.contains(food) {
            let k = choose|k: int| 0 <= k < moved.len() && moved[k] == food;
            assert(body[k - 1] == food);
        }
    } else {
        assert forall|p: Point| grid.contains(p) implies moved.contains(p) by {
            let j = choose|j: int| 0 <= j < body.len() && body[j] == p;
            if j < moved.len() - 1 {
                assert(moved[j + 1] == p);
            } else {
                let h = moved[0];
                let k = choose|k: int| 0 <= k < body.len() && body[k] == h;
                if k < moved.len() - 1 {
                    assert(moved.subrange(1, moved.len() as int)[k] == h);
                }
                assert(moved[0] == p);
            }
        }
    }
}

/// A request to turn straight back leaves the heading as it is; a request for
/// any other heading is granted.
pub proof fn lemma_reversal_refused(cur: Direction, d: Direction)
    ensures
        turned(cur, cur.opposite_spec()) == cur,
        d != cur.opposite_spec() ==> turned(cur, d) == d,
{
}

/// Eating comes before the other collisions, and never coincides with one:
/// on a game in progress, a move onto the food lands on the field and off the
/// rest of the body, unless the body already covered the whole field.
pub proof fn lemma_eating_is_no_crash(g: Game, inputs: Seq<Input>)
    requires
        g.wf(),
        g.ongoing(),
        eats(g, inputs),
        !covers(g.grid, g.snake.segments()),
    ensures
        !crashed(g.grid, tick_body(g, inputs)),
{
    let body = g.snake.segments();
    let moved = tick_body(g, inputs);
    let rest = moved.subrange(1, moved.len() as int);
    assert(!body.contains(g.food.position));
    if rest.contains(moved[0]) {
        let k = choose|k: int| 0 <= k < rest.len() && rest[k] == moved[0];
        assert(body[k] == g.food.position);
    }
}

} // verus!
