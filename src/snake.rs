use std::collections::VecDeque;
use vstd::prelude::*;

use crate::args::Args;
pub use crate::geometry::{Direction, Point};
use crate::random::random_below;

verus! {

/// Every cell of the grid is taken by the snake: no food can be placed.
#[derive(Clone, Copy, Debug, PartialEq, Eq, Structural)]
pub struct BoardFull;

/// The state of a snake as plain mathematical values.
pub ghost struct SnakeModel {
    pub body: Seq<Point>,
    pub last_tail: Point,
    pub direction: Direction,
    pub growth: nat,
    pub width: nat,
    pub height: nat,
    pub food: Point,
    pub next_food: Point,
    pub started: bool,
    pub args: Args,
}

impl SnakeModel {
    pub open spec fn head(self) -> Point {
        self.body[0]
    }

    /// The snake can take one step without leaving the `i32` range.
    pub open spec fn can_move(self) -> bool {
        self.body.len() > 0 && self.head().can_step(self.direction)
    }

    /// A cell of the grid that no segment covers.
    pub open spec fn is_free(self, p: Point) -> bool {
        p.in_bounds(self.width as int, self.height as int) && !self.body.contains(p)
    }

    pub open spec fn has_free_cell(self) -> bool {
        exists|p: Point| self.is_free(p)
    }

    /// `s` lists each free cell once, ordered by `x` and then `y`.
    pub open spec fn is_free_listing(self, s: Seq<Point>) -> bool {
        &&& forall|p: Point| self.is_free(p) <==> s.contains(p)
        &&& forall|i: int, j: int| 0 <= i < j < s.len() ==> (#[trigger] s[i]).precedes(#[trigger] s[j])
    }

    /// The free cells, ordered by `x` and then `y`.
    pub open spec fn free_list(self) -> Seq<Point> {
        choose|s: Seq<Point>| self.is_free_listing(s)
    }

    /// One step forward: a new head in front; the tail leaves unless
    /// growth is banked, in which case one unit of it is spent.
    pub open spec fn moved(self) -> SnakeModel {
        let new_head = self.head().step(self.direction);
        if self.growth == 0 {
            SnakeModel {
                body: seq![new_head] + self.body.drop_last(),
                last_tail: self.body.last(),
                ..self
            }
        } else {
            SnakeModel {
                body: seq![new_head] + self.body,
                growth: (self.growth - 1) as nat,
                ..self
            }
        }
    }

    /// `n` steps forward.
    pub open spec fn moved_times(self, n: nat) -> SnakeModel
        decreases n,
    {
        if n == 0 {
            self
        } else {
            self.moved_times((n - 1) as nat).moved()
        }
    }

    /// The heading after asking for `d`: a reversal is ignored.
    pub open spec fn turned(self, d: Direction) -> SnakeModel {
        if d == self.direction.spec_opposite() {
            self
        } else {
            SnakeModel { direction: d, ..self }
        }
    }

    /// A started snake finds the food under its head after its next step.
    pub open spec fn eats(self) -> bool {
        self.started && self.moved().head() == self.moved().food
    }

    /// One tick: nothing before the start; else a step, and where the
    /// head lands on the food, one more unit of growth, the prepared food
    /// becomes current and `fresh` is the one prepared next.
    pub open spec fn ticked(self, fresh: Point) -> SnakeModel {
        if !self.started {
            self
        } else if self.eats() {
            let m = self.moved();
            SnakeModel { growth: m.growth + 1, food: m.next_food, next_food: fresh, ..m }
        } else {
            self.moved()
        }
    }

    /// The starting shape: three segments in a row heading right, halfway
    /// down, head at `x = 2` and tail at `x = 0`, with food three quarters
    /// of the way across; the prepared food is left as it was.
    pub open spec fn reset_shape(self) -> SnakeModel {
        let x = self.width as int / 4;
        let y = self.height as int / 2;
        SnakeModel {
            body: seq![
                Point { x: 2, y: y as i32 },
                Point { x: 1, y: y as i32 },
                Point { x: 0, y: y as i32 },
            ],
            last_tail: Point { x: 3, y: y as i32 },
            direction: Direction::Right,
            growth: 0,
            food: Point { x: (3 * x) as i32, y: y as i32 },
            started: false,
            ..self
        }
    }

    /// The food kept where it is if that cell is free; else the first free
    /// cell, where there is one.
    pub open spec fn food_on_free_cell(self) -> Point {
        if self.is_free(self.food) || !self.has_free_cell() {
            self.food
        } else {
            self.free_list()[0]
        }
    }

    /// The starting shape, with its food moved off the body where needed,
    /// and `fresh` prepared next.
    pub open spec fn prepared(self, fresh: Point) -> SnakeModel {
        let s = self.reset_shape();
        SnakeModel { food: s.food_on_free_cell(), next_food: fresh, ..s }
    }

    /// The head lies on another segment.
    pub open spec fn collides_with_self(self) -> bool {
        exists|i: int| 1 <= i < self.body.len() && self.body[i] == self.head()
    }

    /// The head lies outside `[0, width) x [0, height)`.
    pub open spec fn collides_with_wall(self, width: int, height: int) -> bool {
        !self.head().in_bounds(width, height)
    }

    /// The grid's coordinates all fit in `i32`.
    pub open spec fn grid_fits(self) -> bool {
        self.width <= i32::MAX && self.height <= i32::MAX
    }
}

/// A snake on a grid of `width` x `height` cells, with the food it is after.
#[derive(Clone)]
pub struct Snake {
    /// Segments, head first.
    pub body: VecDeque<Point>,
    /// The cell that the tail left on the last step.
    pub last_tail: Point,
    pub direction: Direction,
    /// Banked growth: steps still to be taken without losing the tail.
    pub growth: u32,
    pub width: u32,
    pub height: u32,
    pub food: Point,
    /// Where food appears once the current food is eaten.
    pub next_food: Point,
    /// Ticks move the snake only once it has started.
    pub started: bool,
    /// The settings the snake was made with.
    pub args: Args,
}

impl View for Snake {
    type V = SnakeModel;

    open spec fn view(&self) -> SnakeModel {
        SnakeModel {
            body: self.body@,
            last_tail: self.last_tail,
            direction: self.direction,
            growth: self.growth as nat,
            width: self.width as nat,
            height: self.height as nat,
            food: self.food,
            next_food: self.next_food,
            started: self.started,
            args: self.args,
        }
    }
}

/// Free cells depend only on the body and the grid.
proof fn lemma_same_free_cells(a: SnakeModel, b: SnakeModel)
    requires
        a.body == b.body,
        a.width == b.width,
        a.height == b.height,
    ensures
        a.has_free_cell() == b.has_free_cell(),
{
    if a.has_free_cell() {
        let p = choose|p: Point| a.is_free(p);
        assert(b.is_free(p));
    }
    if b.has_free_cell() {
        let p = choose|p: Point| b.is_free(p);
        assert(a.is_free(p));
    }
}

/// Two listings of one set of points, each strictly ordered, are the same.
pub proof fn lemma_sorted_listing_unique(s: Seq<Point>, t: Seq<Point>)
    requires
        forall|p: Point| s.contains(p) <==> t.contains(p),
        forall|i: int, j: int| 0 <= i < j < s.len() ==> (#[trigger] s[i]).precedes(#[trigger] s[j]),
        forall|i: int, j: int| 0 <= i < j < t.len() ==> (#[trigger] t[i]).precedes(#[trigger] t[j]),
    ensures
        s == t,
    decreases s.len(),
{
    if s.len() == 0 {
        if t.len() > 0 {
            assert(t.contains(t[0]));
        }
        assert(s =~= t);
    } else {
        assert(s.contains(s[0]));
        assert(t.len() > 0);
        assert(t.contains(t[0]));
        let i = choose|i: int| 0 <= i < s.len() && s[i] == t[0];
        let j = choose|j: int| 0 <= j < t.len() && t[j] == s[0];
        if i > 0 {
            assert(s[0].precedes(s[i]));
            if j > 0 {
                assert(t[0].precedes(t[j]));
            }
            assert(false);
        }
        let s1 = s.drop_first();
        let t1 = t.drop_first();
        assert forall|p: Point| s1.contains(p) <==> t1.contains(p) by {
            if s1.contains(p) {
                let k = choose|k: int| 0 <= k < s1.len() && s1[k] == p;
                assert(s[0].precedes(s[k + 1]));
                assert(t.contains(p));
                let m = choose|m: int| 0 <= m < t.len() && t[m] == p;
                assert(m != 0);
                assert(t1[m - 1] == p);
            }
            if t1.contains(p) {
                let k = choose|k: int| 0 <= k < t1.len() && t1[k] == p;
                assert(t[0].precedes(t[k + 1]));
                assert(s.contains(p));
                let m = choose|m: int| 0 <= m < s.len() && s[m] == p;
                assert(m != 0);
                assert(s1[m - 1] == p);
            }
        }
        assert forall|a: int, b: int| 0 <= a < b < s1.len() implies (#[trigger] s1[a]).precedes(
            #[trigger] s1[b],
        ) by {
            assert(s[a + 1].precedes(s[b + 1]));
        }
        assert forall|a: int, b: int| 0 <= a < b < t1.len() implies (#[trigger] t1[a]).precedes(
            #[trigger] t1[b],
        ) by {
            assert(t[a + 1].precedes(t[b + 1]));
        }
        lemma_sorted_listing_unique(s1, t1);
        assert(s =~= seq![s[0]] + s1);
        assert(t =~= seq![t[0]] + t1);
    }
}

/// A listing of the free cells is the one `free_list` names.
pub proof fn lemma_free_listing_is_free_list(m: SnakeModel, s: Seq<Point>)
    requires
        m.is_free_listing(s),
    ensures
        m.free_list() == s,
        m.is_free_listing(m.free_list()),
{
    let t = m.free_list();
    assert(m.is_free_listing(t));
    lemma_sorted_listing_unique(s, t);
}

impl Snake {
    /// A snake with no body yet on the grid that `args` gives; `prepare`
    /// sets it up.
    pub fn new(args: Args) -> (r: Snake)
        ensures
            r@ == (SnakeModel {
                body: Seq::empty(),
                last_tail: Point { x: 0, y: 0 },
                direction: Direction::Right,
                growth: 0,
                width: args.width as nat,
                height: args.height as nat,
                food: Point { x: 0, y: 0 },
                next_food: Point { x: 0, y: 0 },
                started: false,
                args,
            }),
    {
        Snake {
            body: VecDeque::new(),
            last_tail: Point::new(0, 0),
            direction: Direction::Right,
            growth: 0,
            width: args.width,
            height: args.height,
            food: Point::new(0, 0),
            next_food: Point::new(0, 0),
            started: false,
            args,
        }
    }

    /// Puts the snake back in its starting shape, not started, with food
    /// on a free cell, and prepares the next food. `BoardFull` where no free
    /// cell is left; the prepared food is then left as it was.
    pub fn prepare(&mut self) -> (r: Result<(), BoardFull>)
        requires
            old(self)@.grid_fits(),
        ensures
            final(self)@ == old(self)@.prepared(final(self).next_food),
            r is Err <==> !final(self)@.has_free_cell(),
            final(self)@.has_free_cell() ==> final(self)@.is_free(final(self).food),
            r is Ok ==> final(self)@.is_free(final(self).next_food),
            r is Err ==> final(self).next_food == old(self).next_food,
    {
        self.body.clear();
        self.started = false;
        let x: i32 = self.width as i32 / 4;
        let y: i32 = self.height as i32 / 2;
        self.body.push_back(Point::new(2, y));
        self.body.push_back(Point::new(1, y));
        self.body.push_back(Point::new(0, y));
        self.last_tail = Point::new(3, y);
        self.direction = Direction::Right;
        self.growth = 0;
        self.food = Point::new(x * 3, y);
        assert(self@.body =~= old(self)@.reset_shape().body);
        assert(self@ == old(self)@.reset_shape());
        let ghost reset = self@;
        if !self.is_free_cell(self.food) {
            if let Ok(p) = self.food_choice(0) {
                let ghost pre = self@;
                proof {
                    vstd::arithmetic::div_mod::lemma_small_mod(0, pre.free_list().len());
                }
                self.food = p;
                proof {
                    lemma_same_free_cells(pre, self@);
                }
            }
        }
        let ghost shaped = self@;
        assert(self.food == reset.food_on_free_cell());
        assert(self@.is_free(self.food) || !self@.has_free_cell());
        match self.gen_next_food() {
            Ok(p) => {
                self.next_food = p;
                proof {
                    lemma_same_free_cells(shaped, self@);
                }
                Ok(())
            },
            Err(e) => Err(e),
        }
    }

    /// One tick: where started, a step forward; where the head then lies
    /// on the food, the snake banks one unit of growth, the prepared food
    /// becomes current and a new one is prepared. `BoardFull` where no free
    /// cell is left for it; the prepared food is then left as it was. Wall
    /// and self collisions are for the caller to check afterwards.
    pub fn update(&mut self) -> (r: Result<(), BoardFull>)
        requires
            old(self)@.started ==> old(self)@.can_move(),
            old(self)@.grid_fits(),
        ensures
            final(self)@ == old(self)@.ticked(final(self).next_food),
            !old(self)@.eats() ==> r is Ok,
            old(self)@.eats() ==> (r is Err <==> !final(self)@.has_free_cell()),
            old(self)@.eats() && r is Ok ==> final(self)@.is_free(final(self).next_food),
            r is Err ==> final(self).next_food == old(self).next_food,
    {
        if !self.started {
            return Ok(());
        }
        self.move_forward();
        if *self.head() == self.food {
            self.grow();
            self.food = self.next_food;
            match self.gen_next_food() {
                Ok(p) => {
                    let ghost pre = self@;
                    self.next_food = p;
                    proof {
                        lemma_same_free_cells(pre, self@);
                    }
                    Ok(())
                },
                Err(e) => Err(e),
            }
        } else {
            Ok(())
        }
    }

    /// Lets ticks move the snake.
    pub fn start(&mut self)
        ensures
            final(self)@ == (SnakeModel { started: true, ..old(self)@ }),
    {
        self.started = true;
    }

    /// The first segment.
    pub fn head(&self) -> (r: &Point)
        requires
            self@.body.len() > 0,
        ensures
            *r == self@.head(),
    {
        &self.body[0]
    }

    /// Banks one more unit of growth.
    pub fn grow(&mut self)
        requires
            old(self).growth < u32::MAX,
        ensures
            final(self)@ == (SnakeModel { growth: old(self)@.growth + 1, ..old(self)@ }),
    {
        self.growth = self.growth + 1;
    }

    /// Takes one step in the current direction. No wall or self check is
    /// made here.
    pub fn move_forward(&mut self)
        requires
            old(self)@.can_move(),
        ensures
            final(self)@ == old(self)@.moved(),
    {
        let mut new_head = *self.head();
        match self.direction {
            Direction::Up => new_head.y = new_head.y - 1,
            Direction::Down => new_head.y = new_head.y + 1,
            Direction::Left => new_head.x = new_head.x - 1,
            Direction::Right => new_head.x = new_head.x + 1,
        }
        assert(new_head == self@.head().step(self.direction));
        self.body.push_front(new_head);
        if self.growth == 0 {
            if let Some(tail) = self.body.pop_back() {
                self.last_tail = tail;
            }
        } else {
            self.growth = self.growth - 1;
        }
        proof {
            let m = old(self)@.moved();
            assert(self@.body =~= m.body);
        }
    }

    /// Heads in `direction` from the next step on, unless that would
    /// reverse the snake onto itself.
    pub fn turn(&mut self, direction: Direction)
        ensures
            final(self)@ == old(self)@.turned(direction),
    {
        if direction != self.direction.opposite() {
            self.direction = direction;
        }
    }

    /// The head lies on another segment.
    pub fn collides_with_self(&self) -> (r: bool)
        requires
            self@.body.len() > 0,
        ensures
            r == self@.collides_with_self(),
    {
        let head = *self.head();
        let n = self.body.len();
        let mut i: usize = 1;
        while i < n
            invariant
                n == self.body@.len(),
                1 <= i <= n,
                head == self@.head(),
                forall|k: int| 1 <= k < i ==> self.body@[k] != head,
            decreases n - i,
        {
            if self.body[i] == head {
                return true;
            }
            i = i + 1;
        }
        false
    }

    /// The head lies outside `[0, width) x [0, height)`.
    pub fn collides_with_wall(&self, width: u32, height: u32) -> (r: bool)
        requires
            self@.body.len() > 0,
        ensures
            r == self@.collides_with_wall(width as int, height as int),
            r == (self@.head().x < 0 || self@.head().x >= width || self@.head().y < 0
                || self@.head().y >= height),
    {
        let head = self.head();
        head.x as i64 >= width as i64 || head.y as i64 >= height as i64 || head.x < 0 || head.y < 0
    }

    /// Whether a segment of the body covers `p`.
    fn occupies(&self, p: Point) -> (r: bool)
        ensures
            r == self.body@.contains(p),
    {
        let n = self.body.len();
        let mut i: usize = 0;
        while i < n
            invariant
                n == self.body@.len(),
                0 <= i <= n,
                forall|k: int| 0 <= k < i ==> self.body@[k] != p,
            decreases n - i,
        {
            if self.body[i] == p {
                return true;
            }
            i = i + 1;
        }
        false
    }

    /// Every free cell of the grid, ordered by `x` and then `y`.
    pub fn free_cells(&self) -> (r: Vec<Point>)
        requires
            self@.grid_fits(),
        ensures
            self@.is_free_listing(r@),
            r@ == self@.free_list(),
    {
        let w: i32 = self.width as i32;
        let h: i32 = self.height as i32;
        let mut cells: Vec<Point> = Vec::new();
        let mut x: i32 = 0;
        while x < w
            invariant
                w == self.width,
                h == self.height,
                0 <= x <= w,
                forall|p: Point|
                    (self@.is_free(p) && p.precedes(Point { x, y: 0 })) <==> cells@.contains(p),
                forall|i: int, j: int|
                    0 <= i < j < cells@.len() ==> (#[trigger] cells@[i]).precedes(#[trigger] cells@[j]),
                forall|i: int| 0 <= i < cells@.len() ==> (#[trigger] cells@[i]).precedes(Point { x, y: 0 }),
            decreases w - x,
        {
            let mut y: i32 = 0;
            while y < h
                invariant
                    w == self.width,
                    h == self.height,
                    0 <= x < w,
                    0 <= y <= h,
                    forall|p: Point|
                        (self@.is_free(p) && p.precedes(Point { x, y })) <==> cells@.contains(p),
                    forall|i: int, j: int|
                        0 <= i < j < cells@.len() ==> (#[trigger] cells@[i]).precedes(
                            #[trigger] cells@[j],
                        ),
                    forall|i: int| 0 <= i < cells@.len() ==> (#[trigger] cells@[i]).precedes(Point { x, y }),
                decreases h - y,
            {
                let p = Point::new(x, y);
                let taken = self.occupies(p);
                let ghost before = cells@;
                if !taken {
                    cells.push(p);
                    assert forall|q: Point|
                        (self@.is_free(q) && q.precedes(Point { x, y: (y + 1) as i32 })) <==> cells@.contains(q) by {
                        if cells@.contains(q) && q != p {
                            let k = choose|k: int| 0 <= k < cells@.len() && cells@[k] == q;
                            assert(k < before.len());
                            assert(before.contains(q));
                        }
                        if self@.is_free(q) && q.precedes(Point { x, y }) {
                            assert(before.contains(q));
                            let k = choose|k: int| 0 <= k < before.len() && before[k] == q;
                            assert(cells@[k] == q);
                        }
                        if q == p {
                            assert(cells@[cells@.len() - 1] == q);
                        }
                    }
                } else {
                    assert forall|q: Point|
                        (self@.is_free(q) && q.precedes(Point { x, y: (y + 1) as i32 })) <==> cells@.contains(q) by {
                        if q == p {
                            assert(!self@.is_free(q));
                        }
                    }
                }
                y = y + 1;
            }
            x = x + 1;
        }
        proof {
            assert forall|p: Point| self@.is_free(p) <==> cells@.contains(p) by {
                if self@.is_free(p) {
                    assert(p.precedes(Point { x, y: 0 }));
                }
            }
            lemma_free_listing_is_free_list(self@, cells@);
        }
        cells
    }

    /// Whether `p` is a cell of the grid that no segment covers.
    fn is_free_cell(&self, p: Point) -> (r: bool)
        ensures
            r == self@.is_free(p),
    {
        p.x >= 0 && p.y >= 0 && p.x as i64 <= self.width as i64 - 1 && p.y as i64 <= self.height as i64
            - 1 && !self.occupies(p)
    }

    /// Where food would go for a draw of `pick`: the free cell at
    /// `pick` modulo their number, in the order of `free_cells`.
    pub fn food_choice(&self, pick: usize) -> (r: Result<Point, BoardFull>)
        requires
            self@.grid_fits(),
        ensures
            r is Err <==> !self@.has_free_cell(),
            r is Ok ==> r->Ok_0 == self@.free_list()[pick as int % self@.free_list().len() as int],
            r is Ok ==> self@.is_free(r->Ok_0),
            r is Ok ==> self@.free_list().len() > 0,
    {
        let cells = self.free_cells();
        let n = cells.len();
        if n == 0 {
            proof {
                if self@.has_free_cell() {
                    let p = choose|p: Point| self@.is_free(p);
                    assert(cells@.contains(p));
                }
            }
            Err(BoardFull)
        } else {
            assert(self@.is_free(cells@[0]));
            let p = pick_cell(&cells, pick);
            assert(cells@.contains(cells@[pick as int % n as int]));
            Ok(p)
        }
    }

    /// A free cell chosen at random, each with the same chance; `BoardFull`
    /// where none is left. The draw goes to `pick_cell` over the list of
    /// `free_cells`.
    pub fn gen_next_food(&self) -> (r: Result<Point, BoardFull>)
        requires
            self@.grid_fits(),
        ensures
            r is Err <==> !self@.has_free_cell(),
            r is Ok ==> self@.is_free(r->Ok_0),
            r is Ok ==> self@.free_list().contains(r->Ok_0),
    {
        let cells = self.free_cells();
        let n = cells.len();
        if n == 0 {
            proof {
                if self@.has_free_cell() {
                    let p = choose|p: Point| self@.is_free(p);
                    assert(cells@.contains(p));
                }
            }
            Err(BoardFull)
        } else {
            let i = random_below(n);
            let p = pick_cell(&cells, i);
            assert(cells@.contains(cells@[i as int % n as int]));
            Ok(p)
        }
    }
}

/// The cell of `cells` at `pick` modulo their number: each draw below
/// `cells.len()` gives its own cell, so every cell can be drawn.
pub fn pick_cell(cells: &Vec<Point>, pick: usize) -> (r: Point)
    requires
        cells@.len() > 0,
    ensures
        r == cells@[pick as int % cells@.len() as int],
        pick < cells@.len() ==> r == cells@[pick as int],
{
    proof {
        if pick < cells@.len() {
            vstd::arithmetic::div_mod::lemma_small_mod(pick as nat, cells@.len());
        }
    }
    cells[pick % cells.len()]
}

} // verus!
