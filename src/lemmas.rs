//! Facts about the snake's model that hold across calls.
use vstd::prelude::*;

use crate::geometry::{Direction, Point};
use crate::snake::SnakeModel;

verus! {

/// A tick on which the snake eats banks one unit of growth on top of what
/// its step left: with none banked before, the tail still leaves on that
/// tick, the length stays and growth becomes one; the next step then adds
/// a segment and spends it.
pub proof fn lemma_eating_banks_growth(m: SnakeModel, fresh: Point)
    requires
        m.can_move(),
        m.eats(),
    ensures
        m.ticked(fresh).growth == m.moved().growth + 1,
        m.ticked(fresh).body == m.moved().body,
        m.growth == 0 ==> m.ticked(fresh).growth == 1 && m.ticked(fresh).body.len() == m.body.len(),
        m.growth == 0 && m.ticked(fresh).can_move() ==> m.ticked(fresh).moved().body.len() == m.body.len()
            + 1 && m.ticked(fresh).moved().growth == 0,
{
}

/// Asking for the reverse of the heading just set changes nothing: once the
/// snake heads in `d`, a turn towards `d`'s opposite is ignored.
pub proof fn lemma_reverse_turn_ignored(m: SnakeModel, d: Direction)
    ensures
        m.direction == d ==> m.turned(d.spec_opposite()) == m,
        m.turned(d).turned(m.turned(d).direction.spec_opposite()) == m.turned(d),
{
}

/// After a reset the snake has three distinct segments in a horizontal
/// row, head at `x = 2` and tail at `x = 0`, and has not started; on a
/// grid at least three cells wide and one high all of them lie inside it.
pub proof fn lemma_prepared_shape(m: SnakeModel, fresh: Point)
    requires
        m.grid_fits(),
    ensures
        m.prepared(fresh).body.len() == 3,
        !m.prepared(fresh).started,
        m.prepared(fresh).growth == 0,
        m.prepared(fresh).body[0].x == 2,
        m.prepared(fresh).body[2].x == 0,
        forall|i: int, j: int|
            0 <= i < j < 3 ==> m.prepared(fresh).body[i] != m.prepared(fresh).body[j],
        forall|i: int|
            0 <= i < 2 ==> {
                &&& (#[trigger] m.prepared(fresh).body[i]).x == m.prepared(fresh).body[i + 1].x + 1
                &&& m.prepared(fresh).body[i].y == m.prepared(fresh).body[i + 1].y
            },
        m.width >= 3 && m.height >= 1 ==> forall|i: int|
            0 <= i < 3 ==> (#[trigger] m.prepared(fresh).body[i]).in_bounds(
                m.width as int,
                m.height as int,
            ),
{
    let p = m.prepared(fresh);
    let y = m.height as int / 2;
    assert(p.body[0] == Point { x: 2, y: y as i32 });
    assert(p.body[1] == Point { x: 1, y: y as i32 });
    assert(p.body[2] == Point { x: 0, y: y as i32 });
}

/// Right after a reset the head lies on no other segment.
pub proof fn lemma_prepared_no_self_collision(m: SnakeModel, fresh: Point)
    requires
        m.grid_fits(),
    ensures
        !m.prepared(fresh).collides_with_self(),
{
    lemma_prepared_shape(m, fresh);
}

/// A step never shortens the body; it lengthens it by one exactly when
/// growth is banked, and then spends one unit of it.
pub proof fn lemma_move_length(m: SnakeModel)
    requires
        m.body.len() > 0,
    ensures
        m.moved().body.len() >= m.body.len(),
        (m.moved().body.len() == m.body.len() + 1) <==> m.growth > 0,
        m.growth == 0 ==> m.moved().body.len() == m.body.len() && m.moved().growth == 0,
        m.growth > 0 ==> m.moved().growth == m.growth - 1,
{
}

/// With no growth banked, `n` steps in one direction keep the length and
/// move each segment `n` places along the snake's path: segment `i` is
/// where segment `i - n` was, or, for `i < n`, `n - i` steps ahead of the
/// old head.
pub proof fn lemma_moves_shift(m: SnakeModel, n: nat)
    requires
        m.body.len() > 0,
        m.growth == 0,
        m.head().can_steps(m.direction, n as int),
    ensures
        m.moved_times(n).body.len() == m.body.len(),
        m.moved_times(n).growth == 0,
        m.moved_times(n).direction == m.direction,
        forall|i: int|
            0 <= i < m.body.len() ==> #[trigger] m.moved_times(n).body[i] == if i < n {
                m.head().steps(m.direction, n - i)
            } else {
                m.body[i - n]
            },
    decreases n,
{
    let h = m.head();
    let d = m.direction;
    if n == 0 {
        assert forall|i: int| 0 <= i < m.body.len() implies #[trigger] m.moved_times(n).body[i]
            == m.body[i - n] by {}
    } else {
        let k = (n - 1) as nat;
        assert(h.can_steps(d, k as int)) by {
            match d {
                Direction::Up => {},
                Direction::Down => {},
                Direction::Left => {},
                Direction::Right => {},
            }
        }
        lemma_moves_shift(m, k);
        let prev = m.moved_times(k);
        assert(prev.head() == h.steps(d, k as int)) by {
            if k == 0 {
                assert(prev.head() == h);
            }
        }
        assert(prev.head().step(d) == h.steps(d, n as int)) by {
            match d {
                Direction::Up => {},
                Direction::Down => {},
                Direction::Left => {},
                Direction::Right => {},
            }
        }
        let cur = m.moved_times(n);
        assert(cur == prev.moved());
        assert forall|i: int| 0 <= i < m.body.len() implies #[trigger] cur.body[i] == if i < n {
            h.steps(d, n - i)
        } else {
            m.body[i - n]
        } by {
            if i > 0 {
                assert(cur.body[i] == prev.body[i - 1]);
            }
        }
    }
}

} // verus!
