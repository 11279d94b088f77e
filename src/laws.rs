use vstd::prelude::*;

use crate::counting::{count_eq, count_pos, lemma_count_eq_take_mono};
use crate::direction::Direction;
use crate::model::{is_nth_free, spawned, GameModel};
use crate::proofs::{
    lemma_index_in_range, lemma_nth_free_is, lemma_respawned_cell, lemma_step_wf,
    lemma_target_in_bounds,
};

verus! {

/// After any tick the body is intact: every cell holds -1, 0 or an age of at most
/// `len`, each age `1..=len` is held by exactly one cell, there are `len` body cells,
/// and the head holds `len` whenever `len > 0`.
pub proof fn lemma_tick_keeps_body(m: GameModel, d: Direction, draw: u32)
    requires
        m.wf(),
    ensures
        forall|i: int|
            0 <= i < m.step(d, draw).cells.len() ==> -1 <= #[trigger] m.step(d, draw).cells[i]
                <= m.step(d, draw).len,
        forall|k: int|
            1 <= k <= m.step(d, draw).len ==> #[trigger] count_eq(m.step(d, draw).cells, k) == 1,
        count_pos(m.step(d, draw).cells) == m.step(d, draw).len,
        m.step(d, draw).len > 0 ==> m.step(d, draw).at(m.step(d, draw).head) == m.step(d, draw).len,
{
    lemma_step_wf(m, d, draw);
}

/// The body never outgrows its target length, before or after a tick.
pub proof fn lemma_tick_len_within_saturation(m: GameModel, d: Direction, draw: u32)
    requires
        m.wf(),
    ensures
        m.len <= m.saturation,
        m.step(d, draw).len <= m.step(d, draw).saturation,
{
    lemma_step_wf(m, d, draw);
}

/// Two ticks in the same direction, with the two cells ahead on the board and free
/// of the body, move the head exactly two cells and do not kill the snake.
pub proof fn lemma_two_ticks_ahead(m: GameModel, d: Direction, a: u32, b: u32)
    requires
        m.wf(),
        !m.leaves_board(d),
        m.at(m.target(d)) <= 0,
        m.target(d).can_move(d),
        m.in_bounds(m.target(d).shifted(d)),
        m.at(m.target(d).shifted(d)) <= 0,
    ensures
        m.step(d, a).head == m.target(d),
        m.step(d, a).step(d, b).head == m.target(d).shifted(d),
        m.step(d, a).dead == m.dead,
        m.step(d, a).step(d, b).dead == m.dead,
{
    lemma_target_in_bounds(m, d);
    let ahead = m.target(d);
    let beyond = ahead.shifted(d);
    let ahead_idx = m.index_of(ahead);
    let beyond_idx = m.index_of(beyond);
    lemma_index_in_range(m.width as int, m.height as int, beyond.x as int, beyond.y as int);
    assert(ahead_idx != beyond_idx) by {
        match d {
            Direction::Up => {
                assert(ahead_idx == beyond_idx + m.width) by (nonlinear_arith)
                    requires
                        ahead_idx == ahead.y * m.width + ahead.x,
                        beyond_idx == beyond.y * m.width + beyond.x,
                        ahead.y == beyond.y + 1,
                        ahead.x == beyond.x,
                ;
            },
            Direction::Down => {
                assert(beyond_idx == ahead_idx + m.width) by (nonlinear_arith)
                    requires
                        ahead_idx == ahead.y * m.width + ahead.x,
                        beyond_idx == beyond.y * m.width + beyond.x,
                        beyond.y == ahead.y + 1,
                        ahead.x == beyond.x,
                ;
            },
            _ => {},
        }
    }
    let mv = m.moved(d);
    assert(mv.cells[beyond_idx] <= 0);
    lemma_respawned_cell(mv, a, beyond_idx);
    lemma_step_wf(m, d, a);
}

/// Moving right from the last column kills the snake and leaves the board as it was.
pub proof fn lemma_right_edge_kills(m: GameModel, draw: u32)
    requires
        m.wf(),
        m.head.x + 1 == m.width,
    ensures
        m.step(Direction::Right, draw).dead,
        m.step(Direction::Right, draw).cells == m.cells,
        m.step(Direction::Right, draw).head == m.head,
        m.step(Direction::Right, draw).len == m.len,
{
}

/// Moving into a body cell kills the snake and leaves the board, and that cell, as
/// they were.
pub proof fn lemma_body_collision_kills(m: GameModel, d: Direction, draw: u32)
    requires
        m.wf(),
        !m.leaves_board(d),
        m.at(m.target(d)) > 0,
    ensures
        m.step(d, draw).dead,
        m.step(d, draw).cells == m.cells,
        m.step(d, draw).head == m.head,
        m.step(d, draw).len == m.len,
{
}

/// On a surviving tick: entering an apple adds the growth rate to the target length
/// (saturating at `u32::MAX`), and any other cell leaves it alone; when growth is owed
/// and the previous tick did not grow, the body gains one segment at the head and
/// every other segment keeps its age; otherwise the length stays, every other segment
/// ages by one, and the tail segment leaves the body. A tick that grows is never
/// followed by another that grows.
pub proof fn lemma_growth_alternation(m: GameModel, d: Direction, draw: u32)
    requires
        m.wf(),
        !m.dies(d),
    ensures
        m.at(m.target(d)) == -1 ==> m.step(d, draw).saturation == m.saturation.saturating_add(
            m.grow_rate,
        ),
        m.at(m.target(d)) != -1 ==> m.step(d, draw).saturation == m.saturation,
        m.len < m.step(d, draw).saturation && !m.grew_last_tick ==> {
            &&& m.step(d, draw).len == m.len + 1
            &&& m.step(d, draw).grew_last_tick
            &&& forall|i: int|
                0 <= i < m.cells.len() && i != m.index_of(m.target(d)) && m.cells[i] > 0
                    ==> #[trigger] m.step(d, draw).cells[i] == m.cells[i]
        },
        !(m.len < m.step(d, draw).saturation && !m.grew_last_tick) ==> {
            &&& m.step(d, draw).len == m.len
            &&& !m.step(d, draw).grew_last_tick
            &&& forall|i: int|
                0 <= i < m.cells.len() && i != m.index_of(m.target(d)) && m.cells[i] > 1
                    ==> #[trigger] m.step(d, draw).cells[i] == m.cells[i] - 1
            &&& forall|i: int|
                0 <= i < m.cells.len() && i != m.index_of(m.target(d)) && m.cells[i] == 1
                    ==> #[trigger] m.step(d, draw).cells[i] <= 0
        },
        m.step(d, draw).grew_last_tick ==> forall|e: Direction| !#[trigger] m.step(d, draw).grows(e),
{
    lemma_target_in_bounds(m, d);
    let mv = m.moved(d);
    assert forall|i: int| 0 <= i < m.cells.len() && i != m.index_of(m.target(d)) && m.cells[i] > 0
        implies m.step(d, draw).cells[i] == mv.cells[i] || (m.cells[i] == 1
        && m.step(d, draw).cells[i] <= 0 && !mv.grew_last_tick) by {
        lemma_respawned_cell(mv, draw, i);
    }
    lemma_respawned_cell(mv, draw, 0);
}

/// Every empty cell, the first in row-major order included, is where some draw
/// places the apple: the draw equal to its rank among the empty cells.
pub proof fn lemma_every_free_cell_reachable(s: Seq<i32>, i: int)
    requires
        0 <= i < s.len(),
        s.len() <= u32::MAX,
        s[i] == 0,
    ensures
        exists|draw: u32| #[trigger] spawned(s, draw) == s.update(i, -1i32),
{
    let r = count_eq(s.take(i), 0);
    lemma_count_eq_take_mono(s, i, s.len() as int, 0);
    crate::counting::lemma_count_eq_take(s, i, 0);
    lemma_count_eq_take_mono(s, i + 1, s.len() as int, 0);
    assert(s.take(s.len() as int) =~= s);
    crate::counting::lemma_count_eq_bound(s.take(i), 0);
    let draw = r as u32;
    vstd::arithmetic::div_mod::lemma_small_mod(r, count_eq(s, 0));
    assert(is_nth_free(s, i, draw as int % count_eq(s, 0) as int));
    lemma_nth_free_is(s, i, r as int);
    assert(spawned(s, draw) == s.update(i, -1i32));
}

} // verus!
