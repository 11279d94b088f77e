use vstd::prelude::*;

use crate::counting::{
    count_eq, count_pos, decremented, lemma_count_eq_absent, lemma_count_eq_decremented,
    lemma_count_eq_take, lemma_count_eq_take_mono, lemma_count_eq_update, lemma_count_pos_bound,
    lemma_count_pos_decremented, lemma_count_pos_update,
};
use crate::direction::Direction;
use crate::model::{is_nth_free, nth_free, spawned, GameModel};

verus! {

/// A position inside a `width` by `height` board has a row-major index inside it.
pub proof fn lemma_index_in_range(width: int, height: int, x: int, y: int)
    requires
        0 <= x < width,
        0 <= y < height,
    ensures
        0 <= y * width + x < width * height,
{
    assert(0 <= y * width + x < width * height) by (nonlinear_arith)
        requires
            0 <= x < width,
            0 <= y < height,
    ;
}

/// The cell a surviving move enters lies on the board.
pub proof fn lemma_target_in_bounds(m: GameModel, d: Direction)
    requires
        m.wf(),
        !m.leaves_board(d),
    ensures
        m.head.can_move(d),
        m.in_bounds(m.target(d)),
        0 <= m.index_of(m.target(d)) < m.cells.len(),
{
    let t = m.target(d);
    lemma_index_in_range(m.width as int, m.height as int, t.x as int, t.y as int);
}

/// The free cell of a given rank is unique.
pub proof fn lemma_nth_free_unique(s: Seq<i32>, i: int, j: int, r: int)
    requires
        is_nth_free(s, i, r),
        is_nth_free(s, j, r),
    ensures
        i == j,
{
    if i < j {
        lemma_count_eq_take(s, i, 0);
        lemma_count_eq_take_mono(s, i + 1, j, 0);
    } else if j < i {
        lemma_count_eq_take(s, j, 0);
        lemma_count_eq_take_mono(s, j + 1, i, 0);
    }
}

/// Every rank below the number of free cells belongs to some free cell.
pub proof fn lemma_nth_free_exists(s: Seq<i32>, r: int)
    requires
        0 <= r < count_eq(s, 0),
    ensures
        exists|i: int| is_nth_free(s, i, r),
    decreases s.len(),
{
    let p = s.drop_last();
    let last = s.len() - 1;
    assert(s.take(last) =~= p);
    if r < count_eq(p, 0) {
        lemma_nth_free_exists(p, r);
        let i = choose|i: int| is_nth_free(p, i, r);
        assert(s.take(i) =~= p.take(i));
        assert(is_nth_free(s, i, r));
    } else {
        assert(is_nth_free(s, last, r));
    }
}

/// The cell of rank `r` is the one `nth_free` names.
pub proof fn lemma_nth_free_is(s: Seq<i32>, i: int, r: int)
    requires
        is_nth_free(s, i, r),
    ensures
        nth_free(s, r) == i,
{
    lemma_nth_free_unique(s, i, nth_free(s, r), r);
}

/// Placing an apple keeps the state well formed.
pub proof fn lemma_with_apple_wf(m: GameModel, draw: u32)
    requires
        m.wf(),
    ensures
        m.with_apple(draw).wf(),
{
    let s = m.cells;
    let free = count_eq(s, 0);
    if free > 0 {
        let r = draw as int % free as int;
        lemma_nth_free_exists(s, r);
        let i = nth_free(s, r);
        let t = s.update(i, -1i32);
        assert forall|k: int| 1 <= k <= m.len implies #[trigger] count_eq(t, k) == 1 by {
            lemma_count_eq_update(s, i, -1i32, k);
        }
        lemma_count_pos_update(s, i, -1i32);
        if m.len > 0 {
            lemma_index_in_range(m.width as int, m.height as int, m.head.x as int, m.head.y as int);
        }
    }
}

/// A surviving move keeps the state well formed.
pub proof fn lemma_moved_wf(m: GameModel, d: Direction)
    requires
        m.wf(),
        !m.dies(d),
    ensures
        m.moved(d).wf(),
{
    lemma_target_in_bounds(m, d);
    let s = m.cells;
    let n = s.len();
    let l = m.len as int;
    let idx = m.index_of(m.target(d));
    let r = m.moved(d);
    lemma_count_pos_bound(s);
    lemma_count_eq_absent(s, l + 1);
    if m.grows(d) {
        lemma_count_pos_update(s, idx, 1i32);
        lemma_count_pos_bound(s.update(idx, 1i32));
        assert(r.cells == s.update(idx, (l + 1) as i32));
        assert forall|k: int| 1 <= k <= l + 1 implies #[trigger] count_eq(r.cells, k) == 1 by {
            lemma_count_eq_update(s, idx, (l + 1) as i32, k);
        }
        lemma_count_pos_update(s, idx, (l + 1) as i32);
    } else {
        let dec = decremented(s);
        assert(r.cells == dec.update(idx, l as i32));
        assert forall|k: int| 1 <= k <= l implies #[trigger] count_eq(r.cells, k) == 1 by {
            lemma_count_eq_update(dec, idx, l as i32, k);
            lemma_count_eq_decremented(s, k);
        }
        lemma_count_pos_update(dec, idx, l as i32);
        lemma_count_pos_decremented(s);
        if l == 0 {
            lemma_count_eq_absent(s, 1);
        }
    }
}

/// The spawn rule keeps the state well formed.
pub proof fn lemma_respawned_wf(m: GameModel, draw: u32)
    requires
        m.wf(),
    ensures
        m.respawned(draw).wf(),
{
    lemma_with_apple_wf(GameModel { ticks_since_spawn: 0, ..m }, draw);
}

/// Any tick keeps the state well formed.
pub proof fn lemma_step_wf(m: GameModel, d: Direction, draw: u32)
    requires
        m.wf(),
    ensures
        m.step(d, draw).wf(),
{
    if !m.dies(d) {
        lemma_moved_wf(m, d);
        lemma_respawned_wf(m.moved(d), draw);
    }
}

/// Placing an apple only turns one empty cell into an apple.
pub proof fn lemma_spawned_cell(s: Seq<i32>, draw: u32, j: int)
    requires
        0 <= j < s.len(),
    ensures
        spawned(s, draw).len() == s.len(),
        s[j] != 0 ==> spawned(s, draw)[j] == s[j],
        s[j] <= 0 ==> spawned(s, draw)[j] <= 0,
{
    let free = count_eq(s, 0);
    if free > 0 {
        lemma_nth_free_exists(s, draw as int % free as int);
    }
}

/// The spawn rule changes only the counter and, at most, one empty cell.
pub proof fn lemma_respawned_cell(m: GameModel, draw: u32, j: int)
    requires
        0 <= j < m.cells.len(),
    ensures
        m.respawned(draw).cells.len() == m.cells.len(),
        m.cells[j] != 0 ==> m.respawned(draw).cells[j] == m.cells[j],
        m.cells[j] <= 0 ==> m.respawned(draw).cells[j] <= 0,
        m.respawned(draw) == (GameModel {
            cells: m.respawned(draw).cells,
            ticks_since_spawn: m.respawned(draw).ticks_since_spawn,
            ..m
        }),
{
    lemma_spawned_cell(m.cells, draw, j);
}

} // verus!
