use vstd::prelude::*;

use crate::cord::SnakeGameCord;
use crate::counting::{count_eq, count_pos, decremented};
use crate::direction::Direction;

verus! {

/// The board is stored row-major: cell `(x, y)` is entry `y * width + x`.
/// An entry is 0 when empty, -1 when it holds an apple, and `k > 0` when it holds
/// a body segment of age `k`, the head being the one of age `len`.
pub struct GameModel {
    pub cells: Seq<i32>,
    pub width: usize,
    pub height: usize,
    pub head: SnakeGameCord,
    pub len: u32,
    pub saturation: u32,
    pub grew_last_tick: bool,
    pub dead: bool,
    pub grow_rate: u32,
    pub max_apples: u32,
    pub min_apples: u32,
    pub ticks_between_spawns: u32,
    pub ticks_since_spawn: u32,
}

/// `i` is the free cell that has exactly `r` free cells before it in row-major order.
pub open spec fn is_nth_free(cells: Seq<i32>, i: int, r: int) -> bool {
    &&& 0 <= i < cells.len()
    &&& cells[i] == 0
    &&& count_eq(cells.take(i), 0) == r
}

/// The free cell with exactly `r` free cells before it.
pub open spec fn nth_free(cells: Seq<i32>, r: int) -> int {
    choose|i: int| is_nth_free(cells, i, r)
}

/// The board after an apple is placed using the draw `draw`: on the free cell whose
/// zero-based rank among the free cells is `draw` modulo their number, or nowhere
/// when no cell is free.
pub open spec fn spawned(cells: Seq<i32>, draw: u32) -> Seq<i32> {
    let free = count_eq(cells, 0);
    if free == 0 {
        cells
    } else {
        cells.update(nth_free(cells, draw as int % free as int), -1i32)
    }
}

/// The fresh state of a board of the given size: empty, with a snake of length 0
/// that is owed a length of 3, its head a third of the way across and half way down.
pub open spec fn initial_model(
    width: usize,
    height: usize,
    grow_rate: u32,
    max_apples: u32,
    min_apples: u32,
    ticks_between_spawns: u32,
) -> GameModel {
    GameModel {
        cells: Seq::new((width * height) as nat, |i: int| 0i32),
        width,
        height,
        head: SnakeGameCord { x: width / 3, y: height / 2 },
        len: 0,
        saturation: 3,
        grew_last_tick: true,
        dead: false,
        grow_rate,
        max_apples,
        min_apples,
        ticks_between_spawns,
        ticks_since_spawn: 0,
    }
}

impl GameModel {
    pub open spec fn in_bounds(self, c: SnakeGameCord) -> bool {
        c.x < self.width && c.y < self.height
    }

    pub open spec fn index_of(self, c: SnakeGameCord) -> int {
        c.y * self.width + c.x
    }

    /// The value of cell `c`.
    pub open spec fn at(self, c: SnakeGameCord) -> i32 {
        self.cells[self.index_of(c)]
    }

    /// The number of body cells.
    pub open spec fn body_count(self) -> nat {
        count_pos(self.cells)
    }

    /// The body segments are exactly the ages `1..=len`, each on one cell, and the
    /// head holds `len`; every other cell is empty or an apple.
    pub open spec fn body_ok(self) -> bool {
        &&& forall|i: int| 0 <= i < self.cells.len() ==> -1 <= #[trigger] self.cells[i] <= self.len
        &&& forall|k: int| 1 <= k <= self.len ==> #[trigger] count_eq(self.cells, k) == 1
        &&& count_pos(self.cells) == self.len
        &&& self.len > 0 ==> self.at(self.head) == self.len
    }

    /// The shape of the board and the snake's bookkeeping are consistent.
    pub open spec fn wf(self) -> bool {
        &&& self.width >= 1
        &&& self.height >= 1
        &&& self.width * self.height <= i32::MAX
        &&& self.cells.len() == self.width * self.height
        &&& self.in_bounds(self.head)
        &&& self.len <= self.saturation
        &&& self.body_ok()
    }

    /// Moving the head one unit in `d` would leave the board.
    pub open spec fn leaves_board(self, d: Direction) -> bool {
        match d {
            Direction::Up => self.head.y == 0,
            Direction::Down => self.head.y + 1 == self.height,
            Direction::Left => self.head.x == 0,
            Direction::Right => self.head.x + 1 == self.width,
        }
    }

    /// The cell the head would move into.
    pub open spec fn target(self, d: Direction) -> SnakeGameCord {
        self.head.shifted(d)
    }

    /// This tick grows the body instead of shifting it.
    pub open spec fn grows(self, d: Direction) -> bool {
        let sat = self.saturation_after(d);
        self.len < sat && !self.grew_last_tick
    }

    /// The target length after the head enters the cell in direction `d`.
    pub open spec fn saturation_after(self, d: Direction) -> u32 {
        if self.at(self.target(d)) == -1 {
            self.saturation.saturating_add(self.grow_rate)
        } else {
            self.saturation
        }
    }

    /// The state after the head moves into the cell in direction `d`, before any
    /// apple spawns: either the body grows by one there, or every segment ages by one
    /// and the head takes the new cell.
    pub open spec fn moved(self, d: Direction) -> GameModel {
        let idx = self.index_of(self.target(d));
        let grow = self.grows(d);
        GameModel {
            cells: if grow {
                self.cells.update(idx, (self.len + 1) as i32)
            } else {
                decremented(self.cells).update(idx, self.len as i32)
            },
            head: self.target(d),
            len: if grow { (self.len + 1) as u32 } else { self.len },
            saturation: self.saturation_after(d),
            grew_last_tick: grow,
            ..self
        }
    }

    /// The state after an apple is placed using `draw`.
    pub open spec fn with_apple(self, draw: u32) -> GameModel {
        GameModel { cells: spawned(self.cells, draw), ..self }
    }

    /// The spawn rule run at the end of a tick: while fewer than `max_apples` lie on
    /// the board the counter advances, and one placement is attempted when it has
    /// passed `ticks_between_spawns` or fewer than `min_apples` lie there; an attempt
    /// resets the counter.
    pub open spec fn respawned(self, draw: u32) -> GameModel {
        let apples = count_eq(self.cells, -1);
        let since = self.ticks_since_spawn.saturating_add(1);
        if apples < self.max_apples {
            if since > self.ticks_between_spawns || apples < self.min_apples {
                GameModel { ticks_since_spawn: 0, ..self }.with_apple(draw)
            } else {
                GameModel { ticks_since_spawn: since, ..self }
            }
        } else {
            self
        }
    }

    /// The move in direction `d` kills the snake: it leaves the board or enters the body.
    pub open spec fn dies(self, d: Direction) -> bool {
        self.leaves_board(d) || self.at(self.target(d)) > 0
    }

    /// The state after one tick in direction `d`, where `draw` is the random number
    /// used if an apple spawn is attempted. A fatal move changes nothing but `dead`.
    pub open spec fn step(self, d: Direction, draw: u32) -> GameModel {
        if self.dies(d) {
            GameModel { dead: true, ..self }
        } else {
            self.moved(d).respawned(draw)
        }
    }
}

} // verus!
