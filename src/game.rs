use vstd::prelude::*;

use crate::cord::SnakeGameCord;
use crate::counting::{count_eq, decremented, lemma_count_eq_bound, lemma_count_eq_take};
use crate::direction::Direction;
use crate::model::{initial_model, is_nth_free, GameModel};
use crate::proofs::{
    lemma_index_in_range, lemma_moved_wf, lemma_nth_free_is, lemma_target_in_bounds,
    lemma_with_apple_wf,
};

verus! {

/// Relies on rand::random: a value drawn from the thread-local generator. Nothing is
/// known of it.
#[verifier::external_body]
fn random_draw() -> (r: u32) {
    rand::random::<u32>()
}

/// The simulation: a row-major board of cells and the snake's bookkeeping.
pub struct SnakeGame {
    data: Vec<i32>,
    width: usize,
    height: usize,
    snake_head_pos: SnakeGameCord,
    snake_len: u32,
    snake_saturation_len: u32,
    grew_last_tick: bool,
    dead: bool,
    game_grow_rate: u32,
    max_apple_count: u32,
    min_apple_count: u32,
    ticks_between_apple_spawn: u32,
    ticks_since_last_apple_spawned: u32,
}

impl View for SnakeGame {
    type V = GameModel;

    closed spec fn view(&self) -> GameModel {
        GameModel {
            cells: self.data@,
            width: self.width,
            height: self.height,
            head: self.snake_head_pos,
            len: self.snake_len,
            saturation: self.snake_saturation_len,
            grew_last_tick: self.grew_last_tick,
            dead: self.dead,
            grow_rate: self.game_grow_rate,
            max_apples: self.max_apple_count,
            min_apples: self.min_apple_count,
            ticks_between_spawns: self.ticks_between_apple_spawn,
            ticks_since_spawn: self.ticks_since_last_apple_spawned,
        }
    }
}

impl SnakeGame {
    /// A board of `width` by `height` empty cells with a fresh snake.
    pub fn create(
        width: usize,
        height: usize,
        game_grow_rate: u32,
        max_apple_count: u32,
        min_apple_count: u32,
        ticks_between_apple_spawn: u32,
    ) -> (r: SnakeGame)
        requires
            width >= 1,
            height >= 1,
            width * height <= i32::MAX,
        ensures
            r@ == initial_model(
                width,
                height,
                game_grow_rate,
                max_apple_count,
                min_apple_count,
                ticks_between_apple_spawn,
            ),
            r@.wf(),
    {
        let n: usize = width * height;
        let mut data: Vec<i32> = Vec::new();
        let mut i: usize = 0;
        while i < n
            invariant
                i <= n,
                data@ =~= Seq::new(i as nat, |j: int| 0i32),
            decreases n - i,
        {
            data.push(0);
            i += 1;
        }
        let r = SnakeGame {
            data,
            width,
            height,
            snake_head_pos: SnakeGameCord { x: width / 3, y: height / 2 },
            snake_len: 0,
            snake_saturation_len: 3,
            grew_last_tick: true,
            dead: false,
            game_grow_rate,
            max_apple_count,
            min_apple_count,
            ticks_between_apple_spawn,
            ticks_since_last_apple_spawned: 0,
        };
        proof {
            lemma_zero_board_wf(r@);
        }
        r
    }

    /// Empties the board and restores the fresh snake; the size, the spawn settings
    /// and the spawn counter stay.
    pub fn clear(&mut self)
        requires
            old(self)@.wf(),
        ensures
            final(self)@ == (GameModel {
                ticks_since_spawn: old(self)@.ticks_since_spawn,
                ..initial_model(
                    old(self)@.width,
                    old(self)@.height,
                    old(self)@.grow_rate,
                    old(self)@.max_apples,
                    old(self)@.min_apples,
                    old(self)@.ticks_between_spawns,
                )
            }),
            final(self)@.wf(),
    {
        let n = self.data.len();
        let mut i: usize = 0;
        while i < n
            invariant
                n == self.data@.len(),
                i <= n,
                self@ == (GameModel { cells: self.data@, ..old(self)@ }),
                forall|j: int| 0 <= j < i ==> self.data@[j] == 0,
            decreases n - i,
        {
            self.data[i] = 0;
            i += 1;
        }
        self.snake_head_pos = SnakeGameCord { x: self.width / 3, y: self.height / 2 };
        self.snake_len = 0;
        self.snake_saturation_len = 3;
        self.grew_last_tick = true;
        self.dead = false;
        proof {
            assert(self.data@ =~= Seq::new(n as nat, |j: int| 0i32));
            lemma_zero_board_wf(self@);
        }
    }

    /// Moving the head one unit in `direction` would leave the board.
    pub fn would_move_out_of_bounds(&self, direction: &Direction) -> (r: bool)
        requires
            self@.wf(),
        ensures
            r == self@.leaves_board(*direction),
    {
        match direction {
            Direction::Up => self.snake_head_pos.y == 0,
            Direction::Down => self.snake_head_pos.y + 1 == self.height,
            Direction::Left => self.snake_head_pos.x == 0,
            Direction::Right => self.snake_head_pos.x + 1 == self.width,
        }
    }

    /// Ages every body segment by one: each positive cell is lowered by one.
    pub fn shorten_snake(&mut self)
        ensures
            final(self)@ == (GameModel { cells: decremented(old(self)@.cells), ..old(self)@ }),
    {
        let n = self.data.len();
        let mut i: usize = 0;
        while i < n
            invariant
                n == self.data@.len(),
                n == old(self)@.cells.len(),
                i <= n,
                self@ == (GameModel { cells: self.data@, ..old(self)@ }),
                forall|j: int| 0 <= j < i ==> self.data@[j] == decremented(old(self)@.cells)[j],
                forall|j: int| i <= j < n ==> self.data@[j] == old(self)@.cells[j],
            decreases n - i,
        {
            if self.data[i] > 0 {
                self.data[i] = self.data[i] - 1;
            }
            i += 1;
        }
        proof {
            assert(self.data@ =~= decremented(old(self)@.cells));
        }
    }

    /// How many cells hold the value `k`.
    fn count_value(&self, k: i32) -> (r: u32)
        requires
            self@.wf(),
        ensures
            r == count_eq(self@.cells, k as int),
    {
        let n = self.data.len();
        let mut counter: u32 = 0;
        let mut i: usize = 0;
        while i < n
            invariant
                n == self.data@.len(),
                n <= i32::MAX,
                i <= n,
                counter == count_eq(self.data@.take(i as int), k as int),
            decreases n - i,
        {
            proof {
                lemma_count_eq_take(self.data@, i as int, k as int);
                lemma_count_eq_bound(self.data@.take(i + 1), k as int);
            }
            if self.data[i] == k {
                counter += 1;
            }
            i += 1;
        }
        proof {
            assert(self.data@.take(n as int) =~= self.data@);
        }
        counter
    }

    /// The number of apples on the board.
    pub fn count_apples(&self) -> (r: u32)
        requires
            self@.wf(),
        ensures
            r == count_eq(self@.cells, -1),
    {
        self.count_value(-1)
    }

    /// The number of empty cells.
    pub fn count_free(&self) -> (r: u32)
        requires
            self@.wf(),
        ensures
            r == count_eq(self@.cells, 0),
    {
        self.count_value(0)
    }

    /// Places an apple on the empty cell whose zero-based rank, in row-major order,
    /// is `draw` modulo the number of empty cells. Fails, changing nothing, when no
    /// cell is empty.
    pub fn spawn_apple_with_draw(&mut self, draw: u32) -> (r: bool)
        requires
            old(self)@.wf(),
        ensures
            final(self)@ == old(self)@.with_apple(draw),
            r == (count_eq(old(self)@.cells, 0) > 0),
            final(self)@.wf(),
    {
        let free = self.count_free();
        if free == 0 {
            return false;
        }
        let pos = draw % free;
        let mut count: u32 = 0;
        let n = self.data.len();
        let mut i: usize = 0;
        while i < n
            invariant
                n == self.data@.len(),
                i <= n,
                self@ == old(self)@,
                old(self)@.wf(),
                pos == draw % free,
                pos < free,
                free == count_eq(self.data@, 0),
                count == count_eq(self.data@.take(i as int), 0),
                count <= pos,
            decreases n - i,
        {
            proof {
                lemma_count_eq_take(self.data@, i as int, 0);
            }
            if self.data[i] == 0 {
                if count == pos {
                    proof {
                        assert(is_nth_free(self.data@, i as int, pos as int));
                        lemma_nth_free_is(self.data@, i as int, pos as int);
                    }
                    self.data[i] = -1;
                    proof {
                        assert(self@.cells =~= old(self)@.with_apple(draw).cells);
                        assert(self@ == old(self)@.with_apple(draw));
                        lemma_with_apple_wf(old(self)@, draw);
                    }
                    return true;
                }
                count += 1;
            }
            i += 1;
        }
        proof {
            assert(self.data@.take(n as int) =~= self.data@);
        }
        false
    }

    /// Places an apple on an empty cell chosen at random, each empty cell being
    /// reachable. Fails, changing nothing, when no cell is empty.
    pub fn spawn_apple(&mut self) -> (r: bool)
        requires
            old(self)@.wf(),
        ensures
            exists|draw: u32| final(self)@ == #[trigger] old(self)@.with_apple(draw),
            r == (count_eq(old(self)@.cells, 0) > 0),
            final(self)@.wf(),
    {
        let draw = random_draw();
        self.spawn_apple_with_draw(draw)
    }

    /// Everything of a tick in `direction` but the apple placement: returns whether
    /// the spawn rule asks for one, which is then all that is left of the tick.
    fn advance(&mut self, direction: &Direction) -> (attempt: bool)
        requires
            old(self)@.wf(),
        ensures
            final(self)@.wf(),
            forall|draw: u32|
                #[trigger] old(self)@.step(*direction, draw) == if attempt {
                    final(self)@.with_apple(draw)
                } else {
                    final(self)@
                },
    {
        let ghost m = self@;
        if self.would_move_out_of_bounds(direction) {
            self.dead = true;
            return false;
        }
        proof {
            lemma_target_in_bounds(m, *direction);
        }
        let new_head_pos = self.snake_head_pos.moved_direction(direction);
        let idx = new_head_pos.y * self.width + new_head_pos.x;
        let value_at_new_head_pos = self.data[idx];
        if value_at_new_head_pos > 0 {
            self.dead = true;
            return false;
        }
        proof {
            lemma_moved_wf(m, *direction);
        }
        if value_at_new_head_pos == -1 {
            self.snake_saturation_len = self.snake_saturation_len.saturating_add(self.game_grow_rate);
        }
        if self.snake_len < self.snake_saturation_len && !self.grew_last_tick {
            self.snake_len += 1;
            self.grew_last_tick = true;
        } else {
            self.shorten_snake();
            self.grew_last_tick = false;
        }
        self.data[idx] = self.snake_len as i32;
        self.snake_head_pos = new_head_pos;
        proof {
            assert(self@.cells =~= m.moved(*direction).cells);
            assert(self@ == m.moved(*direction));
        }
        let apples = self.count_apples();
        if apples < self.max_apple_count {
            self.ticks_since_last_apple_spawned = self.ticks_since_last_apple_spawned.saturating_add(1);
            if self.ticks_since_last_apple_spawned > self.ticks_between_apple_spawn
                || apples < self.min_apple_count {
                self.ticks_since_last_apple_spawned = 0;
                return true;
            }
        }
        false
    }

    /// One tick in `direction`, using `draw` if an apple spawn is attempted: the move
    /// kills the snake when it leaves the board or enters the body, and otherwise
    /// eats, grows or shifts the body and runs the spawn rule.
    pub fn tick_with_draw(&mut self, direction: &Direction, draw: u32)
        requires
            old(self)@.wf(),
        ensures
            final(self)@ == old(self)@.step(*direction, draw),
            final(self)@.wf(),
    {
        if self.advance(direction) {
            self.spawn_apple_with_draw(draw);
        }
    }

    /// One tick in `direction`, drawing at random where an apple spawn is attempted.
    pub fn tick(&mut self, direction: &Direction)
        requires
            old(self)@.wf(),
        ensures
            exists|draw: u32| final(self)@ == #[trigger] old(self)@.step(*direction, draw),
            final(self)@.wf(),
    {
        if self.advance(direction) {
            let ghost mid = self@;
            self.spawn_apple();
            proof {
                let draw = choose|draw: u32| self@ == #[trigger] mid.with_apple(draw);
                assert(old(self)@.step(*direction, draw) == mid.with_apple(draw));
            }
        } else {
            proof {
                assert(self@ == old(self)@.step(*direction, 0));
            }
        }
    }

    /// The number of columns.
    pub fn width(&self) -> (r: usize)
        ensures
            r == self@.width,
    {
        self.width
    }

    /// The number of rows.
    pub fn height(&self) -> (r: usize)
        ensures
            r == self@.height,
    {
        self.height
    }

    /// The value of the cell at `pos`: 0 empty, -1 an apple, `k > 0` a body segment.
    pub fn at(&self, pos: &SnakeGameCord) -> (r: i32)
        requires
            self@.wf(),
            self@.in_bounds(*pos),
        ensures
            r == self@.at(*pos),
    {
        proof {
            lemma_index_in_range(self.width as int, self.height as int, pos.x as int, pos.y as int);
        }
        self.data[pos.y * self.width + pos.x]
    }

    /// The position of the head.
    pub fn head(&self) -> (r: SnakeGameCord)
        ensures
            r == self@.head,
    {
        self.snake_head_pos
    }

    /// The current length of the body.
    pub fn snake_len(&self) -> (r: u32)
        ensures
            r == self@.len,
    {
        self.snake_len
    }

    /// The length the body is growing toward.
    pub fn saturation_len(&self) -> (r: u32)
        ensures
            r == self@.saturation,
    {
        self.snake_saturation_len
    }

    /// Whether the last tick grew the body instead of shifting it.
    pub fn grew_last_tick(&self) -> (r: bool)
        ensures
            r == self@.grew_last_tick,
    {
        self.grew_last_tick
    }

    /// Whether the snake has died.
    pub fn is_dead(&self) -> (r: bool)
        ensures
            r == self@.dead,
    {
        self.dead
    }
}

/// An empty board with a fresh snake is well formed.
proof fn lemma_zero_board_wf(m: GameModel)
    requires
        m.width >= 1,
        m.height >= 1,
        m.width * m.height <= i32::MAX,
        m.cells == Seq::new((m.width * m.height) as nat, |j: int| 0i32),
        m.head == (SnakeGameCord { x: m.width / 3, y: m.height / 2 }),
        m.len == 0,
        m.saturation == 3,
    ensures
        m.wf(),
{
    crate::counting::lemma_count_pos_absent(m.cells);
}

} // verus!
