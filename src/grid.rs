//! The grid engine: cell storage, toroidal neighbour counting and the
//! generational update.
use vstd::prelude::*;

verus! {

/// Width of the grid that [`Game::new`] builds.
pub const DEFAULT_WIDTH: usize = 60;

/// Height of the grid that [`Game::new`] builds.
pub const DEFAULT_HEIGHT: usize = 30;

/// A `W x H` grid of cells on a torus.
///
/// The cells live in one row-major buffer: cell `(x, y)` is at index
/// `y * width + x`.
pub struct Game {
    cells: Vec<bool>,
    width: usize,
    height: usize,
}

/// A grid of `w` columns of `h` cells each, every cell dead.
pub open spec fn dead_grid(w: nat, h: nat) -> Seq<Seq<bool>> {
    Seq::new(w, |x: int| Seq::new(h, |y: int| false))
}

/// `g` is a non-empty rectangle of cells, indexed `g[x][y]`.
pub open spec fn is_grid(g: Seq<Seq<bool>>) -> bool {
    &&& g.len() > 0
    &&& g[0].len() > 0
    &&& forall|x: int| 0 <= x < g.len() ==> (#[trigger] g[x]).len() == g[0].len()
}

/// Number of columns of `g`.
pub open spec fn width_of(g: Seq<Seq<bool>>) -> int {
    g.len() as int
}

/// Number of rows of `g`.
pub open spec fn height_of(g: Seq<Seq<bool>>) -> int {
    g[0].len() as int
}

/// `(x, y)` names a cell of `g`.
pub open spec fn in_grid(g: Seq<Seq<bool>>, x: int, y: int) -> bool {
    0 <= x < width_of(g) && 0 <= y < height_of(g)
}

/// Position of cell `(x, y)` in a row-major buffer of width `w`.
pub open spec fn cell_index(w: int, x: int, y: int) -> int {
    y * w + x
}

/// Coordinate `i` taken round a ring of `n` positions; for `i` from `-1`
/// to `n` this is the toroidal neighbour position.
#[verifier::opaque]
pub open spec fn wrap(i: int, n: int) -> int {
    (i + n) % n
}

/// State of the cell at `(x, y)` after wrapping both coordinates.
pub open spec fn alive_at(g: Seq<Seq<bool>>, x: int, y: int) -> bool {
    g[wrap(x, width_of(g))][wrap(y, height_of(g))]
}

/// One for a live cell, zero for a dead one.
pub open spec fn live(b: bool) -> int {
    if b {
        1
    } else {
        0
    }
}

/// Number of live cells among the eight wrapped positions around `(x, y)`.
pub open spec fn neighbour_count(g: Seq<Seq<bool>>, x: int, y: int) -> int {
    live(alive_at(g, x - 1, y - 1)) + live(alive_at(g, x - 1, y)) + live(
        alive_at(g, x - 1, y + 1),
    ) + live(alive_at(g, x, y - 1)) + live(alive_at(g, x, y + 1)) + live(
        alive_at(g, x + 1, y - 1),
    ) + live(alive_at(g, x + 1, y)) + live(alive_at(g, x + 1, y + 1))
}

/// The transition rule: a cell lives on with two or three live neighbours,
/// and a dead cell with exactly three comes alive.
pub open spec fn next_state(alive: bool, neighbours: int) -> bool {
    neighbours == 3 || (neighbours == 2 && alive)
}

/// The generation after `g`, every cell computed from `g` alone.
pub open spec fn next_generation(g: Seq<Seq<bool>>) -> Seq<Seq<bool>> {
    Seq::new(
        g.len(),
        |x: int|
            Seq::new(g[x].len(), |y: int| next_state(g[x][y], neighbour_count(g, x, y))),
    )
}

/// The next state of a cell whose state is `curr_cell` and which has
/// `neighbours` live neighbours.
pub fn check_state(curr_cell: bool, neighbours: u8) -> (r: bool)
    ensures
        r == next_state(curr_cell, neighbours as int),
{
    if neighbours == 2 {
        curr_cell
    } else {
        neighbours == 3
    }
}

/// Cell `a` comes before cell `b` when its column is further left, or when
/// both share a column and `a` is higher.
pub open spec fn comes_before(a: (usize, usize), b: (usize, usize)) -> bool {
    a.0 < b.0 || (a.0 == b.0 && a.1 < b.1)
}

/// `g` with the cell at `(x, y)` set to `alive`.
pub open spec fn set_cell(g: Seq<Seq<bool>>, x: int, y: int, alive: bool) -> Seq<Seq<bool>> {
    g.update(x, g[x].update(y, alive))
}

/// Wrapping a coordinate from `-1` to `n` onto a ring of `n` positions.
proof fn lemma_wrap(i: int, n: int)
    requires
        0 < n,
        -1 <= i <= n,
    ensures
        wrap(i, n) == if i < 0 {
            n - 1
        } else if i == n {
            0
        } else {
            i
        },
{
    reveal(wrap);
    if i < 0 {
        vstd::arithmetic::div_mod::lemma_small_mod((i + n) as nat, n as nat);
    } else if i == n {
        vstd::arithmetic::div_mod::lemma_mod_add_multiples_vanish(n, n);
        vstd::arithmetic::div_mod::lemma_mod_self_0(n);
    } else {
        vstd::arithmetic::div_mod::lemma_mod_add_multiples_vanish(i, n);
        vstd::arithmetic::div_mod::lemma_small_mod(i as nat, n as nat);
    }
}

/// A wrapped position one step outside the grid reads the cell on the
/// opposite edge.
proof fn lemma_alive_at(g: Seq<Seq<bool>>, x: int, y: int)
    requires
        is_grid(g),
        -1 <= x <= width_of(g),
        -1 <= y <= height_of(g),
    ensures
        alive_at(g, x, y) == g[if x < 0 {
            width_of(g) - 1
        } else if x == width_of(g) {
            0
        } else {
            x
        }][if y < 0 {
            height_of(g) - 1
        } else if y == height_of(g) {
            0
        } else {
            y
        }],
{
    lemma_wrap(x, width_of(g));
    lemma_wrap(y, height_of(g));
}

/// Column or row before `i` on a ring of `n`.
pub open spec fn before(i: int, n: int) -> int {
    if i == 0 {
        n - 1
    } else {
        i - 1
    }
}

/// Column or row after `i` on a ring of `n`.
pub open spec fn after(i: int, n: int) -> int {
    if i + 1 == n {
        0
    } else {
        i + 1
    }
}

/// The neighbour count of a cell of the grid, read off the eight cells
/// around it with the edges joined.
pub proof fn lemma_neighbour_count(g: Seq<Seq<bool>>, x: int, y: int)
    requires
        is_grid(g),
        in_grid(g, x, y),
    ensures
        ({
            let (w, h) = (width_of(g), height_of(g));
            let (l, r, u, d) = (before(x, w), after(x, w), before(y, h), after(y, h));
            neighbour_count(g, x, y) == live(g[l][u]) + live(g[l][y]) + live(g[l][d]) + live(
                g[x][u],
            ) + live(g[x][d]) + live(g[r][u]) + live(g[r][y]) + live(g[r][d])
        }),
{
    lemma_alive_at(g, x - 1, y - 1);
    lemma_alive_at(g, x - 1, y);
    lemma_alive_at(g, x - 1, y + 1);
    lemma_alive_at(g, x, y - 1);
    lemma_alive_at(g, x, y + 1);
    lemma_alive_at(g, x + 1, y - 1);
    lemma_alive_at(g, x + 1, y);
    lemma_alive_at(g, x + 1, y + 1);
}

impl View for Game {
    type V = Seq<Seq<bool>>;

    /// The grid as columns: `self@[x][y]` is the state of cell `(x, y)`.
    closed spec fn view(&self) -> Seq<Seq<bool>> {
        Seq::new(
            self.width as nat,
            |x: int|
                Seq::new(
                    self.height as nat,
                    |y: int| self.cells@[cell_index(self.width as int, x, y)],
                ),
        )
    }
}

/// Every cell of a `w x h` grid has its place inside the buffer.
proof fn lemma_index_in_bounds(w: int, h: int, x: int, y: int)
    requires
        0 <= x < w,
        0 <= y < h,
    ensures
        0 <= cell_index(w, x, y) < w * h,
{
    assert(0 <= y * w + x < w * h) by (nonlinear_arith)
        requires
            0 <= x < w,
            0 <= y < h,
    ;
}

/// Distinct cells have distinct places in the buffer.
proof fn lemma_index_injective(w: int, x1: int, y1: int, x2: int, y2: int)
    requires
        0 <= x1 < w,
        0 <= x2 < w,
        0 <= y1,
        0 <= y2,
        cell_index(w, x1, y1) == cell_index(w, x2, y2),
    ensures
        x1 == x2,
        y1 == y2,
{
    assert(y1 == y2) by (nonlinear_arith)
        requires
            0 <= x1 < w,
            0 <= x2 < w,
            0 <= y1,
            0 <= y2,
            y1 * w + x1 == y2 * w + x2,
    ;
}

impl Game {
    /// The buffer holds exactly one cell per position of a non-empty grid.
    pub closed spec fn wf(&self) -> bool {
        &&& self.width > 0
        &&& self.height > 0
        &&& self.width * self.height <= usize::MAX
        &&& self.cells@.len() == self.width * self.height
    }

    proof fn lemma_view_is_grid(&self)
        requires
            self.wf(),
        ensures
            is_grid(self@),
            width_of(self@) == self.width,
            height_of(self@) == self.height,
    {
    }

    /// An all-dead grid of `width x height` cells.
    fn blank(width: usize, height: usize) -> (r: Game)
        requires
            width > 0,
            height > 0,
            width * height <= usize::MAX,
        ensures
            r.wf(),
            r@ == dead_grid(width as nat, height as nat),
    {
        let n: usize = width * height;
        let mut cells: Vec<bool> = Vec::new();
        while cells.len() < n
            invariant
                cells.len() <= n,
                forall|i: int| 0 <= i < cells.len() ==> !(#[trigger] cells@[i]),
            decreases n - cells.len(),
        {
            cells.push(false);
        }
        let r = Game { cells, width, height };
        proof {
            assert forall|x: int, y: int| 0 <= x < width && 0 <= y < height implies !r@[x][y] by {
                lemma_index_in_bounds(width as int, height as int, x, y);
            }
            assert(r@ =~~= dead_grid(width as nat, height as nat));
        }
        r
    }

    /// Number of columns.
    pub fn width(&self) -> (r: usize)
        requires
            self.wf(),
        ensures
            r == width_of(self@),
    {
        self.width
    }

    /// Number of rows.
    pub fn height(&self) -> (r: usize)
        requires
            self.wf(),
        ensures
            r == height_of(self@),
    {
        self.height
    }

    /// Position of cell `(x, y)` in the buffer.
    fn index(&self, x: usize, y: usize) -> (r: usize)
        requires
            self.wf(),
            in_grid(self@, x as int, y as int),
        ensures
            r == cell_index(self.width as int, x as int, y as int),
            r < self.cells@.len(),
    {
        proof {
            self.lemma_view_is_grid();
            lemma_index_in_bounds(self.width as int, self.height as int, x as int, y as int);
            assert(y * self.width <= y * self.width + x);
        }
        y * self.width + x
    }

    /// Whether the cell at `(x, y)` is alive.
    pub fn is_alive(&self, x: usize, y: usize) -> (r: bool)
        requires
            self.wf(),
            in_grid(self@, x as int, y as int),
        ensures
            r == self@[x as int][y as int],
    {
        self.cells[self.index(x, y)]
    }

    /// Sets the cell at `(x, y)` to `alive`, leaving every other cell as it was.
    pub fn set(&mut self, x: usize, y: usize, alive: bool)
        requires
            old(self).wf(),
            in_grid(old(self)@, x as int, y as int),
        ensures
            final(self).wf(),
            final(self)@ == set_cell(old(self)@, x as int, y as int, alive),
    {
        let w = self.width;
        let h = self.height;
        let i = self.index(x, y);
        let ghost before = self@;
        self.cells.set(i, alive);
        proof {
            assert forall|i: int, j: int| 0 <= i < w && 0 <= j < h implies self@[i][j] == set_cell(
                before,
                x as int,
                y as int,
                alive,
            )[i][j] by {
                lemma_index_in_bounds(w as int, h as int, i, j);
                if cell_index(w as int, i, j) == cell_index(w as int, x as int, y as int) {
                    lemma_index_injective(w as int, i, j, x as int, y as int);
                }
            }
            assert(self@ =~~= set_cell(before, x as int, y as int, alive));
        }
    }

    /// Number of live cells among the eight toroidal neighbours of `(x, y)`.
    pub fn count_neighbours(&self, x: usize, y: usize) -> (r: u8)
        requires
            self.wf(),
            in_grid(self@, x as int, y as int),
        ensures
            r as int == neighbour_count(self@, x as int, y as int),
            r <= 8,
    {
        let w = self.width;
        let h = self.height;
        let left = if x == 0 {
            w - 1
        } else {
            x - 1
        };
        let right = if x + 1 == w {
            0
        } else {
            x + 1
        };
        let up = if y == 0 {
            h - 1
        } else {
            y - 1
        };
        let down = if y + 1 == h {
            0
        } else {
            y + 1
        };
        proof {
            self.lemma_view_is_grid();
            lemma_neighbour_count(self@, x as int, y as int);
        }
        let mut n: u8 = 0;
        n = n + self.is_alive(left, up) as u8;
        n = n + self.is_alive(left, y) as u8;
        n = n + self.is_alive(left, down) as u8;
        n = n + self.is_alive(x, up) as u8;
        n = n + self.is_alive(x, down) as u8;
        n = n + self.is_alive(right, up) as u8;
        n = n + self.is_alive(right, y) as u8;
        n = n + self.is_alive(right, down) as u8;
        n
    }

    /// The generation after this one, computed into fresh storage so that
    /// every cell reads only the current generation.
    fn next_game(&self) -> (r: Game)
        requires
            self.wf(),
        ensures
            r.wf(),
            r@ == next_generation(self@),
    {
        let w = self.width;
        let h = self.height;
        let ghost g = self@;
        proof {
            self.lemma_view_is_grid();
        }
        let mut next = Game::blank(w, h);
        let mut x: usize = 0;
        while x < w
            invariant
                self.wf(),
                self@ == g,
                self.width == w,
                self.height == h,
                next.wf(),
                width_of(next@) == w,
                height_of(next@) == h,
                x <= w,
                forall|i: int, j: int|
                    0 <= i < x && 0 <= j < h ==> #[trigger] next@[i][j] == next_generation(g)[i][j],
            decreases w - x,
        {
            let mut y: usize = 0;
            while y < h
                invariant
                    self.wf(),
                    self@ == g,
                    self.width == w,
                    self.height == h,
                    next.wf(),
                    width_of(next@) == w,
                    height_of(next@) == h,
                    x < w,
                    y <= h,
                    forall|i: int, j: int|
                        (0 <= i < x && 0 <= j < h) || (i == x && 0 <= j < y) ==> #[trigger] next@[i][j]
                            == next_generation(g)[i][j],
                decreases h - y,
            {
                proof {
                    self.lemma_view_is_grid();
                    next.lemma_view_is_grid();
                }
                let n = self.count_neighbours(x, y);
                let v = check_state(self.is_alive(x, y), n);
                next.set(x, y, v);
                y = y + 1;
            }
            x = x + 1;
        }
        proof {
            next.lemma_view_is_grid();
            assert(next@ =~~= next_generation(g));
        }
        next
    }

    /// Advances the grid by one generation. The new generation replaces the
    /// old one as a whole: no cell sees an already updated neighbour.
    pub fn update(&mut self)
        requires
            old(self).wf(),
        ensures
            final(self).wf(),
            final(self)@ == next_generation(old(self)@),
    {
        let next = self.next_game();
        *self = next;
    }

    /// Kills every cell; the dimensions stay as they were.
    pub fn clear_grid(&mut self)
        requires
            old(self).wf(),
        ensures
            final(self).wf(),
            final(self)@ == dead_grid(width_of(old(self)@) as nat, height_of(old(self)@) as nat),
            forall|x: int, y: int|
                in_grid(final(self)@, x, y) ==> !#[trigger] final(self)@[x][y],
    {
        proof {
            self.lemma_view_is_grid();
        }
        let cleared = Game::blank(self.width, self.height);
        *self = cleared;
    }

    /// An all-dead grid of the default size, 60 by 30.
    pub fn new() -> (r: Game)
        ensures
            r.wf(),
            r@ == dead_grid(DEFAULT_WIDTH as nat, DEFAULT_HEIGHT as nat),
    {
        Game::blank(DEFAULT_WIDTH, DEFAULT_HEIGHT)
    }

    /// An all-dead grid of `width x height` cells, or `None` when either
    /// dimension is zero or the cells would not fit in memory addresses.
    pub fn with_size(width: usize, height: usize) -> (r: Option<Game>)
        ensures
            r is None <==> (width == 0 || height == 0 || width * height > usize::MAX),
            r matches Some(game) ==> game.wf() && game@ == dead_grid(width as nat, height as nat),
    {
        if width == 0 || height == 0 {
            return None;
        }
        match width.checked_mul(height) {
            None => None,
            Some(_) => Some(Game::blank(width, height)),
        }
    }

    /// The coordinates of every live cell, column by column and from the top
    /// of each column down, each exactly once.
    pub fn live_cells(&self) -> (r: Vec<(usize, usize)>)
        requires
            self.wf(),
        ensures
            forall|k: int|
                0 <= k < r@.len() ==> in_grid(self@, r@[k].0 as int, r@[k].1 as int)
                    && self@[r@[k].0 as int][r@[k].1 as int],
            forall|x: usize, y: usize|
                in_grid(self@, x as int, y as int) && #[trigger] self@[x as int][y as int]
                    ==> r@.contains((x, y)),
            forall|k1: int, k2: int|
                0 <= k1 < k2 < r@.len() ==> comes_before(#[trigger] r@[k1], #[trigger] r@[k2]),
    {
        let w = self.width;
        let h = self.height;
        proof {
            self.lemma_view_is_grid();
        }
        let mut cells: Vec<(usize, usize)> = Vec::new();
        let mut x: usize = 0;
        while x < w
            invariant
                self.wf(),
                self.width == w,
                self.height == h,
                width_of(self@) == w,
                height_of(self@) == h,
                x <= w,
                forall|k: int|
                    0 <= k < cells@.len() ==> in_grid(self@, cells@[k].0 as int, cells@[k].1 as int)
                        && self@[cells@[k].0 as int][cells@[k].1 as int] && cells@[k].0 < x,
                forall|i: usize, j: usize|
                    i < x && j < h && #[trigger] self@[i as int][j as int] ==> cells@.contains((i, j)),
                forall|k1: int, k2: int|
                    0 <= k1 < k2 < cells@.len() ==> comes_before(
                        #[trigger] cells@[k1],
                        #[trigger] cells@[k2],
                    ),
            decreases w - x,
        {
            let mut y: usize = 0;
            while y < h
                invariant
                    self.wf(),
                    self.width == w,
                    self.height == h,
                    width_of(self@) == w,
                    height_of(self@) == h,
                    x < w,
                    y <= h,
                    forall|k: int|
                        0 <= k < cells@.len() ==> in_grid(
                            self@,
                            cells@[k].0 as int,
                            cells@[k].1 as int,
                        ) && self@[cells@[k].0 as int][cells@[k].1 as int] && comes_before(
                            cells@[k],
                            (x, y),
                        ),
                    forall|i: usize, j: usize|
                        ((i < x && j < h) || (i == x && j < y)) && #[trigger] self@[i as int][j as int]
                            ==> cells@.contains((i, j)),
                    forall|k1: int, k2: int|
                        0 <= k1 < k2 < cells@.len() ==> comes_before(
                            #[trigger] cells@[k1],
                            #[trigger] cells@[k2],
                        ),
                decreases h - y,
            {
                if self.is_alive(x, y) {
                    let ghost before = cells@;
                    cells.push((x, y));
                    proof {
                        assert forall|i: usize, j: usize|
                            ((i < x && j < h) || (i == x && j < y + 1)) && #[trigger] self@[i as int][j as int]
                                implies cells@.contains((i, j)) by {
                            if i == x && j == y {
                                assert(cells@[before.len() as int] == (i, j));
                            } else {
                                let k = choose|k: int| 0 <= k < before.len() && before[k] == (i, j);
                                assert(cells@[k] == (i, j));
                            }
                        }
                    }
                }
                y = y + 1;
            }
            x = x + 1;
        }
        cells
    }
}

} // verus!
