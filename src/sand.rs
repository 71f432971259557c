use crate::canvas::{Canvas, Color};
use crate::frame::FrameTick;
use crate::random::RandomSource;
use vstd::arithmetic::div_mod::{
    lemma_fundamental_div_mod, lemma_mod_add_multiples_vanish, lemma_small_mod,
};
use vstd::prelude::*;

verus! {

/// What occupies a cell.
#[derive(Clone, Copy, Debug, PartialEq, Eq, Structural)]
pub enum TileType {
    Empty,
    Sand,
}

/// One cell of the grid. Pressure is in tenths of a unit: an abstract
/// "weight stacked above", used only to push sand sideways.
#[derive(Clone, Copy, Debug, PartialEq, Eq, Structural)]
pub struct Tile {
    pub type_: TileType,
    pub pressure: u64,
}

/// Pressure above which a tile sheds weight, and at which it slides sideways.
pub const PRESSURE_THRESHOLD: u64 = 1;

/// Pressure added to a tile that has sand resting on it.
pub const PRESSURE_BASE: u64 = 1000000;

/// How many grains one spawn drops.
pub const SPAWN_BATCH: usize = 5;

/// Greatest distance of a spawned grain from the centre column.
pub const SPAWN_SPREAD: usize = 80;

/// Microseconds between the first due spawn and the timer's reset.
pub const SPAWN_PERIOD_MICROS: u64 = 1000000;

pub open spec fn is_sand(t: Tile) -> bool {
    t.type_ == TileType::Sand
}

/// The number of sand tiles in `s`.
pub open spec fn sand_count(s: Seq<Tile>) -> nat
    decreases s.len(),
{
    if s.len() == 0 {
        0
    } else {
        sand_count(s.drop_last()) + if is_sand(s.last()) {
            1nat
        } else {
            0nat
        }
    }
}

/// `s` holds exactly one sand tile, at `i`, and it carries no pressure; every
/// other cell is an empty cell without pressure.
pub open spec fn lone_grain_at(s: Seq<Tile>, i: int) -> bool {
    &&& 0 <= i < s.len()
    &&& s[i] == Tile { type_: TileType::Sand, pressure: 0 }
    &&& forall|j: int| 0 <= j < s.len() && j != i ==> #[trigger] s[j] == empty_tile()
}

/// `s` holds exactly one sand tile, at `i`, with any pressure; every other
/// cell is an empty cell without pressure.
pub open spec fn only_grain_at(s: Seq<Tile>, i: int) -> bool {
    &&& 0 <= i < s.len()
    &&& is_sand(s[i])
    &&& forall|j: int| 0 <= j < s.len() && j != i ==> #[trigger] s[j] == empty_tile()
}

/// Where a lone grain at `i` is after one step: a row lower, unless it is
/// already on the floor row.
pub open spec fn fall_target(i: int, w: int, n: int) -> int {
    if i + w < n {
        i + w
    } else {
        i
    }
}

/// Replacing one tile changes the count by what leaves and what arrives.
pub proof fn lemma_count_update(s: Seq<Tile>, i: int, t: Tile)
    requires
        0 <= i < s.len(),
    ensures
        sand_count(s.update(i, t)) == sand_count(s) - (if is_sand(s[i]) {
            1int
        } else {
            0int
        }) + (if is_sand(t) {
            1int
        } else {
            0int
        }),
    decreases s.len(),
{
    if i == s.len() - 1 {
        assert(s.update(i, t).drop_last() =~= s.drop_last());
    } else {
        lemma_count_update(s.drop_last(), i, t);
        assert(s.update(i, t).drop_last() =~= s.drop_last().update(i, t));
    }
}

/// A grid of `n = w * h` cells whose index `i` has a right neighbour also
/// has `i + 1` inside the grid.
proof fn lemma_right_inside(i: int, w: int, h: int)
    requires
        0 <= i < w * h,
        0 < w,
        i % w + 1 < w,
    ensures
        i + 1 < w * h,
{
    lemma_fundamental_div_mod(i, w);
    let q = i / w;
    assert(0 <= q) by {
        vstd::arithmetic::div_mod::lemma_div_pos_is_pos(i, w);
    }
    assert(q < h) by (nonlinear_arith)
        requires
            i == w * q + i % w,
            0 <= i % w,
            i < w * h,
            0 < w,
    ;
    assert(w * q + w <= w * h) by (nonlinear_arith)
        requires
            q < h,
            0 < w,
    ;
}

/// A cell one row lower sits in the same column.
proof fn lemma_same_column(i: int, w: int)
    requires
        0 <= i,
        0 < w,
    ensures
        (i + w) % w == i % w,
{
    lemma_mod_add_multiples_vanish(i, w);
}

/// A grid with at least one cell is at least one row high.
proof fn lemma_row_fits(w: int, h: int)
    requires
        0 <= w,
        0 <= h,
        w * h > 0,
    ensures
        w <= w * h,
        0 < w,
{
    assert(w <= w * h && 0 < w) by (nonlinear_arith)
        requires
            0 <= w,
            0 <= h,
            w * h > 0,
    ;
}

/// A rectangular grid of tiles, row-major: cell `(x, y)` is `y * width + x`.
pub struct Grid {
    pub width: usize,
    pub height: usize,
    pub tiles: Vec<Tile>,
}

impl Grid {
    pub open spec fn wf(&self) -> bool {
        self.tiles@.len() == self.width * self.height
    }

    /// The same dimensions as `other`.
    pub open spec fn same_shape(&self, other: &Grid) -> bool {
        self.width == other.width && self.height == other.height
    }

    /// An empty grid of `width` by `height` cells.
    pub fn new(width: usize, height: usize) -> (g: Grid)
        requires
            width * height <= usize::MAX,
        ensures
            g.wf(),
            g.width == width,
            g.height == height,
            forall|i: int| 0 <= i < g.tiles@.len() ==> #[trigger] g.tiles@[i] == empty_tile(),
            sand_count(g.tiles@) == 0,
    {
        let n = width * height;
        let mut tiles: Vec<Tile> = Vec::new();
        for k in 0..n
            invariant
                tiles@.len() == k,
                forall|i: int| 0 <= i < k ==> #[trigger] tiles@[i] == empty_tile(),
                sand_count(tiles@) == 0,
        {
            proof {
                assert(tiles@.push(Tile { type_: TileType::Empty, pressure: 0 }).drop_last()
                    =~= tiles@);
            }
            tiles.push(Tile { type_: TileType::Empty, pressure: 0 });
        }
        Grid { width, height, tiles }
    }

    /// Moves the sand tile at `from` into the empty cell `to`, with `pressure`.
    fn move_tile(&mut self, from: usize, to: usize, pressure: u64)
        requires
            old(self).wf(),
            from < old(self).tiles@.len(),
            to < old(self).tiles@.len(),
            from != to,
            is_sand(old(self).tiles@[from as int]),
            !is_sand(old(self).tiles@[to as int]),
        ensures
            final(self).wf(),
            final(self).same_shape(old(self)),
            final(self).tiles@ == old(self).tiles@.update(
                from as int,
                Tile { type_: TileType::Empty, pressure: 0 },
            ).update(to as int, Tile { type_: TileType::Sand, pressure }),
            sand_count(final(self).tiles@) == sand_count(old(self).tiles@),
    {
        let ghost s0 = self.tiles@;
        self.tiles.set(from, Tile { type_: TileType::Empty, pressure: 0 });
        let ghost s1 = self.tiles@;
        self.tiles.set(to, Tile { type_: TileType::Sand, pressure });
        proof {
            lemma_count_update(s0, from as int, Tile { type_: TileType::Empty, pressure: 0 });
            lemma_count_update(s1, to as int, Tile { type_: TileType::Sand, pressure });
        }
    }

    /// Gives the tile at `i` a new pressure; its type stays.
    fn set_pressure(&mut self, i: usize, pressure: u64)
        requires
            old(self).wf(),
            i < old(self).tiles@.len(),
        ensures
            final(self).wf(),
            final(self).same_shape(old(self)),
            final(self).tiles@ == old(self).tiles@.update(
                i as int,
                Tile { type_: old(self).tiles@[i as int].type_, pressure },
            ),
            sand_count(final(self).tiles@) == sand_count(old(self).tiles@),
    {
        let ghost s0 = self.tiles@;
        let t = Tile { type_: self.tiles[i].type_, pressure };
        self.tiles.set(i, t);
        proof {
            lemma_count_update(s0, i as int, t);
        }
    }
}

/// `order` visits cell `g` at some position.
pub open spec fn visits(order: Seq<usize>, g: int) -> bool {
    exists|t: int| 0 <= t < order.len() && order[t] as int == g
}

/// No sand tile rests directly on another.
pub open spec fn no_stacks(s: Seq<Tile>, w: int) -> bool {
    forall|j: int| w <= j < s.len() && is_sand(#[trigger] s[j]) ==> !is_sand(s[j - w])
}

/// Every sand tile's pressure is at most `limit`.
pub open spec fn pressure_at_most(s: Seq<Tile>, limit: int) -> bool {
    forall|j: int| 0 <= j < s.len() && is_sand(#[trigger] s[j]) ==> s[j].pressure <= limit
}


/// An empty cell.
pub open spec fn empty_tile() -> Tile {
    Tile { type_: TileType::Empty, pressure: 0 }
}

/// Where the grain at `i` of a grid `w` cells wide drops to: straight down
/// when that cell is empty, else down-left, else down-right; `None` on the
/// floor row or when all three are taken.
pub open spec fn drop_target(s: Seq<Tile>, w: int, i: int) -> Option<int> {
    if i + w >= s.len() {
        None
    } else if !is_sand(s[i + w]) {
        Some(i + w)
    } else if i % w > 0 && !is_sand(s[i + w - 1]) {
        Some(i + w - 1)
    } else if i % w + 1 < w && !is_sand(s[i + w + 1]) {
        Some(i + w + 1)
    } else {
        None
    }
}

/// One visit of the gravity pass to cell `i`: a grain there that has not
/// moved yet this pass drops to its target, arriving without pressure, and
/// the target is marked as moved.
pub open spec fn gravity_visit_spec(s: Seq<Tile>, moved: Seq<bool>, w: int, i: int) -> (
    Seq<Tile>,
    Seq<bool>,
) {
    if 0 <= i < s.len() && !moved[i] && is_sand(s[i]) {
        match drop_target(s, w, i) {
            Some(j) => (
                s.update(i, empty_tile()).update(j, Tile { type_: TileType::Sand, pressure: 0 }),
                moved.update(j, true),
            ),
            None => (s, moved),
        }
    } else {
        (s, moved)
    }
}

/// The grid and the moved marks after the gravity pass's first `k` visits.
pub open spec fn gravity_after(s: Seq<Tile>, moved: Seq<bool>, w: int, order: Seq<usize>, k: nat) -> (
    Seq<Tile>,
    Seq<bool>,
)
    decreases k,
{
    if k == 0 {
        (s, moved)
    } else {
        let prev = gravity_after(s, moved, w, order, (k - 1) as nat);
        gravity_visit_spec(prev.0, prev.1, w, order[k - 1] as int)
    }
}

/// The whole gravity pass over `order`, starting with nothing moved.
pub open spec fn gravity_spec(s: Seq<Tile>, w: int, order: Seq<usize>) -> Seq<Tile> {
    gravity_after(s, Seq::new(s.len(), |j: int| false), w, order, order.len()).0
}

impl Grid {
    /// Drops the grain at `i`, if it has not moved yet this pass: straight
    /// down when that cell is empty, else down-left, else down-right.
    fn gravity_visit(&mut self, moved: &mut Vec<bool>, i: usize)
        requires
            old(self).wf(),
            old(moved)@.len() == old(self).tiles@.len(),
        ensures
            final(self).wf(),
            final(self).same_shape(old(self)),
            final(moved)@.len() == old(moved)@.len(),
            sand_count(final(self).tiles@) == sand_count(old(self).tiles@),
            (final(self).tiles@, final(moved)@) == gravity_visit_spec(
                old(self).tiles@,
                old(moved)@,
                old(self).width as int,
                i as int,
            ),
    {
        let n = self.tiles.len();
        let w = self.width;
        if i >= n || moved[i] || self.tiles[i].type_ != TileType::Sand {
            return;
        }
        proof {
            lemma_row_fits(self.width as int, self.height as int);
        }
        if i >= n - w {
            return;
        }
        let below = i + w;
        let col = i % w;
        proof {
            lemma_same_column(i as int, w as int);
        }
        if self.tiles[below].type_ == TileType::Empty {
            self.move_tile(i, below, 0);
            moved.set(below, true);
        } else if col > 0 && self.tiles[below - 1].type_ == TileType::Empty {
            self.move_tile(i, below - 1, 0);
            moved.set(below - 1, true);
        } else if col + 1 < w {
            proof {
                lemma_right_inside(below as int, w as int, self.height as int);
            }
            if self.tiles[below + 1].type_ == TileType::Empty {
                self.move_tile(i, below + 1, 0);
                moved.set(below + 1, true);
            }
        }
    }

    /// The gravity pass: visits the cells in `order` (indices outside the
    /// grid are passed over) and drops each grain at most once.
    pub fn gravity_pass(&mut self, order: &Vec<usize>)
        requires
            old(self).wf(),
        ensures
            final(self).wf(),
            final(self).same_shape(old(self)),
            sand_count(final(self).tiles@) == sand_count(old(self).tiles@),
            final(self).tiles@ == gravity_spec(old(self).tiles@, old(self).width as int, order@),
            forall|g: int|
                only_grain_at(old(self).tiles@, g) && visits(order@, g) ==> if g + old(
                    self,
                ).width < old(self).tiles@.len() {
                    lone_grain_at(final(self).tiles@, g + old(self).width)
                } else {
                    final(self).tiles@ == old(self).tiles@
                },
    {
        let ghost s0 = self.tiles@;
        let ghost w = self.width as int;
        let ghost n = s0.len() as int;
        let mut moved: Vec<bool> = vec![false; self.tiles.len()];
        let ghost m0 = moved@;
        proof {
            assert(m0 =~= Seq::new(s0.len(), |j: int| false));
        }
        proof {
            if n > 0 {
                lemma_row_fits(self.width as int, self.height as int);
            }
        }
        for k in 0..order.len()
            invariant
                self.wf(),
                self.tiles@.len() == n,
                n > 0 ==> w > 0,
                self.same_shape(old(self)),
                s0 == old(self).tiles@,
                w == self.width,
                n == s0.len(),
                moved@.len() == n,
                m0 == Seq::new(s0.len(), |j: int| false),
                (self.tiles@, moved@) == gravity_after(s0, m0, w, order@, k as nat),
                sand_count(self.tiles@) == sand_count(s0),
                forall|g: int|
                    only_grain_at(s0, g) ==> {
                        ||| {
                            &&& self.tiles@ == s0
                            &&& forall|m: int| 0 <= m < n ==> !(#[trigger] moved@[m])
                            &&& g + w < n ==> forall|t: int|
                                0 <= t < k ==> order@[t] as int != g
                        }
                        ||| {
                            &&& g + w < n
                            &&& lone_grain_at(self.tiles@, g + w)
                            &&& moved@[g + w]
                        }
                    },
        {
            let ghost s1 = self.tiles@;
            let ghost m1 = moved@;
            let i = order[k];
            self.gravity_visit(&mut moved, i);
            proof {
                assert forall|g: int| only_grain_at(s0, g) implies {
                    ||| {
                        &&& self.tiles@ == s0
                        &&& forall|m: int| 0 <= m < n ==> !(#[trigger] moved@[m])
                        &&& g + w < n ==> forall|t: int| 0 <= t < k + 1 ==> order@[t] as int != g
                    }
                    ||| {
                        &&& g + w < n
                        &&& lone_grain_at(self.tiles@, g + w)
                        &&& moved@[g + w]
                    }
                } by {
                    if s1 == s0 && forall|m: int| 0 <= m < n ==> !(#[trigger] m1[m]) {
                        if i as int != g {
                            if (i as int) < n {
                                assert(!is_sand(s1[i as int]));
                            }
                        } else if g + w < n {
                            let s2 = s1.update(g, Tile { type_: TileType::Empty, pressure: 0 }).update(
                                g + w,
                                Tile { type_: TileType::Sand, pressure: 0 },
                            );
                            assert(!is_sand(s1[g + w]));
                            assert(self.tiles@ == s2);
                            assert forall|j: int| 0 <= j < s2.len() && j != g + w implies #[trigger] s2[j]
                                == empty_tile() by {
                                if j != g {
                                    assert(s2[j] == s1[j]);
                                }
                            }
                        }
                    } else {
                        assert(g + w < n && lone_grain_at(s1, g + w) && m1[g + w]);
                        if (i as int) < n && i as int != g + w {
                            assert(!is_sand(s1[i as int]));
                        }
                    }
                }
            }
        }
        proof {
            assert forall|g: int| only_grain_at(s0, g) && visits(order@, g) implies if g + w < n {
                lone_grain_at(self.tiles@, g + w)
            } else {
                self.tiles@ == s0
            } by {
                let t = choose|t: int| 0 <= t < order@.len() && order@[t] as int == g;
                if g + w < n {
                    assert(order@[t] as int == g);
                }
            }
        }
    }
}


/// One visit of the pressure pass to cell `i`: a grain with a grain directly
/// above it takes the base pressure plus that grain's pressure (saturating).
pub open spec fn pressure_visit_spec(s: Seq<Tile>, w: int, i: int) -> Seq<Tile> {
    if 0 <= i < s.len() && i >= w && is_sand(s[i]) && is_sand(s[i - w]) {
        s.update(
            i,
            Tile { type_: TileType::Sand, pressure: PRESSURE_BASE.saturating_add(s[i - w].pressure) },
        )
    } else {
        s
    }
}

/// The grid after the pressure pass's first `k` visits.
pub open spec fn pressure_after(s: Seq<Tile>, w: int, order: Seq<usize>, k: nat) -> Seq<Tile>
    decreases k,
{
    if k == 0 {
        s
    } else {
        pressure_visit_spec(pressure_after(s, w, order, (k - 1) as nat), w, order[k - 1] as int)
    }
}

/// `t` with `extra` more pressure (saturating).
pub open spec fn with_more_pressure(t: Tile, extra: u64) -> Tile {
    Tile { type_: t.type_, pressure: t.pressure.saturating_add(extra) }
}

/// One visit of the relief pass to cell `i`: a grain above the threshold
/// hands its excess to its sand neighbours in the row (half each, the odd
/// unit to the right, when both are sand) and drops to the threshold; with
/// no sand beside it, it keeps its pressure.
pub open spec fn relief_visit_spec(s: Seq<Tile>, w: int, i: int) -> Seq<Tile> {
    if 0 <= i < s.len() && is_sand(s[i]) && s[i].pressure > PRESSURE_THRESHOLD {
        let over = (s[i].pressure - PRESSURE_THRESHOLD) as u64;
        let left = i % w > 0 && is_sand(s[i - 1]);
        let right = i % w + 1 < w && is_sand(s[i + 1]);
        let rest = Tile { type_: TileType::Sand, pressure: PRESSURE_THRESHOLD };
        if left && right {
            let half = over / 2;
            s.update(i - 1, with_more_pressure(s[i - 1], half)).update(
                i + 1,
                with_more_pressure(s[i + 1], (over - half) as u64),
            ).update(i, rest)
        } else if left {
            s.update(i - 1, with_more_pressure(s[i - 1], over)).update(i, rest)
        } else if right {
            s.update(i + 1, with_more_pressure(s[i + 1], over)).update(i, rest)
        } else {
            s
        }
    } else {
        s
    }
}

/// The grid after the relief pass's first `k` visits.
pub open spec fn relief_after(s: Seq<Tile>, w: int, order: Seq<usize>, k: nat) -> Seq<Tile>
    decreases k,
{
    if k == 0 {
        s
    } else {
        relief_visit_spec(relief_after(s, w, order, (k - 1) as nat), w, order[k - 1] as int)
    }
}

/// The coin of the `k`-th visit: `coins[k]`, or false past its end.
pub open spec fn coin_at(coins: Seq<bool>, k: int) -> bool {
    0 <= k < coins.len() && coins[k]
}

/// One visit of the settling pass to cell `i` with coin `coin`: a grain at
/// or above the threshold that has not moved yet slides into an empty
/// neighbour in its row, the coin choosing the left one when both are
/// empty, and carries its pressure less the threshold.
pub open spec fn settle_visit_spec(s: Seq<Tile>, moved: Seq<bool>, w: int, i: int, coin: bool) -> (
    Seq<Tile>,
    Seq<bool>,
) {
    if 0 <= i < s.len() && !moved[i] && is_sand(s[i]) && s[i].pressure >= PRESSURE_THRESHOLD {
        let carried = Tile {
            type_: TileType::Sand,
            pressure: (s[i].pressure - PRESSURE_THRESHOLD) as u64,
        };
        let left = i % w > 0 && !is_sand(s[i - 1]);
        let right = i % w + 1 < w && !is_sand(s[i + 1]);
        let go_left = if left && right {
            coin
        } else {
            left
        };
        if go_left {
            (s.update(i, empty_tile()).update(i - 1, carried), moved.update(i - 1, true))
        } else if right {
            (s.update(i, empty_tile()).update(i + 1, carried), moved.update(i + 1, true))
        } else {
            (s, moved)
        }
    } else {
        (s, moved)
    }
}

/// The grid and the moved marks after the settling pass's first `k` visits.
pub open spec fn settle_after(
    s: Seq<Tile>,
    moved: Seq<bool>,
    w: int,
    order: Seq<usize>,
    coins: Seq<bool>,
    k: nat,
) -> (Seq<Tile>, Seq<bool>)
    decreases k,
{
    if k == 0 {
        (s, moved)
    } else {
        let prev = settle_after(s, moved, w, order, coins, (k - 1) as nat);
        settle_visit_spec(prev.0, prev.1, w, order[k - 1] as int, coin_at(coins, k - 1))
    }
}

/// The whole settling pass over `order`, starting with nothing moved.
pub open spec fn settle_spec(s: Seq<Tile>, w: int, order: Seq<usize>, coins: Seq<bool>) -> Seq<Tile> {
    settle_after(s, Seq::new(s.len(), |j: int| false), w, order, coins, order.len()).0
}

/// One step of the automaton: the four passes in order, each over `order`.
pub open spec fn step_spec(s: Seq<Tile>, w: int, order: Seq<usize>, coins: Seq<bool>) -> Seq<Tile> {
    let g = gravity_spec(s, w, order);
    let p = pressure_after(g, w, order, order.len());
    let r = relief_after(p, w, order, order.len());
    settle_spec(r, w, order, coins)
}

impl Grid {
    /// The pressure pass: a sand tile with sand directly above it takes the
    /// base pressure plus the pressure of the tile above (saturating).
    pub fn pressure_pass(&mut self, order: &Vec<usize>)
        requires
            old(self).wf(),
        ensures
            final(self).wf(),
            final(self).same_shape(old(self)),
            sand_count(final(self).tiles@) == sand_count(old(self).tiles@),
            final(self).tiles@ == pressure_after(
                old(self).tiles@,
                old(self).width as int,
                order@,
                order@.len(),
            ),
            no_stacks(old(self).tiles@, old(self).width as int) ==> final(self).tiles@ == old(
                self,
            ).tiles@,
    {
        let ghost s0 = self.tiles@;
        let n = self.tiles.len();
        let w = self.width;
        for k in 0..order.len()
            invariant
                self.wf(),
                self.same_shape(old(self)),
                s0 == old(self).tiles@,
                w == self.width,
                n == self.tiles@.len(),
                sand_count(self.tiles@) == sand_count(s0),
                no_stacks(s0, w as int) ==> self.tiles@ == s0,
                self.tiles@ == pressure_after(s0, w as int, order@, k as nat),
        {
            let i = order[k];
            if i < n && i >= w && self.tiles[i].type_ == TileType::Sand && self.tiles[i
                - w].type_ == TileType::Sand {
                let p = PRESSURE_BASE.saturating_add(self.tiles[i - w].pressure);
                self.set_pressure(i, p);
            }
        }
    }

    /// Adds `extra` to the pressure of the tile at `i` (saturating).
    fn add_pressure(&mut self, i: usize, extra: u64)
        requires
            old(self).wf(),
            i < old(self).tiles@.len(),
        ensures
            final(self).wf(),
            final(self).same_shape(old(self)),
            sand_count(final(self).tiles@) == sand_count(old(self).tiles@),
            final(self).tiles@ == old(self).tiles@.update(
                i as int,
                with_more_pressure(old(self).tiles@[i as int], extra),
            ),
    {
        let p = self.tiles[i].pressure.saturating_add(extra);
        self.set_pressure(i, p);
    }

    /// The relief pass: a sand tile whose pressure exceeds the threshold
    /// hands the excess to its sand neighbours in the same row, half to each
    /// when both sides are sand, and keeps what it could not hand on.
    pub fn relief_pass(&mut self, order: &Vec<usize>)
        requires
            old(self).wf(),
        ensures
            final(self).wf(),
            final(self).same_shape(old(self)),
            sand_count(final(self).tiles@) == sand_count(old(self).tiles@),
            final(self).tiles@ == relief_after(
                old(self).tiles@,
                old(self).width as int,
                order@,
                order@.len(),
            ),
            pressure_at_most(old(self).tiles@, PRESSURE_THRESHOLD as int) ==> final(self).tiles@
                == old(self).tiles@,
    {
        let ghost s0 = self.tiles@;
        let n = self.tiles.len();
        let w = self.width;
        proof {
            if n > 0 {
                lemma_row_fits(self.width as int, self.height as int);
            }
        }
        for k in 0..order.len()
            invariant
                self.wf(),
                self.same_shape(old(self)),
                s0 == old(self).tiles@,
                w == self.width,
                n == self.tiles@.len(),
                n > 0 ==> w > 0,
                sand_count(self.tiles@) == sand_count(s0),
                pressure_at_most(s0, PRESSURE_THRESHOLD as int) ==> self.tiles@ == s0,
                self.tiles@ == relief_after(s0, w as int, order@, k as nat),
        {
            let i = order[k];
            if i < n && self.tiles[i].type_ == TileType::Sand && self.tiles[i].pressure
                > PRESSURE_THRESHOLD {
                let over = self.tiles[i].pressure - PRESSURE_THRESHOLD;
                let col = i % w;
                proof {
                    if i == 0 {
                        lemma_small_mod(0, w as nat);
                    }
                }
                let left = col > 0 && self.tiles[i - 1].type_ == TileType::Sand;
                let has_right = col + 1 < w;
                proof {
                    if has_right {
                        lemma_right_inside(i as int, w as int, self.height as int);
                    }
                }
                let right = has_right && self.tiles[i + 1].type_ == TileType::Sand;
                if left && right {
                    let half = over / 2;
                    self.add_pressure(i - 1, half);
                    self.add_pressure(i + 1, over - half);
                    self.set_pressure(i, PRESSURE_THRESHOLD);
                } else if left {
                    self.add_pressure(i - 1, over);
                    self.set_pressure(i, PRESSURE_THRESHOLD);
                } else if right {
                    self.add_pressure(i + 1, over);
                    self.set_pressure(i, PRESSURE_THRESHOLD);
                }
            }
        }
    }

    /// The settling pass: a sand tile at or above the threshold pressure that
    /// has an empty neighbour in its row slides into it, carrying its
    /// pressure less the threshold. With both sides empty, `coins[k]` (for
    /// the `k`-th visit; false when missing) picks the left side. Each grain
    /// slides at most once.
    pub fn settle_pass(&mut self, order: &Vec<usize>, coins: &Vec<bool>)
        requires
            old(self).wf(),
        ensures
            final(self).wf(),
            final(self).same_shape(old(self)),
            sand_count(final(self).tiles@) == sand_count(old(self).tiles@),
            final(self).tiles@ == settle_spec(
                old(self).tiles@,
                old(self).width as int,
                order@,
                coins@,
            ),
            pressure_at_most(old(self).tiles@, PRESSURE_THRESHOLD - 1) ==> final(self).tiles@
                == old(self).tiles@,
    {
        let ghost s0 = self.tiles@;
        let n = self.tiles.len();
        let w = self.width;
        proof {
            if n > 0 {
                lemma_row_fits(self.width as int, self.height as int);
            }
        }
        let mut moved: Vec<bool> = vec![false; n];
        let ghost m0 = moved@;
        proof {
            assert(m0 =~= Seq::new(s0.len(), |j: int| false));
        }
        for k in 0..order.len()
            invariant
                self.wf(),
                self.same_shape(old(self)),
                s0 == old(self).tiles@,
                w == self.width,
                n == self.tiles@.len(),
                n > 0 ==> w > 0,
                moved@.len() == n,
                sand_count(self.tiles@) == sand_count(s0),
                pressure_at_most(s0, PRESSURE_THRESHOLD - 1) ==> self.tiles@ == s0,
                m0 == Seq::new(s0.len(), |j: int| false),
                (self.tiles@, moved@) == settle_after(s0, m0, w as int, order@, coins@, k as nat),
        {
            let i = order[k];
            if i < n && !moved[i] && self.tiles[i].type_ == TileType::Sand
                && self.tiles[i].pressure >= PRESSURE_THRESHOLD {
                let carried = self.tiles[i].pressure - PRESSURE_THRESHOLD;
                let col = i % w;
                proof {
                    if i == 0 {
                        lemma_small_mod(0, w as nat);
                    }
                }
                let left = col > 0 && self.tiles[i - 1].type_ == TileType::Empty;
                let has_right = col + 1 < w;
                proof {
                    if has_right {
                        lemma_right_inside(i as int, w as int, self.height as int);
                    }
                }
                let right = has_right && self.tiles[i + 1].type_ == TileType::Empty;
                let go_left = if left && right {
                    k < coins.len() && coins[k]
                } else {
                    left
                };
                if go_left {
                    self.move_tile(i, i - 1, carried);
                    moved.set(i - 1, true);
                } else if right {
                    self.move_tile(i, i + 1, carried);
                    moved.set(i + 1, true);
                }
            }
        }
    }

    /// One step of the automaton: the gravity, pressure, relief and settling
    /// passes, in that order, each over the cells in `order`.
    /// The number of sand tiles never changes. A grain alone in an otherwise
    /// empty grid that `order` visits falls one row, arriving without
    /// pressure; on the floor row a grain without pressure stays.
    pub fn step(&mut self, order: &Vec<usize>, coins: &Vec<bool>)
        requires
            old(self).wf(),
        ensures
            final(self).wf(),
            final(self).same_shape(old(self)),
            sand_count(final(self).tiles@) == sand_count(old(self).tiles@),
            final(self).tiles@ == step_spec(old(self).tiles@, old(self).width as int, order@, coins@),
            forall|g: int|
                only_grain_at(old(self).tiles@, g) && visits(order@, g) && (g + old(self).width
                    < old(self).tiles@.len() || old(self).tiles@[g].pressure == 0) ==> lone_grain_at(
                    final(self).tiles@,
                    fall_target(g, old(self).width as int, old(self).tiles@.len() as int),
                ),
    {
        let ghost s0 = self.tiles@;
        let ghost w = self.width as int;
        let ghost n = s0.len() as int;
        self.gravity_pass(order);
        let ghost s1 = self.tiles@;
        self.pressure_pass(order);
        let ghost s2 = self.tiles@;
        self.relief_pass(order);
        let ghost s3 = self.tiles@;
        self.settle_pass(order, coins);
        proof {
            assert forall|g: int|
                only_grain_at(s0, g) && visits(order@, g) && (g + w < n || s0[g].pressure == 0)
                    implies lone_grain_at(self.tiles@, fall_target(g, w, n)) by {
                let d = fall_target(g, w, n);
                lemma_row_fits(self.width as int, self.height as int);
                assert(lone_grain_at(s1, d));
                assert forall|j: int| w <= j < s1.len() && is_sand(#[trigger] s1[j]) implies !is_sand(
                    s1[j - w],
                ) by {
                    assert(j == d);
                }
                assert(s2 == s1);
                assert(pressure_at_most(s2, PRESSURE_THRESHOLD as int));
                assert(s3 == s2);
                assert(pressure_at_most(s3, PRESSURE_THRESHOLD - 1));
            }
        }
    }
}

/// The color a sand tile is drawn in.
pub open spec fn sand_color() -> Color {
    Color { r: 0, g: 229, b: 178 }
}

/// How a tile is drawn: sand in its color, an empty cell black.
pub open spec fn tile_color(t: Tile) -> Color {
    if is_sand(t) {
        sand_color()
    } else {
        Color { r: 0, g: 0, b: 0 }
    }
}

impl Grid {
    /// `(x, y)` is a cell of the grid.
    pub open spec fn in_bounds_spec(&self, x: int, y: int) -> bool {
        0 <= x < self.width && 0 <= y < self.height
    }

    /// Whether `(x, y)` is a cell of the grid.
    pub fn in_bounds(&self, x: i32, y: i32) -> (r: bool)
        ensures
            r == self.in_bounds_spec(x as int, y as int),
    {
        x >= 0 && y >= 0 && (x as usize) < self.width && (y as usize) < self.height
    }

    /// The tile at `(x, y)`, or `None` outside the grid.
    pub fn get_tile(&self, x: i32, y: i32) -> (r: Option<Tile>)
        requires
            self.wf(),
        ensures
            r == if self.in_bounds_spec(x as int, y as int) {
                Some(self.tiles@[y * self.width + x])
            } else {
                None::<Tile>
            },
    {
        let n = self.tiles.len();
        if self.in_bounds(x, y) {
            proof {
                crate::canvas::lemma_pixel_index(
                    self.width as int,
                    self.height as int,
                    x as int,
                    y as int,
                );
            }
            Some(self.tiles[y as usize * self.width + x as usize])
        } else {
            None
        }
    }

    /// Puts `tile` at `(x, y)`; every other cell stays.
    pub fn set_tile(&mut self, x: i32, y: i32, tile: Tile)
        requires
            old(self).wf(),
            old(self).in_bounds_spec(x as int, y as int),
        ensures
            final(self).wf(),
            final(self).same_shape(old(self)),
            final(self).tiles@ == old(self).tiles@.update(y * old(self).width + x, tile),
    {
        let n = self.tiles.len();
        proof {
            crate::canvas::lemma_pixel_index(
                self.width as int,
                self.height as int,
                x as int,
                y as int,
            );
        }
        self.tiles.set(y as usize * self.width + x as usize, tile);
    }

    /// The number of sand tiles.
    pub fn sand_total(&self) -> (r: usize)
        ensures
            r == sand_count(self.tiles@),
    {
        let mut r: usize = 0;
        for k in 0..self.tiles.len()
            invariant
                r == sand_count(self.tiles@.subrange(0, k as int)),
                r <= k,
        {
            proof {
                assert(self.tiles@.subrange(0, k + 1).drop_last() =~= self.tiles@.subrange(
                    0,
                    k as int,
                ));
            }
            if self.tiles[k].type_ == TileType::Sand {
                r = r + 1;
            }
        }
        proof {
            assert(self.tiles@.subrange(0, self.tiles@.len() as int) =~= self.tiles@);
        }
        r
    }

    /// Drops a pressure-free grain into each of `columns` on the top row;
    /// columns outside the grid are passed over.
    pub fn spawn(&mut self, columns: &Vec<usize>)
        requires
            old(self).wf(),
        ensures
            final(self).wf(),
            final(self).same_shape(old(self)),
            forall|j: int|
                0 <= j < old(self).tiles@.len() ==> #[trigger] final(self).tiles@[j] == if j
                    < old(self).width && columns@.contains(j as usize) {
                    Tile { type_: TileType::Sand, pressure: 0 }
                } else {
                    old(self).tiles@[j]
                },
            final(self).tiles@ == spawn_spec(old(self).tiles@, old(self).width as int, columns@),
            sand_count(old(self).tiles@) <= sand_count(final(self).tiles@) <= sand_count(
                old(self).tiles@,
            ) + columns@.len(),
    {
        let ghost s0 = self.tiles@;
        let n = self.tiles.len();
        for k in 0..columns.len()
            invariant
                self.wf(),
                self.same_shape(old(self)),
                s0 == old(self).tiles@,
                n == self.tiles@.len(),
                forall|j: int|
                    0 <= j < n ==> #[trigger] self.tiles@[j] == if j < self.width
                        && columns@.subrange(0, k as int).contains(j as usize) {
                        Tile { type_: TileType::Sand, pressure: 0 }
                    } else {
                        s0[j]
                    },
                sand_count(s0) <= sand_count(self.tiles@) <= sand_count(s0) + k,
        {
            let c = columns[k];
            let ghost s1 = self.tiles@;
            if c < self.width && c < n {
                self.tiles.set(c, Tile { type_: TileType::Sand, pressure: 0 });
                proof {
                    lemma_count_update(s1, c as int, Tile { type_: TileType::Sand, pressure: 0 });
                }
            }
            proof {
                let sub = columns@.subrange(0, k + 1);
                assert(sub =~= columns@.subrange(0, k as int).push(c));
                assert forall|j: int| 0 <= j < n implies #[trigger] self.tiles@[j] == if j
                    < self.width && sub.contains(j as usize) {
                    Tile { type_: TileType::Sand, pressure: 0 }
                } else {
                    s0[j]
                } by {
                    if j < self.width && j as usize == c {
                        assert(sub[k as int] == c);
                    }
                    if j < self.width && sub.contains(j as usize) && j as usize != c {
                        let t = choose|t: int| 0 <= t < sub.len() && sub[t] == j as usize;
                        assert(columns@.subrange(0, k as int)[t] == j as usize);
                    }
                }
            }
        }
        proof {
            assert(columns@.subrange(0, columns@.len() as int) =~= columns@);
            assert(self.tiles@ =~= spawn_spec(s0, self.width as int, columns@));
        }
    }

    /// Paints every cell at its own column and row of `canvas`, which may be
    /// larger than the grid: sand in the sand color, empty cells black.
    /// Pixels outside the grid keep their color.
    pub fn draw(&self, canvas: &mut Canvas)
        requires
            self.wf(),
            old(canvas).wf(),
            self.width <= old(canvas).width,
            self.height <= old(canvas).height,
        ensures
            final(canvas).wf(),
            final(canvas).same_shape(old(canvas)),
            shows_grid(final(canvas), old(canvas), self),
    {
        let w = self.width;
        let h = self.height;
        for y in 0..h
            invariant
                self.wf(),
                w == self.width,
                h == self.height,
                w <= canvas.width,
                h <= canvas.height,
                canvas.wf(),
                canvas.same_shape(old(canvas)),
                forall|xx: int, yy: int|
                    0 <= xx < canvas.width && 0 <= yy < canvas.height ==> #[trigger] canvas.color(
                        canvas.index(xx, yy),
                    ) == if xx < w && yy < y {
                        tile_color(self.tiles@[yy * w + xx])
                    } else {
                        old(canvas).color(old(canvas).index(xx, yy))
                    },
        {
            for x in 0..w
                invariant
                    self.wf(),
                    w == self.width,
                    h == self.height,
                    y < h,
                    w <= canvas.width,
                    h <= canvas.height,
                    canvas.wf(),
                    canvas.same_shape(old(canvas)),
                    forall|xx: int, yy: int|
                        0 <= xx < canvas.width && 0 <= yy < canvas.height ==> #[trigger] canvas.color(
                            canvas.index(xx, yy),
                        ) == if xx < w && (yy < y || (yy == y && xx < x)) {
                            tile_color(self.tiles@[yy * w + xx])
                        } else {
                            old(canvas).color(old(canvas).index(xx, yy))
                        },
            {
                let n = self.tiles.len();
                proof {
                    crate::canvas::lemma_pixel_index(w as int, h as int, x as int, y as int);
                }
                let t = self.tiles[y * w + x];
                let c = if t.type_ == TileType::Sand {
                    Color { r: 0, g: 229, b: 178 }
                } else {
                    Color { r: 0, g: 0, b: 0 }
                };
                let ghost before = *canvas;
                canvas.set_pixel(x as u32, y as u32, c.r, c.g, c.b);
                proof {
                    let cw = canvas.width as int;
                    assert forall|xx: int, yy: int|
                        0 <= xx < canvas.width && 0 <= yy < canvas.height implies #[trigger] canvas.color(
                            canvas.index(xx, yy),
                        ) == if xx < w && (yy < y || (yy == y && xx < x + 1)) {
                            tile_color(self.tiles@[yy * w + xx])
                        } else {
                            old(canvas).color(old(canvas).index(xx, yy))
                        } by {
                        crate::canvas::lemma_pixel_index(
                            cw,
                            canvas.height as int,
                            xx,
                            yy,
                        );
                        if xx != x || yy != y {
                            if yy * cw + xx == y * cw + x {
                                crate::canvas::lemma_index_injective(cw, xx, yy, x as int, y as int);
                            }
                            assert(canvas.color(canvas.index(xx, yy)) == before.color(
                                before.index(xx, yy),
                            ));
                        }
                    }
                }
            }
        }
    }
}

/// `after` shows grid `g` drawn over `before`: each pixel inside the grid's
/// columns and rows shows its tile, every other pixel is as in `before`.
pub open spec fn shows_grid(after: &Canvas, before: &Canvas, g: &Grid) -> bool {
    forall|x: int, y: int|
        0 <= x < after.width && 0 <= y < after.height ==> #[trigger] after.color(after.index(x, y))
            == if x < g.width && y < g.height {
            tile_color(g.tiles@[y * g.width + x])
        } else {
            before.color(before.index(x, y))
        }
}

/// The grid after dropping a pressure-free grain into each of `columns` on
/// the top row of a grid `w` cells wide.
pub open spec fn spawn_spec(s: Seq<Tile>, w: int, columns: Seq<usize>) -> Seq<Tile> {
    Seq::new(
        s.len(),
        |j: int|
            if j < w && columns.contains(j as usize) {
                Tile { type_: TileType::Sand, pressure: 0 }
            } else {
                s[j]
            },
    )
}

/// Grains are due at clock reading `now` when a spawn period has passed
/// since `last`.
pub open spec fn spawn_is_due(last: u64, now: u64) -> bool {
    now >= last && now - last >= SPAWN_PERIOD_MICROS
}

/// `order` lists every cell of an `n`-cell grid exactly once.
pub open spec fn is_visit_order(order: Seq<usize>, n: nat) -> bool {
    order.to_multiset() == Seq::new(n, |i: int| i as usize).to_multiset()
}

/// How far spawned grains may land from the centre column of a grid `w`
/// cells wide: `SPAWN_SPREAD`, or half the width when that is less.
pub open spec fn spawn_spread(w: int) -> int {
    if w / 2 < SPAWN_SPREAD {
        w / 2
    } else {
        SPAWN_SPREAD as int
    }
}

/// `d` is a valid draw for one spawned grain: below twice the spread, or 0
/// when the spread is 0.
pub open spec fn is_spawn_draw(w: int, d: int) -> bool {
    0 <= d && (d < 2 * spawn_spread(w) || d == 0)
}

/// The column that draw `d` places a grain in: `d` columns right of the
/// left edge of the spawn window.
pub open spec fn spawn_column_spec(w: int, d: int) -> int {
    w / 2 - spawn_spread(w) + d
}

/// Column `c` is one that some valid draw places a grain in.
pub open spec fn in_spawn_window(w: int, c: int) -> bool {
    exists|d: int| #![trigger spawn_column_spec(w, d)] is_spawn_draw(w, d) && c == spawn_column_spec(w, d)
}

/// The column that draw `d` places a grain in, for a grid `width` cells wide.
pub fn spawn_column(width: usize, draw: u64) -> (c: usize)
    requires
        width > 0,
        is_spawn_draw(width as int, draw as int),
    ensures
        c == spawn_column_spec(width as int, draw as int),
        c < width,
{
    let centre = width / 2;
    let spread = if centre < SPAWN_SPREAD {
        centre
    } else {
        SPAWN_SPREAD
    };
    centre - spread + draw as usize
}

/// What one frame of the scene can turn grid `s` into: grains dropped into
/// some columns near the centre of the top row (none unless a spawn is
/// due), then one step over some order that visits every cell once, with
/// one coin per visit.
pub open spec fn tick_outcome(s: Seq<Tile>, w: int, due: bool, result: Seq<Tile>) -> bool {
    exists|columns: Seq<usize>, order: Seq<usize>, coins: Seq<bool>|
        #![trigger step_spec(spawn_spec(s, w, columns), w, order, coins)]
        {
            &&& (!due ==> columns.len() == 0)
            &&& (due && w > 0 ==> columns.len() == SPAWN_BATCH)
            &&& columns.len() <= SPAWN_BATCH
            &&& forall|k: int|
                0 <= k < columns.len() ==> in_spawn_window(w, #[trigger] columns[k] as int)
            &&& is_visit_order(order, s.len())
            &&& coins.len() == s.len()
            &&& result == step_spec(spawn_spec(s, w, columns), w, order, coins)
            &&& sand_count(result) == sand_count(spawn_spec(s, w, columns))
        }
}

/// The falling-sand scene: a grid of tiles and the time of the last spawn.
pub struct SandScene {
    pub map: Grid,
    pub last_spout: u64,
}

impl SandScene {
    pub open spec fn wf(&self) -> bool {
        self.map.wf()
    }

    /// An empty scene of `width` by `height` cells whose spawn timer starts
    /// at clock reading zero.
    pub fn new(width: usize, height: usize) -> (s: SandScene)
        requires
            width * height <= usize::MAX,
        ensures
            s.wf(),
            s.map.width == width,
            s.map.height == height,
            forall|i: int| 0 <= i < s.map.tiles@.len() ==> #[trigger] s.map.tiles@[i] == empty_tile(),
            sand_count(s.map.tiles@) == 0,
            s.last_spout == 0,
    {
        SandScene { map: Grid::new(width, height), last_spout: 0 }
    }

    /// Paints the grid: sand in the sand color, empty cells black.
    pub fn draw(&self, canvas: &mut Canvas)
        requires
            self.wf(),
            old(canvas).wf(),
            self.map.width <= old(canvas).width,
            self.map.height <= old(canvas).height,
        ensures
            final(canvas).wf(),
            final(canvas).same_shape(old(canvas)),
            shows_grid(final(canvas), old(canvas), &self.map),
    {
        self.map.draw(canvas);
    }

    /// Whether grains are due at clock reading `now`: once a period has
    /// passed since the last reset. After two periods the timer resets.
    pub fn spawn_due(&mut self, now: u64) -> (due: bool)
        ensures
            final(self).map == old(self).map,
            due == (now >= old(self).last_spout && now - old(self).last_spout
                >= SPAWN_PERIOD_MICROS),
            final(self).last_spout == if now >= old(self).last_spout && now - old(
                self,
            ).last_spout >= 2 * SPAWN_PERIOD_MICROS {
                now
            } else {
                old(self).last_spout
            },
    {
        let elapsed = now.saturating_sub(self.last_spout);
        let due = now >= self.last_spout && elapsed >= SPAWN_PERIOD_MICROS;
        if now >= self.last_spout && elapsed >= 2 * SPAWN_PERIOD_MICROS {
            self.last_spout = now;
        }
        due
    }

    /// Draws the columns of one spawn: `SPAWN_BATCH` grains near the centre
    /// of the top row, at most `SPAWN_SPREAD` to either side.
    pub fn spawn_columns(&self, rng: &mut RandomSource) -> (cols: Vec<usize>)
        ensures
            self.map.width > 0 ==> cols@.len() == SPAWN_BATCH,
            cols@.len() <= SPAWN_BATCH,
            forall|k: int|
                0 <= k < cols@.len() ==> in_spawn_window(
                    self.map.width as int,
                    #[trigger] cols@[k] as int,
                ),
    {
        let mut cols: Vec<usize> = Vec::new();
        let w = self.map.width;
        if w == 0 {
            return cols;
        }
        let centre = w / 2;
        let spread = if centre < SPAWN_SPREAD {
            centre
        } else {
            SPAWN_SPREAD
        };
        for k in 0..SPAWN_BATCH
            invariant
                w == self.map.width,
                w > 0,
                spread == spawn_spread(w as int),
                spread <= SPAWN_SPREAD,
                cols@.len() == k,
                forall|q: int|
                    0 <= q < cols@.len() ==> in_spawn_window(w as int, #[trigger] cols@[q] as int),
        {
            let d = if spread == 0 {
                0
            } else {
                rng.range(0, 2 * spread as u64)
            };
            let c = spawn_column(w, d);
            cols.push(c);
            proof {
                assert(cols@[k as int] == spawn_column_spec(w as int, d as int));
                assert(in_spawn_window(w as int, c as int));
            }
        }
        cols
    }

    /// One frame: spawns grains when due at `tick.instant`, runs one step of
    /// the automaton over a shuffled visiting order, and draws the grid.
    /// Only the spawn adds sand; the passes neither add nor lose any.
    pub fn tick(&mut self, canvas: &mut Canvas, tick: &FrameTick, rng: &mut RandomSource)
        requires
            old(self).wf(),
            old(canvas).wf(),
            old(self).map.width <= old(canvas).width,
            old(self).map.height <= old(canvas).height,
        ensures
            final(self).wf(),
            final(self).map.same_shape(&old(self).map),
            final(canvas).wf(),
            final(canvas).same_shape(old(canvas)),
            sand_count(old(self).map.tiles@) <= sand_count(final(self).map.tiles@) <= sand_count(
                old(self).map.tiles@,
            ) + SPAWN_BATCH,
            tick_outcome(
                old(self).map.tiles@,
                old(self).map.width as int,
                spawn_is_due(old(self).last_spout, tick.instant),
                final(self).map.tiles@,
            ),
            forall|g: int|
                !spawn_is_due(old(self).last_spout, tick.instant) && only_grain_at(
                    old(self).map.tiles@,
                    g,
                ) && (g + old(self).map.width < old(self).map.tiles@.len()
                    || old(self).map.tiles@[g].pressure == 0) ==> lone_grain_at(
                    final(self).map.tiles@,
                    fall_target(
                        g,
                        old(self).map.width as int,
                        old(self).map.tiles@.len() as int,
                    ),
                ),
            final(self).last_spout == if tick.instant >= old(self).last_spout && tick.instant
                - old(self).last_spout >= 2 * SPAWN_PERIOD_MICROS {
                tick.instant
            } else {
                old(self).last_spout
            },
            shows_grid(final(canvas), old(canvas), &final(self).map),
    {
        let ghost s0 = self.map.tiles@;
        let ghost w = self.map.width as int;
        let cols = if self.spawn_due(tick.instant) {
            self.spawn_columns(rng)
        } else {
            Vec::new()
        };
        self.map.spawn(&cols);
        let ghost s1 = self.map.tiles@;
        let n = self.map.tiles.len();
        let mut order: Vec<usize> = Vec::new();
        let mut coins: Vec<bool> = Vec::new();
        for i in 0..n
            invariant
                order@ =~= Seq::new(i as nat, |j: int| j as usize),
                coins@.len() == i,
        {
            order.push(i);
            coins.push(rng.coin());
        }
        let ghost unshuffled = order@;
        rng.shuffle(&mut order);
        self.map.step(&order, &coins);
        proof {
            assert(unshuffled =~= Seq::new(s0.len(), |j: int| j as usize));
            assert(self.map.tiles@ == step_spec(spawn_spec(s0, w, cols@), w, order@, coins@));
        }
        self.draw(canvas);
        proof {
            assert(is_visit_order(order@, s0.len()));
            assert(coins@.len() == s0.len());
            assert(cols@.len() <= SPAWN_BATCH);
            assert(!spawn_is_due(old(self).last_spout, tick.instant) ==> cols@.len() == 0);
            assert(spawn_is_due(old(self).last_spout, tick.instant) && w > 0 ==> cols@.len()
                == SPAWN_BATCH);
            assert(sand_count(self.map.tiles@) == sand_count(spawn_spec(s0, w, cols@)));
            if !spawn_is_due(old(self).last_spout, tick.instant) {
                assert(spawn_spec(s0, w, cols@) =~= s0);
                assert forall|g: int| 0 <= g < s0.len() implies visits(order@, g) by {
                    broadcast use vstd::seq_lib::group_to_multiset_ensures;

                    let all = Seq::new(s0.len(), |j: int| j as usize);
                    assert(all[g] == g as usize);
                    assert(all.contains(g as usize));
                    assert(all.to_multiset().count(g as usize) > 0);
                    assert(order@.to_multiset().count(g as usize) > 0);
                    assert(order@.contains(g as usize));
                    let t = choose|t: int| 0 <= t < order@.len() && order@[t] == g as usize;
                    assert(order@[t] as int == g);
                }
                assert(s1 == s0);
                assert forall|g: int|
                    only_grain_at(s0, g) && (g + w < s0.len() || s0[g].pressure == 0) implies lone_grain_at(
                    self.map.tiles@,
                    fall_target(g, w, s0.len() as int),
                ) by {
                    assert(visits(order@, g));
                }
            }
        }
    }
}

} // verus!
