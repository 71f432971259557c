use crate::canvas::{Canvas, Color};
use crate::frame::FrameTick;
use crate::random::RandomSource;
use vstd::prelude::*;

verus! {

/// The field value that stands for 1.0; every cell holds a value in `0..=FIELD_ONE`.
pub const FIELD_ONE: u32 = 65536;

/// Range of the per-cell decay rate, in thousandths per second.
pub const DECAY_MIN: u64 = 200;
pub const DECAY_MAX: u64 = 400;

/// Range of the per-cell regrowth threshold, in field units (0.1 to 0.35).
pub const GROW_MIN: u64 = 6554;
pub const GROW_MAX: u64 = 22938;

/// Range of a neighbour's activation threshold, in field units (0.4 to 0.6).
pub const ACTIVATION_MIN: u64 = 26214;
pub const ACTIVATION_MAX: u64 = 39322;

/// Range of a neighbour's jitter factor, in thousandths (0.9 to 1.1).
pub const JITTER_MIN: u64 = 900;
pub const JITTER_MAX: u64 = 1100;

/// The kernel covers a 5 by 5 neighbourhood (radius 2); cell `k` lies at
/// column offset `k % 5 - 2` and row offset `k / 5 - 2`.
pub const KERNEL_CELLS: usize = 25;

/// The kernel cell of the centre, which never counts.
pub const KERNEL_CENTRE: usize = 12;

/// Inverse-distance weight, in thousandths, of a neighbour at squared
/// distance `d2`: `d2` to the power -0.1, rounded.
pub open spec fn kernel_weight(d2: int) -> u32 {
    if d2 == 1 {
        1000
    } else if d2 == 2 {
        933
    } else if d2 == 4 {
        871
    } else if d2 == 5 {
        851
    } else if d2 == 8 {
        812
    } else {
        0
    }
}

/// The squared offset of kernel coordinate `i` (0 to 4) from the centre.
pub open spec fn offset_sq(i: int) -> int {
    (i - 2) * (i - 2)
}

/// The weight of kernel cell `k`.
pub open spec fn cell_weight(k: int) -> u32 {
    kernel_weight(offset_sq(k % 5) + offset_sq(k / 5))
}

/// The coordinate reached from `c` by kernel coordinate `i` on an axis of
/// `size` cells: past the far edge it wraps, before the near edge it is
/// mirrored.
pub open spec fn neighbor_coord(c: int, i: int, size: int) -> int {
    let s = c + i - 2;
    (if s < 0 {
        -s
    } else {
        s
    }) % size
}

/// The field index of kernel cell `k` around `(x, y)`.
pub open spec fn neighbor_index(x: int, y: int, w: int, h: int, k: int) -> int {
    neighbor_coord(y, k / 5, h) * w + neighbor_coord(x, k % 5, w)
}

/// Kernel cell `k` takes part: it is not the centre and its previous value
/// exceeds its activation threshold.
pub open spec fn active(
    prev: Seq<u32>,
    x: int,
    y: int,
    w: int,
    h: int,
    act: Seq<u32>,
    k: int,
) -> bool {
    k != KERNEL_CENTRE && prev[neighbor_index(x, y, w, h, k)] > act[k]
}

/// Sum over the first `k` kernel cells that take part of
/// `value * jitter * weight`.
pub open spec fn weighted_sum(
    prev: Seq<u32>,
    x: int,
    y: int,
    w: int,
    h: int,
    weights: Seq<u32>,
    act: Seq<u32>,
    jit: Seq<u32>,
    k: nat,
) -> int
    decreases k,
{
    if k == 0 {
        0
    } else {
        weighted_sum(prev, x, y, w, h, weights, act, jit, (k - 1) as nat) + if active(
            prev,
            x,
            y,
            w,
            h,
            act,
            k - 1,
        ) {
            prev[neighbor_index(x, y, w, h, k - 1)] * jit[k - 1] * weights[k - 1]
        } else {
            0
        }
    }
}

/// Sum over the first `k` kernel cells that take part of their weights.
pub open spec fn weight_sum(
    prev: Seq<u32>,
    x: int,
    y: int,
    w: int,
    h: int,
    weights: Seq<u32>,
    act: Seq<u32>,
    k: nat,
) -> int
    decreases k,
{
    if k == 0 {
        0
    } else {
        weight_sum(prev, x, y, w, h, weights, act, (k - 1) as nat) + if active(
            prev,
            x,
            y,
            w,
            h,
            act,
            k - 1,
        ) {
            weights[k - 1] as int
        } else {
            0
        }
    }
}

/// The regrowth value of cell `(x, y)`: the weighted mean of the active
/// neighbours' jittered values, clamped to `FIELD_ONE`; `None` when no
/// neighbour takes part.
pub open spec fn regrown(
    prev: Seq<u32>,
    x: int,
    y: int,
    w: int,
    h: int,
    weights: Seq<u32>,
    act: Seq<u32>,
    jit: Seq<u32>,
) -> Option<int> {
    let n = weight_sum(prev, x, y, w, h, weights, act, KERNEL_CELLS as nat);
    let s = weighted_sum(prev, x, y, w, h, weights, act, jit, KERNEL_CELLS as nat);
    if n == 0 {
        None
    } else if s / (n * 1000) > FIELD_ONE {
        Some(FIELD_ONE as int)
    } else {
        Some(s / (n * 1000))
    }
}

/// `v` after decaying for `dt` microseconds at `rate` thousandths per second:
/// `v * (1 - rate * dt)`, rounded down, and zero once `rate * dt` reaches one.
pub open spec fn decayed(v: int, rate: int, dt: int) -> int {
    if rate * dt >= 1000000000 {
        0
    } else {
        v * (1000000000 - rate * dt) / 1000000000
    }
}

/// The value of a cell after one tick, from its previous value, its decay
/// rate and growth threshold, and the regrowth value the neighbourhood
/// offers: the decayed value, replaced by the regrowth value when it falls
/// below the threshold and some neighbour takes part.
pub open spec fn next_value(last: int, rate: int, dt: int, threshold: int, grown: Option<int>) -> int {
    let d = decayed(last, rate, dt);
    if d < threshold {
        match grown {
            Some(g) => g,
            None => d,
        }
    } else {
        d
    }
}

/// Every value lies in `0..=FIELD_ONE`.
pub open spec fn in_unit(s: Seq<u32>) -> bool {
    forall|i: int| 0 <= i < s.len() ==> #[trigger] s[i] <= FIELD_ONE
}

/// The squared offset of kernel coordinate `c` from the centre.
fn offset_square(c: usize) -> (r: usize)
    requires
        c < 5,
    ensures
        r == offset_sq(c as int),
        r <= 4,
{
    if c == 0 {
        assert(offset_sq(0) == 4);
        4
    } else if c == 1 {
        assert(offset_sq(1) == 1);
        1
    } else if c == 2 {
        assert(offset_sq(2) == 0);
        0
    } else if c == 3 {
        assert(offset_sq(3) == 1);
        1
    } else {
        assert(offset_sq(4) == 4);
        4
    }
}

/// The kernel of inverse-distance weights, in thousandths, as 25 cells.
pub fn gen_weights() -> (weights: Vec<u32>)
    ensures
        weights@.len() == KERNEL_CELLS,
        forall|k: int| 0 <= k < KERNEL_CELLS ==> #[trigger] weights@[k] == cell_weight(k),
{
    let mut weights: Vec<u32> = Vec::new();
    for k in 0..KERNEL_CELLS
        invariant
            weights@.len() == k,
            forall|q: int| 0 <= q < k ==> #[trigger] weights@[q] == cell_weight(q),
    {
        assert(k % 5 < 5 && k / 5 < 5) by (nonlinear_arith)
            requires
                k < 25,
        ;
        let d2 = offset_square(k % 5) + offset_square(k / 5);
        let wt: u32 = if d2 == 1 {
            1000
        } else if d2 == 2 {
            933
        } else if d2 == 4 {
            871
        } else if d2 == 5 {
            851
        } else if d2 == 8 {
            812
        } else {
            0
        };
        weights.push(wt);
    }
    weights
}

/// `v` decayed for `dt` microseconds at `rate` thousandths per second.
pub fn decay(v: u32, rate: u32, dt: u64) -> (r: u32)
    requires
        v <= FIELD_ONE,
    ensures
        r == decayed(v as int, rate as int, dt as int),
        r <= v,
{
    let loss = (rate as u64).checked_mul(dt);
    match loss {
        None => 0,
        Some(l) => {
            if l >= 1000000000 {
                0
            } else {
                let keep: u64 = 1000000000 - l;
                assert(v as u64 * keep <= FIELD_ONE as u64 * 1000000000) by (nonlinear_arith)
                    requires
                        v <= FIELD_ONE,
                        keep <= 1000000000,
                ;
                let r = v as u64 * keep / 1000000000;
                assert(r <= v) by (nonlinear_arith)
                    requires
                        r == v as u64 * keep / 1000000000,
                        keep <= 1000000000,
                ;
                r as u32
            }
        },
    }
}

/// The coordinate reached from `c` by kernel coordinate `i` on an axis of
/// `size` cells.
fn neighbor(c: u32, i: usize, size: u32) -> (r: u32)
    requires
        i < 5,
        c < size,
    ensures
        r == neighbor_coord(c as int, i as int, size as int),
        r < size,
{
    let s = c as u64 + i as u64;
    if s >= 2 {
        ((s - 2) % size as u64) as u32
    } else {
        ((2 - s) % size as u64) as u32
    }
}

/// The regrowth value of cell `(x, y)` over the previous field `prev`, with
/// one activation threshold and one jitter factor per kernel cell.
pub fn regrow(
    prev: &Vec<u32>,
    width: u32,
    height: u32,
    x: u32,
    y: u32,
    weights: &Vec<u32>,
    activation: &Vec<u32>,
    jitter: &Vec<u32>,
) -> (r: Option<u32>)
    requires
        prev@.len() == width * height,
        in_unit(prev@),
        x < width,
        y < height,
        weights@.len() == KERNEL_CELLS,
        activation@.len() == KERNEL_CELLS,
        jitter@.len() == KERNEL_CELLS,
        forall|k: int| 0 <= k < KERNEL_CELLS ==> #[trigger] weights@[k] <= 1000,
        forall|k: int| 0 <= k < KERNEL_CELLS ==> #[trigger] jitter@[k] <= JITTER_MAX,
    ensures
        r matches Some(v) ==> v <= FIELD_ONE,
        regrown(
            prev@,
            x as int,
            y as int,
            width as int,
            height as int,
            weights@,
            activation@,
            jitter@,
        ) matches Some(v) ==> 0 <= v <= FIELD_ONE,
        r == match regrown(
            prev@,
            x as int,
            y as int,
            width as int,
            height as int,
            weights@,
            activation@,
            jitter@,
        ) {
            Some(v) => Some(v as u32),
            None => None::<u32>,
        },
{
    let ghost (xi, yi, wi, hi) = (x as int, y as int, width as int, height as int);
    let mut sum: u64 = 0;
    let mut norm: u64 = 0;
    let cells = prev.len();
    for k in 0..KERNEL_CELLS
        invariant
            prev@.len() == width * height,
            width * height <= usize::MAX,
            in_unit(prev@),
            x < width,
            y < height,
            weights@.len() == KERNEL_CELLS,
            activation@.len() == KERNEL_CELLS,
            jitter@.len() == KERNEL_CELLS,
            forall|q: int| 0 <= q < KERNEL_CELLS ==> #[trigger] weights@[q] <= 1000,
            forall|q: int| 0 <= q < KERNEL_CELLS ==> #[trigger] jitter@[q] <= JITTER_MAX,
            xi == x,
            yi == y,
            wi == width,
            hi == height,
            sum == weighted_sum(prev@, xi, yi, wi, hi, weights@, activation@, jitter@, k as nat),
            norm == weight_sum(prev@, xi, yi, wi, hi, weights@, activation@, k as nat),
            sum <= k * 72089600000,
            norm <= k * 1000,
    {
        let nx = neighbor(x, k % 5, width);
        let ny = neighbor(y, k / 5, height);
        proof {
            crate::canvas::lemma_pixel_index(wi, hi, nx as int, ny as int);
        }
        let ni = ny as usize * width as usize + nx as usize;
        let v = prev[ni];
        if k != KERNEL_CENTRE && v > activation[k] {
            let wt = weights[k] as u64;
            
            let j = jitter[k] as u64;
            assert(v as u64 * j <= 72089600) by (nonlinear_arith)
                requires
                    v <= 65536,
                    j <= 1100,
            ;
            assert(v as u64 * j * wt <= 72089600000) by (nonlinear_arith)
                requires
                    v <= 65536,
                    j <= 1100,
                    wt <= 1000,
            ;
            let term = v as u64 * j * wt;
            sum = sum + term;
            norm = norm + wt;
        }
    }
    if norm == 0 {
        None
    } else {
        let g = sum / (norm * 1000);
        if g > FIELD_ONE as u64 {
            Some(FIELD_ONE)
        } else {
            Some(g as u32)
        }
    }
}

/// The random draws of one cell lie in their ranges: decay rate, growth
/// threshold, and one activation threshold and jitter factor per kernel cell.
pub open spec fn draws_ok(rate: int, threshold: int, act: Seq<u32>, jit: Seq<u32>) -> bool {
    &&& DECAY_MIN <= rate < DECAY_MAX
    &&& GROW_MIN <= threshold < GROW_MAX
    &&& act.len() == KERNEL_CELLS
    &&& jit.len() == KERNEL_CELLS
    &&& forall|k: int| 0 <= k < KERNEL_CELLS ==> ACTIVATION_MIN <= #[trigger] act[k] < ACTIVATION_MAX
    &&& forall|k: int| 0 <= k < KERNEL_CELLS ==> JITTER_MIN <= #[trigger] jit[k] < JITTER_MAX
}

/// `v` is a value that cell `i` of a `w` by `h` field can take after one
/// tick of `dt` microseconds from the field `prev`, for some draws in range.
pub open spec fn possible_next(
    prev: Seq<u32>,
    w: int,
    h: int,
    weights: Seq<u32>,
    dt: int,
    i: int,
    v: int,
) -> bool {
    exists|rate: int, threshold: int, act: Seq<u32>, jit: Seq<u32>|
        #![trigger draws_ok(rate, threshold, act, jit)]
        draws_ok(rate, threshold, act, jit) && v == next_value(
            prev[i] as int,
            rate,
            dt,
            threshold,
            regrown(prev, i % w, i / w, w, h, weights, act, jit),
        )
}

/// Cell `i` of a `w` by `h` field lies at column `i % w`, row `i / w`.
pub proof fn lemma_cell_coords(i: int, w: int, h: int)
    requires
        0 <= i < w * h,
        0 <= w,
        0 <= h,
    ensures
        0 <= i % w < w,
        0 <= i / w < h,
        (i / w) * w + i % w == i,
{
    assert(w > 0) by (nonlinear_arith)
        requires
            0 <= i < w * h,
            0 <= w,
            0 <= h,
    ;
    vstd::arithmetic::div_mod::lemma_fundamental_div_mod(i, w);
    vstd::arithmetic::div_mod::lemma_div_pos_is_pos(i, w);
    let q = i / w;
    assert(q < h) by (nonlinear_arith)
        requires
            i == w * q + i % w,
            0 <= i % w,
            i < w * h,
            0 < w,
    ;
    assert((i / w) * w == w * (i / w)) by (nonlinear_arith);
}

/// The next value of a cell whose previous value is `last`.
pub fn update_cell(last: u32, rate: u32, dt: u64, threshold: u32, grown: Option<u32>) -> (r: u32)
    requires
        last <= FIELD_ONE,
        grown matches Some(g) ==> g <= FIELD_ONE,
    ensures
        r == next_value(
            last as int,
            rate as int,
            dt as int,
            threshold as int,
            match grown {
                Some(g) => Some(g as int),
                None => None,
            },
        ),
        r <= FIELD_ONE,
{
    let d = decay(last, rate, dt);
    if d < threshold {
        match grown {
            Some(g) => g,
            None => d,
        }
    } else {
        d
    }
}

/// The diffusion and growth scene: a double-buffered field of energy values
/// in `0..=FIELD_ONE`, one per pixel, and the fixed kernel.
pub struct WaveScene {
    pub map: Vec<u32>,
    pub last_map: Vec<u32>,
    pub weights: Vec<u32>,
    pub width: u32,
    pub height: u32,
}

impl WaveScene {
    pub open spec fn wf(&self) -> bool {
        &&& self.map@.len() == self.width * self.height
        &&& self.last_map@.len() == self.width * self.height
        &&& self.width * self.height <= usize::MAX
        &&& self.weights@.len() == KERNEL_CELLS
        &&& forall|k: int| 0 <= k < KERNEL_CELLS ==> #[trigger] self.weights@[k] == cell_weight(k)
        &&& in_unit(self.map@)
        &&& in_unit(self.last_map@)
    }

    /// A field the size of `canvas`, each cell drawn uniformly from
    /// `0..FIELD_ONE` (0 up to, not including, 1.0); both buffers start equal.
    pub fn new(canvas: &Canvas, rng: &mut RandomSource) -> (s: WaveScene)
        requires
            canvas.wf(),
        ensures
            s.wf(),
            s.width == canvas.width,
            s.height == canvas.height,
            s.map@ == s.last_map@,
            forall|i: int| 0 <= i < s.map@.len() ==> #[trigger] s.map@[i] < FIELD_ONE,
    {
        let n = canvas.pixel_count();
        let mut map: Vec<u32> = Vec::new();
        let mut last_map: Vec<u32> = Vec::new();
        for i in 0..n
            invariant
                map@.len() == i,
                map@ == last_map@,
                forall|j: int| 0 <= j < map@.len() ==> #[trigger] map@[j] < FIELD_ONE,
        {
            let v = rng.range(0, FIELD_ONE as u64) as u32;
            map.push(v);
            last_map.push(v);
        }
        let weights = gen_weights();
        assert(in_unit(map@));
        WaveScene { map, last_map, weights, width: canvas.width, height: canvas.height }
    }

    /// Advances the field by `dt` microseconds: the buffers swap, and every
    /// cell of the new field is computed from the previous one with fresh
    /// draws. Whatever the draws, each cell takes a value that
    /// `possible_next` allows, and so stays in `0..=FIELD_ONE`.
    pub fn step(&mut self, dt: u64, rng: &mut RandomSource)
        requires
            old(self).wf(),
        ensures
            final(self).wf(),
            final(self).width == old(self).width,
            final(self).height == old(self).height,
            final(self).weights@ == old(self).weights@,
            final(self).last_map@ == old(self).map@,
            forall|i: int|
                0 <= i < final(self).map@.len() ==> possible_next(
                    old(self).map@,
                    old(self).width as int,
                    old(self).height as int,
                    old(self).weights@,
                    dt as int,
                    i,
                    #[trigger] final(self).map@[i] as int,
                ),
    {
        core::mem::swap(&mut self.map, &mut self.last_map);
        let ghost prev = self.last_map@;
        let n = self.map.len();
        let w = self.width;
        let h = self.height;
        for i in 0..n
            invariant
                self.wf(),
                self.width == w,
                self.height == h,
                self.weights@ == old(self).weights@,
                prev == old(self).map@,
                self.last_map@ == prev,
                n == self.map@.len(),
                forall|q: int|
                    0 <= q < i ==> possible_next(
                        prev,
                        w as int,
                        h as int,
                        self.weights@,
                        dt as int,
                        q,
                        #[trigger] self.map@[q] as int,
                    ),
        {
            proof {
                lemma_cell_coords(i as int, w as int, h as int);
            }
            let x = (i % w as usize) as u32;
            let y = (i / w as usize) as u32;
            let rate = rng.range(DECAY_MIN, DECAY_MAX) as u32;
            let threshold = rng.range(GROW_MIN, GROW_MAX) as u32;
            let last = self.last_map[i];
            let d = decay(last, rate, dt);
            let mut act: Vec<u32> = Vec::new();
            let mut jit: Vec<u32> = Vec::new();
            let mut grown: Option<u32> = None;
            if d < threshold {
                for k in 0..KERNEL_CELLS
                    invariant
                        act@.len() == k,
                        jit@.len() == k,
                        forall|q: int|
                            0 <= q < k ==> ACTIVATION_MIN <= #[trigger] act@[q] < ACTIVATION_MAX,
                        forall|q: int| 0 <= q < k ==> JITTER_MIN <= #[trigger] jit@[q] < JITTER_MAX,
                {
                    act.push(rng.range(ACTIVATION_MIN, ACTIVATION_MAX) as u32);
                    jit.push(rng.range(JITTER_MIN, JITTER_MAX) as u32);
                }
                grown = regrow(&self.last_map, w, h, x, y, &self.weights, &act, &jit);
            } else {
                for k in 0..KERNEL_CELLS
                    invariant
                        act@.len() == k,
                        jit@.len() == k,
                        forall|q: int|
                            0 <= q < k ==> ACTIVATION_MIN <= #[trigger] act@[q] < ACTIVATION_MAX,
                        forall|q: int| 0 <= q < k ==> JITTER_MIN <= #[trigger] jit@[q] < JITTER_MAX,
                {
                    act.push(ACTIVATION_MIN as u32);
                    jit.push(JITTER_MIN as u32);
                }
            }
            let v = update_cell(last, rate, dt, threshold, grown);
            proof {
                let g = regrown(
                    prev,
                    x as int,
                    y as int,
                    w as int,
                    h as int,
                    self.weights@,
                    act@,
                    jit@,
                );
                assert(draws_ok(rate as int, threshold as int, act@, jit@));
                assert(v == next_value(last as int, rate as int, dt as int, threshold as int, g));
            }
            self.map.set(i, v);
        }
    }

    /// Paints pixel `p` with `paint(value of cell p, t)`; `paint` maps a field
    /// value and the time to a color.
    pub fn draw_map<F: Fn(u32, u64) -> Color>(&self, canvas: &mut Canvas, t: u64, paint: F)
        requires
            self.wf(),
            old(canvas).wf(),
            old(canvas).width == self.width,
            old(canvas).height == self.height,
            forall|v: u32, t: u64| paint.requires((v, t)),
        ensures
            final(canvas).wf(),
            final(canvas).same_shape(old(canvas)),
            forall|p: int|
                0 <= p < self.map@.len() ==> paint.ensures(
                    (self.map@[p], t),
                    #[trigger] final(canvas).color(p),
                ),
    {
        let n = self.map.len();
        for p in 0..n
            invariant
                self.wf(),
                canvas.wf(),
                canvas.same_shape(old(canvas)),
                canvas.width == self.width,
                canvas.height == self.height,
                n == self.map@.len(),
                forall|v: u32, t: u64| paint.requires((v, t)),
                forall|q: int|
                    0 <= q < p ==> paint.ensures((self.map@[q], t), #[trigger] canvas.color(q)),
        {
            let c = paint(self.map[p], t);
            canvas.set_color(p, c);
        }
    }

    /// One frame: advances the field by `tick.dt` and draws it at time `tick.t`.
    pub fn tick<F: Fn(u32, u64) -> Color>(
        &mut self,
        canvas: &mut Canvas,
        tick: &FrameTick,
        rng: &mut RandomSource,
        paint: F,
    )
        requires
            old(self).wf(),
            old(canvas).wf(),
            old(canvas).width == old(self).width,
            old(canvas).height == old(self).height,
            forall|v: u32, t: u64| paint.requires((v, t)),
        ensures
            final(self).wf(),
            final(self).width == old(self).width,
            final(self).height == old(self).height,
            final(self).last_map@ == old(self).map@,
            forall|i: int|
                0 <= i < final(self).map@.len() ==> possible_next(
                    old(self).map@,
                    old(self).width as int,
                    old(self).height as int,
                    old(self).weights@,
                    tick.dt as int,
                    i,
                    #[trigger] final(self).map@[i] as int,
                ),
            final(canvas).wf(),
            final(canvas).same_shape(old(canvas)),
            forall|p: int|
                0 <= p < final(self).map@.len() ==> paint.ensures(
                    (final(self).map@[p], tick.t),
                    #[trigger] final(canvas).color(p),
                ),
    {
        self.step(tick.dt, rng);
        self.draw_map(canvas, tick.t, paint);
    }
}

} // verus!
