use vstd::prelude::*;

verus! {

/// One pixel: three 8-bit channels.
#[derive(Clone, Copy, Debug, PartialEq, Eq, Structural)]
pub struct Color {
    pub r: u8,
    pub g: u8,
    pub b: u8,
}

impl Color {
    /// Every channel is zero.
    pub open spec fn is_black(self) -> bool {
        self.r == 0 && self.g == 0 && self.b == 0
    }

    /// The color with every channel at zero.
    pub fn black() -> (c: Color)
        ensures
            c.is_black(),
    {
        Color { r: 0, g: 0, b: 0 }
    }
}

/// Two pixels of one row-major layout `w` pixels wide share an index only
/// when they share their column and row.
pub proof fn lemma_index_injective(w: int, x1: int, y1: int, x2: int, y2: int)
    requires
        0 <= x1 < w,
        0 <= x2 < w,
        0 <= y1,
        0 <= y2,
        y1 * w + x1 == y2 * w + x2,
    ensures
        x1 == x2,
        y1 == y2,
{
    if y1 < y2 {
        assert(y1 * w + w <= y2 * w) by (nonlinear_arith)
            requires
                y1 < y2,
                0 <= w,
        ;
    } else if y2 < y1 {
        assert(y2 * w + w <= y1 * w) by (nonlinear_arith)
            requires
                y2 < y1,
                0 <= w,
        ;
    }
}

/// The color of pixel `p` in the row-major store `s`.
pub open spec fn color_in(s: Seq<u8>, p: int) -> Color {
    Color { r: s[3 * p], g: s[3 * p + 1], b: s[3 * p + 2] }
}

/// Reading a pixel back after writing it gives the written color: for every
/// pixel inside the canvas and every color, `get_pixel` after `set_pixel`
/// returns the channels that were set.
pub proof fn lemma_pixel_round_trip(canvas: Canvas, x: u32, y: u32, c: Color)
    requires
        canvas.wf(),
        x < canvas.width,
        y < canvas.height,
    ensures
        color_in(canvas.painted(canvas.index(x as int, y as int), c), canvas.index(x as int, y as int))
            == c,
{
    lemma_pixel_index(canvas.width as int, canvas.height as int, x as int, y as int);
}

/// A fixed-size RGB frame buffer, row-major with the origin at the top left.
/// Pixel `p = y * width + x` occupies the bytes `3 * p .. 3 * p + 3`.
pub struct Canvas {
    pub width: u32,
    pub height: u32,
    pub pixels: Vec<u8>,
}

/// `x < w` and `y < h` place the flat index `y * w + x` below `w * h`.
pub proof fn lemma_pixel_index(w: int, h: int, x: int, y: int)
    requires
        0 <= x < w,
        0 <= y < h,
    ensures
        0 <= y * w + x < w * h,
{
    assert(0 <= y * w) by (nonlinear_arith)
        requires
            0 <= y,
            0 <= w,
    ;
    assert(y * w + x < w * h) by (nonlinear_arith)
        requires
            0 <= x < w,
            0 <= y < h,
    ;
}

impl Canvas {
    /// The number of pixels.
    pub open spec fn size(&self) -> int {
        self.width * self.height
    }

    /// The store holds exactly three bytes per pixel.
    pub open spec fn wf(&self) -> bool {
        &&& self.pixels@.len() == 3 * self.size()
        &&& 3 * self.size() <= usize::MAX
    }

    /// The color of pixel `p` (a flat row-major index).
    pub open spec fn color(&self, p: int) -> Color {
        color_in(self.pixels@, p)
    }

    /// The store after painting pixel `p` with `c`.
    pub open spec fn painted(&self, p: int, c: Color) -> Seq<u8> {
        self.pixels@.update(3 * p, c.r).update(3 * p + 1, c.g).update(3 * p + 2, c.b)
    }

    /// The flat index of the pixel at column `x`, row `y`.
    pub open spec fn index(&self, x: int, y: int) -> int {
        y * self.width + x
    }

    /// Same dimensions as `other`.
    pub open spec fn same_shape(&self, other: &Canvas) -> bool {
        self.width == other.width && self.height == other.height
    }

    /// A black canvas of `width` by `height` pixels.
    pub fn new(width: u32, height: u32) -> (c: Canvas)
        requires
            3 * (width * height) <= usize::MAX,
        ensures
            c.wf(),
            c.width == width,
            c.height == height,
            forall|p: int| 0 <= p < c.size() ==> #[trigger] c.color(p).is_black(),
    {
        let n: usize = 3 * (width as usize * height as usize);
        let pixels = vec![0u8; n];
        let c = Canvas { width, height, pixels };
        assert forall|p: int| 0 <= p < c.size() implies #[trigger] c.color(p).is_black() by {
            assert(c.pixels@[3 * p] == 0u8);
            assert(c.pixels@[3 * p + 1] == 0u8);
            assert(c.pixels@[3 * p + 2] == 0u8);
        }
        c
    }

    /// The number of pixels, as an executable value.
    pub fn pixel_count(&self) -> (n: usize)
        requires
            self.wf(),
        ensures
            n == self.size(),
    {
        self.pixels.len() / 3
    }

    /// The flat index of the pixel at column `x`, row `y`, as an executable value.
    pub fn index_of(&self, x: u32, y: u32) -> (p: usize)
        requires
            self.wf(),
            x < self.width,
            y < self.height,
        ensures
            p == self.index(x as int, y as int),
            p < self.size(),
    {
        let n = self.pixel_count();
        proof {
            lemma_pixel_index(self.width as int, self.height as int, x as int, y as int);
        }
        y as usize * self.width as usize + x as usize
    }

    /// The color of pixel `p`.
    pub fn color_at(&self, p: usize) -> (c: Color)
        requires
            self.wf(),
            p < self.size(),
        ensures
            c == self.color(p as int),
    {
        Color { r: self.pixels[3 * p], g: self.pixels[3 * p + 1], b: self.pixels[3 * p + 2] }
    }

    /// Paints pixel `p` with `c`; every other pixel keeps its color.
    pub fn set_color(&mut self, p: usize, c: Color)
        requires
            old(self).wf(),
            p < old(self).size(),
        ensures
            final(self).wf(),
            final(self).same_shape(old(self)),
            final(self).pixels@ == old(self).painted(p as int, c),
            final(self).color(p as int) == c,
            forall|q: int|
                0 <= q < old(self).size() && q != p ==> #[trigger] final(self).color(q) == old(
                    self,
                ).color(q),
    {
        self.pixels.set(3 * p, c.r);
        self.pixels.set(3 * p + 1, c.g);
        self.pixels.set(3 * p + 2, c.b);
    }

    /// Sets every channel of every pixel to zero.
    pub fn clear(&mut self)
        requires
            old(self).wf(),
        ensures
            final(self).wf(),
            final(self).same_shape(old(self)),
            forall|p: int| 0 <= p < final(self).size() ==> #[trigger] final(self).color(p).is_black(),
    {
        self.clear_with_color(Color::black());
    }

    /// Paints every pixel with `c`.
    pub fn clear_with_color(&mut self, c: Color)
        requires
            old(self).wf(),
        ensures
            final(self).wf(),
            final(self).same_shape(old(self)),
            forall|p: int| 0 <= p < final(self).size() ==> #[trigger] final(self).color(p) == c,
    {
        let n = self.pixel_count();
        for p in 0..n
            invariant
                n == self.size(),
                self.wf(),
                self.same_shape(old(self)),
                forall|q: int| 0 <= q < p ==> #[trigger] self.color(q) == c,
        {
            self.set_color(p, c);
        }
    }

    /// Paints the pixel at column `x`, row `y`.
    pub fn set_pixel(&mut self, x: u32, y: u32, r: u8, g: u8, b: u8)
        requires
            old(self).wf(),
            x < old(self).width,
            y < old(self).height,
        ensures
            final(self).wf(),
            final(self).same_shape(old(self)),
            final(self).pixels@ == old(self).painted(
                old(self).index(x as int, y as int),
                Color { r, g, b },
            ),
            final(self).color(old(self).index(x as int, y as int)) == (Color { r, g, b }),
            forall|q: int|
                0 <= q < old(self).size() && q != old(self).index(x as int, y as int)
                    ==> #[trigger] final(self).color(q) == old(self).color(q),
    {
        let p = self.index_of(x, y);
        self.set_color(p, Color { r, g, b });
    }

    /// The color of the pixel at column `x`, row `y`.
    pub fn get_pixel(&self, x: u32, y: u32) -> (c: Color)
        requires
            self.wf(),
            x < self.width,
            y < self.height,
        ensures
            c == self.color(self.index(x as int, y as int)),
    {
        let p = self.index_of(x, y);
        self.color_at(p)
    }

    /// The raw store: three bytes per pixel, row-major.
    pub fn pixels(&self) -> (s: &[u8])
        ensures
            s@ == self.pixels@,
    {
        self.pixels.as_slice()
    }
}

} // verus!
