use crate::canvas::{Canvas, Color};
use vstd::prelude::*;

verus! {

/// `dst` and `src` are well formed and of one size.
pub open spec fn pair_ok(dst: &Canvas, src: &Canvas) -> bool {
    dst.wf() && src.wf() && dst.same_shape(src)
}

/// Foreground merge: `canvas` keeps each pixel that is not black and takes
/// `canvas2`'s pixel where it is black.
pub fn filter_foreground(canvas: &mut Canvas, canvas2: &Canvas)
    requires
        pair_ok(old(canvas), canvas2),
    ensures
        final(canvas).wf(),
        final(canvas).same_shape(old(canvas)),
        forall|p: int|
            0 <= p < old(canvas).size() ==> #[trigger] final(canvas).color(p) == if !old(canvas).color(
                p,
            ).is_black() {
                old(canvas).color(p)
            } else {
                canvas2.color(p)
            },
{
    let n = canvas.pixel_count();
    for p in 0..n
        invariant
            pair_ok(canvas, canvas2),
            canvas.same_shape(old(canvas)),
            n == canvas.size(),
            forall|q: int|
                0 <= q < p ==> #[trigger] canvas.color(q) == if !old(canvas).color(q).is_black() {
                    old(canvas).color(q)
                } else {
                    canvas2.color(q)
                },
            forall|q: int| p <= q < n ==> #[trigger] canvas.color(q) == old(canvas).color(q),
    {
        let c = canvas.color_at(p);
        if c.r == 0 && c.g == 0 && c.b == 0 {
            let c2 = canvas2.color_at(p);
            canvas.set_color(p, c2);
        }
    }
}

/// Background merge, with `canvas2` as a mask: `canvas` keeps its pixel where
/// `canvas2`'s pixel is not black, and takes `canvas2`'s (black) pixel where it
/// is black.
pub fn filter_background(canvas: &mut Canvas, canvas2: &Canvas)
    requires
        pair_ok(old(canvas), canvas2),
    ensures
        final(canvas).wf(),
        final(canvas).same_shape(old(canvas)),
        forall|p: int|
            0 <= p < old(canvas).size() ==> #[trigger] final(canvas).color(p) == if !canvas2.color(
                p,
            ).is_black() {
                old(canvas).color(p)
            } else {
                canvas2.color(p)
            },
{
    let n = canvas.pixel_count();
    for p in 0..n
        invariant
            pair_ok(canvas, canvas2),
            canvas.same_shape(old(canvas)),
            n == canvas.size(),
            forall|q: int|
                0 <= q < p ==> #[trigger] canvas.color(q) == if !canvas2.color(q).is_black() {
                    old(canvas).color(q)
                } else {
                    canvas2.color(q)
                },
            forall|q: int| p <= q < n ==> #[trigger] canvas.color(q) == old(canvas).color(q),
    {
        let c2 = canvas2.color_at(p);
        if c2.r == 0 && c2.g == 0 && c2.b == 0 {
            canvas.set_color(p, c2);
        }
    }
}

/// Bright foreground merge: where `canvas` is not black it takes `canvas2`'s
/// pixel as it is; elsewhere it takes `canvas2`'s pixel passed through `dim`, the
/// lightness transform.
pub fn filter_bright_foreground<F: Fn(Color) -> Color>(canvas: &mut Canvas, canvas2: &Canvas, dim: F)
    requires
        pair_ok(old(canvas), canvas2),
        forall|c: Color| dim.requires((c,)),
    ensures
        final(canvas).wf(),
        final(canvas).same_shape(old(canvas)),
        forall|p: int|
            0 <= p < old(canvas).size() ==> if !old(canvas).color(p).is_black() {
                #[trigger] final(canvas).color(p) == canvas2.color(p)
            } else {
                dim.ensures((canvas2.color(p),), final(canvas).color(p))
            },
{
    let n = canvas.pixel_count();
    for p in 0..n
        invariant
            pair_ok(canvas, canvas2),
            canvas.same_shape(old(canvas)),
            n == canvas.size(),
            forall|c: Color| dim.requires((c,)),
            forall|q: int|
                0 <= q < p ==> if !old(canvas).color(q).is_black() {
                    #[trigger] canvas.color(q) == canvas2.color(q)
                } else {
                    dim.ensures((canvas2.color(q),), canvas.color(q))
                },
            forall|q: int| p <= q < n ==> #[trigger] canvas.color(q) == old(canvas).color(q),
    {
        let c = canvas.color_at(p);
        let c2 = canvas2.color_at(p);
        if !(c.r == 0 && c.g == 0 && c.b == 0) {
            canvas.set_color(p, c2);
        } else {
            let d = dim(c2);
            canvas.set_color(p, d);
        }
    }
}

/// Bright background merge: where `canvas2` is black `canvas` keeps its
/// pixel; elsewhere its pixel is passed through `dim`, the lightness
/// transform.
pub fn filter_bright_background<F: Fn(Color) -> Color>(canvas: &mut Canvas, canvas2: &Canvas, dim: F)
    requires
        pair_ok(old(canvas), canvas2),
        forall|c: Color| dim.requires((c,)),
    ensures
        final(canvas).wf(),
        final(canvas).same_shape(old(canvas)),
        forall|p: int|
            0 <= p < old(canvas).size() ==> if canvas2.color(p).is_black() {
                #[trigger] final(canvas).color(p) == old(canvas).color(p)
            } else {
                dim.ensures((old(canvas).color(p),), final(canvas).color(p))
            },
{
    let n = canvas.pixel_count();
    for p in 0..n
        invariant
            pair_ok(canvas, canvas2),
            canvas.same_shape(old(canvas)),
            n == canvas.size(),
            forall|c: Color| dim.requires((c,)),
            forall|q: int|
                0 <= q < p ==> if canvas2.color(q).is_black() {
                    #[trigger] canvas.color(q) == old(canvas).color(q)
                } else {
                    dim.ensures((old(canvas).color(q),), canvas.color(q))
                },
            forall|q: int| p <= q < n ==> #[trigger] canvas.color(q) == old(canvas).color(q),
    {
        let c2 = canvas2.color_at(p);
        if !(c2.r == 0 && c2.g == 0 && c2.b == 0) {
            let c = canvas.color_at(p);
            let d = dim(c);
            canvas.set_color(p, d);
        }
    }
}

/// Night mode: each pixel becomes the red channel of its `dim`med color,
/// with green and blue at zero.
pub fn filter_darken<F: Fn(Color) -> Color>(canvas: &mut Canvas, dim: F)
    requires
        old(canvas).wf(),
        forall|c: Color| dim.requires((c,)),
    ensures
        final(canvas).wf(),
        final(canvas).same_shape(old(canvas)),
        forall|p: int|
            0 <= p < old(canvas).size() ==> {
                &&& (#[trigger] final(canvas).color(p)).g == 0
                &&& final(canvas).color(p).b == 0
                &&& exists|d: Color|
                    dim.ensures((old(canvas).color(p),), d) && d.r == final(canvas).color(p).r
            },
{
    let n = canvas.pixel_count();
    for p in 0..n
        invariant
            canvas.wf(),
            canvas.same_shape(old(canvas)),
            n == canvas.size(),
            forall|c: Color| dim.requires((c,)),
            forall|q: int|
                0 <= q < p ==> {
                    &&& (#[trigger] canvas.color(q)).g == 0
                    &&& canvas.color(q).b == 0
                    &&& exists|d: Color|
                        dim.ensures((old(canvas).color(q),), d) && d.r == canvas.color(q).r
                },
            forall|q: int| p <= q < n ==> #[trigger] canvas.color(q) == old(canvas).color(q),
    {
        let c = canvas.color_at(p);
        let d = dim(c);
        canvas.set_color(p, Color { r: d.r, g: 0, b: 0 });
        assert(dim.ensures((old(canvas).color(p as int),), d));
    }
}

/// Keeps the red channel of every pixel and zeroes green and blue.
pub fn filter_red(canvas: &mut Canvas)
    requires
        old(canvas).wf(),
    ensures
        final(canvas).wf(),
        final(canvas).same_shape(old(canvas)),
        forall|p: int|
            0 <= p < old(canvas).size() ==> #[trigger] final(canvas).color(p) == (Color {
                r: old(canvas).color(p).r,
                g: 0,
                b: 0,
            }),
{
    let n = canvas.pixel_count();
    for p in 0..n
        invariant
            canvas.wf(),
            canvas.same_shape(old(canvas)),
            n == canvas.size(),
            forall|q: int|
                0 <= q < p ==> #[trigger] canvas.color(q) == (Color {
                    r: old(canvas).color(q).r,
                    g: 0,
                    b: 0,
                }),
            forall|q: int| p <= q < n ==> #[trigger] canvas.color(q) == old(canvas).color(q),
    {
        let c = canvas.color_at(p);
        canvas.set_color(p, Color { r: c.r, g: 0, b: 0 });
    }
}

/// Global hue rotation: every pixel is passed through `rotate`, which turns
/// its hue by a fixed angle in a hue-chroma-lightness space.
pub fn filter_hue_shift<F: Fn(Color) -> Color>(canvas: &mut Canvas, rotate: F)
    requires
        old(canvas).wf(),
        forall|c: Color| rotate.requires((c,)),
    ensures
        final(canvas).wf(),
        final(canvas).same_shape(old(canvas)),
        forall|p: int|
            0 <= p < old(canvas).size() ==> rotate.ensures(
                (old(canvas).color(p),),
                #[trigger] final(canvas).color(p),
            ),
{
    let n = canvas.pixel_count();
    for p in 0..n
        invariant
            canvas.wf(),
            canvas.same_shape(old(canvas)),
            n == canvas.size(),
            forall|c: Color| rotate.requires((c,)),
            forall|q: int|
                0 <= q < p ==> rotate.ensures((old(canvas).color(q),), #[trigger] canvas.color(q)),
            forall|q: int| p <= q < n ==> #[trigger] canvas.color(q) == old(canvas).color(q),
    {
        let c = canvas.color_at(p);
        let d = rotate(c);
        canvas.set_color(p, d);
    }
}

} // verus!
