//! Drawing outlined glyphs for bitmap fonts: the size of a glyph's texture
//! with room for its outline and drop shadow, which offsets fall inside the
//! outline's circle, which pixels of a glyph lie on its edge, and the
//! smoothing of the outline's coverage.

use vstd::prelude::*;

verus! {

/// Whether `(x, y)` lies strictly inside the circle of radius `r` around
/// the origin: `x² + y² < r²`.
pub open spec fn in_circle(x: int, y: int, r: int) -> bool {
    x * x + y * y < r * r
}

/// Whether `(x, y)` lies strictly inside the circle of radius `r` around
/// the origin (the distance `√(x² + y²)` is below `r`). The squares must
/// fit an `i32`, as they are computed in one.
pub fn point_in_circle(x: i32, y: i32, r: u32) -> (b: bool)
    requires
        x * x + y * y <= i32::MAX,
    ensures
        b == in_circle(x as int, y as int, r as int),
{
    let xx: i64 = x as i64;
    let yy: i64 = y as i64;
    assert(0 <= xx * xx) by (nonlinear_arith);
    assert(0 <= yy * yy) by (nonlinear_arith);
    let s: i64 = xx * xx + yy * yy;
    let rr: u64 = r as u64;
    assert(rr * rr <= u64::MAX) by (nonlinear_arith)
        requires
            rr <= u32::MAX,
    ;
    let r2: u64 = rr * rr;
    (s as u64) < r2
}

/// Half the outline's diameter: the outline's width on each side.
pub open spec fn outline_width(outline_dia: u32) -> int {
    outline_dia as int / 2
}

/// How far the drop shadow is moved down and right: twice the outline
/// plus two, when there is an outline.
pub open spec fn shadow_offset(outline_dia: u32) -> int {
    let o = outline_width(outline_dia);
    if o > 0 { o * 2 + 2 } else { 0 }
}

/// The extra room the blurred shadow needs: two pixels, when there is an
/// outline.
pub open spec fn shadow_pad(outline_dia: u32) -> int {
    if outline_width(outline_dia) > 0 { 2 } else { 0 }
}

/// One side of a glyph's texture: the glyph's side, the outline on both
/// sides, and the room for the shadow.
pub open spec fn texture_side(side: int, outline_dia: u32) -> int {
    side + outline_width(outline_dia) * 2 + shadow_offset(outline_dia) + shadow_pad(outline_dia)
}

/// The texture a glyph of `width` by `height` pixels is drawn into, with
/// its outline and shadow. The sizes must fit a `u32`.
pub fn glyph_texture_size(width: u32, height: u32, outline_dia: u32) -> (r: (u32, u32))
    requires
        texture_side(width as int, outline_dia) <= u32::MAX,
        texture_side(height as int, outline_dia) <= u32::MAX,
    ensures
        r.0 == texture_side(width as int, outline_dia),
        r.1 == texture_side(height as int, outline_dia),
{
    let outline = outline_dia / 2;
    let offset: u32 = if outline > 0 { outline * 2 + 2 } else { 0 };
    let pad: u32 = if outline > 0 { 2 } else { 0 };
    (width + outline * 2 + offset + pad, height + outline * 2 + offset + pad)
}

/// The coverage of pixel `i` of a glyph bitmap, or none (0) outside it.
pub open spec fn coverage(b: Seq<u8>, i: int) -> u8 {
    if 0 <= i < b.len() { b[i] } else { 0 }
}

/// Whether pixel `ix` of a `w`-wide, `h`-high glyph bitmap (rows one after
/// another) is on the glyph's edge: a fully covered pixel with a neighbour
/// that is not, or a pixel not fully covered with a neighbour that is. The
/// neighbours are the pixels just before and after it in the bitmap (the
/// one after the last of a row is the first of the next) and those one row
/// above and below; outside the bitmap counts as uncovered.
pub open spec fn on_edge(b: Seq<u8>, w: int, h: int, ix: int) -> bool {
    let next = if ix + 1 < w * h { coverage(b, ix + 1) } else { 0u8 };
    let prev = if ix > 0 { coverage(b, ix - 1) } else { 0u8 };
    let above = if ix >= w { coverage(b, ix - w) } else { 0u8 };
    let below = if ix < w * (h - 1) { coverage(b, ix + w) } else { 0u8 };
    if coverage(b, ix) == 255 {
        prev != 255 || next != 255 || above != 255 || below != 255
    } else {
        prev == 255 || next == 255 || above == 255 || below == 255
    }
}

/// Whether pixel `ix` of the glyph bitmap is on its edge (see `on_edge`).
pub fn is_edge_pixel(bitmap: &Vec<u8>, width: usize, height: usize, ix: usize) -> (r: bool)
    requires
        bitmap@.len() == width * height,
        ix < width * height,
    ensures
        r == on_edge(bitmap@, width as int, height as int, ix as int),
{
    let n = bitmap.len();
    assert(height >= 1) by (nonlinear_arith)
        requires
            ix < width * height,
    ;
    assert(width * (height - 1) == width * height - width) by (nonlinear_arith);
    let row_end_limit: usize = n - width;
    let next: u8 = if ix + 1 < n { bitmap[ix + 1] } else { 0 };
    let prev: u8 = if ix > 0 { bitmap[ix - 1] } else { 0 };
    let above: u8 = if ix >= width { bitmap[ix - width] } else { 0 };
    let below: u8 = if ix < row_end_limit { bitmap[ix + width] } else { 0 };
    if bitmap[ix] == 255 {
        prev != 255 || next != 255 || above != 255 || below != 255
    } else {
        prev == 255 || next == 255 || above == 255 || below == 255
    }
}

/// `(a, b)` comes before `(c, d)` when visiting columns left to right and
/// each column top to bottom.
pub open spec fn visited_before(a: int, b: int, c: int, d: int) -> bool {
    a < c || (a == c && b < d)
}

/// Whether pixel `(x, y)` of the bitmap is on the glyph's edge.
pub open spec fn edge_at(b: Seq<u8>, w: int, h: int, x: int, y: int) -> bool {
    0 <= x < w && 0 <= y < h && on_edge(b, w, h, x + y * w)
}

/// The pixels on the glyph's edge, around each of which the outline is
/// drawn: exactly the `(x, y)` with `edge_at`, each once, in the order the
/// columns are visited left to right, each top to bottom.
pub fn edge_pixels(bitmap: &Vec<u8>, width: usize, height: usize) -> (r: Vec<(usize, usize)>)
    requires
        bitmap@.len() == width * height,
    ensures
        forall|i: int| 0 <= i < r@.len() ==> edge_at(bitmap@, width as int, height as int,
            #[trigger] r@[i].0 as int, r@[i].1 as int),
        forall|x: int, y: int| #[trigger] edge_at(bitmap@, width as int, height as int, x, y)
            ==> exists|i: int| 0 <= i < r@.len() && r@[i] == (x as usize, y as usize),
        forall|i: int, j: int| 0 <= i < j < r@.len() ==> visited_before(
            #[trigger] r@[i].0 as int, r@[i].1 as int, #[trigger] r@[j].0 as int, r@[j].1 as int),
{
    let ghost b = bitmap@;
    let ghost w = width as int;
    let ghost h = height as int;
    let mut out: Vec<(usize, usize)> = Vec::new();
    let mut x: usize = 0;
    while x < width
        invariant
            x <= width,
            bitmap@ == b,
            w == width,
            h == height,
            b.len() == w * h,
            forall|i: int| 0 <= i < out@.len() ==> edge_at(b, w, h, #[trigger] out@[i].0 as int, out@[i].1 as int),
            forall|i: int| 0 <= i < out@.len() ==> (#[trigger] out@[i]).0 < x,
            forall|xx: int, yy: int| #[trigger] edge_at(b, w, h, xx, yy) && xx < x
                ==> exists|i: int| 0 <= i < out@.len() && out@[i] == (xx as usize, yy as usize),
            forall|i: int, j: int| 0 <= i < j < out@.len() ==> visited_before(
                #[trigger] out@[i].0 as int, out@[i].1 as int, #[trigger] out@[j].0 as int, out@[j].1 as int),
        decreases width - x,
    {
        let mut y: usize = 0;
        while y < height
            invariant
                x < width,
                y <= height,
                bitmap@ == b,
                w == width,
                h == height,
                b.len() == w * h,
                forall|i: int| 0 <= i < out@.len() ==> edge_at(b, w, h, #[trigger] out@[i].0 as int, out@[i].1 as int),
                forall|i: int| 0 <= i < out@.len() ==> visited_before(
                    (#[trigger] out@[i]).0 as int, out@[i].1 as int, x as int, y as int),
                forall|xx: int, yy: int| #[trigger] edge_at(b, w, h, xx, yy) && visited_before(xx, yy, x as int, y as int)
                    ==> exists|i: int| 0 <= i < out@.len() && out@[i] == (xx as usize, yy as usize),
                forall|i: int, j: int| 0 <= i < j < out@.len() ==> visited_before(
                    #[trigger] out@[i].0 as int, out@[i].1 as int, #[trigger] out@[j].0 as int, out@[j].1 as int),
            decreases height - y,
        {
            let n: usize = bitmap.len();
            assert(y * width <= n && x + y * width < n) by (nonlinear_arith)
                requires
                    x < width,
                    y < height,
                    n == width * height,
            ;
            let ix = x + y * width;
            if is_edge_pixel(bitmap, width, height, ix) {
                let ghost before = out@;
                out.push((x, y));
                assert forall|xx: int, yy: int| #[trigger] edge_at(b, w, h, xx, yy)
                    && visited_before(xx, yy, x as int, y + 1) implies
                    exists|i: int| 0 <= i < out@.len() && out@[i] == (xx as usize, yy as usize) by {
                    if xx == x && yy == y {
                        assert(out@[before.len() as int] == (xx as usize, yy as usize));
                    } else {
                        let i = choose|i: int| 0 <= i < before.len() && before[i] == (xx as usize, yy as usize);
                        assert(out@[i] == before[i]);
                    }
                }
            } else {
                assert forall|xx: int, yy: int| #[trigger] edge_at(b, w, h, xx, yy)
                    && visited_before(xx, yy, x as int, y + 1) implies
                    exists|i: int| 0 <= i < out@.len() && out@[i] == (xx as usize, yy as usize) by {
                    if xx == x && yy == y {
                        assert(!edge_at(b, w, h, xx, yy));
                    }
                }
            }
            y = y + 1;
        }
        x = x + 1;
    }
    out
}

/// Where pixel `(x, y)` of a `w`-wide image is kept, rows one after another.
pub open spec fn idx(w: int, x: int, y: int) -> int {
    y * w + x
}

/// The coverage of pixel `(x, y)` of a `w`-wide coverage map.
pub open spec fn cov(g: Seq<u8>, w: int, x: int, y: int) -> int {
    g[idx(w, x, y)] as int
}

/// The smoothed outline coverage of pixel `(x, y)`: half its own, plus an
/// eighth of each of its four neighbours inside the `w` by `h` image (each
/// part rounded down).
pub open spec fn smoothed(g: Seq<u8>, w: int, h: int, x: int, y: int) -> int {
    cov(g, w, x, y) / 2
        + (if x + 1 < w { cov(g, w, x + 1, y) / 8 } else { 0 })
        + (if x > 0 { cov(g, w, x - 1, y) / 8 } else { 0 })
        + (if y + 1 < h { cov(g, w, x, y + 1) / 8 } else { 0 })
        + (if y > 0 { cov(g, w, x, y - 1) / 8 } else { 0 })
}

/// Pixel positions inside a `w` by `h` image are distinct places in it.
proof fn lemma_idx_bounds(w: int, h: int, x: int, y: int)
    requires
        0 <= x < w,
        0 <= y < h,
    ensures
        y * w <= idx(w, x, y) < (y + 1) * w,
        (y + 1) * w <= w * h,
        idx(w, x, y) < w * h,
        idx(w, x, y + 1) == idx(w, x, y) + w,
        idx(w, x, y - 1) == idx(w, x, y) - w,
{
    assert((y + 1) * w <= w * h) by (nonlinear_arith)
        requires
            0 <= x < w,
            0 <= y < h,
    ;
    assert((y + 1) * w == y * w + w) by (nonlinear_arith);
    assert((y - 1) * w == y * w - w) by (nonlinear_arith);
}

/// Rows before row `y` lie before it.
proof fn lemma_idx_rows(w: int, y: int, xx: int, yy: int)
    requires
        0 <= xx < w,
        0 <= yy < y,
    ensures
        idx(w, xx, yy) < y * w,
{
    assert((yy + 1) * w <= y * w) by (nonlinear_arith)
        requires
            0 <= yy < y,
            0 <= xx < w,
    ;
    assert((yy + 1) * w == yy * w + w) by (nonlinear_arith);
}

/// The outline's coverage smoothed (see `smoothed`), for a `width` by
/// `height` coverage map kept row after row.
pub fn smooth_outline(coverage: &Vec<u8>, width: usize, height: usize) -> (r: Vec<u8>)
    requires
        coverage@.len() == width * height,
    ensures
        r@.len() == width * height,
        forall|x: int, y: int| 0 <= x < width && 0 <= y < height ==>
            #[trigger] r@[idx(width as int, x, y)] as int == smoothed(coverage@, width as int, height as int, x, y),
{
    let ghost g = coverage@;
    let ghost w = width as int;
    let ghost h = height as int;
    let n: usize = coverage.len();
    let mut out: Vec<u8> = Vec::new();
    let mut y: usize = 0;
    proof {
        assert(0 * w == 0) by (nonlinear_arith);
    }
    while y < height
        invariant
            y <= height,
            coverage@ == g,
            w == width,
            h == height,
            n == g.len(),
            g.len() == w * h,
            out@.len() == y * w,
            forall|xx: int, yy: int| 0 <= xx < w && 0 <= yy < y ==>
                #[trigger] out@[idx(w, xx, yy)] as int == smoothed(g, w, h, xx, yy),
        decreases height - y,
    {
        let mut x: usize = 0;
        while x < width
            invariant
                x <= width,
                y < height,
                coverage@ == g,
                w == width,
                h == height,
                n == g.len(),
                g.len() == w * h,
                out@.len() == y * w + x,
                forall|xx: int, yy: int| 0 <= xx < w && 0 <= yy < y ==>
                    #[trigger] out@[idx(w, xx, yy)] as int == smoothed(g, w, h, xx, yy),
                forall|xx: int| 0 <= xx < x ==>
                    #[trigger] out@[idx(w, xx, y as int)] as int == smoothed(g, w, h, xx, y as int),
            decreases width - x,
        {
            proof { lemma_idx_bounds(w, h, x as int, y as int); }
            let k: usize = out.len();
            assert(k == idx(w, x as int, y as int));
            let centre: u8 = coverage[k] / 2;
            let right: u8 = if x + 1 < width { coverage[k + 1] / 8 } else { 0 };
            let left: u8 = if x > 0 { coverage[k - 1] / 8 } else { 0 };
            let below: u8 = if y + 1 < height {
                proof { lemma_idx_bounds(w, h, x as int, y + 1); }
                coverage[k + width] / 8
            } else { 0 };
            let above: u8 = if y > 0 { coverage[k - width] / 8 } else { 0 };
            let value: u8 = centre + right + left + below + above;
            let ghost before = out@;
            out.push(value);
            proof {
                assert(out@[idx(w, x as int, y as int)] as int == smoothed(g, w, h, x as int, y as int));
                assert forall|xx: int, yy: int| 0 <= xx < w && 0 <= yy < y implies
                    #[trigger] out@[idx(w, xx, yy)] as int == smoothed(g, w, h, xx, yy) by {
                    lemma_idx_rows(w, y as int, xx, yy);
                    assert(out@[idx(w, xx, yy)] == before[idx(w, xx, yy)]);
                }
                assert forall|xx: int| 0 <= xx < x + 1 implies
                    #[trigger] out@[idx(w, xx, y as int)] as int == smoothed(g, w, h, xx, y as int) by {
                    if xx < x {
                        assert(out@[idx(w, xx, y as int)] == before[idx(w, xx, y as int)]);
                    }
                }
            }
            x = x + 1;
        }
        proof {
            assert((y + 1) * w == y * w + w) by (nonlinear_arith);
            assert forall|xx: int, yy: int| 0 <= xx < w && 0 <= yy < y + 1 implies
                #[trigger] out@[idx(w, xx, yy)] as int == smoothed(g, w, h, xx, yy) by {
                if yy == y {
                    assert(out@[idx(w, xx, y as int)] as int == smoothed(g, w, h, xx, y as int));
                }
            }
        }
        y = y + 1;
    }
    proof {
        assert(height * w == w * h) by (nonlinear_arith)
            requires
                w == width,
                h == height,
        ;
    }
    out
}

} // verus!
