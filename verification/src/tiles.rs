//! Cutting the image plane into tiles that are rendered apart.
//!
//! For `n` workers the plane is cut into `n` columns and `n` rows, a grid of
//! `n * n` tiles. Each column is `width / n` pixels wide and each row
//! `height / n` pixels high, but for the last column and the last row, which
//! take what the division leaves over. So every pixel lies in exactly one
//! tile, whatever the sizes.
use vstd::prelude::*;
use vstd::arithmetic::div_mod::{lemma_fundamental_div_mod, lemma_fundamental_div_mod_converse};
use vstd::arithmetic::mul::{lemma_mul_inequality, lemma_mul_is_commutative};

verus! {

/// A rectangle of pixels: columns `x0 .. x1` and rows `y0 .. y1`, the upper
/// bounds left out.
#[derive(Clone, Copy, Debug, PartialEq, Eq, Structural)]
pub struct Tile {
    pub x0: u32,
    pub y0: u32,
    pub x1: u32,
    pub y1: u32,
}

impl Tile {
    /// Whether pixel `(x, y)` lies in the tile.
    pub open spec fn contains(self, x: int, y: int) -> bool {
        self.x0 <= x < self.x1 && self.y0 <= y < self.y1
    }

    /// Whether pixel `(x, y)` lies in the tile.
    pub fn holds(&self, x: u32, y: u32) -> (r: bool)
        ensures
            r == self.contains(x as int, y as int),
    {
        self.x0 <= x && x < self.x1 && self.y0 <= y && y < self.y1
    }
}

/// Where strip `i` of `parts` begins along an axis of `extent` pixels.
pub open spec fn strip_start(extent: int, parts: int, i: int) -> int {
    i * (extent / parts)
}

/// Where strip `i` of `parts` ends: where the next begins, and the last at
/// the end of the axis.
pub open spec fn strip_end(extent: int, parts: int, i: int) -> int {
    if i == parts - 1 {
        extent
    } else {
        (i + 1) * (extent / parts)
    }
}

/// The strip that holds position `p`.
pub open spec fn strip_of(extent: int, parts: int, p: int) -> int {
    if extent / parts == 0 || p / (extent / parts) >= parts {
        parts - 1
    } else {
        p / (extent / parts)
    }
}

/// The tile in `column` and `row` of the grid.
pub open spec fn tile_at(width: int, height: int, workers: int, column: int, row: int) -> Tile {
    Tile {
        x0: strip_start(width, workers, column) as u32,
        y0: strip_start(height, workers, row) as u32,
        x1: strip_end(width, workers, column) as u32,
        y1: strip_end(height, workers, row) as u32,
    }
}

/// The tiles of a `width` by `height` image for `workers` workers, row by
/// row, each row from left to right.
pub open spec fn tiling(width: u32, height: u32, workers: usize) -> Seq<Tile> {
    Seq::new(
        (workers * workers) as nat,
        |k: int| tile_at(width as int, height as int, workers as int, k % (workers as int), k / (
            workers as int)),
    )
}

/// The index in `tiling` of the tile that holds pixel `(x, y)`.
pub open spec fn owner(width: u32, height: u32, workers: usize, x: int, y: int) -> int {
    strip_of(height as int, workers as int, y) * workers + strip_of(
        width as int,
        workers as int,
        x,
    )
}

/// A strip lies on the axis, and the strips follow one another.
pub proof fn lemma_strip_bounds(extent: int, parts: int, i: int)
    requires
        0 <= extent,
        1 <= parts,
        0 <= i < parts,
    ensures
        0 <= strip_start(extent, parts, i) <= strip_end(extent, parts, i) <= extent,
        i + 1 < parts ==> strip_end(extent, parts, i) == strip_start(extent, parts, i + 1),
        i == 0 ==> strip_start(extent, parts, i) == 0,
{
    let step = extent / parts;
    lemma_fundamental_div_mod(extent, parts);
    assert(0 <= step) by (nonlinear_arith)
        requires
            step == extent / parts,
            0 <= extent,
            1 <= parts,
    ;
    assert(parts * step <= extent) by (nonlinear_arith)
        requires
            extent == parts * step + extent % parts,
            0 <= extent % parts,
    ;
    assert(0 <= i * step && i * step <= (i + 1) * step && (i + 1) * step <= parts * step)
        by (nonlinear_arith)
        requires
            0 <= step,
            0 <= i < parts,
    ;
}

/// Strips are in order: an earlier one ends where a later one begins, or
/// before.
pub proof fn lemma_strips_ordered(extent: int, parts: int, i: int, j: int)
    requires
        0 <= extent,
        1 <= parts,
        0 <= i < j < parts,
    ensures
        strip_end(extent, parts, i) <= strip_start(extent, parts, j),
{
    let step = extent / parts;
    lemma_strip_bounds(extent, parts, i);
    assert((i + 1) * step <= j * step) by (nonlinear_arith)
        requires
            0 <= step,
            i + 1 <= j,
    ;
}

/// Every position of the axis lies in the strip that `strip_of` names, and
/// in no other.
pub proof fn lemma_strip_of(extent: int, parts: int, p: int, i: int)
    requires
        1 <= parts,
        0 <= p < extent,
        0 <= i < parts,
    ensures
        0 <= strip_of(extent, parts, p) < parts,
        (strip_start(extent, parts, i) <= p < strip_end(extent, parts, i)) <==> i == strip_of(
            extent,
            parts,
            p,
        ),
{
    let step = extent / parts;
    let s = strip_of(extent, parts, p);
    lemma_strip_bounds(extent, parts, i);
    if step == 0 {
        assert(i * step == 0 && (i + 1) * step == 0) by (nonlinear_arith)
            requires
                step == 0,
        ;
    } else {
        let q = p / step;
        lemma_fundamental_div_mod(p, step);
        assert(0 <= q) by (nonlinear_arith)
            requires
                q == p / step,
                0 <= p,
                0 < step,
        ;
        assert(q * step <= p < (q + 1) * step) by (nonlinear_arith)
            requires
                p == step * q + p % step,
                0 <= p % step < step,
        ;
        assert(0 <= s < parts);
        // the named strip holds the position
        if q >= parts {
            assert((parts - 1) * step <= q * step) by (nonlinear_arith)
                requires
                    parts - 1 <= q,
                    0 <= step,
            ;
        } else if q < parts - 1 {
            assert(strip_end(extent, parts, q) == (q + 1) * step);
        } else {
            assert(q == parts - 1);
        }
        assert(strip_start(extent, parts, s) <= p < strip_end(extent, parts, s));
    }
    lemma_strip_bounds(extent, parts, s);
    if i < s {
        lemma_strips_ordered(extent, parts, i, s);
    }
    if s < i {
        lemma_strips_ordered(extent, parts, s, i);
    }
}

/// Every pixel of the image lies in exactly one tile: in the one that
/// `owner` names, and in no other. No pixel is left out and none is handed to
/// two workers.
pub proof fn lemma_every_pixel_has_one_tile(
    width: u32,
    height: u32,
    workers: usize,
    x: int,
    y: int,
    k: int,
)
    requires
        1 <= workers,
        0 <= x < width,
        0 <= y < height,
        0 <= k < workers * workers,
    ensures
        0 <= owner(width, height, workers, x, y) < workers * workers,
        tiling(width, height, workers)[k].contains(x, y) <==> k == owner(
            width,
            height,
            workers,
            x,
            y,
        ),
{
    let n = workers as int;
    let column = k % n;
    let row = k / n;
    lemma_fundamental_div_mod(k, n);
    lemma_mul_is_commutative(n, row);
    assert(0 <= row < n) by (nonlinear_arith)
        requires
            k == row * n + column,
            0 <= column < n,
            0 <= k < n * n,
    ;
    lemma_strip_of(width as int, n, x, column);
    lemma_strip_of(height as int, n, y, row);
    lemma_strip_bounds(width as int, n, column);
    lemma_strip_bounds(height as int, n, row);
    let c = strip_of(width as int, n, x);
    let r = strip_of(height as int, n, y);
    assert(0 <= r * n + c < n * n) by (nonlinear_arith)
        requires
            0 <= r < n,
            0 <= c < n,
    ;
    if k == r * n + c {
        lemma_fundamental_div_mod_converse(k, n, r, c);
    }
}

/// No tile reaches outside the image.
pub proof fn lemma_tiles_stay_inside(width: u32, height: u32, workers: usize, k: int)
    requires
        1 <= workers,
        0 <= k < workers * workers,
    ensures
        tiling(width, height, workers)[k].x0 <= tiling(width, height, workers)[k].x1 <= width,
        tiling(width, height, workers)[k].y0 <= tiling(width, height, workers)[k].y1 <= height,
{
    let n = workers as int;
    let column = k % n;
    let row = k / n;
    lemma_fundamental_div_mod(k, n);
    lemma_mul_is_commutative(n, row);
    assert(0 <= row < n) by (nonlinear_arith)
        requires
            k == row * n + column,
            0 <= column < n,
            0 <= k < n * n,
    ;
    lemma_strip_bounds(width as int, n, column);
    lemma_strip_bounds(height as int, n, row);
}

/// Where strip `i` of `parts` begins and ends along an axis of `extent`
/// pixels.
fn strip(extent: u32, parts: usize, i: usize) -> (ends: (u32, u32))
    requires
        i < parts,
    ensures
        ends.0 == strip_start(extent as int, parts as int, i as int),
        ends.1 == strip_end(extent as int, parts as int, i as int),
{
    proof {
        lemma_strip_bounds(extent as int, parts as int, i as int);
    }
    let step: u64 = (extent as u64) / (parts as u64);
    assert(step <= extent) by (nonlinear_arith)
        requires
            step == (extent as int) / (parts as int),
            1 <= parts,
            0 <= extent,
    ;
    let start: u64 = (i as u64) * step;
    let end: u64 = if i == parts - 1 {
        extent as u64
    } else {
        assert((i + 1) * step <= u64::MAX) by {
            assert(strip_end(extent as int, parts as int, i as int) == (i + 1) * step);
        }
        (i as u64 + 1) * step
    };
    (start as u32, end as u32)
}

/// Cuts a `width` by `height` image into the tiles of `workers` workers: a
/// grid of `workers` columns and as many rows, listed row by row. The
/// remainder of each division goes to the last column and the last row.
pub fn partition(width: u32, height: u32, workers: usize) -> (tiles: Vec<Tile>)
    requires
        1 <= workers,
    ensures
        tiles@ == tiling(width, height, workers),
{
    let mut tiles: Vec<Tile> = Vec::new();
    let mut row: usize = 0;
    while row < workers
        invariant
            1 <= workers,
            row <= workers,
            tiles@.len() == row * workers,
            forall|k: int|
                0 <= k < tiles@.len() ==> tiles@[k] == tile_at(
                    width as int,
                    height as int,
                    workers as int,
                    k % (workers as int),
                    k / (workers as int),
                ),
        decreases workers - row,
    {
        let rows = strip(height, workers, row);
        let mut column: usize = 0;
        while column < workers
            invariant
                1 <= workers,
                row < workers,
                column <= workers,
                rows.0 == strip_start(height as int, workers as int, row as int),
                rows.1 == strip_end(height as int, workers as int, row as int),
                tiles@.len() == row * workers + column,
                forall|k: int|
                    0 <= k < tiles@.len() ==> tiles@[k] == tile_at(
                        width as int,
                        height as int,
                        workers as int,
                        k % (workers as int),
                        k / (workers as int),
                    ),
            decreases workers - column,
        {
            let columns = strip(width, workers, column);
            proof {
                lemma_fundamental_div_mod_converse(
                    row * workers + column,
                    workers as int,
                    row as int,
                    column as int,
                );
            }
            tiles.push(Tile { x0: columns.0, y0: rows.0, x1: columns.1, y1: rows.1 });
            column += 1;
        }
        assert(row * workers + workers == (row + 1) * workers) by (nonlinear_arith);
        row += 1;
    }
    assert(tiles@ =~= tiling(width, height, workers));
    tiles
}

} // verus!
