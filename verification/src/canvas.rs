//! The finished picture, filled from what the workers hand back.
//!
//! Each worker returns the pixels of its tile with their places. Once all
//! have ended, the lists are merged: every pixel is put where it says it
//! belongs, a later one over an earlier one at the same place.
use vstd::prelude::*;
pub use crate::raster::Canvas;
use crate::raster::{
    canvas_dimensions, canvas_height, canvas_into_raw, canvas_new, canvas_pixels,
    canvas_put_pixel, canvas_width,
};

verus! {

/// One pixel of a worker's list: where it belongs, and its colour.
#[derive(Clone, Copy, Debug, PartialEq, Eq, Structural)]
pub struct Pixel {
    /// The column.
    pub x: u32,
    /// The row.
    pub y: u32,
    /// Red, out of 255.
    pub red: u8,
    /// Green, out of 255.
    pub green: u8,
    /// Blue, out of 255.
    pub blue: u8,
}

impl Pixel {
    /// Red, green, blue.
    pub open spec fn colour(self) -> (u8, u8, u8) {
        (self.red, self.green, self.blue)
    }
}

/// The pixels `held` of a `width` by `height` picture after `list` was
/// merged into them: each pixel of the list inside the picture is put at its
/// place, in the order of the list; one outside is left out.
pub open spec fn merged(
    held: Map<(int, int), (u8, u8, u8)>,
    width: u32,
    height: u32,
    list: Seq<Pixel>,
) -> Map<(int, int), (u8, u8, u8)>
    decreases list.len(),
{
    if list.len() == 0 {
        held
    } else {
        let before = merged(held, width, height, list.drop_last());
        let pixel = list.last();
        if pixel.x < width && pixel.y < height {
            before.insert((pixel.x as int, pixel.y as int), pixel.colour())
        } else {
            before
        }
    }
}

impl Canvas {
    /// The number of pixels in a row.
    pub open spec fn width(self) -> u32 {
        canvas_width(self)
    }

    /// The number of rows.
    pub open spec fn height(self) -> u32 {
        canvas_height(self)
    }

    /// The pixels, each under its column and row.
    pub open spec fn view(self) -> Map<(int, int), (u8, u8, u8)> {
        canvas_pixels(self)
    }

    /// Whether a picture of this size can be held: the samples of a row fit
    /// the machine's word, and those of the picture fit a vector.
    pub open spec fn holds(width: u32, height: u32) -> bool {
        3 * width <= usize::MAX && 3 * width * height <= isize::MAX
    }

    /// A black picture of the given size, or `None` where a picture of that
    /// size cannot be held.
    pub fn new(width: u32, height: u32) -> (made: Option<Canvas>)
        ensures
            made is Some <==> Self::holds(width, height),
            made matches Some(canvas) ==> {
                &&& canvas.width() == width
                &&& canvas.height() == height
                &&& forall|x: int, y: int|
                    0 <= x < width && 0 <= y < height ==> canvas@.dom().contains((x, y))
                        && canvas@[(x, y)] == (0u8, 0u8, 0u8)
                &&& forall|at: (int, int)|
                    canvas@.dom().contains(at) ==> 0 <= at.0 < width && 0 <= at.1 < height
            },
    {
        let row: u64 = 3 * (width as u64);
        assert(row * height <= 0x3_0000_0000 * 0x1_0000_0000) by (nonlinear_arith)
            requires
                row <= 0x3_0000_0000,
                height <= 0x1_0000_0000,
        ;
        let samples: u128 = (row as u128) * (height as u128);
        assert(samples == 3 * width * height) by (nonlinear_arith)
            requires
                samples == row * height,
                row == 3 * width,
        ;
        if row <= usize::MAX as u64 && samples <= isize::MAX as u128 {
            Some(canvas_new(width, height))
        } else {
            None
        }
    }

    /// Width and height in pixels.
    pub fn dimensions(&self) -> (size: (u32, u32))
        ensures
            size.0 == self.width(),
            size.1 == self.height(),
    {
        canvas_dimensions(self)
    }

    /// Puts one pixel at its place. A pixel outside the picture is left out
    /// and the picture stays as it was; the result says whether it was put.
    pub fn put(&mut self, pixel: Pixel) -> (put: bool)
        ensures
            put == (pixel.x < old(self).width() && pixel.y < old(self).height()),
            final(self).width() == old(self).width(),
            final(self).height() == old(self).height(),
            final(self)@ == merged(old(self)@, old(self).width(), old(self).height(), seq![pixel]),
            put ==> final(self)@ == old(self)@.insert((pixel.x as int, pixel.y as int), pixel.colour()),
            !put ==> final(self)@ == old(self)@,
    {
        let (width, height) = canvas_dimensions(self);
        proof {
            let list = seq![pixel];
            assert(list.drop_last() =~= Seq::empty());
            assert(list.last() == pixel);
            assert(merged(self@, width, height, list.drop_last()) == self@);
        }
        if pixel.x < width && pixel.y < height {
            canvas_put_pixel(self, pixel.x, pixel.y, (pixel.red, pixel.green, pixel.blue));
            true
        } else {
            false
        }
    }

    /// Merges a worker's list into the picture. The result says whether
    /// every pixel of the list lay inside the picture.
    pub fn merge(&mut self, list: &Vec<Pixel>) -> (complete: bool)
        ensures
            final(self).width() == old(self).width(),
            final(self).height() == old(self).height(),
            final(self)@ == merged(old(self)@, old(self).width(), old(self).height(), list@),
            complete == forall|k: int|
                0 <= k < list@.len() ==> list@[k].x < old(self).width() && list@[k].y < old(
                    self,
                ).height(),
    {
        let mut complete: bool = true;
        let mut i: usize = 0;
        while i < list.len()
            invariant
                i <= list.len(),
                self.width() == old(self).width(),
                self.height() == old(self).height(),
                self@ == merged(
                    old(self)@,
                    old(self).width(),
                    old(self).height(),
                    list@.take(i as int),
                ),
                complete == forall|k: int|
                    0 <= k < i ==> list@[k].x < old(self).width() && list@[k].y < old(
                        self,
                    ).height(),
            decreases list.len() - i,
        {
            proof {
                let upto = list@.take(i + 1);
                assert(upto.drop_last() =~= list@.take(i as int));
                assert(upto.last() == list@[i as int]);
            }
            let put = self.put(list[i]);
            if !put {
                complete = false;
            }
            i += 1;
        }
        proof {
            assert(list@.take(i as int) =~= list@);
        }
        complete
    }

    /// The samples of the picture: row by row, each row from left to right,
    /// red, green and blue of a pixel side by side.
    pub fn into_raw(self) -> (samples: Vec<u8>)
        ensures
            samples@.len() == 3 * self.width() * self.height(),
            forall|x: int, y: int|
                0 <= x < self.width() && 0 <= y < self.height() ==> {
                    &&& samples@[(y * self.width() + x) * 3] == (#[trigger] self@[(x, y)]).0
                    &&& samples@[(y * self.width() + x) * 3 + 1] == self@[(x, y)].1
                    &&& samples@[(y * self.width() + x) * 3 + 2] == self@[(x, y)].2
                },
    {
        canvas_into_raw(self)
    }
}

/// Where the list holds a pixel inside the picture for a place, the place
/// shows the colour of the last such pixel; where it holds none, the place
/// is as it was.
pub proof fn lemma_merged_pixel(
    held: Map<(int, int), (u8, u8, u8)>,
    width: u32,
    height: u32,
    list: Seq<Pixel>,
    x: int,
    y: int,
)
    ensures
        (forall|k: int| 0 <= k < list.len() ==> !(list[k].x == x && list[k].y == y)) ==> {
            &&& merged(held, width, height, list).dom().contains((x, y)) == held.dom().contains(
                (x, y),
            )
            &&& merged(held, width, height, list)[(x, y)] == held[(x, y)]
        },
        forall|k: int|
            0 <= k < list.len() && list[k].x == x && list[k].y == y && x < width && y < height && (
            forall|j: int| k < j < list.len() ==> !(list[j].x == x && list[j].y == y)) ==> {
                &&& merged(held, width, height, list).dom().contains((x, y))
                &&& #[trigger] merged(held, width, height, list)[(x, y)] == list[k].colour()
            },
    decreases list.len(),
{
    if list.len() > 0 {
        let before = list.drop_last();
        lemma_merged_pixel(held, width, height, before, x, y);
        assert forall|k: int|
            0 <= k < list.len() && list[k].x == x && list[k].y == y && x < width && y < height && (
            forall|j: int|
                k < j < list.len() ==> !(list[j].x == x && list[j].y == y)) implies merged(
            held,
            width,
            height,
            list,
        ).dom().contains((x, y)) && #[trigger] merged(held, width, height, list)[(x, y)]
            == list[k].colour() by {
            if k < list.len() - 1 {
                assert(before[k] == list[k]);
                assert forall|j: int| k < j < before.len() implies !(before[j].x == x
                    && before[j].y == y) by {
                    assert(before[j] == list[j]);
                }
                assert(!(list[list.len() - 1].x == x && list[list.len() - 1].y == y));
            }
        }
        if forall|k: int| 0 <= k < list.len() ==> !(list[k].x == x && list[k].y == y) {
            assert forall|k: int| 0 <= k < before.len() implies !(before[k].x == x && before[k].y
                == y) by {
                assert(before[k] == list[k]);
            }
            assert(!(list[list.len() - 1].x == x && list[list.len() - 1].y == y));
        }
    }
}

} // verus!
