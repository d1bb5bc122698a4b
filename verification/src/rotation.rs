//! Rotating an image by quarter turns, as the image crate's `rotate90`, `rotate180`
//! and `rotate270` do.
use vstd::prelude::*;
use vstd::arithmetic::div_mod::{lemma_fundamental_div_mod_converse, lemma_div_pos_is_pos};

use crate::errors::{ServeError, BAD_REQUEST};
use crate::text::{decimal, decimal_text};
use vstd::string::StringExecFns;

verus! {

/// A clockwise rotation by a whole number of quarter turns.
#[derive(Debug, Clone, Copy, PartialEq, Eq, Structural)]
pub enum Rotation {
    Upright,
    Quarter,
    Half,
    ThreeQuarters,
}

/// A grid of pixels, row by row; each pixel is one packed RGBA value.
pub struct PixelGrid {
    pub width: nat,
    pub height: nat,
    pub pixels: Seq<u32>,
}

impl PixelGrid {
    /// The grid holds exactly one pixel per position.
    pub open spec fn wf(self) -> bool {
        self.pixels.len() == self.width * self.height
    }

    /// The pixel at column `x` of row `y`.
    pub open spec fn at(self, x: int, y: int) -> u32 {
        self.pixels[y * self.width + x]
    }
}

/// An image in memory: its size and its pixels row by row, one packed RGBA value each.
#[derive(Debug, Clone)]
pub struct RgbaPixels {
    pub width: u32,
    pub height: u32,
    pub pixels: Vec<u32>,
}

impl RgbaPixels {
    pub open spec fn view(&self) -> PixelGrid {
        PixelGrid { width: self.width as nat, height: self.height as nat, pixels: self.pixels@ }
    }

    /// The image holds exactly one pixel per position.
    pub open spec fn wf(&self) -> bool {
        self.view().wf()
    }
}

/// The size of the image after the rotation: quarter turns swap width and height.
pub open spec fn rotated_size(width: nat, height: nat, rotation: Rotation) -> (nat, nat) {
    match rotation {
        Rotation::Upright | Rotation::Half => (width, height),
        Rotation::Quarter | Rotation::ThreeQuarters => (height, width),
    }
}

/// Where the pixel at `(x, y)` of the rotated image comes from in the source image
/// (of size `width` by `height`). A quarter turn puts source pixel `(x, y)` at
/// `(height - 1 - y, x)`; three quarters put it at `(y, width - 1 - x)`.
pub open spec fn source_of(width: nat, height: nat, rotation: Rotation, x: int, y: int) -> (int, int) {
    match rotation {
        Rotation::Upright => (x, y),
        Rotation::Quarter => (y, height - 1 - x),
        Rotation::Half => (width - 1 - x, height - 1 - y),
        Rotation::ThreeQuarters => (width - 1 - y, x),
    }
}

/// The rotated image.
pub open spec fn rotated(g: PixelGrid, rotation: Rotation) -> PixelGrid {
    let (w, h) = rotated_size(g.width, g.height, rotation);
    PixelGrid {
        width: w,
        height: h,
        pixels: Seq::new(
            w * h,
            |i: int|
                {
                    let (sx, sy) = source_of(g.width, g.height, rotation, i % (w as int), i / (w as int));
                    g.at(sx, sy)
                },
        ),
    }
}

proof fn lemma_index_in_grid(x: int, y: int, w: int, h: int)
    requires
        0 <= x < w,
        0 <= y < h,
    ensures
        0 <= y * w + x < w * h,
{
    assert(0 <= y * w) by (nonlinear_arith)
        requires
            0 <= y,
            0 <= w,
    ;
    assert(y * w + x < w * h) by (nonlinear_arith)
        requires
            0 <= x < w,
            0 <= y < h,
    ;
}

proof fn lemma_index_parts(x: int, y: int, w: int)
    requires
        0 <= x < w,
        0 <= y,
    ensures
        (y * w + x) % w == x,
        (y * w + x) / w == y,
{
    lemma_fundamental_div_mod_converse(y * w + x, w, y, x);
}

/// The rotated image, as the image crate's rotations make it.
pub fn rotate(img: &RgbaPixels, rotation: Rotation) -> (out: RgbaPixels)
    requires
        img.wf(),
    ensures
        out.wf(),
        out.view() == rotated(img.view(), rotation),
{
    let w0 = img.width;
    let h0 = img.height;
    let (w1, h1) = match rotation {
        Rotation::Upright | Rotation::Half => (w0, h0),
        Rotation::Quarter | Rotation::ThreeQuarters => (h0, w0),
    };
    let ghost g = img.view();
    let ghost target = rotated(g, rotation);
    proof {
        assert(w1 * h1 == w0 * h0) by (nonlinear_arith)
            requires
                (w1 == w0 && h1 == h0) || (w1 == h0 && h1 == w0),
        ;
    }
    let n: usize = img.pixels.len();
    let mut out: Vec<u32> = Vec::new();
    let mut y: u32 = 0;
    while y < h1
        invariant
            img.wf(),
            g == img.view(),
            target == rotated(g, rotation),
            w0 == img.width,
            h0 == img.height,
            (w1 as nat, h1 as nat) == rotated_size(w0 as nat, h0 as nat, rotation),
            w1 * h1 == w0 * h0,
            n == img.pixels@.len(),
            y <= h1,
            out@.len() == y * w1,
            forall|i: int| 0 <= i < out@.len() ==> out@[i] == #[trigger] target.pixels[i],
        decreases h1 - y,
    {
        let mut x: u32 = 0;
        while x < w1
            invariant
                img.wf(),
                g == img.view(),
                target == rotated(g, rotation),
                w0 == img.width,
                h0 == img.height,
                (w1 as nat, h1 as nat) == rotated_size(w0 as nat, h0 as nat, rotation),
                w1 * h1 == w0 * h0,
                n == img.pixels@.len(),
                y < h1,
                x <= w1,
                out@.len() == y * w1 + x,
                forall|i: int| 0 <= i < out@.len() ==> out@[i] == #[trigger] target.pixels[i],
            decreases w1 - x,
        {
            let (sx, sy) = match rotation {
                Rotation::Upright => (x, y),
                Rotation::Quarter => (y, h0 - 1 - x),
                Rotation::Half => (w0 - 1 - x, h0 - 1 - y),
                Rotation::ThreeQuarters => (w0 - 1 - y, x),
            };
            proof {
                lemma_index_in_grid(sx as int, sy as int, w0 as int, h0 as int);
                lemma_index_in_grid(x as int, y as int, w1 as int, h1 as int);
                lemma_index_parts(x as int, y as int, w1 as int);
            }
            let k: usize = (sy as usize) * (w0 as usize) + (sx as usize);
            out.push(img.pixels[k]);
            x = x + 1;
            proof {
                assert(out@.len() == y * w1 + x);
            }
        }
        y = y + 1;
        proof {
            assert(out@.len() == y * w1) by (nonlinear_arith)
                requires
                    out@.len() == (y - 1) * w1 + w1,
            ;
        }
    }
    let result = RgbaPixels { width: w1, height: h1, pixels: out };
    proof {
        assert(y * w1 == w1 * h1) by (nonlinear_arith)
            requires
                y == h1,
        ;
        assert(result.view().pixels =~= target.pixels);
    }
    result
}

proof fn lemma_split_index(i: int, w: int, h: int)
    requires
        0 <= i < w * h,
        0 < w,
    ensures
        0 <= i % w < w,
        0 <= i / w < h,
        i == (i / w) * w + i % w,
{
    vstd::arithmetic::div_mod::lemma_fundamental_div_mod(i, w);
    vstd::arithmetic::div_mod::lemma_mod_pos_bound(i, w);
    lemma_div_pos_is_pos(i, w);
    assert(w * (i / w) == (i / w) * w) by (nonlinear_arith);
    if i / w >= h {
        assert((i / w) * w >= h * w) by (nonlinear_arith)
            requires
                i / w >= h,
                w > 0,
        ;
        assert(h * w == w * h) by (nonlinear_arith);
    }
}

proof fn lemma_pixel_of_rotated(g: PixelGrid, rotation: Rotation, x: int, y: int)
    requires
        g.wf(),
        0 <= x < rotated(g, rotation).width,
        0 <= y < rotated(g, rotation).height,
    ensures
        rotated(g, rotation).at(x, y) == g.at(
            source_of(g.width, g.height, rotation, x, y).0,
            source_of(g.width, g.height, rotation, x, y).1,
        ),
{
    let r = rotated(g, rotation);
    lemma_index_in_grid(x, y, r.width as int, r.height as int);
    lemma_index_parts(x, y, r.width as int);
}

/// A quarter turn followed by three more quarter turns gives back the image.
pub proof fn lemma_quarter_turns_undo(g: PixelGrid)
    requires
        g.wf(),
    ensures
        rotated(rotated(g, Rotation::Quarter), Rotation::ThreeQuarters) == g,
{
    let g1 = rotated(g, Rotation::Quarter);
    let g2 = rotated(g1, Rotation::ThreeQuarters);
    let w = g.width as int;
    let h = g.height as int;
    assert(g1.wf()) by {
        assert(h * w == w * h) by (nonlinear_arith);
    }
    assert(g2.pixels.len() == g.pixels.len()) by {
        assert(h * w == w * h) by (nonlinear_arith);
    }
    assert forall|i: int| 0 <= i < g.pixels.len() implies g2.pixels[i] == g.pixels[i] by {
        if w > 0 {
            lemma_split_index(i, w, h);
            let x = i % w;
            let y = i / w;
            lemma_pixel_of_rotated(g1, Rotation::ThreeQuarters, x, y);
            lemma_pixel_of_rotated(g, Rotation::Quarter, h - 1 - y, x);
            lemma_index_in_grid(x, y, w, h);
            lemma_index_parts(x, y, w);
            assert(g2.at(x, y) == g2.pixels[i]);
        } else {
            assert(w * h == 0) by (nonlinear_arith)
                requires
                    w == 0,
            ;
        }
    }
    assert(g2.pixels =~= g.pixels);
}

/// Two half turns give back the image.
pub proof fn lemma_half_turns_undo(g: PixelGrid)
    requires
        g.wf(),
    ensures
        rotated(rotated(g, Rotation::Half), Rotation::Half) == g,
{
    let g1 = rotated(g, Rotation::Half);
    let g2 = rotated(g1, Rotation::Half);
    let w = g.width as int;
    let h = g.height as int;
    assert forall|i: int| 0 <= i < g.pixels.len() implies g2.pixels[i] == g.pixels[i] by {
        if w > 0 {
            lemma_split_index(i, w, h);
            let x = i % w;
            let y = i / w;
            lemma_pixel_of_rotated(g1, Rotation::Half, x, y);
            lemma_pixel_of_rotated(g, Rotation::Half, w - 1 - x, h - 1 - y);
            lemma_index_in_grid(x, y, w, h);
            lemma_index_parts(x, y, w);
            assert(g2.at(x, y) == g2.pixels[i]);
        } else {
            assert(w * h == 0) by (nonlinear_arith)
                requires
                    w == 0,
            ;
        }
    }
    assert(g2.pixels =~= g.pixels);
}

/// The rotation that a number of degrees names: 0, 90, 180 or 270.
pub open spec fn spec_rotation_of(degrees: u16) -> Option<Rotation> {
    if degrees == 0 {
        Some(Rotation::Upright)
    } else if degrees == 90 {
        Some(Rotation::Quarter)
    } else if degrees == 180 {
        Some(Rotation::Half)
    } else if degrees == 270 {
        Some(Rotation::ThreeQuarters)
    } else {
        None
    }
}

/// The rotation that a number of degrees names; any other angle is refused with
/// "Invalid rotation angle specified: `degrees`" (400).
pub fn rotation_of(degrees: u16) -> (r: Result<Rotation, ServeError>)
    ensures
        match spec_rotation_of(degrees) {
            Some(rotation) => r == Ok::<Rotation, ServeError>(rotation),
            None => r matches Err(e) && crate::errors::is_user_error(
                e,
                BAD_REQUEST,
                "Invalid rotation angle specified: "@ + decimal(degrees as nat),
            ),
        },
{
    if degrees == 0 {
        Ok(Rotation::Upright)
    } else if degrees == 90 {
        Ok(Rotation::Quarter)
    } else if degrees == 180 {
        Ok(Rotation::Half)
    } else if degrees == 270 {
        Ok(Rotation::ThreeQuarters)
    } else {
        let mut message = String::from_str("Invalid rotation angle specified: ");
        message.append(decimal_text(degrees as u64).as_str());
        Err(ServeError::UserFacing(BAD_REQUEST, message))
    }
}

} // verus!
