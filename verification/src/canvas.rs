use vstd::prelude::*;

verus! {

/// Number of print-head pins. Every raster handed to the head is exactly this
/// many pixels tall; one encoded line carries one column of this height.
pub const PIN_COUNT: u32 = 704;

/// Mathematical model of a grayscale canvas: dimensions plus the row-major
/// pixel bytes (one luma byte per pixel, rows stored top to bottom).
pub ghost struct CanvasView {
    pub width: nat,
    pub height: nat,
    pub pixels: Seq<u8>,
}

impl CanvasView {
    /// The byte count matches the dimensions.
    pub open spec fn wf(self) -> bool {
        self.pixels.len() == self.width * self.height
    }

    /// Luma of the pixel in column `x` of row `y`.
    pub open spec fn pix(self, x: int, y: int) -> u8 {
        self.pixels[y * self.width + x]
    }
}

/// An owned grayscale image: one byte per pixel, row-major, rows top to bottom.
pub struct Canvas {
    pub width: u32,
    pub height: u32,
    pub pixels: Vec<u8>,
}

impl View for Canvas {
    type V = CanvasView;

    open spec fn view(&self) -> CanvasView {
        CanvasView {
            width: self.width as nat,
            height: self.height as nat,
            pixels: self.pixels@,
        }
    }
}

impl Canvas {
    /// Wrap raw row-major bytes; refused when the byte count does not match
    /// the dimensions.
    pub fn from_raw(width: u32, height: u32, pixels: Vec<u8>) -> (r: Option<Canvas>)
        ensures
            r is Some <==> pixels@.len() == width * height,
            r matches Some(c) ==> c@ == (CanvasView {
                width: width as nat,
                height: height as nat,
                pixels: pixels@,
            }) && c@.wf(),
    {
        proof {
            assert((width as int) * (height as int) <= 0xFFFF_FFFF * 0xFFFF_FFFF)
                by (nonlinear_arith)
                requires
                    width <= 0xFFFF_FFFF,
                    height <= 0xFFFF_FFFF,
            ;
        }
        let total: u64 = (width as u64) * (height as u64);
        if (pixels.len() as u64) == total {
            Some(Canvas { width, height, pixels })
        } else {
            None
        }
    }

    /// A solid canvas of the given dimensions, every pixel set to `luma`.
    /// Refused only when the pixel count cannot be addressed on this machine.
    pub fn filled(width: u32, height: u32, luma: u8) -> (r: Option<Canvas>)
        ensures
            r is Some <==> width * height <= usize::MAX,
            r matches Some(c) ==> c@.wf() && c@.width == width && c@.height == height
                && (forall|i: int| 0 <= i < c@.pixels.len() ==> c@.pixels[i] == luma),
    {
        proof {
            assert((width as int) * (height as int) <= 0xFFFF_FFFF * 0xFFFF_FFFF)
                by (nonlinear_arith)
                requires
                    width <= 0xFFFF_FFFF,
                    height <= 0xFFFF_FFFF,
            ;
        }
        let total: u64 = (width as u64) * (height as u64);
        if total > (usize::MAX as u64) {
            return None;
        }
        let pixels: Vec<u8> = vec![luma; total as usize];
        Some(Canvas { width, height, pixels })
    }

    /// Read the pixel in column `x` of row `y`.
    pub fn get_pixel(&self, x: u32, y: u32) -> (p: u8)
        requires
            self@.wf(),
            x < self@.width,
            y < self@.height,
        ensures
            p == self@.pix(x as int, y as int),
    {
        let n: usize = self.pixels.len();
        proof {
            assert(0 <= (y as int) * (self@.width as int) + (x as int) && (y as int) * (
            self@.width as int) + (x as int) < (self@.width as int) * (self@.height as int))
                by (nonlinear_arith)
                requires
                    0 <= x < self@.width,
                    0 <= y < self@.height,
            ;
        }
        let idx: usize = (y as usize) * (self.width as usize) + (x as usize);
        self.pixels[idx]
    }
}

/// One rotated pixel is in place: entry `(xx, yy)` of the row-major buffer
/// `pv` of row length `w` holds the source pixel at `(width - 1 - yy, xx)`.
spec fn rot_ok(pv: Seq<u8>, sv: CanvasView, w: int, yy: int, xx: int) -> bool {
    pv[yy * w + xx] == sv.pix(sv.width - 1 - yy, xx)
}

/// Rotate a canvas 270 degrees clockwise (a quarter turn counter-clockwise):
/// the result has the dimensions swapped, and its pixel at `(x, y)` is the
/// source pixel at `(width - 1 - y, x)`.
pub fn rotate270(src: &Canvas) -> (r: Canvas)
    requires
        src@.wf(),
    ensures
        r@.wf(),
        r@.width == src@.height,
        r@.height == src@.width,
        forall|x: int, y: int|
            0 <= x < r@.width && 0 <= y < r@.height ==> #[trigger] r@.pix(x, y) == src@.pix(
                src@.width - 1 - y,
                x,
            ),
{
    let new_w: u32 = src.height;
    let new_h: u32 = src.width;
    let mut pixels: Vec<u8> = Vec::new();
    let mut y: u32 = 0;
    while y < new_h
        invariant
            src@.wf(),
            new_w == src@.height,
            new_h == src@.width,
            y <= new_h,
            pixels@.len() == y * new_w,
            forall|yy: int, xx: int|
                0 <= yy < y && 0 <= xx < new_w ==> #[trigger] rot_ok(
                    pixels@,
                    src@,
                    new_w as int,
                    yy,
                    xx,
                ),
        decreases new_h - y,
    {
        let mut x: u32 = 0;
        while x < new_w
            invariant
                src@.wf(),
                new_w == src@.height,
                new_h == src@.width,
                y < new_h,
                x <= new_w,
                pixels@.len() == y * new_w + x,
                forall|yy: int, xx: int|
                    0 <= yy < y && 0 <= xx < new_w ==> #[trigger] rot_ok(
                        pixels@,
                        src@,
                        new_w as int,
                        yy,
                        xx,
                    ),
                forall|xx: int|
                    0 <= xx < x ==> #[trigger] rot_ok(pixels@, src@, new_w as int, y as int, xx),
            decreases new_w - x,
        {
            let ghost pre = pixels@;
            let p: u8 = src.get_pixel(new_h - 1 - y, x);
            pixels.push(p);
            proof {
                let w = new_w as int;
                let yi = y as int;
                let xi = x as int;
                assert forall|yy: int, xx: int| 0 <= yy < y && 0 <= xx < new_w implies #[trigger]
                rot_ok(pixels@, src@, new_w as int, yy, xx) by {
                    assert(0 <= yy * w + xx && yy * w + xx < yi * w) by (nonlinear_arith)
                        requires
                            0 <= yy,
                            yy <= yi - 1,
                            0 <= xx < w,
                    ;
                    assert(pixels@[yy * w + xx] == pre[yy * w + xx]);
                    assert(rot_ok(pre, src@, w, yy, xx));
                }
                assert forall|xx: int| 0 <= xx < x + 1 implies #[trigger] rot_ok(
                    pixels@,
                    src@,
                    new_w as int,
                    yi,
                    xx,
                ) by {
                    if xx < xi {
                        assert(0 <= yi * w + xx < pre.len());
                        assert(pixels@[yi * w + xx] == pre[yi * w + xx]);
                        assert(rot_ok(pre, src@, w, yi, xx));
                    } else {
                        assert(yi * w + xx == pre.len());
                        assert(pixels@[yi * w + xx] == p);
                        assert(src@.pix(src@.width - 1 - yi, xi) == p);
                    }
                }
            }
            x = x + 1;
        }
        proof {
            assert((y as int + 1) * (new_w as int) == y as int * (new_w as int) + new_w as int)
                by (nonlinear_arith);
        }
        y = y + 1;
    }
    let out = Canvas { width: new_w, height: new_h, pixels };
    proof {
        assert((new_w as int) * (new_h as int) == (new_h as int) * (new_w as int))
            by (nonlinear_arith);
        assert(out@.wf());
        assert forall|x: int, y2: int| 0 <= x < out@.width && 0 <= y2 < out@.height implies
        #[trigger] out@.pix(x, y2) == src@.pix(src@.width - 1 - y2, x) by {
            assert(rot_ok(out.pixels@, src@, new_w as int, y2, x));
        }
    }
    out
}

} // verus!
