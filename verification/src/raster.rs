use vstd::prelude::*;

use crate::canvas::{Canvas, CanvasView, PIN_COUNT};

verus! {

/// Byte length of one encoded line: a zero margin byte, 88 data bytes covering
/// the 704 pins (8 pins per byte), and a final zero margin byte.
pub const LINE_BYTES: usize = 90;

/// The encoder refuses input whose height is not exactly the pin count.
#[derive(Clone, Copy, PartialEq, Eq, Structural, Debug)]
pub enum RasterError {
    WrongHeight,
}

/// A pixel strictly above mid luma prints nothing (0); at or below it prints
/// a mark (1).
pub open spec fn mark_bit(p: u8) -> int {
    if p > 127 {
        0
    } else {
        1
    }
}

/// Value of the first `m` mark bits of rows `y0..y0 + m` in column `x`, most
/// significant first: the earliest row lands in the highest bit.
pub open spec fn pack_prefix(c: CanvasView, x: int, y0: int, m: int) -> int
    decreases m,
{
    if m <= 0 {
        0
    } else {
        pack_prefix(c, x, y0, m - 1) * 2 + mark_bit(c.pix(x, y0 + m - 1))
    }
}

/// Byte `k` of the encoded line for column `x`: margins at both ends, and each
/// interior byte packs eight consecutive rows.
pub open spec fn line_byte(c: CanvasView, x: int, k: int) -> u8 {
    if k == 0 || k == LINE_BYTES - 1 {
        0u8
    } else {
        pack_prefix(c, x, (k - 1) * 8, 8) as u8
    }
}

/// The encoded line for column `x`.
pub open spec fn encoded_line(c: CanvasView, x: int) -> Seq<u8> {
    Seq::new(LINE_BYTES as nat, |k: int| line_byte(c, x, k))
}

/// The whole encoding: one line per column, column 0 first.
pub open spec fn encode_spec(c: CanvasView) -> Seq<Seq<u8>> {
    Seq::new(c.width, |x: int| encoded_line(c, x))
}

/// `2^m` for nonnegative `m`.
spec fn two_pow(m: int) -> int
    decreases m,
{
    if m <= 0 {
        1
    } else {
        2 * two_pow(m - 1)
    }
}

/// Powers of two are positive.
proof fn lemma_two_pow_pos(a: int)
    ensures
        two_pow(a) >= 1,
    decreases a,
{
    if a > 0 {
        lemma_two_pow_pos(a - 1);
    }
}

/// Powers of two never shrink as the exponent grows.
proof fn lemma_two_pow_mono(a: int, b: int)
    requires
        a <= b,
    ensures
        1 <= two_pow(a) <= two_pow(b),
    decreases b,
{
    lemma_two_pow_pos(a);
    if a < b && b > 0 {
        lemma_two_pow_mono(a, b - 1);
    }
}

/// A packed prefix of `m` bits is a nonnegative value below `2^m`; in
/// particular a full byte stays below 256.
proof fn lemma_pack_bound(c: CanvasView, x: int, y0: int, m: int)
    ensures
        0 <= pack_prefix(c, x, y0, m) < two_pow(m),
    decreases m,
{
    if m > 0 {
        lemma_pack_bound(c, x, y0, m - 1);
    }
}

/// The encoding law, stated once over the model: encoding a canvas of exact
/// pin-count height is a pure function of its pixels, so equal canvases always
/// encode to the same byte sequences.
pub proof fn lemma_encode_deterministic(c1: CanvasView, c2: CanvasView)
    requires
        c1 == c2,
    ensures
        encode_spec(c1) == encode_spec(c2),
{
}

/// Encode a grayscale canvas into the head's native line format: one line per
/// column of the input, each line `LINE_BYTES` long with zero margin bytes at
/// both ends, and every interior byte packing eight rows (earliest row in the
/// highest bit, a mark where the pixel is at or below mid luma). Fails exactly
/// when the input height is not the pin count.
pub fn rasterise_image(image: &Canvas) -> (r: Result<Vec<Vec<u8>>, RasterError>)
    requires
        image@.wf(),
    ensures
        r is Ok <==> image@.height == PIN_COUNT,
        r matches Ok(lines) ==> {
            &&& lines@.len() == image@.width
            &&& (forall|i: int| 0 <= i < lines@.len() ==> (#[trigger] lines@[i])@
                == encoded_line(image@, i))
            &&& lines.deep_view() == encode_spec(image@)
            &&& forall|i: int|
                0 <= i < lines@.len() ==> (#[trigger] lines@[i])@.len() == LINE_BYTES
                    && lines@[i]@[0] == 0 && lines@[i]@[LINE_BYTES - 1] == 0
        },
        r is Err ==> r == Result::<Vec<Vec<u8>>, RasterError>::Err(RasterError::WrongHeight),
{
    if image.height != PIN_COUNT {
        return Err(RasterError::WrongHeight);
    }
    let width: u32 = image.width;
    let mut lines: Vec<Vec<u8>> = Vec::new();
    let mut x: u32 = 0;
    while x < width
        invariant
            image@.wf(),
            image@.height == PIN_COUNT,
            width == image@.width,
            x <= width,
            lines@.len() == x,
            forall|i: int| 0 <= i < x ==> (#[trigger] lines@[i])@ == encoded_line(image@, i),
        decreases width - x,
    {
        let mut line: Vec<u8> = Vec::new();
        line.push(0u8);
        let mut k: usize = 1;
        while k < LINE_BYTES - 1
            invariant
                image@.wf(),
                image@.height == PIN_COUNT,
                width == image@.width,
                x < width,
                1 <= k <= LINE_BYTES - 1,
                line@.len() == k,
                forall|j: int| 0 <= j < k ==> line@[j] == line_byte(image@, x as int, j),
            decreases LINE_BYTES - k,
        {
            let y0: u32 = ((k - 1) * 8) as u32;
            let mut b: u8 = 0;
            let mut m: usize = 0;
            while m < 8
                invariant
                    image@.wf(),
                    image@.height == PIN_COUNT,
                    width == image@.width,
                    x < width,
                    1 <= k <= LINE_BYTES - 2,
                    y0 == (k - 1) * 8,
                    m <= 8,
                    b == pack_prefix(image@, x as int, y0 as int, m as int),
                decreases 8 - m,
            {
                proof {
                    lemma_pack_bound(image@, x as int, y0 as int, m as int);
                    lemma_two_pow_mono(m as int, 7);
                    reveal_with_fuel(two_pow, 9);
                    assert(two_pow(7) == 128);
                }
                let p: u8 = image.get_pixel(x, y0 + (m as u32));
                let v: u8 = if p > 127 {
                    0
                } else {
                    1
                };
                b = b * 2 + v;
                m = m + 1;
            }
            proof {
                lemma_pack_bound(image@, x as int, y0 as int, 8);
                reveal_with_fuel(two_pow, 10);
                assert(two_pow(8) == 256);
            }
            line.push(b);
            k = k + 1;
        }
        line.push(0u8);
        proof {
            assert(line@ =~= encoded_line(image@, x as int));
        }
        lines.push(line);
        x = x + 1;
    }
    proof {
        assert forall|i: int| 0 <= i < lines@.len() implies lines.deep_view()[i] == encoded_line(
            image@,
            i,
        ) by {
            assert(lines@[i].deep_view() =~= lines@[i]@);
        }
        assert(lines.deep_view() =~= encode_spec(image@));
    }
    Ok(lines)
}

} // verus!
