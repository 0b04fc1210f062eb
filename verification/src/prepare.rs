use vstd::prelude::*;

use image::GenericImageView;

use crate::api::ApiError;
use crate::canvas::{Canvas, PIN_COUNT};

verus! {

/// The image crate's decoded image, carried opaquely between the trusted
/// calls below; only its dimensions, named by `dyn_dims`, enter contracts.
#[verifier::external_type_specification]
#[verifier::external_body]
pub struct ExDynamicImage(image::DynamicImage);

/// Name for the dimensions `(width, height)` of a decoded image.
pub uninterp spec fn dyn_dims(img: image::DynamicImage) -> (nat, nat);

/// Name for what decoding a byte sequence yields: the dimensions of the
/// decoded image, or nothing when the bytes are no readable image. Decoding
/// depends on the bytes alone.
pub uninterp spec fn decoded_dims(bytes: Seq<u8>) -> Option<(nat, nat)>;

/// Name for the error-diffusion binarisation of row-major luma pixels with
/// the given dimensions. The transform depends on its arguments alone.
pub uninterp spec fn dither_of(pixels: Seq<u8>, width: nat, height: nat) -> Seq<u8>;

/// Name for what a decoded image holds once converted to grayscale: its
/// row-major luma bytes, one per pixel, a function of the image alone.
pub uninterp spec fn luma_of(img: image::DynamicImage) -> Seq<u8>;

/// Relies on image::load_from_memory: guesses the format and decodes, a pure
/// function of the bytes; success and the decoded dimensions are named by
/// `decoded_dims`.
#[verifier::external_body]
fn decode_image(bytes: &Vec<u8>) -> (r: Option<image::DynamicImage>)
    ensures
        r is Some <==> decoded_dims(bytes@) is Some,
        r matches Some(img) ==> Some(dyn_dims(img)) == decoded_dims(bytes@),
{
    image::load_from_memory(bytes.as_slice()).ok()
}

/// Relies on image::DynamicImage::rotate90: a quarter turn clockwise, so the
/// dimensions swap.
#[verifier::external_body]
fn rotate90_dyn(img: image::DynamicImage) -> (r: image::DynamicImage)
    ensures
        dyn_dims(r) == (dyn_dims(img).1, dyn_dims(img).0),
{
    img.rotate90()
}

/// Relies on image::GenericImageView::dimensions: reports the image's width
/// and height.
#[verifier::external_body]
fn dyn_dimensions(img: &image::DynamicImage) -> (r: (u32, u32))
    ensures
        (r.0 as nat, r.1 as nat) == dyn_dims(*img),
{
    img.dimensions()
}

/// Relies on image::DynamicImage::resize_exact: returns an image of exactly
/// the requested dimensions (aspect ratio not preserved), resampled here with
/// the triangle filter.
#[verifier::external_body]
fn resize_dyn(img: image::DynamicImage, nwidth: u32, nheight: u32) -> (r: image::DynamicImage)
    requires
        nwidth >= 1,
        nheight >= 1,
    ensures
        dyn_dims(r) == (nwidth as nat, nheight as nat),
{
    img.resize_exact(nwidth, nheight, image::imageops::FilterType::Triangle)
}

/// Relies on image::DynamicImage::into_luma8: converts to one luma byte per
/// pixel keeping the dimensions; the result is a function of the image alone,
/// named by `luma_of`, and its row-major bytes are taken over with
/// ImageBuffer::into_raw.
#[verifier::external_body]
fn dyn_to_canvas(img: image::DynamicImage) -> (r: Canvas)
    ensures
        r@.wf(),
        r@.width == dyn_dims(img).0,
        r@.height == dyn_dims(img).1,
        r@.pixels == luma_of(img),
{
    let g = img.into_luma8();
    let width: u32 = g.width();
    let height: u32 = g.height();
    Canvas { width, height, pixels: g.into_raw() }
}

/// Relies on image::imageops::dither with the BiLevel map: in-place
/// error-diffusion binarisation, a pure function of pixels and dimensions,
/// named by `dither_of`. Every pixel's final write is its BiLevel mapping, so
/// the result holds only full black or full white. The transform
/// unconditionally diffuses into a second column, so the canvas must be at
/// least two pixels wide.
#[verifier::external_body]
fn dither_canvas(c: &mut Canvas)
    requires
        old(c)@.wf(),
        old(c)@.width >= 2,
        old(c)@.height >= 1,
    ensures
        final(c)@.wf(),
        final(c)@.width == old(c)@.width,
        final(c)@.height == old(c)@.height,
        final(c)@.pixels == dither_of(old(c)@.pixels, old(c)@.width, old(c)@.height),
        forall|i: int|
            0 <= i < final(c)@.pixels.len() ==> (#[trigger] final(c)@.pixels[i]) == 0
                || final(c)@.pixels[i] == 255,
{
    let pixels = std::mem::take(&mut c.pixels);
    let mut img = image::GrayImage::from_raw(c.width, c.height, pixels).unwrap();
    image::imageops::dither(&mut img, &image::imageops::colorops::BiLevel);
    c.pixels = img.into_raw();
}

/// Decoded dimensions after the optional quarter turn.
pub open spec fn oriented_dims(dims: (nat, nat), rotate: bool) -> (nat, nat) {
    if rotate {
        (dims.1, dims.0)
    } else {
        dims
    }
}

/// Width after scaling the height to the pin count proportionally, rounded to
/// the nearest dot.
pub open spec fn scaled_width(w: nat, h: nat) -> int {
    (2 * (PIN_COUNT as int) * (w as int) + (h as int)) / (2 * (h as int))
}

/// The output width the pipeline aims for: the caller's exact-fit length, or
/// proportional scaling.
pub open spec fn prep_width(dims: (nat, nat), target_length: Option<u32>) -> int {
    match target_length {
        Some(t) => t as int,
        None => scaled_width(dims.0, dims.1),
    }
}

/// What preparing a submitted image yields: the output dimensions (the height
/// is always the pin count), or the error. Preparation fails exactly when the
/// bytes do not decode, or the oriented image has no height, or the aimed-for
/// width is not at least one dot (two when dithering) and representable.
pub open spec fn prepare_spec(
    bytes: Seq<u8>,
    rotate: bool,
    dither: bool,
    target_length: Option<u32>,
) -> Result<(nat, nat), ApiError> {
    match decoded_dims(bytes) {
        None => Err(ApiError::InvalidImageFile),
        Some(dims0) => {
            let d = oriented_dims(dims0, rotate);
            if d.1 == 0 {
                Err(ApiError::InvalidImageFile)
            } else {
                let w = prep_width(d, target_length);
                if w < 1 || w > u32::MAX || (dither && w < 2) {
                    Err(ApiError::InvalidImageFile)
                } else {
                    Ok((w as nat, PIN_COUNT as nat))
                }
            }
        },
    }
}

/// The image preparation pipeline: decode the uploaded bytes, rotate a
/// quarter turn when asked, resize so the height is exactly the pin count
/// (the width by proportion, or forced to `target_length`), convert to
/// grayscale, and optionally binarise by error diffusion. The result is ready
/// for the raster encoder: well formed with pin-count height, and its
/// dimensions are exactly what `prepare_spec` says; every refused input gets
/// the error `prepare_spec` gives, and nothing else is refused.
pub fn prepare_image(
    bytes: &Vec<u8>,
    rotate: bool,
    dither: bool,
    target_length: Option<u32>,
) -> (r: Result<Canvas, ApiError>)
    ensures
        r is Ok <==> prepare_spec(bytes@, rotate, dither, target_length) is Ok,
        r matches Ok(c) ==> c@.wf() && c@.height == PIN_COUNT && prepare_spec(
            bytes@,
            rotate,
            dither,
            target_length,
        ) == Ok::<(nat, nat), ApiError>((c@.width, c@.height)),
        r matches Ok(c) ==> (dither ==> (forall|i: int|
            0 <= i < c@.pixels.len() ==> (#[trigger] c@.pixels[i]) == 0 || c@.pixels[i] == 255)),
        r matches Err(e) ==> Err::<(nat, nat), ApiError>(e) == prepare_spec(
            bytes@,
            rotate,
            dither,
            target_length,
        ),
{
    let img0 = match decode_image(bytes) {
        Some(i) => i,
        None => {
            return Err(ApiError::InvalidImageFile);
        },
    };
    let img = if rotate {
        rotate90_dyn(img0)
    } else {
        img0
    };
    let dims = dyn_dimensions(&img);
    let w: u32 = dims.0;
    let h: u32 = dims.1;
    if h == 0 {
        return Err(ApiError::InvalidImageFile);
    }
    proof {
        assert(0 <= 2 * (PIN_COUNT as int) * (w as int) && 2 * (PIN_COUNT as int) * (w as int)
            <= 1408 * 0xFFFF_FFFF) by (nonlinear_arith)
            requires
                PIN_COUNT == 704u32,
                0 <= w <= 0xFFFF_FFFF,
        ;
    }
    let nwidth64: u64 = match target_length {
        Some(t) => t as u64,
        None => (2u64 * (PIN_COUNT as u64) * (w as u64) + (h as u64)) / (2u64 * (h as u64)),
    };
    let min_w: u64 = if dither {
        2
    } else {
        1
    };
    if nwidth64 < min_w || nwidth64 > (u32::MAX as u64) {
        return Err(ApiError::InvalidImageFile);
    }
    let nwidth: u32 = nwidth64 as u32;
    let resized = resize_dyn(img, nwidth, PIN_COUNT);
    let mut canvas = dyn_to_canvas(resized);
    if dither {
        dither_canvas(&mut canvas);
    }
    Ok(canvas)
}

} // verus!
