//! Images as carriers: a payload hidden in the 8-bit RGB samples of an image.
//!
//! The image type, its conversion to RGB samples and its construction from
//! them belong to the `image` crate. What is said of them here is taken on
//! trust from that crate; everything else in this module is proved from it.

use vstd::prelude::*;
use image::{DynamicImage, GenericImageView, RgbImage};
use crate::error::StegoError;
use crate::payload::{embed, embed_spec, extract, extract_spec};

verus! {

/// `image::DynamicImage`, an image in one of several pixel layouts. Nothing
/// inside it is visible here.
#[verifier::external_type_specification]
#[verifier::external_body]
pub struct ExDynamicImage(DynamicImage);

/// The 8-bit RGB sample buffer of an image: what `DynamicImage::to_rgb8`
/// followed by `ImageBuffer::into_raw` gives for it. It begins with the
/// samples of the pixels, row by row and three to a pixel.
pub uninterp spec fn rgb8_samples(img: DynamicImage) -> Seq<u8>;

/// The width and the height of an image in pixels: what
/// `GenericImageView::dimensions` gives for it.
pub uninterp spec fn image_size(img: DynamicImage) -> (u32, u32);

/// Whether three samples per pixel of a `width` by `height` image can be
/// counted and held in one buffer. The `image` crate counts them in `usize`
/// by steps, three times the width first and that times the height, so the
/// samples of one row have to fit in `usize` even where there is no row; and
/// an allocation holds at most `isize::MAX` bytes.
pub open spec fn rgb8_size_fits(width: u32, height: u32) -> bool {
    &&& 3 * width <= usize::MAX
    &&& 3 * width * height <= isize::MAX
}

/// Whether the RGB samples of an image can be counted and held in one buffer.
pub open spec fn rgb8_fits(img: DynamicImage) -> bool {
    rgb8_size_fits(image_size(img).0, image_size(img).1)
}

/// Calls `GenericImageView::dimensions` on the image. Trusted: the pair that
/// comes back is what `image_size` names.
#[verifier::external_body]
fn dimensions(img: &DynamicImage) -> (size: (u32, u32))
    ensures
        size == image_size(*img),
{
    img.dimensions()
}

/// Calls `DynamicImage::to_rgb8` and takes the samples out of the result with
/// `ImageBuffer::into_raw`.
///
/// Trusted: the samples are what `rgb8_samples` names, and there are at
/// least three for each pixel, since an image buffer never holds fewer
/// samples than its dimensions ask for. An image in another layout is
/// converted into a new buffer of three samples per pixel, and `to_rgb8`
/// panics in two places: where that buffer would pass `isize::MAX` bytes,
/// and where three times the width alone passes `usize::MAX`, which the
/// crate's count of the samples refuses whatever the height, zero too. Both
/// kinds of image are left out. Like every allocation, the call also needs
/// the memory to be there; of that nothing is said.
#[verifier::external_body]
fn rgb8_raw(img: &DynamicImage) -> (samples: Vec<u8>)
    requires
        rgb8_fits(*img),
    ensures
        samples@ == rgb8_samples(*img),
        3 * image_size(*img).0 * image_size(*img).1 <= samples.len(),
{
    img.to_rgb8().into_raw()
}

/// Calls `ImageBuffer::from_raw` for an RGB image of the given size over the
/// samples and wraps the buffer as `DynamicImage::ImageRgb8`.
///
/// Trusted: `from_raw` counts the samples that the size asks for in `usize`,
/// three times the width first and that times the height, and gives a buffer
/// exactly where neither step overflows and the samples handed in are at
/// least as many. With both required the call cannot fail; the image has the
/// size asked for, and its RGB samples are the samples handed in, since
/// `to_rgb8` copies an image that is already in this layout.
#[verifier::external_body]
fn rgb8_image(width: u32, height: u32, samples: Vec<u8>) -> (img: DynamicImage)
    requires
        3 * width <= usize::MAX,
        3 * width * height <= samples.len(),
    ensures
        image_size(img) == (width, height),
        rgb8_samples(img) == samples@,
{
    DynamicImage::ImageRgb8(RgbImage::from_raw(width, height, samples).unwrap())
}

/// Tells whether three samples per pixel of a `width` by `height` image can
/// be counted and held in one buffer: the samples of one row fit in `usize`,
/// and all of them in the `isize::MAX` bytes of an allocation.
pub fn fits_in_buffer(width: u32, height: u32) -> (fits: bool)
    ensures
        fits == rgb8_size_fits(width, height),
{
    assert(width * height <= 0xFFFF_FFFF * 0xFFFF_FFFF && 3 * width * height == 3 * (width
        * height)) by (nonlinear_arith)
        requires
            0 <= width <= 0xFFFF_FFFF,
            0 <= height <= 0xFFFF_FFFF,
    ;
    let row: u128 = 3 * (width as u128);
    let pixels: u128 = (width as u128) * (height as u128);
    row <= usize::MAX as u128 && 3 * pixels <= isize::MAX as u128
}

/// Hides `message` in the lowest bits of the RGB samples of `img` and gives
/// the result as a new RGB image of the same size.
///
/// The image is taken as 8-bit RGB, whatever its own layout. A message with
/// more than one byte for every eight samples does not fit and gives
/// `CapacityExceeded`; an image whose RGB samples could not be counted or
/// held in one buffer gives `ImageTooLarge`. Otherwise the new image has the
/// samples of the old one with the message's bits written into the first of
/// them, and reading it back with `decode_lsb` begins with the message.
pub fn encode_lsb(img: &DynamicImage, message: &[u8]) -> (outcome: Result<DynamicImage, StegoError>)
    ensures
        !rgb8_fits(*img) ==> outcome matches Err(StegoError::ImageTooLarge),
        rgb8_fits(*img) && 8 * message.len() > rgb8_samples(*img).len() ==> outcome matches Err(
            StegoError::CapacityExceeded,
        ),
        rgb8_fits(*img) && 8 * message.len() <= rgb8_samples(*img).len() ==> outcome is Ok,
        outcome matches Ok(encoded) ==> image_size(encoded) == image_size(*img),
        outcome matches Ok(encoded) ==> rgb8_samples(encoded) == embed_spec(
            rgb8_samples(*img),
            message@,
        ),
        outcome matches Ok(encoded) ==> extract_spec(rgb8_samples(encoded)).take(
            message.len() as int,
        ) == message@,
{
    let (width, height): (u32, u32) = dimensions(img);
    if !fits_in_buffer(width, height) {
        return Err(StegoError::ImageTooLarge);
    }
    let mut samples = rgb8_raw(img);
    match embed(samples.as_mut_slice(), message) {
        Ok(()) => Ok(rgb8_image(width, height, samples)),
        Err(e) => Err(e),
    }
}

/// Reads the payload of `img`: the bytes that the lowest bits of its RGB
/// samples spell, one byte for every eight samples.
///
/// The image is taken as 8-bit RGB, whatever its own layout. No length is
/// recorded in an image, so the bytes of a hidden message are followed by
/// what the rest of the samples spell. An image whose RGB samples could not
/// be counted or held in one buffer gives `ImageTooLarge`.
pub fn decode_lsb(img: &DynamicImage) -> (outcome: Result<Vec<u8>, StegoError>)
    ensures
        !rgb8_fits(*img) ==> outcome matches Err(StegoError::ImageTooLarge),
        rgb8_fits(*img) ==> outcome is Ok,
        outcome matches Ok(message) ==> message@ == extract_spec(rgb8_samples(*img)),
{
    let (width, height): (u32, u32) = dimensions(img);
    if !fits_in_buffer(width, height) {
        return Err(StegoError::ImageTooLarge);
    }
    let samples = rgb8_raw(img);
    Ok(extract(samples.as_slice()))
}

} // verus!
