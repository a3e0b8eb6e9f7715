//! Row-major RGB pixel buffers, and the operations on them that the `image`
//! crate performs for this library.

use vstd::prelude::*;
use crate::color::Color;
use crate::grid::CANVAS_SIZE;
use crate::tile_png::is_tile_png;

verus! {

/// An image as plain values: `width * height` pixels, row by row from the top,
/// three bytes (red, green, blue) per pixel.
#[derive(Debug, PartialEq, Eq)]
pub struct Raster {
    pub width: u32,
    pub height: u32,
    pub data: Vec<u8>,
}

impl Raster {
    /// The buffer holds exactly the pixels that the dimensions announce.
    pub open spec fn wf(&self) -> bool {
        self.data@.len() == self.width * self.height * 3
    }

    /// The pixel in column `x` of row `y`.
    pub open spec fn pixel(&self, x: int, y: int) -> Color {
        rgb_at(self.data@, y * self.width + x)
    }
}

/// An image of exactly one tile: both sides as long as the canvas side.
pub open spec fn is_tile_image(image: Raster) -> bool {
    image.width == CANVAS_SIZE && image.height == CANVAS_SIZE && image.wf()
}

/// The `k`-th pixel of a buffer of RGB bytes.
pub open spec fn rgb_at(data: Seq<u8>, k: int) -> Color {
    Color { r: data[3 * k], g: data[3 * k + 1], b: data[3 * k + 2] }
}

/// `image::imageops::rotate90` on the RGB8 buffer of a tile image: a quarter
/// turn clockwise.
///
/// The result swaps the two dimensions, and the pixel that stood in column
/// `x` of row `y` stands in column `height - 1 - y` of row `x`.
#[verifier::external_body]
pub(crate) fn rotate90(image: &Raster) -> (out: Raster)
    requires
        is_tile_image(*image),
    ensures
        out.wf(),
        out.width == image.height,
        out.height == image.width,
        forall|x: int, y: int|
            0 <= x < image.width && 0 <= y < image.height ==> #[trigger] image.pixel(x, y)
                == out.pixel(image.height - 1 - y, x),
{
    let buffer = image::RgbImage::from_raw(image.width, image.height, image.data.clone()).unwrap();
    let turned = image::imageops::rotate90(&buffer);
    Raster { width: turned.width(), height: turned.height(), data: turned.into_raw() }
}

/// `image::imageops::flip_horizontal` on the RGB8 buffer of a tile image: a
/// mirror image left to right.
///
/// The dimensions stay, and the pixel that stood in column `x` of row `y`
/// stands in column `width - 1 - x` of the same row.
#[verifier::external_body]
pub(crate) fn flip_horizontal(image: &Raster) -> (out: Raster)
    requires
        is_tile_image(*image),
    ensures
        out.wf(),
        out.width == image.width,
        out.height == image.height,
        forall|x: int, y: int|
            0 <= x < image.width && 0 <= y < image.height ==> #[trigger] image.pixel(x, y)
                == out.pixel(image.width - 1 - x, y),
{
    let buffer = image::RgbImage::from_raw(image.width, image.height, image.data.clone()).unwrap();
    let flipped = image::imageops::flip_horizontal(&buffer);
    Raster { width: flipped.width(), height: flipped.height(), data: flipped.into_raw() }
}

/// `image::imageops::flip_vertical` on the RGB8 buffer of a tile image: a
/// mirror image top to bottom.
///
/// The dimensions stay, and the pixel that stood in column `x` of row `y`
/// stands in the same column of row `height - 1 - y`.
#[verifier::external_body]
pub(crate) fn flip_vertical(image: &Raster) -> (out: Raster)
    requires
        is_tile_image(*image),
    ensures
        out.wf(),
        out.width == image.width,
        out.height == image.height,
        forall|x: int, y: int|
            0 <= x < image.width && 0 <= y < image.height ==> #[trigger] image.pixel(x, y)
                == out.pixel(x, image.height - 1 - y),
{
    let buffer = image::RgbImage::from_raw(image.width, image.height, image.data.clone()).unwrap();
    let flipped = image::imageops::flip_vertical(&buffer);
    Raster { width: flipped.width(), height: flipped.height(), data: flipped.into_raw() }
}

/// The error type of the `image` crate.
#[verifier::external_type_specification]
#[verifier::external_body]
pub struct ExImageError(image::ImageError);

/// The image that `image::load_from_memory_with_format` reads out of
/// `bytes` as a PNG file, converted to 8-bit RGB: its width, its height and
/// its pixel bytes, row by row. `None` where the crate reports an error.
pub uninterp spec fn decoded_png(bytes: Seq<u8>) -> Option<(u32, u32, Seq<u8>)>;

/// `image::load_from_memory_with_format` with the format `Png`, followed by
/// `DynamicImage::into_rgb8`. Only files with a header for an image of tile
/// size in a known colour type are handed on, and none in which a second
/// header or an animation chunk can be reached: see
/// [`crate::tile_png::is_tile_png`]. The result is the one that
/// [`decoded_png`] names; nothing else is claimed of it.
#[verifier::external_body]
pub(crate) fn decode_png(bytes: &Vec<u8>) -> (result: Result<Raster, image::ImageError>)
    requires
        is_tile_png(bytes@, CANVAS_SIZE as int),
    ensures
        match result {
            Ok(image) => decoded_png(bytes@) == Some((image.width, image.height, image.data@)),
            Err(_) => decoded_png(bytes@) is None,
        },
{
    let image = image::load_from_memory_with_format(bytes, image::ImageFormat::Png)?.into_rgb8();
    Ok(Raster { width: image.width(), height: image.height(), data: image.into_raw() })
}

/// The PNG file that `image::png::PngEncoder::encode` writes for an 8-bit
/// RGB image of the given size and pixel bytes. `None` where the encoder
/// reports an error.
pub uninterp spec fn encoded_png(width: u32, height: u32, data: Seq<u8>) -> Option<Seq<u8>>;

/// `image::png::PngEncoder::encode` with colour type `Rgb8`, writing into
/// memory. Only tile images are handed on. The result is the one that
/// [`encoded_png`] names; nothing else is claimed of it.
#[verifier::external_body]
pub(crate) fn encode_png(image: &Raster) -> (result: Result<Vec<u8>, image::ImageError>)
    requires
        is_tile_image(*image),
    ensures
        match result {
            Ok(bytes) => encoded_png(image.width, image.height, image.data@) == Some(bytes@),
            Err(_) => encoded_png(image.width, image.height, image.data@) is None,
        },
{
    let mut bytes: Vec<u8> = Vec::new();
    let encoder = image::png::PngEncoder::new(&mut bytes);
    encoder.encode(&image.data, image.width, image.height, image::ColorType::Rgb8)?;
    Ok(bytes)
}

} // verus!
