//! Turning a rendered image into the bytes of a PNG file.

use vstd::prelude::*;

verus! {

/// Why an image could not be encoded.
#[derive(Clone, Copy, Debug, PartialEq, Eq, Structural)]
pub enum ImageError {
    /// The image has no columns.
    ZeroWidth,
    /// The image has no rows.
    ZeroHeight,
    /// The data is not three bytes for each pixel.
    BufferSize,
    /// The encoder gave up.
    Encoder,
}

/// The error type of the `png` crate's encoder.
#[verifier::external_type_specification]
#[verifier::external_body]
pub struct ExEncodingError(png::EncodingError);

/// The bytes of the PNG file that the `png` crate writes for an image of
/// `width` by `height` pixels, eight bits per channel, whose rows are laid
/// out in `data` from the top, three bytes per pixel. The file is a function
/// of these three alone for the release of the `png` crate that the library
/// is built with; another release may filter and compress differently.
pub uninterp spec fn png_file(width: u32, height: u32, data: Seq<u8>) -> Seq<u8>;

/// Runs the `png` crate's encoder into memory: `Encoder::new` on a byte
/// vector, `set_color` and `set_depth` for RGB with eight bits,
/// `write_header`, `write_image_data` with `data`, and `finish`. Where the
/// encoder reports success, the vector holds the file. Nothing is claimed
/// about when it does: the `requires` keeps out what the encoder itself
/// refuses, but the compressor beneath it can report a failure of its own,
/// and its source does not show that it never does.
#[verifier::external_body]
fn png_rgb8(width: u32, height: u32, data: &Vec<u8>) -> (file: Result<Vec<u8>, png::EncodingError>)
    requires
        width > 0,
        height > 0,
        data@.len() == 3 * width * height,
    ensures
        file matches Ok(bytes) ==> bytes@ == png_file(width, height, data@),
{
    let mut file = Vec::new();
    let mut encoder = png::Encoder::new(&mut file, width, height);
    encoder.set_color(png::ColorType::Rgb);
    encoder.set_depth(png::BitDepth::Eight);
    let mut writer = encoder.write_header()?;
    writer.write_image_data(data)?;
    writer.finish()?;
    Ok(file)
}

/// Whether `data` can be the image of a `width` by `height` picture, and if
/// not, what is wrong with it: the width is looked at first, then the
/// height, then the length of the data.
pub open spec fn image_fault(width: u32, height: u32, data: Seq<u8>) -> Option<ImageError> {
    if width == 0 {
        Some(ImageError::ZeroWidth)
    } else if height == 0 {
        Some(ImageError::ZeroHeight)
    } else if data.len() != 3 * width * height {
        Some(ImageError::BufferSize)
    } else {
        None
    }
}

/// Checks that `data` is the image of a `width` by `height` picture.
pub fn check_image(width: u32, height: u32, data: &Vec<u8>) -> (fault: Option<ImageError>)
    ensures
        fault == image_fault(width, height, data@),
{
    if width == 0 {
        Some(ImageError::ZeroWidth)
    } else if height == 0 {
        Some(ImageError::ZeroHeight)
    } else {
        proof {
            assert(width * height <= 0xffff_ffff * 0xffff_ffff) by (nonlinear_arith)
                requires
                    width <= 0xffff_ffff,
                    height <= 0xffff_ffff,
            ;
            assert(3 * (width * height) == 3 * width * height) by (nonlinear_arith);
        }
        let pixels: u128 = (width as u128) * (height as u128);
        if data.len() as u128 != 3 * pixels {
            Some(ImageError::BufferSize)
        } else {
            None
        }
    }
}

/// What `encode_png` returns for an outcome of the encoder: the file, or
/// `ImageError::Encoder`.
pub fn encoded(outcome: Result<Vec<u8>, png::EncodingError>) -> (file: Result<Vec<u8>, ImageError>)
    ensures
        match outcome {
            Ok(bytes) => file == Ok::<Vec<u8>, ImageError>(bytes),
            Err(_) => file == Err::<Vec<u8>, ImageError>(ImageError::Encoder),
        },
{
    match outcome {
        Ok(bytes) => Ok(bytes),
        Err(_) => Err(ImageError::Encoder),
    }
}

/// Encodes a rendered image as a PNG file in memory. `data` holds the
/// pixels row by row from the top, three bytes each. An image that fails
/// `check_image` is refused with its fault; any other is handed to the
/// encoder.
pub fn encode_png(width: u32, height: u32, data: &Vec<u8>) -> (file: Result<Vec<u8>, ImageError>)
    ensures
        match image_fault(width, height, data@) {
            Some(fault) => file == Err::<Vec<u8>, ImageError>(fault),
            None => match file {
                Ok(bytes) => bytes@ == png_file(width, height, data@),
                Err(e) => e == ImageError::Encoder,
            },
        },
{
    match check_image(width, height, data) {
        Some(fault) => Err(fault),
        None => encoded(png_rgb8(width, height, data)),
    }
}

} // verus!
