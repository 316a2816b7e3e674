use vstd::prelude::*;
use crate::error::GameError;
use crate::geometry::{Size, rgba_len};

verus! {

/// Succeeds iff `pixels` holds exactly one RGBA8 pixel (four bytes) per pixel of `size`.
pub fn validate_pixels(size: Size, pixels: &[u8]) -> (r: Result<(), GameError>)
    ensures
        r is Ok <==> pixels@.len() == rgba_len(size.width, size.height),
        r is Err ==> r == Err::<(), GameError>(GameError::IllegalPixelsLength),
{
    let w: u128 = size.width as u128;
    let h: u128 = size.height as u128;
    proof {
        assert(w * h <= 0xffff_ffffu128 * 0xffff_ffffu128) by (nonlinear_arith)
            requires
                w <= 0xffff_ffffu128,
                h <= 0xffff_ffffu128,
        ;
    }
    let expected: u128 = w * h * 4;
    if pixels.len() as u128 == expected {
        Ok(())
    } else {
        Err(GameError::IllegalPixelsLength)
    }
}

/// The size and RGBA8 pixels that decoding the encoded image `bytes` yields,
/// or `None` when they are not a supported, well-formed image.
pub uninterp spec fn decoded_rgba(bytes: Seq<u8>) -> Option<(Size, Seq<u8>)>;

/// Relies on image::load_from_memory to decode `bytes` (format guessed from the
/// data) and on DynamicImage::into_rgba8 to convert the result to RGBA8; both
/// depend on the bytes alone. The RGBA8 buffer it returns holds exactly four
/// bytes per pixel (decoders fill `width * height * bytes_per_pixel` bytes, and
/// conversions allocate with `ImageBuffer::new`).
#[verifier::external_body]
pub(crate) fn decode_rgba(bytes: &[u8]) -> (r: Result<(Size, Vec<u8>), GameError>)
    ensures
        r is Ok <==> decoded_rgba(bytes@) is Some,
        r matches Ok((size, pixels)) ==> decoded_rgba(bytes@) == Some((size, pixels@))
            && pixels@.len() == rgba_len(size.width, size.height),
        r matches Err(e) ==> e is InitError,
{
    match ::image::load_from_memory(bytes) {
        Ok(decoded) => {
            let rgba = decoded.into_rgba8();
            let size = Size { width: rgba.width(), height: rgba.height() };
            Ok((size, rgba.into_raw()))
        },
        Err(error) => Err(GameError::InitError(error.to_string())),
    }
}

/// Decoded RGBA8 pixels held in memory, four bytes per pixel, row by row.
pub struct Image {
    size: Size,
    pixels: Vec<u8>,
}

impl View for Image {
    type V = (Size, Seq<u8>);

    closed spec fn view(&self) -> (Size, Seq<u8>) {
        (self.size, self.pixels@)
    }
}

impl Image {
    pub open spec fn wf(&self) -> bool {
        self@.1.len() == rgba_len(self@.0.width, self@.0.height)
    }

    /// Wraps `pixels` as an image of `size`; fails when the length does not match.
    pub fn new(size: Size, pixels: Vec<u8>) -> (r: Result<Image, GameError>)
        ensures
            r is Ok <==> pixels@.len() == rgba_len(size.width, size.height),
            r matches Ok(image) ==> image@ == (size, pixels@) && image.wf(),
            r matches Err(e) ==> e == GameError::IllegalPixelsLength,
    {
        match validate_pixels(size, pixels.as_slice()) {
            Ok(()) => Ok(Image { size, pixels }),
            Err(e) => Err(e),
        }
    }

    /// Decodes an encoded image (PNG, JPEG, ...) into RGBA8 pixels.
    pub fn from_bytes(bytes: &[u8]) -> (r: Result<Image, GameError>)
        ensures
            r is Ok <==> decoded_rgba(bytes@) is Some,
            r matches Ok(image) ==> Some(image@) == decoded_rgba(bytes@) && image.wf(),
            r matches Err(e) ==> e is InitError,
    {
        match decode_rgba(bytes) {
            Ok((size, pixels)) => Image::new(size, pixels),
            Err(e) => Err(e),
        }
    }

    pub fn size(&self) -> (r: Size)
        ensures
            r == self@.0,
    {
        self.size
    }

    pub fn pixels(&self) -> (r: &[u8])
        ensures
            r@ == self@.1,
    {
        self.pixels.as_slice()
    }

    pub fn into_pixels(self) -> (r: Vec<u8>)
        ensures
            r@ == self@.1,
    {
        self.pixels
    }
}

} // verus!
