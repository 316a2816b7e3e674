use vstd::prelude::*;

verus! {

/// Errors surfaced to the immediate caller of a texture or image operation.
#[derive(Debug, PartialEq, Eq)]
pub enum GameError {
    /// A pixel buffer does not hold exactly four bytes (RGBA8) per pixel.
    IllegalPixelsLength,
    /// Outside data (encoded image or font bytes) could not be decoded.
    InitError(String),
}

} // verus!
