use vstd::prelude::*;

verus! {

/// Why a bitmap could not be built or a sprite could not be baked.
#[derive(Debug, Clone, Copy, PartialEq, Eq, Structural)]
pub enum BakeError {
    /// The pixel data does not fill whole rows of the stated width.
    ImageSizeMismatch,
    /// A side of the image is longer than `i32::MAX` pixels.
    TooLarge,
    /// No raster was supplied for one of the rotation steps.
    MissingVariant,
}

} // verus!
