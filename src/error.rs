use vstd::prelude::*;

verus! {

/// The error returned when a texture cannot be created.
#[derive(Debug, PartialEq, Eq, Structural)]
pub enum NewTextureError {
    /// Tried to create a texture with dimensions which are
    /// greater than the maximum allowed texture size or zero.
    InvalidTextureSize {
        /// The requested width.
        width: u32,
        /// The requested height.
        height: u32,
    },
}

/// Whether `dimensions` may be used for a texture on a device whose largest
/// texture is `max`.
pub open spec fn valid_texture_size(dimensions: (u32, u32), max: (u32, u32)) -> bool {
    0 < dimensions.0 <= max.0 && 0 < dimensions.1 <= max.1
}

/// Checks `dimensions` against the largest supported texture `max`.
pub fn check_texture_size(dimensions: (u32, u32), max: (u32, u32)) -> (r: Result<(), NewTextureError>)
    ensures
        r is Ok <==> valid_texture_size(dimensions, max),
        r is Err ==> r == Err::<(), NewTextureError>(
            NewTextureError::InvalidTextureSize { width: dimensions.0, height: dimensions.1 },
        ),
{
    if dimensions.0 == 0 || dimensions.1 == 0 || dimensions.0 > max.0 || dimensions.1 > max.1 {
        Err(NewTextureError::InvalidTextureSize { width: dimensions.0, height: dimensions.1 })
    } else {
        Ok(())
    }
}

} // verus!
