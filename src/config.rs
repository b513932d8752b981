use vstd::prelude::*;

verus! {

/// The bit pattern of the float `1.0`.
pub const ONE_BITS: u32 = 0x3F80_0000;

/// A color with four float components, each held as its IEEE 754 bit pattern.
#[derive(Debug, Clone, Copy, PartialEq, Eq, Structural)]
pub struct Rgba {
    /// Red.
    pub r: u32,
    /// Green.
    pub g: u32,
    /// Blue.
    pub b: u32,
    /// Alpha.
    pub a: u32,
}

/// A 4x4 matrix of floats, row by row, each entry held as its bit pattern.
pub type ColorMatrix = [[u32; 4]; 4];

/// The identity color matrix: `1.0` on the diagonal, `0.0` elsewhere.
pub open spec fn identity() -> ColorMatrix {
    [[ONE_BITS, 0, 0, 0], [0, ONE_BITS, 0, 0], [0, 0, ONE_BITS, 0], [0, 0, 0, ONE_BITS]]
}

/// The identity color matrix.
pub fn identity_matrix() -> (r: ColorMatrix)
    ensures
        r == identity(),
{
    [[ONE_BITS, 0, 0, 0], [0, ONE_BITS, 0, 0], [0, 0, ONE_BITS, 0], [0, 0, 0, ONE_BITS]]
}

/// Whether two color matrices hold the same bit patterns.
pub fn matrix_eq(a: &ColorMatrix, b: &ColorMatrix) -> (r: bool)
    ensures
        r == (*a == *b),
{
    let mut i: usize = 0;
    while i < 4
        invariant
            0 <= i <= 4,
            forall|k: int| 0 <= k < i ==> a[k] == b[k],
        decreases 4 - i,
    {
        let mut j: usize = 0;
        while j < 4
            invariant
                0 <= i < 4,
                0 <= j <= 4,
                forall|l: int| 0 <= l < j ==> a[i as int][l] == b[i as int][l],
            decreases 4 - j,
        {
            if a[i][j] != b[i][j] {
                return false;
            }
            j += 1;
        }
        assert(a[i as int] =~= b[i as int]);
        i += 1;
    }
    assert(*a =~= *b);
    true
}

/// Used in `DrawConfig` to specify how each pixel is drawn onto the target.
#[derive(Debug, Clone, Copy, PartialEq, Eq, Structural)]
pub enum BlendMode {
    /// `src_alpha * src_color + (1.0 - src_alpha) * dst_color`
    Alpha,
    /// `src_alpha * src_color + 1.0 * dst_color`
    Additive,
}

impl Default for BlendMode {
    fn default() -> (r: Self)
        ensures
            r == BlendMode::Alpha,
    {
        BlendMode::Alpha
    }
}

/// How exactly a texture is drawn.
#[derive(Debug, Clone, Copy)]
pub struct DrawConfig {
    /// The scale of the drawn texture in drawn pixels per source pixel.
    pub scale: (u32, u32),
    /// If the texture is flipped on the y axis.
    pub flip_vertically: bool,
    /// If the texture is flipped on the x axis.
    pub flip_horizontally: bool,
    /// The depth at which the texture is drawn, as the bit pattern of a float;
    /// pixels with a smaller depth are not overwritten.
    ///
    /// Draw calls with `depth >= 1.0` are drawn like any other, and the depth
    /// test then discards every pixel of them.
    pub depth: Option<u32>,
    /// Changes the color of each pixel using matrix multiplication.
    pub color_modulation: ColorMatrix,
    /// If the red, green and blue color values of the texture are inverted.
    pub invert_color: bool,
    /// How the texture is drawn on the target.
    pub blend_mode: BlendMode,
}

/// The configuration that draws a texture as it is.
pub open spec fn default_config() -> DrawConfig {
    DrawConfig {
        scale: (1, 1),
        flip_vertically: false,
        flip_horizontally: false,
        depth: None,
        color_modulation: identity(),
        invert_color: false,
        blend_mode: BlendMode::Alpha,
    }
}

impl Default for DrawConfig {
    fn default() -> (r: Self)
        ensures
            r == default_config(),
    {
        DrawConfig {
            scale: (1, 1),
            flip_vertically: false,
            flip_horizontally: false,
            depth: None,
            color_modulation: identity_matrix(),
            invert_color: false,
            blend_mode: BlendMode::Alpha,
        }
    }
}

/// The endpoints of a debug line or rectangle, with the dimensions of the target.
#[derive(Debug, Clone, Copy, PartialEq, Eq)]
pub struct DebugSegment {
    /// The first endpoint, or the lower left corner.
    pub from: (i32, i32),
    /// The second endpoint, or the upper right corner.
    pub to: (i32, i32),
    /// The dimensions of the target in pixels.
    pub target_dimensions: (u32, u32),
}

} // verus!
