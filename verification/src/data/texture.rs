//! Texture.

use vstd::prelude::*;

verus! {

/// A decoded RGBA image: `width * height` texels, four bytes per texel.
#[derive(Debug, Clone)]
pub struct DecodedImage {
    /// Width in texels.
    pub width: u32,
    /// Height in texels.
    pub height: u32,
    /// RGBA bytes, row by row.
    pub rgba: Vec<u8>,
}

impl DecodedImage {
    /// The byte buffer holds exactly four bytes per texel.
    pub open spec fn wf(self) -> bool {
        self.rgba@.len() == 4 * (self.width as int) * (self.height as int)
    }
}

/// A texture: a decoded image plus its sampling parameters.
#[derive(Debug, Clone)]
pub struct Texture {
    /// Name.
    pub name: Option<String>,
    /// Decoded image.
    pub image: DecodedImage,
    /// Whether the texture can be transparent.
    ///
    /// If `false`, the texture can be assumed to have no transparent texels.
    /// The flag records how the material reference that first loaded the
    /// texture wants it treated, not an intrinsic image property.
    pub transparent: bool,
    /// Wrap mode for the U axis.
    pub wrap_mode_u: WrapMode,
    /// Wrap mode for the V axis.
    pub wrap_mode_v: WrapMode,
}

impl Texture {
    /// The decoded image is well formed.
    pub open spec fn wf(self) -> bool {
        self.image.wf()
    }
}

/// Wrap mode.
#[derive(Debug, Clone, Copy, PartialEq, Eq, Structural)]
pub enum WrapMode {
    /// Repeat.
    Repeat,
    /// Clamp to edge.
    ClampToEdge,
}

} // verus!
