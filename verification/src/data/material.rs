//! Material.

use vstd::prelude::*;

use crate::data::scene::TextureIndex;
use crate::math::Rgb;

verus! {

/// A resolved material: shading parameters plus an optional diffuse texture.
#[derive(Debug, Clone)]
pub struct Material {
    /// Name.
    pub name: Option<String>,
    /// Diffuse texture index, if any.
    pub diffuse_texture: Option<TextureIndex>,
    /// Shading parameters.
    pub data: ShadingData,
}

/// Shading data, one variant per supported shading model.
#[derive(Debug, Clone, Copy, PartialEq, Eq, Structural)]
pub enum ShadingData {
    /// Lambert material.
    Lambert(LambertData),
}

/// Lambert shading parameters, each already scaled by its factor.
#[derive(Debug, Clone, Copy, PartialEq, Eq, Structural)]
pub struct LambertData {
    /// Ambient colour.
    pub ambient: Rgb,
    /// Diffuse colour.
    pub diffuse: Rgb,
    /// Emissive colour.
    pub emissive: Rgb,
}

} // verus!
