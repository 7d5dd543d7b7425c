//! Layer element resolver.
//!
//! Given the triangle-corner index structure produced during triangulation
//! and one attribute layer, resolves the attribute value of a triangle corner:
//! the mapping mode picks a base element (control point, polygon vertex or
//! polygon), the reference mode optionally sends it through an index array,
//! and the result must land inside the layer's value array.

use vstd::prelude::*;

use crate::error::Error;
use crate::fbx::v7400::document::LayerElementMaterial;
use crate::fbx::v7400::document::LayerElementNormal;
use crate::fbx::v7400::document::LayerElementUv;
use crate::fbx::v7400::document::MappingMode;
use crate::fbx::v7400::document::ReferenceMode;
use crate::fbx::v7400::triangulator::spec_cpi;
use crate::fbx::v7400::triangulator::TriangleVertices;
use crate::math::Point2;
use crate::math::Vector3;

verus! {

/// The base element index of a triangle corner under a mapping mode.
pub open spec fn spec_base_index(
    mapping: MappingMode,
    raw: Seq<i32>,
    tri_pv: Seq<usize>,
    tri_poly: Seq<usize>,
    tri_vi: int,
) -> Result<int, Error> {
    match mapping {
        MappingMode::ByControlPoint => {
            if 0 <= tri_vi < tri_pv.len() && (tri_pv[tri_vi] as int) < raw.len() {
                Result::Ok(spec_cpi(raw[tri_pv[tri_vi] as int]))
            } else {
                Result::Err(Error::IndexOutOfRange)
            }
        },
        MappingMode::ByPolygonVertex => {
            if 0 <= tri_vi < tri_pv.len() {
                Result::Ok(tri_pv[tri_vi] as int)
            } else {
                Result::Err(Error::IndexOutOfRange)
            }
        },
        MappingMode::ByPolygon => {
            if 0 <= tri_vi && 0 <= tri_vi / 3 < tri_poly.len() {
                Result::Ok(tri_poly[tri_vi / 3] as int)
            } else {
                Result::Err(Error::IndexOutOfRange)
            }
        },
        MappingMode::ByEdge => Result::Err(Error::DocumentAccessError),
        MappingMode::AllSame => Result::Ok(0),
    }
}

/// The base index sent through the reference mode: used as is, or looked up
/// in the index array, where a negative entry `r` encodes `!r`.
pub open spec fn spec_direct_index(
    reference: ReferenceMode,
    indices: Seq<i32>,
    i: int,
) -> Result<int, Error> {
    match reference {
        ReferenceMode::Direct => Result::Ok(i),
        ReferenceMode::IndexToDirect => {
            if 0 <= i < indices.len() {
                Result::Ok(spec_cpi(indices[i]))
            } else {
                Result::Err(Error::IndexOutOfRange)
            }
        },
    }
}

/// The index into a layer's value array for one triangle corner, bound-checked
/// against the array length.
pub open spec fn spec_content_index(
    mapping: MappingMode,
    reference: ReferenceMode,
    indices: Seq<i32>,
    raw: Seq<i32>,
    tri_pv: Seq<usize>,
    tri_poly: Seq<usize>,
    tri_vi: int,
    array_len: int,
) -> Result<int, Error> {
    match spec_base_index(mapping, raw, tri_pv, tri_poly, tri_vi) {
        Result::Ok(b) => match spec_direct_index(reference, indices, b) {
            Result::Ok(d) => {
                if 0 <= d < array_len {
                    Result::Ok(d)
                } else {
                    Result::Err(Error::IndexOutOfRange)
                }
            },
            Result::Err(e) => Result::Err(e),
        },
        Result::Err(e) => Result::Err(e),
    }
}

/// Resolves the value-array index of one triangle corner.
fn content_index(
    mapping: MappingMode,
    reference: ReferenceMode,
    indices: &Vec<i32>,
    raw: &Vec<i32>,
    tv: &TriangleVertices,
    tri_vi: usize,
    array_len: usize,
) -> (r: Result<usize, Error>)
    ensures
        ({
            let s = spec_content_index(
                mapping,
                reference,
                indices@,
                raw@,
                tv.tri_pv_indices@,
                tv.tri_poly_indices@,
                tri_vi as int,
                array_len as int,
            );
            match s {
                Result::Ok(d) => r matches Result::Ok(u) && u as int == d,
                Result::Err(e) => r == Result::Err::<usize, Error>(e),
            }
        }),
{
    let base: usize = match mapping {
        MappingMode::ByControlPoint => {
            if tri_vi >= tv.tri_pv_indices.len() {
                return Result::Err(Error::IndexOutOfRange);
            }
            let pvi = tv.tri_pv_indices[tri_vi];
            if pvi >= raw.len() {
                return Result::Err(Error::IndexOutOfRange);
            }
            let rawv = raw[pvi];
            if rawv < 0 {
                ((-(rawv as i64)) - 1) as usize
            } else {
                rawv as usize
            }
        },
        MappingMode::ByPolygonVertex => {
            if tri_vi >= tv.tri_pv_indices.len() {
                return Result::Err(Error::IndexOutOfRange);
            }
            tv.tri_pv_indices[tri_vi]
        },
        MappingMode::ByPolygon => {
            let tri_i = tri_vi / 3;
            if tri_i >= tv.tri_poly_indices.len() {
                return Result::Err(Error::IndexOutOfRange);
            }
            tv.tri_poly_indices[tri_i]
        },
        MappingMode::ByEdge => {
            return Result::Err(Error::DocumentAccessError);
        },
        MappingMode::AllSame => 0,
    };
    let direct: usize = match reference {
        ReferenceMode::Direct => base,
        ReferenceMode::IndexToDirect => {
            if base >= indices.len() {
                return Result::Err(Error::IndexOutOfRange);
            }
            let iv = indices[base];
            if iv < 0 {
                ((-(iv as i64)) - 1) as usize
            } else {
                iv as usize
            }
        },
    };
    if direct < array_len {
        Result::Ok(direct)
    } else {
        Result::Err(Error::IndexOutOfRange)
    }
}

/// The normal of one triangle corner; normal layers are always referenced
/// directly.
pub open spec fn spec_resolve_normal(
    layer: LayerElementNormal,
    raw: Seq<i32>,
    tri_pv: Seq<usize>,
    tri_poly: Seq<usize>,
    tri_vi: int,
) -> Result<Vector3, Error> {
    match spec_content_index(
        layer.mapping,
        ReferenceMode::Direct,
        Seq::empty(),
        raw,
        tri_pv,
        tri_poly,
        tri_vi,
        layer.normals@.len() as int,
    ) {
        Result::Ok(d) => Result::Ok(layer.normals@[d]),
        Result::Err(e) => Result::Err(e),
    }
}

/// Resolves the normal of one triangle corner.
pub fn resolve_normal(
    layer: &LayerElementNormal,
    raw: &Vec<i32>,
    tv: &TriangleVertices,
    tri_vi: usize,
) -> (r: Result<Vector3, Error>)
    ensures
        r == spec_resolve_normal(
            *layer,
            raw@,
            tv.tri_pv_indices@,
            tv.tri_poly_indices@,
            tri_vi as int,
        ),
{
    let empty: Vec<i32> = Vec::new();
    match content_index(
        layer.mapping,
        ReferenceMode::Direct,
        &empty,
        raw,
        tv,
        tri_vi,
        layer.normals.len(),
    ) {
        Result::Ok(d) => Result::Ok(layer.normals[d]),
        Result::Err(e) => Result::Err(e),
    }
}

/// The UV of one triangle corner.
pub open spec fn spec_resolve_uv(
    layer: LayerElementUv,
    raw: Seq<i32>,
    tri_pv: Seq<usize>,
    tri_poly: Seq<usize>,
    tri_vi: int,
) -> Result<Point2, Error> {
    match spec_content_index(
        layer.mapping,
        layer.reference,
        layer.uv_index@,
        raw,
        tri_pv,
        tri_poly,
        tri_vi,
        layer.uv@.len() as int,
    ) {
        Result::Ok(d) => Result::Ok(layer.uv@[d]),
        Result::Err(e) => Result::Err(e),
    }
}

/// Resolves the UV of one triangle corner.
pub fn resolve_uv(
    layer: &LayerElementUv,
    raw: &Vec<i32>,
    tv: &TriangleVertices,
    tri_vi: usize,
) -> (r: Result<Point2, Error>)
    ensures
        r == spec_resolve_uv(
            *layer,
            raw@,
            tv.tri_pv_indices@,
            tv.tri_poly_indices@,
            tri_vi as int,
        ),
{
    match content_index(
        layer.mapping,
        layer.reference,
        &layer.uv_index,
        raw,
        tv,
        tri_vi,
        layer.uv.len(),
    ) {
        Result::Ok(d) => Result::Ok(layer.uv[d]),
        Result::Err(e) => Result::Err(e),
    }
}

/// The mesh-local material slot of one triangle corner; the slot array is
/// always reached through the content index, and a negative slot is refused.
pub open spec fn spec_resolve_material(
    layer: LayerElementMaterial,
    raw: Seq<i32>,
    tri_pv: Seq<usize>,
    tri_poly: Seq<usize>,
    tri_vi: int,
) -> Result<u32, Error> {
    match spec_content_index(
        layer.mapping,
        ReferenceMode::Direct,
        Seq::empty(),
        raw,
        tri_pv,
        tri_poly,
        tri_vi,
        layer.indices@.len() as int,
    ) {
        Result::Ok(d) => {
            if layer.indices@[d] < 0 {
                Result::Err(Error::IndexOutOfRange)
            } else {
                Result::Ok(layer.indices@[d] as u32)
            }
        },
        Result::Err(e) => Result::Err(e),
    }
}

/// Resolves the mesh-local material slot of one triangle corner.
pub fn resolve_material(
    layer: &LayerElementMaterial,
    raw: &Vec<i32>,
    tv: &TriangleVertices,
    tri_vi: usize,
) -> (r: Result<u32, Error>)
    ensures
        r == spec_resolve_material(
            *layer,
            raw@,
            tv.tri_pv_indices@,
            tv.tri_poly_indices@,
            tri_vi as int,
        ),
{
    let empty: Vec<i32> = Vec::new();
    match content_index(
        layer.mapping,
        ReferenceMode::Direct,
        &empty,
        raw,
        tv,
        tri_vi,
        layer.indices.len(),
    ) {
        Result::Ok(d) => {
            let slot = layer.indices[d];
            if slot < 0 {
                Result::Err(Error::IndexOutOfRange)
            } else {
                Result::Ok(slot as u32)
            }
        },
        Result::Err(e) => Result::Err(e),
    }
}

} // verus!
