use vstd::prelude::*;

use crate::decode::DecodeError;
use crate::decode::decode;
use crate::decode::decode_spec;
use crate::gltf::GltfAccessor;
use crate::gltf::GltfAccessorType;
use crate::gltf::GltfBufferView;
use crate::gltf::GltfMeshPrimitiveAttr;

verus! {

/// Why a primitive could not be turned into renderable buffers.
#[derive(Debug, Clone, Copy, PartialEq, Eq, Structural)]
pub enum RenderError {
    /// An accessor could not be resolved against the binary blob.
    Decode(DecodeError),
    /// The attribute kind is recognized but not handled yet.
    UnsupportedAttribute,
    /// The index accessor does not hold scalars.
    NotScalarIndices,
}

/// A vertex buffer ready for the rendering backend: raw bytes, the element
/// stride, and one three-component position field at offset zero.
#[derive(Debug)]
pub struct VertexRegion {
    pub contents: Vec<u8>,
    pub stride: usize,
}

/// An index buffer ready for the rendering backend: raw bytes and the number
/// of indices, in the four-byte unsigned format.
#[derive(Debug)]
pub struct IndexRegion {
    pub contents: Vec<u8>,
    pub count: usize,
}

/// The renderable buffers of one primitive, as far as they are filled in.
#[derive(Debug)]
pub struct SceneRenderData {
    pub vertexbuffer: Option<VertexRegion>,
    pub indexbuffer: Option<IndexRegion>,
}

impl Default for SceneRenderData {
    /// No buffers yet.
    fn default() -> (r: SceneRenderData)
        ensures
            r.vertexbuffer is None,
            r.indexbuffer is None,
    {
        SceneRenderData { vertexbuffer: None, indexbuffer: None }
    }
}

/// The vertex region holds exactly the bytes the accessor addresses, with
/// its stride.
pub open spec fn vertex_region_of(
    vr: VertexRegion,
    acc: GltfAccessor,
    views: Seq<GltfBufferView>,
    bin: Seq<u8>,
) -> bool {
    decode_spec(acc, views, bin) matches Ok(t) && vr.stride as int == t.1 && vr.contents@
        == bin.subrange(t.0, t.0 + t.2 * t.1)
}

/// The index region holds exactly the bytes the accessor addresses, with its
/// element count.
pub open spec fn index_region_of(
    ir: IndexRegion,
    acc: GltfAccessor,
    views: Seq<GltfBufferView>,
    bin: Seq<u8>,
) -> bool {
    decode_spec(acc, views, bin) matches Ok(t) && ir.count as int == t.2 && ir.contents@
        == bin.subrange(t.0, t.0 + t.2 * t.1)
}

impl SceneRenderData {
    /// Fill in the vertex buffer from one attribute of a primitive: the
    /// position attribute is decoded, the normal attribute is recognized and
    /// passed over, every other attribute kind is reported as unsupported
    /// rather than dropped silently.
    pub fn process_primitive(
        &mut self,
        prim: &GltfMeshPrimitiveAttr,
        bufferviews: &Vec<GltfBufferView>,
        bin_data: &Vec<u8>,
        accessor: &GltfAccessor,
    ) -> (r: Result<(), RenderError>)
        ensures
            final(self).indexbuffer == old(self).indexbuffer,
            *prim == GltfMeshPrimitiveAttr::Position ==> {
                &&& (r is Ok <==> decode_spec(*accessor, bufferviews@, bin_data@) is Ok)
                &&& (r is Ok ==> (final(self).vertexbuffer matches Some(vr) && vertex_region_of(
                    vr,
                    *accessor,
                    bufferviews@,
                    bin_data@,
                )))
                &&& (r matches Err(e) ==> (e matches RenderError::Decode(d) && decode_spec(
                    *accessor,
                    bufferviews@,
                    bin_data@,
                ) == Err::<(int, int, int), DecodeError>(d) && final(self).vertexbuffer == old(self).vertexbuffer))
            },
            *prim == GltfMeshPrimitiveAttr::Normal ==> r is Ok && final(self).vertexbuffer == old(self).vertexbuffer,
            *prim != GltfMeshPrimitiveAttr::Position && *prim != GltfMeshPrimitiveAttr::Normal
                ==> r == Err::<(), RenderError>(RenderError::UnsupportedAttribute) && final(self).vertexbuffer == old(self).vertexbuffer,
    {
        match prim {
            GltfMeshPrimitiveAttr::Position => {
                let region = match decode(accessor, bufferviews, bin_data) {
                    Ok(d) => d,
                    Err(e) => {
                        return Err(RenderError::Decode(e));
                    },
                };
                self.vertexbuffer = Some(
                    VertexRegion { contents: region.bytes, stride: region.stride },
                );
                Ok(())
            },
            GltfMeshPrimitiveAttr::Normal => Ok(()),
            _ => Err(RenderError::UnsupportedAttribute),
        }
    }

    /// Fill in the index buffer from the index accessor of a primitive. The
    /// accessor must hold scalars; anything else is reported.
    pub fn process_indices(
        &mut self,
        bufferviews: &Vec<GltfBufferView>,
        bin_data: &Vec<u8>,
        accessor: &GltfAccessor,
    ) -> (r: Result<(), RenderError>)
        ensures
            final(self).vertexbuffer == old(self).vertexbuffer,
            accessor.accessor_type != GltfAccessorType::Scalar ==> r == Err::<(), RenderError>(
                RenderError::NotScalarIndices,
            ) && final(self).indexbuffer == old(self).indexbuffer,
            accessor.accessor_type == GltfAccessorType::Scalar ==> {
                &&& (r is Ok <==> decode_spec(*accessor, bufferviews@, bin_data@) is Ok)
                &&& (r is Ok ==> (final(self).indexbuffer matches Some(ir) && index_region_of(
                    ir,
                    *accessor,
                    bufferviews@,
                    bin_data@,
                )))
                &&& (r matches Err(e) ==> (e matches RenderError::Decode(d) && decode_spec(
                    *accessor,
                    bufferviews@,
                    bin_data@,
                ) == Err::<(int, int, int), DecodeError>(d) && final(self).indexbuffer == old(self).indexbuffer))
            },
    {
        if !matches!(accessor.accessor_type, GltfAccessorType::Scalar) {
            return Err(RenderError::NotScalarIndices);
        }
        let region = match decode(accessor, bufferviews, bin_data) {
            Ok(d) => d,
            Err(e) => {
                return Err(RenderError::Decode(e));
            },
        };
        self.indexbuffer = Some(IndexRegion { contents: region.bytes, count: region.count });
        Ok(())
    }
}

} // verus!
