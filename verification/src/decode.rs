use vstd::prelude::*;

use crate::gltf::GltfAccessor;
use crate::gltf::GltfBufferView;
use crate::gltf::component_size;
use crate::gltf::type_length;

verus! {

/// Why an accessor could not be resolved against its buffer.
#[derive(Debug, Clone, Copy, PartialEq, Eq, Structural)]
pub enum DecodeError {
    /// The accessor names no buffer view.
    MissingView,
    /// The named buffer view does not exist.
    UnknownView,
    /// The buffer view reaches past the end of the binary blob.
    ViewOutOfBounds,
    /// The accessor's elements reach past the end of its buffer view.
    RegionOutOfBounds,
}

/// A decoded region: the raw bytes of an accessor's elements, with the
/// element stride and count.
#[derive(Debug)]
pub struct DecodedRegion {
    pub bytes: Vec<u8>,
    pub stride: usize,
    pub count: usize,
}

/// The element stride of an accessor: components per element times bytes
/// per component.
pub open spec fn stride_of(acc: GltfAccessor) -> int {
    type_length(acc.accessor_type) * component_size(acc.component_type)
}

/// Where an accessor's elements live: the byte offset of element zero within
/// the binary blob, the element stride, and the element count — or the
/// bounds violation that forbids reading them. The addressable region starts
/// at the view's offset in the blob and spans the view's length; within it,
/// the accessor's own offset marks element zero.
pub open spec fn decode_spec(
    acc: GltfAccessor,
    views: Seq<GltfBufferView>,
    bin: Seq<u8>,
) -> Result<(int, int, int), DecodeError> {
    let stride = stride_of(acc);
    let length = acc.count * stride;
    match acc.buffer_view {
        None => Err(DecodeError::MissingView),
        Some(bv) => {
            if bv >= views.len() {
                Err(DecodeError::UnknownView)
            } else {
                let view = views[bv as int];
                let vo = (match view.byte_offset {
                    Some(o) => o as int,
                    None => 0,
                });
                if vo + view.byte_length > bin.len() {
                    Err(DecodeError::ViewOutOfBounds)
                } else {
                    let ao = (match acc.byte_offset {
                        Some(o) => o as int,
                        None => 0,
                    });
                    if ao + length > view.byte_length {
                        Err(DecodeError::RegionOutOfBounds)
                    } else {
                        Ok((vo + ao, stride, acc.count as int))
                    }
                }
            }
        },
    }
}

/// Resolve an accessor against its buffer view and the binary blob: check
/// every bound and hand back the element bytes, stride and count. A bound
/// that does not hold is reported, never read past.
pub fn decode(acc: &GltfAccessor, views: &Vec<GltfBufferView>, bin: &Vec<u8>) -> (r: Result<
    DecodedRegion,
    DecodeError,
>)
    ensures
        r is Ok <==> decode_spec(*acc, views@, bin@) is Ok,
        r matches Ok(d) ==> decode_spec(*acc, views@, bin@) matches Ok(t) && d.stride as int
            == t.1 && d.count as int == t.2 && d.bytes@ == bin@.subrange(
            t.0,
            t.0 + t.2 * t.1,
        ) && t.0 + t.2 * t.1 <= bin@.len(),
        r matches Err(e) ==> decode_spec(*acc, views@, bin@) == Err::<(int, int, int), DecodeError>(
            e,
        ),
{
    let tl = acc.accessor_type.to_length();
    let cs = acc.component_type.to_typesize();
    proof {
        assert(1 <= tl <= 16 && 1 <= cs <= 4);
        assert((tl as int) * (cs as int) <= 64) by (nonlinear_arith)
            requires
                0 <= tl <= 16,
                0 <= cs <= 4,
        ;
        assert((tl as int) * (cs as int) >= 0) by (nonlinear_arith)
            requires
                tl >= 0,
                cs >= 0,
        ;
    }
    let stride = tl * cs;
    proof {
        assert((acc.count as int) * (stride as int) <= 0xffff_ffff_ffff_ffff * 64)
            by (nonlinear_arith)
            requires
                0 <= acc.count <= 0xffff_ffff_ffff_ffff,
                0 <= stride <= 64,
        ;
        assert((acc.count as int) * (stride as int) >= 0) by (nonlinear_arith)
            requires
                acc.count >= 0,
                stride >= 0,
        ;
    }
    let length = (acc.count as u128) * (stride as u128);
    let bv = match acc.buffer_view {
        Some(bv) => bv,
        None => {
            return Err(DecodeError::MissingView);
        },
    };
    if bv >= views.len() {
        return Err(DecodeError::UnknownView);
    }
    let view = &views[bv];
    let vo = match view.byte_offset {
        Some(o) => o,
        None => 0,
    };
    if (vo as u128) + (view.byte_length as u128) > (bin.len() as u128) {
        return Err(DecodeError::ViewOutOfBounds);
    }
    let ao = match acc.byte_offset {
        Some(o) => o,
        None => 0,
    };
    if (ao as u128) + length > (view.byte_length as u128) {
        return Err(DecodeError::RegionOutOfBounds);
    }
    let start = vo + ao;
    proof {
        assert((acc.count as int) * (stride as int) <= view.byte_length as int);
    }
    let total = acc.count * stride;
    proof {
        assert(start + total <= bin@.len());
    }
    let mut bytes: Vec<u8> = Vec::new();
    let bl = bin.len();
    let mut t: usize = 0;
    while t < total
        invariant
            t <= total,
            bl == bin@.len(),
            start + total <= bl,
            bytes@.len() == t as int,
            forall|k: int| 0 <= k < t ==> bytes@[k] == bin@[start + k],
        decreases total - t,
    {
        bytes.push(bin[start + t]);
        t += 1;
    }
    proof {
        assert(bytes@ =~= bin@.subrange(start as int, start as int + total as int));
    }
    Ok(DecodedRegion { bytes, stride, count: acc.count })
}

} // verus!
