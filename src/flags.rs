//! Capability bits of pins and the dirty bits of a scene root.
use vstd::prelude::*;

verus! {

pub const NUMBER: u64 = 0x1;
pub const STRING: u64 = 0x2;
pub const VECTOR: u64 = 0x4;
pub const COLOR: u64 = 0x8;

pub const PRIMITIVE_SPHERE: u64 = 0x10;
pub const PRIMITIVES: u64 = PRIMITIVE_SPHERE;

pub const MATERIAL_METAL: u64 = 0x20;
pub const MATERIAL_DIELECTRIC: u64 = 0x40;
pub const MATERIAL_LAMBERT: u64 = 0x80;
pub const MATERIAL_EMISSIVE: u64 = 0x100;
pub const MATERIAL_CHECKERBOARD: u64 = 0x200;
pub const MATERIALS: u64 = MATERIAL_METAL | MATERIAL_DIELECTRIC | MATERIAL_LAMBERT | MATERIAL_EMISSIVE
    | MATERIAL_CHECKERBOARD;

pub const TEXTURE: u64 = 0x400;
pub const COLLECTION: u64 = 0x800;
pub const CAMERA: u64 = 0x1000;
pub const SCENE: u64 = 0x2000;

pub const RENDER_TRIANGLE: u64 = 0x4000;
pub const RENDER_XRAYS: u64 = 0x8000;
pub const RENDERS: u64 = RENDER_TRIANGLE | RENDER_XRAYS;

pub const OUTPUT: u64 = 0x10000;

pub const ALL: u64 = 0xFFFF_FFFF_FFFF_FFFF;
pub const TYPICAL_NUMBER_INPUT: u64 = NUMBER;
pub const TYPICAL_VECTOR_INPUT: u64 = VECTOR | COLOR | NUMBER;

/// A wire from an output pin to an input pin is legal when the two pins share
/// at least one capability bit.
pub open spec fn compatible(output_bits: u64, input_bits: u64) -> bool {
    output_bits & input_bits != 0
}

/// Whether an output pin with `output_bits` may feed an input pin with `input_bits`.
pub fn is_compatible(output_bits: u64, input_bits: u64) -> (r: bool)
    ensures
        r == compatible(output_bits, input_bits),
        !r <==> output_bits & input_bits == 0,
{
    output_bits & input_bits != 0
}

/// Compatibility depends only on the overlap of the two masks, not on which
/// side is the output: swapping them gives the same answer, and the answer is
/// `false` exactly when the masks share no bit.
pub proof fn law_compatible_symmetric(a: u64, b: u64)
    ensures
        compatible(a, b) == compatible(b, a),
        !compatible(a, b) <==> a & b == 0,
{
    assert(a & b == b & a) by (bit_vector);
}

/// Nothing changed since the last compile.
pub const DIRTY_NONE: u32 = 0;
pub const DIRTY_TEXTURE_VALUE: u32 = 0x1;
pub const DIRTY_TEXTURE_LAYOUT: u32 = 0x2;
pub const DIRTY_MATERIAL_VALUE: u32 = 0x4;
pub const DIRTY_MATERIAL_LAYOUT: u32 = 0x8;
pub const DIRTY_PRIMITIVE_VALUE: u32 = 0x10;
pub const DIRTY_PRIMITIVE_LAYOUT: u32 = 0x20;
/// Everything must be rebuilt.
pub const DIRTY_ALL: u32 = 0xFFFF_FFFF;
/// The state of a scene root that has never been compiled: dirty in every
/// respect, and marked so that the first compile is followed by one more.
pub const DIRTY_INIT: u32 = 0xFFFF_FFFE;

/// Merges newly reported changes into a pending dirty mask.
pub fn merge_dirty(pending: u32, changes: u32) -> (r: u32)
    ensures
        r == pending | changes,
{
    pending | changes
}

} // verus!
