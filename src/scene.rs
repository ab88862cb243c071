//! The flat scene that the renderer consumes.
use vstd::prelude::*;
use crate::render::Vec3Bits;

verus! {

/// Where a texture's pixels come from.
#[derive(Clone, Copy, Debug, PartialEq, Eq, Structural)]
pub enum TextureSource {
    /// One pixel of the given colour.
    Color(Vec3Bits),
    /// An image file loaded once under this identity; entries that keep the
    /// identity keep the pixels already uploaded.
    File(u64),
}

pub struct TextureData {
    /// The file path for file textures.
    pub key: Option<String>,
    /// `f32` bits of the factor applied to the pixels.
    pub scale: u32,
    pub source: TextureSource,
}

/// Bit pattern of `1.0_f32`, the scale of single-colour textures.
pub const UNIT_SCALE: u32 = 0x3F80_0000;

impl TextureData {
    pub fn new_from_color(color: Vec3Bits) -> (r: Self)
        ensures
            r.key is None,
            r.scale == UNIT_SCALE,
            r.source == TextureSource::Color(color),
    {
        TextureData { key: None, scale: UNIT_SCALE, source: TextureSource::Color(color) }
    }
}

/// A material record; texture fields index the scene's textures.
#[derive(Clone, Copy, Debug, PartialEq, Eq, Structural)]
pub enum Material {
    Lambertian { albedo: usize },
    Metal { albedo: usize, fuzz: u32 },
    Dielectric { refraction_index: u32 },
    Checkerboard { even: usize, odd: usize },
    Emissive { emit: usize },
}

impl Material {
    /// Every texture index of the record is below `n`.
    pub open spec fn indices_below(self, n: nat) -> bool {
        match self {
            Material::Lambertian { albedo } => albedo < n,
            Material::Metal { albedo, .. } => albedo < n,
            Material::Dielectric { .. } => true,
            Material::Checkerboard { even, odd } => even < n && odd < n,
            Material::Emissive { emit } => emit < n,
        }
    }
}

#[derive(Clone, Copy, Debug, PartialEq, Eq, Structural)]
pub struct Sphere {
    pub center: Vec3Bits,
    pub radius: u32,
    pub material_idx: usize,
}

pub struct Scene {
    pub spheres: Vec<Sphere>,
    pub materials: Vec<Material>,
    pub textures: Vec<TextureData>,
}

impl Scene {
    /// Every index in the scene points at an existing record.
    pub open spec fn wf(&self) -> bool {
        &&& forall|i: int|
            0 <= i < self.spheres@.len() ==> (#[trigger] self.spheres@[i]).material_idx
                < self.materials@.len()
        &&& forall|i: int|
            0 <= i < self.materials@.len() ==> (#[trigger] self.materials@[i]).indices_below(
                self.textures@.len(),
            )
    }

    pub fn empty() -> (r: Self)
        ensures
            r.wf(),
            r.spheres@.len() == 0,
            r.materials@.len() == 0,
            r.textures@.len() == 0,
    {
        Scene { spheres: Vec::new(), materials: Vec::new(), textures: Vec::new() }
    }
}

} // verus!
