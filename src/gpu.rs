//! The layout of a compiled scene in GPU buffers: where each texture's
//! pixels start in the shared pixel buffer, the material records that refer
//! to them, and which spheres emit light.
use vstd::prelude::*;
use crate::scene::{Material, Scene, Sphere};

verus! {

/// A texture's place in the shared pixel buffer.
#[derive(Clone, Copy, Debug, PartialEq, Eq, Structural)]
pub struct TextureDescriptor {
    pub width: u32,
    pub height: u32,
    /// Index of the first pixel.
    pub offset: u32,
}

/// Offset that marks a descriptor that refers to no texture.
pub const NO_TEXTURE: u32 = 0xFFFF_FFFF;

impl TextureDescriptor {
    pub fn empty() -> (r: Self)
        ensures
            r == (TextureDescriptor { width: 0, height: 0, offset: NO_TEXTURE }),
    {
        TextureDescriptor { width: 0, height: 0, offset: NO_TEXTURE }
    }
}

/// A material as the shader reads it: a model number, up to two textures
/// and one `f32` parameter (as bits).
#[derive(Clone, Copy, Debug, PartialEq, Eq, Structural)]
pub struct GpuMaterial {
    pub id: u32,
    pub desc1: TextureDescriptor,
    pub desc2: TextureDescriptor,
    pub x: u32,
}

pub open spec fn empty_descriptor() -> TextureDescriptor {
    TextureDescriptor { width: 0, height: 0, offset: NO_TEXTURE }
}

impl GpuMaterial {
    pub fn lambertian(albedo: TextureDescriptor) -> (r: Self)
        ensures
            r == (GpuMaterial { id: 0, desc1: albedo, desc2: empty_descriptor(), x: 0 }),
    {
        GpuMaterial { id: 0, desc1: albedo, desc2: TextureDescriptor::empty(), x: 0 }
    }

    pub fn metal(albedo: TextureDescriptor, fuzz: u32) -> (r: Self)
        ensures
            r == (GpuMaterial { id: 1, desc1: albedo, desc2: empty_descriptor(), x: fuzz }),
    {
        GpuMaterial { id: 1, desc1: albedo, desc2: TextureDescriptor::empty(), x: fuzz }
    }

    pub fn dielectric(refraction_index: u32) -> (r: Self)
        ensures
            r == (GpuMaterial { id: 2, desc1: empty_descriptor(), desc2: empty_descriptor(), x: refraction_index }),
    {
        GpuMaterial {
            id: 2,
            desc1: TextureDescriptor::empty(),
            desc2: TextureDescriptor::empty(),
            x: refraction_index,
        }
    }

    pub fn checkerboard(even: TextureDescriptor, odd: TextureDescriptor) -> (r: Self)
        ensures
            r == (GpuMaterial { id: 3, desc1: even, desc2: odd, x: 0 }),
    {
        GpuMaterial { id: 3, desc1: even, desc2: odd, x: 0 }
    }

    pub fn emissive(emit: TextureDescriptor) -> (r: Self)
        ensures
            r == (GpuMaterial { id: 4, desc1: emit, desc2: empty_descriptor(), x: 0 }),
    {
        GpuMaterial { id: 4, desc1: emit, desc2: TextureDescriptor::empty(), x: 0 }
    }
}

/// The number of pixels of the first `n` textures with sizes `dims`.
pub open spec fn pixels_before(dims: Seq<(u32, u32)>, n: int) -> int
    decreases n,
{
    if n <= 0 || n > dims.len() {
        0
    } else {
        pixels_before(dims, n - 1) + dims[n - 1].0 * dims[n - 1].1
    }
}

pub open spec fn descriptor_of(dims: Seq<(u32, u32)>, i: int) -> TextureDescriptor {
    TextureDescriptor { width: dims[i].0, height: dims[i].1, offset: pixels_before(dims, i) as u32 }
}

/// The shader's record of `m`. A checkerboard's first texture is its odd one.
pub open spec fn gpu_material_of(m: Material, dims: Seq<(u32, u32)>) -> GpuMaterial {
    match m {
        Material::Lambertian { albedo } => GpuMaterial {
            id: 0,
            desc1: descriptor_of(dims, albedo as int),
            desc2: empty_descriptor(),
            x: 0,
        },
        Material::Metal { albedo, fuzz } => GpuMaterial {
            id: 1,
            desc1: descriptor_of(dims, albedo as int),
            desc2: empty_descriptor(),
            x: fuzz,
        },
        Material::Dielectric { refraction_index } => GpuMaterial {
            id: 2,
            desc1: empty_descriptor(),
            desc2: empty_descriptor(),
            x: refraction_index,
        },
        Material::Checkerboard { even, odd } => GpuMaterial {
            id: 3,
            desc1: descriptor_of(dims, odd as int),
            desc2: descriptor_of(dims, even as int),
            x: 0,
        },
        Material::Emissive { emit } => GpuMaterial {
            id: 4,
            desc1: descriptor_of(dims, emit as int),
            desc2: empty_descriptor(),
            x: 0,
        },
    }
}

/// The indices among the first `n` spheres of those whose material emits.
pub open spec fn lights_before(spheres: Seq<Sphere>, materials: Seq<Material>, n: int) -> Seq<u32>
    decreases n,
{
    if n <= 0 || n > spheres.len() {
        seq![]
    } else {
        let rest = lights_before(spheres, materials, n - 1);
        if materials[spheres[n - 1].material_idx as int] is Emissive {
            rest.push((n - 1) as u32)
        } else {
            rest
        }
    }
}

pub struct GpuSceneLayout {
    pub descriptors: Vec<TextureDescriptor>,
    pub materials: Vec<GpuMaterial>,
    pub lights: Vec<u32>,
}

proof fn lemma_pixels_monotone(dims: Seq<(u32, u32)>, a: int, b: int)
    requires
        0 <= a <= b <= dims.len(),
    ensures
        pixels_before(dims, a) <= pixels_before(dims, b),
    decreases b - a,
{
    if a < b {
        lemma_pixels_monotone(dims, a, b - 1);
        assert(dims[b - 1].0 * dims[b - 1].1 >= 0) by (nonlinear_arith);
    }
}

/// Lays out `scene` for upload, given the size in pixels of each texture.
/// Fails where the pixels or the spheres outgrow 32-bit indices.
pub fn layout_scene(scene: &Scene, dims: &Vec<(u32, u32)>) -> (r: Option<GpuSceneLayout>)
    requires
        scene.wf(),
        dims@.len() == scene.textures@.len(),
    ensures
        r is Some <==> pixels_before(dims@, dims@.len() as int) <= u32::MAX && scene.spheres@.len()
            <= u32::MAX,
        r is Some ==> {
            let l = r->Some_0;
            &&& l.descriptors@.len() == dims@.len()
            &&& forall|i: int| 0 <= i < dims@.len() ==> #[trigger] l.descriptors@[i] == descriptor_of(dims@, i)
            &&& l.materials@.len() == scene.materials@.len()
            &&& forall|i: int|
                0 <= i < scene.materials@.len() ==> #[trigger] l.materials@[i] == gpu_material_of(
                    scene.materials@[i],
                    dims@,
                )
            &&& l.lights@ == lights_before(scene.spheres@, scene.materials@, scene.spheres@.len() as int)
        },
{
    let mut descriptors: Vec<TextureDescriptor> = Vec::new();
    let mut offset: u64 = 0;
    let mut i: usize = 0;
    while i < dims.len()
        invariant
            i <= dims@.len(),
            offset == pixels_before(dims@, i as int),
            offset <= u32::MAX,
            descriptors@.len() == i,
            forall|k: int| 0 <= k < i ==> #[trigger] descriptors@[k] == descriptor_of(dims@, k),
        decreases dims@.len() - i,
    {
        let (w, h) = dims[i];
        descriptors.push(TextureDescriptor { width: w, height: h, offset: offset as u32 });
        assert(w as u64 * h as u64 <= 0xFFFF_FFFF_u64 * 0xFFFF_FFFF_u64) by (nonlinear_arith)
            requires
                w <= 0xFFFF_FFFF_u64,
                h <= 0xFFFF_FFFF_u64,
        ;
        let size: u64 = w as u64 * h as u64;
        if offset + size > 0xFFFF_FFFF {
            proof {
                lemma_pixels_monotone(dims@, i + 1, dims@.len() as int);
            }
            return None;
        }
        offset = offset + size;
        i = i + 1;
    }
    if scene.spheres.len() > 0xFFFF_FFFF {
        return None;
    }
    let mut materials: Vec<GpuMaterial> = Vec::new();
    let mut m: usize = 0;
    while m < scene.materials.len()
        invariant
            scene.wf(),
            dims@.len() == scene.textures@.len(),
            descriptors@.len() == dims@.len(),
            forall|k: int| 0 <= k < dims@.len() ==> #[trigger] descriptors@[k] == descriptor_of(dims@, k),
            m <= scene.materials@.len(),
            materials@.len() == m,
            forall|k: int|
                0 <= k < m ==> #[trigger] materials@[k] == gpu_material_of(scene.materials@[k], dims@),
        decreases scene.materials@.len() - m,
    {
        let rec = match scene.materials[m] {
            Material::Lambertian { albedo } => GpuMaterial::lambertian(descriptors[albedo]),
            Material::Metal { albedo, fuzz } => GpuMaterial::metal(descriptors[albedo], fuzz),
            Material::Dielectric { refraction_index } => GpuMaterial::dielectric(refraction_index),
            Material::Checkerboard { even, odd } => GpuMaterial::checkerboard(descriptors[odd], descriptors[even]),
            Material::Emissive { emit } => GpuMaterial::emissive(descriptors[emit]),
        };
        proof {
            assert(scene.materials@[m as int].indices_below(scene.textures@.len()));
        }
        materials.push(rec);
        m = m + 1;
    }
    let mut lights: Vec<u32> = Vec::new();
    let mut s: usize = 0;
    while s < scene.spheres.len()
        invariant
            scene.wf(),
            scene.spheres@.len() <= u32::MAX,
            s <= scene.spheres@.len(),
            lights@ == lights_before(scene.spheres@, scene.materials@, s as int),
        decreases scene.spheres@.len() - s,
    {
        let idx = scene.spheres[s].material_idx;
        proof {
            assert(scene.spheres@[s as int].material_idx < scene.materials@.len());
        }
        if let Material::Emissive { .. } = scene.materials[idx] {
            lights.push(s as u32);
        }
        s = s + 1;
    }
    Some(GpuSceneLayout { descriptors, materials, lights })
}

} // verus!
