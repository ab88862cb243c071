//! The kinds of node in a scene graph and the data that each holds.
//! Real numbers are `f32` bit patterns (`f64` for plain number nodes).
use vstd::prelude::*;
use crate::flags;
use crate::pin::NodePin;
use crate::render::{Camera, Vec3Bits};
use crate::scene::Scene;
use crate::subscription::NodeId;

verus! {

/// A material, either defined in place or a reference to a material node.
pub enum InputMaterial {
    Internal(MaterialNode),
    External(NodeId),
}

/// The surface models; each colour is what a single-colour texture holds.
pub enum MaterialNode {
    Metal { albedo: Vec3Bits, fuzz: u32, texture: Option<NodeId> },
    Dielectric { ior: u32 },
    Lambertian { albedo: Vec3Bits, texture: Option<NodeId> },
    Emissive { emit: Vec3Bits, texture: Option<NodeId> },
    Checkerboard { even: Vec3Bits, odd: Vec3Bits },
}

impl MaterialNode {
    /// The texture node that the material samples, where it has one.
    pub open spec fn texture_spec(&self) -> Option<NodeId> {
        match self {
            MaterialNode::Metal { texture, .. } => *texture,
            MaterialNode::Lambertian { texture, .. } => *texture,
            MaterialNode::Emissive { texture, .. } => *texture,
            _ => None,
        }
    }

    pub fn get_texture_node_id(&self) -> (r: Option<NodeId>)
        ensures
            r == self.texture_spec(),
    {
        match self {
            MaterialNode::Metal { texture, .. } => *texture,
            MaterialNode::Lambertian { texture, .. } => *texture,
            MaterialNode::Emissive { texture, .. } => *texture,
            _ => None,
        }
    }

    pub open spec fn kind_bits_spec(&self) -> u64 {
        match self {
            MaterialNode::Metal { .. } => flags::MATERIAL_METAL,
            MaterialNode::Dielectric { .. } => flags::MATERIAL_DIELECTRIC,
            MaterialNode::Lambertian { .. } => flags::MATERIAL_LAMBERT,
            MaterialNode::Emissive { .. } => flags::MATERIAL_EMISSIVE,
            MaterialNode::Checkerboard { .. } => flags::MATERIAL_CHECKERBOARD,
        }
    }
}

pub struct SphereNode {
    pub center: Vec3Bits,
    pub radius: u32,
    pub material: InputMaterial,
}

pub struct TextureNode {
    /// The image file, also the key under which its pixels are shared.
    pub path: String,
    /// Factor applied to the pixels, as `f32` bits.
    pub scale: NodePin<u32>,
}

pub struct CollectionNode {
    pub nodes: Vec<NodeId>,
    pub inputs: Vec<u64>,
}

impl CollectionNode {
    pub fn new() -> (r: Self)
        ensures
            r.nodes@.len() == 0,
            r.inputs@ == seq![flags::ALL],
    {
        CollectionNode { nodes: Vec::new(), inputs: vec![flags::ALL] }
    }
}

/// The root of a scene: its input, the scene compiled from it last, the
/// nodes that fed that scene and what changed since.
pub struct SceneNode {
    pub scene_data: NodePin<Option<NodeId>>,
    pub inner_scene: Scene,
    pub tracked_nodes: Vec<NodeId>,
    pub dirty: u32,
    /// The identity that the next freshly loaded texture gets.
    pub next_texture_serial: u64,
}

pub struct NumberNode {
    /// `f64` bits.
    pub value: u64,
}

pub struct StringNode {
    pub value: String,
}

impl StringNode {
    pub fn value(&self) -> (r: &String)
        ensures
            r == &self.value,
    {
        &self.value
    }
}

pub struct VectorNode {
    /// Two to four `f64` bit patterns.
    pub components: Vec<u64>,
}

pub struct ColorNode {
    pub rgba: (u8, u8, u8, u8),
}

pub struct CameraNode {
    pub camera: Camera,
}

/// The progressive path tracer's node.
pub struct XraysRenderNode {
    pub max_samples_per_pixel: NodePin<u32>,
    pub num_samples_per_pixel: NodePin<u32>,
    pub num_bounces: NodePin<u32>,
    pub camera: NodePin<Option<NodeId>>,
    pub scene: Option<NodeId>,
    pub max_viewport_resolution: u32,
    pub force_redraw: bool,
}

pub enum RenderNode {
    TriangleRender,
    XraysRender(XraysRenderNode),
}

pub struct OutputNode {
    pub tab_titles: Vec<String>,
    pub selected_title: Option<String>,
}

pub enum Node {
    Number(NumberNode),
    String(StringNode),
    Vector(VectorNode),
    Color(ColorNode),
    Sphere(SphereNode),
    Material(MaterialNode),
    Texture(TextureNode),
    Collection(CollectionNode),
    Scene(SceneNode),
    Camera(CameraNode),
    Render(RenderNode),
    Output(OutputNode),
}

impl Node {
    /// The capability bit of the node's own kind.
    pub open spec fn kind_bits_spec(&self) -> u64 {
        match self {
            Node::Number(_) => flags::NUMBER,
            Node::String(_) => flags::STRING,
            Node::Vector(_) => flags::VECTOR,
            Node::Color(_) => flags::COLOR,
            Node::Sphere(_) => flags::PRIMITIVE_SPHERE,
            Node::Material(m) => m.kind_bits_spec(),
            Node::Texture(_) => flags::TEXTURE,
            Node::Collection(_) => flags::COLLECTION,
            Node::Scene(_) => flags::SCENE,
            Node::Camera(_) => flags::CAMERA,
            Node::Render(RenderNode::TriangleRender) => flags::RENDER_TRIANGLE,
            Node::Render(RenderNode::XraysRender(_)) => flags::RENDER_XRAYS,
            Node::Output(_) => flags::OUTPUT,
        }
    }

    pub fn kind_bits(&self) -> (r: u64)
        ensures
            r == self.kind_bits_spec(),
    {
        match self {
            Node::Number(_) => flags::NUMBER,
            Node::String(_) => flags::STRING,
            Node::Vector(_) => flags::VECTOR,
            Node::Color(_) => flags::COLOR,
            Node::Sphere(_) => flags::PRIMITIVE_SPHERE,
            Node::Material(m) => match m {
                MaterialNode::Metal { .. } => flags::MATERIAL_METAL,
                MaterialNode::Dielectric { .. } => flags::MATERIAL_DIELECTRIC,
                MaterialNode::Lambertian { .. } => flags::MATERIAL_LAMBERT,
                MaterialNode::Emissive { .. } => flags::MATERIAL_EMISSIVE,
                MaterialNode::Checkerboard { .. } => flags::MATERIAL_CHECKERBOARD,
            },
            Node::Texture(_) => flags::TEXTURE,
            Node::Collection(_) => flags::COLLECTION,
            Node::Scene(_) => flags::SCENE,
            Node::Camera(_) => flags::CAMERA,
            Node::Render(RenderNode::TriangleRender) => flags::RENDER_TRIANGLE,
            Node::Render(RenderNode::XraysRender(_)) => flags::RENDER_XRAYS,
            Node::Output(_) => flags::OUTPUT,
        }
    }

    /// The inputs through which the node draws on other nodes, in the order
    /// in which a traversal follows them.
    pub open spec fn children_spec(&self) -> Seq<NodeId> {
        match self {
            Node::Scene(s) => match s.scene_data.current() {
                Some(id) => seq![id],
                None => seq![],
            },
            Node::Collection(c) => c.nodes@,
            Node::Sphere(s) => match s.material {
                InputMaterial::External(id) => seq![id],
                InputMaterial::Internal(_) => seq![],
            },
            Node::Material(m) => match m.texture_spec() {
                Some(id) => seq![id],
                None => seq![],
            },
            Node::Render(RenderNode::XraysRender(x)) => {
                let cam = match x.camera.current() {
                    Some(id) => seq![id],
                    None => seq![],
                };
                let scn = match x.scene {
                    Some(id) => seq![id],
                    None => seq![],
                };
                cam + scn
            },
            _ => seq![],
        }
    }

    pub fn children(&self) -> (r: Vec<NodeId>)
        ensures
            r@ == self.children_spec(),
    {
        let mut r: Vec<NodeId> = Vec::new();
        match self {
            Node::Scene(s) => {
                if let Some(id) = s.scene_data.get() {
                    r.push(id);
                }
            },
            Node::Collection(c) => {
                let mut i: usize = 0;
                while i < c.nodes.len()
                    invariant
                        i <= c.nodes@.len(),
                        r@ == c.nodes@.subrange(0, i as int),
                    decreases c.nodes@.len() - i,
                {
                    r.push(c.nodes[i]);
                    i = i + 1;
                }
                assert(c.nodes@.subrange(0, c.nodes@.len() as int) == c.nodes@);
            },
            Node::Sphere(s) => {
                if let InputMaterial::External(id) = &s.material {
                    r.push(*id);
                }
            },
            Node::Material(m) => {
                if let Some(id) = m.get_texture_node_id() {
                    r.push(id);
                }
            },
            Node::Render(RenderNode::XraysRender(x)) => {
                if let Some(id) = x.camera.get() {
                    r.push(id);
                }
                if let Some(id) = x.scene {
                    r.push(id);
                }
                assert(r@ =~= self.children_spec());
            },
            _ => {},
        }
        r
    }
}

} // verus!
