//! The kinds of node that can be added to a graph, with their names and the
//! capability bits of their pins.
use vstd::prelude::*;
use crate::flags;
use crate::graph::{Graph, node_at};
use crate::node::{MaterialNode, Node, RenderNode};
use crate::subscription::NodeId;

verus! {

#[derive(Clone, Copy, Debug, PartialEq, Eq, Hash, Structural)]
pub enum NodeKind {
    Number,
    String,
    Vector2,
    Vector3,
    Vector4,
    Color,
    Sphere,
    Metal,
    Dielectric,
    Lambertian,
    Emissive,
    Checkerboard,
    Texture,
    Collection,
    Scene,
    Camera,
    TriangleRender,
    XraysRender,
    Output,
}

/// The capability bits of the input pins of a node of kind `k`; a collection
/// starts with one open input that takes anything.
pub open spec fn kind_inputs(k: NodeKind) -> Seq<u64> {
    match k {
        NodeKind::Number | NodeKind::String | NodeKind::Vector2 | NodeKind::Vector3 | NodeKind::Vector4
        | NodeKind::Color => seq![],
        NodeKind::Sphere => seq![flags::TYPICAL_VECTOR_INPUT, flags::TYPICAL_NUMBER_INPUT, flags::MATERIALS],
        NodeKind::Metal => seq![flags::TYPICAL_VECTOR_INPUT, flags::TYPICAL_NUMBER_INPUT, flags::TEXTURE],
        NodeKind::Dielectric => seq![flags::TYPICAL_NUMBER_INPUT],
        NodeKind::Lambertian | NodeKind::Emissive => seq![flags::TYPICAL_VECTOR_INPUT, flags::TEXTURE],
        NodeKind::Checkerboard => seq![flags::TYPICAL_VECTOR_INPUT, flags::TYPICAL_VECTOR_INPUT],
        NodeKind::Texture => seq![flags::TYPICAL_NUMBER_INPUT],
        NodeKind::Collection => seq![flags::ALL],
        NodeKind::Scene => seq![flags::PRIMITIVES | flags::COLLECTION],
        NodeKind::Camera => seq![
            flags::TYPICAL_VECTOR_INPUT,
            flags::TYPICAL_NUMBER_INPUT,
            flags::TYPICAL_NUMBER_INPUT,
            flags::TYPICAL_NUMBER_INPUT,
            flags::TYPICAL_NUMBER_INPUT,
            flags::TYPICAL_NUMBER_INPUT,
        ],
        NodeKind::TriangleRender => seq![flags::TYPICAL_NUMBER_INPUT],
        NodeKind::XraysRender => seq![
            flags::TYPICAL_NUMBER_INPUT,
            flags::TYPICAL_NUMBER_INPUT,
            flags::TYPICAL_NUMBER_INPUT,
            flags::CAMERA,
            flags::SCENE,
        ],
        NodeKind::Output => seq![flags::RENDERS],
    }
}

/// The capability bits of the output pins of a node of kind `k`.
pub open spec fn kind_outputs(k: NodeKind) -> Seq<u64> {
    match k {
        NodeKind::Number => seq![flags::NUMBER],
        NodeKind::String => seq![flags::STRING],
        NodeKind::Vector2 | NodeKind::Vector3 | NodeKind::Vector4 => seq![flags::VECTOR],
        NodeKind::Color => seq![flags::COLOR],
        NodeKind::Sphere => seq![flags::PRIMITIVE_SPHERE],
        NodeKind::Metal => seq![flags::MATERIAL_METAL],
        NodeKind::Dielectric => seq![flags::MATERIAL_DIELECTRIC],
        NodeKind::Lambertian => seq![flags::MATERIAL_LAMBERT],
        NodeKind::Emissive => seq![flags::MATERIAL_EMISSIVE],
        NodeKind::Checkerboard => seq![flags::MATERIAL_CHECKERBOARD],
        NodeKind::Texture => seq![flags::TEXTURE | flags::STRING],
        NodeKind::Collection => seq![flags::COLLECTION],
        NodeKind::Scene => seq![flags::SCENE],
        NodeKind::Camera => seq![flags::CAMERA],
        NodeKind::TriangleRender => seq![flags::RENDER_TRIANGLE],
        NodeKind::XraysRender => seq![flags::RENDER_XRAYS],
        NodeKind::Output => seq![],
    }
}

/// The kinds, in the order in which a menu offers them.
pub open spec fn all_kinds() -> Seq<NodeKind> {
    seq![
        NodeKind::Number,
        NodeKind::String,
        NodeKind::Vector2,
        NodeKind::Vector3,
        NodeKind::Vector4,
        NodeKind::Color,
        NodeKind::Sphere,
        NodeKind::Metal,
        NodeKind::Dielectric,
        NodeKind::Lambertian,
        NodeKind::Emissive,
        NodeKind::Checkerboard,
        NodeKind::Texture,
        NodeKind::Collection,
        NodeKind::Scene,
        NodeKind::Camera,
        NodeKind::TriangleRender,
        NodeKind::XraysRender,
        NodeKind::Output,
    ]
}

fn seq_to_vec(bits: &[u64]) -> (r: Vec<u64>)
    ensures
        r@ == bits@,
{
    let mut r: Vec<u64> = Vec::new();
    let mut i: usize = 0;
    while i < bits.len()
        invariant
            i <= bits@.len(),
            r@ == bits@.subrange(0, i as int),
        decreases bits@.len() - i,
    {
        r.push(bits[i]);
        i = i + 1;
    }
    assert(bits@.subrange(0, bits@.len() as int) == bits@);
    r
}

impl NodeKind {
    /// The title shown for nodes of this kind.
    pub fn name(&self) -> (r: &'static str)
        ensures
            r@.len() > 0,
    {
        proof {
            reveal_strlit("Number");
            reveal_strlit("String");
            reveal_strlit("Vector 2D");
            reveal_strlit("Vector 3D");
            reveal_strlit("Vector 4D");
            reveal_strlit("Color");
            reveal_strlit("Sphere Primitive");
            reveal_strlit("Metal Material");
            reveal_strlit("Dielectric Material");
            reveal_strlit("Lambertian Material");
            reveal_strlit("Emissive Material");
            reveal_strlit("Checkerboard Material");
            reveal_strlit("Texture");
            reveal_strlit("Collection");
            reveal_strlit("Scene");
            reveal_strlit("Camera");
            reveal_strlit("Triangle Render");
            reveal_strlit("Xrays Render");
            reveal_strlit("Output");
        }
        match self {
            NodeKind::Number => "Number",
            NodeKind::String => "String",
            NodeKind::Vector2 => "Vector 2D",
            NodeKind::Vector3 => "Vector 3D",
            NodeKind::Vector4 => "Vector 4D",
            NodeKind::Color => "Color",
            NodeKind::Sphere => "Sphere Primitive",
            NodeKind::Metal => "Metal Material",
            NodeKind::Dielectric => "Dielectric Material",
            NodeKind::Lambertian => "Lambertian Material",
            NodeKind::Emissive => "Emissive Material",
            NodeKind::Checkerboard => "Checkerboard Material",
            NodeKind::Texture => "Texture",
            NodeKind::Collection => "Collection",
            NodeKind::Scene => "Scene",
            NodeKind::Camera => "Camera",
            NodeKind::TriangleRender => "Triangle Render",
            NodeKind::XraysRender => "Xrays Render",
            NodeKind::Output => "Output",
        }
    }

    pub fn inputs(&self) -> (r: Vec<u64>)
        ensures
            r@ == kind_inputs(*self),
    {
        let r = match self {
            NodeKind::Number | NodeKind::String | NodeKind::Vector2 | NodeKind::Vector3 | NodeKind::Vector4
            | NodeKind::Color => Vec::new(),
            NodeKind::Sphere => vec![flags::TYPICAL_VECTOR_INPUT, flags::TYPICAL_NUMBER_INPUT, flags::MATERIALS],
            NodeKind::Metal => vec![flags::TYPICAL_VECTOR_INPUT, flags::TYPICAL_NUMBER_INPUT, flags::TEXTURE],
            NodeKind::Dielectric => vec![flags::TYPICAL_NUMBER_INPUT],
            NodeKind::Lambertian | NodeKind::Emissive => vec![flags::TYPICAL_VECTOR_INPUT, flags::TEXTURE],
            NodeKind::Checkerboard => vec![flags::TYPICAL_VECTOR_INPUT, flags::TYPICAL_VECTOR_INPUT],
            NodeKind::Texture => vec![flags::TYPICAL_NUMBER_INPUT],
            NodeKind::Collection => vec![flags::ALL],
            NodeKind::Scene => vec![flags::PRIMITIVES | flags::COLLECTION],
            NodeKind::Camera => vec![
                flags::TYPICAL_VECTOR_INPUT,
                flags::TYPICAL_NUMBER_INPUT,
                flags::TYPICAL_NUMBER_INPUT,
                flags::TYPICAL_NUMBER_INPUT,
                flags::TYPICAL_NUMBER_INPUT,
                flags::TYPICAL_NUMBER_INPUT,
            ],
            NodeKind::TriangleRender => vec![flags::TYPICAL_NUMBER_INPUT],
            NodeKind::XraysRender => vec![
                flags::TYPICAL_NUMBER_INPUT,
                flags::TYPICAL_NUMBER_INPUT,
                flags::TYPICAL_NUMBER_INPUT,
                flags::CAMERA,
                flags::SCENE,
            ],
            NodeKind::Output => vec![flags::RENDERS],
        };
        assert(r@ =~= kind_inputs(*self));
        r
    }

    pub fn outputs(&self) -> (r: Vec<u64>)
        ensures
            r@ == kind_outputs(*self),
    {
        let r = match self {
            NodeKind::Number => vec![flags::NUMBER],
            NodeKind::String => vec![flags::STRING],
            NodeKind::Vector2 | NodeKind::Vector3 | NodeKind::Vector4 => vec![flags::VECTOR],
            NodeKind::Color => vec![flags::COLOR],
            NodeKind::Sphere => vec![flags::PRIMITIVE_SPHERE],
            NodeKind::Metal => vec![flags::MATERIAL_METAL],
            NodeKind::Dielectric => vec![flags::MATERIAL_DIELECTRIC],
            NodeKind::Lambertian => vec![flags::MATERIAL_LAMBERT],
            NodeKind::Emissive => vec![flags::MATERIAL_EMISSIVE],
            NodeKind::Checkerboard => vec![flags::MATERIAL_CHECKERBOARD],
            NodeKind::Texture => vec![flags::TEXTURE | flags::STRING],
            NodeKind::Collection => vec![flags::COLLECTION],
            NodeKind::Scene => vec![flags::SCENE],
            NodeKind::Camera => vec![flags::CAMERA],
            NodeKind::TriangleRender => vec![flags::RENDER_TRIANGLE],
            NodeKind::XraysRender => vec![flags::RENDER_XRAYS],
            NodeKind::Output => Vec::new(),
        };
        assert(r@ =~= kind_outputs(*self));
        r
    }
}

/// The first pin from `i` on in `pins` that shares a bit with `bits`.
pub open spec fn first_compatible(pins: Seq<u64>, bits: u64, i: int) -> Option<int>
    decreases pins.len() - i,
{
    if i < 0 || i >= pins.len() {
        None
    } else if flags::compatible(pins[i], bits) {
        Some(i)
    } else {
        first_compatible(pins, bits, i + 1)
    }
}

fn first_compatible_exec(pins: &Vec<u64>, bits: u64) -> (r: Option<usize>)
    ensures
        match r {
            Some(i) => first_compatible(pins@, bits, 0) == Some(i as int),
            None => first_compatible(pins@, bits, 0) is None,
        },
{
    let mut i: usize = 0;
    while i < pins.len()
        invariant
            i <= pins@.len(),
            first_compatible(pins@, bits, 0) == first_compatible(pins@, bits, i as int),
        decreases pins@.len() - i,
    {
        if flags::is_compatible(pins[i], bits) {
            return Some(i);
        }
        i = i + 1;
    }
    None
}

/// For the kinds `kinds[i..]`, each kind that has an input pin (or, when
/// `inputs` is false, an output pin) sharing a bit with `bits`, together with
/// the first such pin.
pub open spec fn candidates(kinds: Seq<NodeKind>, bits: u64, inputs: bool, i: int) -> Seq<(NodeKind, usize)>
    decreases kinds.len() - i,
{
    if i < 0 || i >= kinds.len() {
        seq![]
    } else {
        let pins = if inputs {
            kind_inputs(kinds[i])
        } else {
            kind_outputs(kinds[i])
        };
        let rest = candidates(kinds, bits, inputs, i + 1);
        match first_compatible(pins, bits, 0) {
            Some(p) => seq![(kinds[i], p as usize)] + rest,
            None => rest,
        }
    }
}

/// The kinds that a wire dropped from an output pin with `bits` could
/// create and feed, each with the input pin that would take the wire.
pub fn input_candidates(bits: u64) -> (r: Vec<(NodeKind, usize)>)
    ensures
        r@ == candidates(all_kinds(), bits, true, 0),
{
    collect_candidates(bits, true)
}

/// The kinds that a wire dropped from an input pin with `bits` could create
/// to feed it, each with the output pin that would drive the wire.
pub fn output_candidates(bits: u64) -> (r: Vec<(NodeKind, usize)>)
    ensures
        r@ == candidates(all_kinds(), bits, false, 0),
{
    collect_candidates(bits, false)
}

fn collect_candidates(bits: u64, inputs: bool) -> (r: Vec<(NodeKind, usize)>)
    ensures
        r@ == candidates(all_kinds(), bits, inputs, 0),
{
    let kinds = Node::fabrics();
    let mut found: Vec<(NodeKind, usize)> = Vec::new();
    let mut i: usize = 0;
    while i < kinds.len()
        invariant
            kinds@ == all_kinds(),
            i <= kinds@.len(),
            candidates(all_kinds(), bits, inputs, 0) == found@ + candidates(all_kinds(), bits, inputs, i as int),
        decreases kinds@.len() - i,
    {
        let k = kinds[i];
        let pins = if inputs {
            k.inputs()
        } else {
            k.outputs()
        };
        let ghost before = found@;
        match first_compatible_exec(&pins, bits) {
            Some(p) => {
                found.push((k, p));
                assert(found@ + candidates(all_kinds(), bits, inputs, i + 1) =~= before + candidates(
                    all_kinds(),
                    bits,
                    inputs,
                    i as int,
                ));
            },
            None => {},
        }
        i = i + 1;
    }
    assert(found@ + candidates(all_kinds(), bits, inputs, i as int) =~= found@);
    found
}

impl Node {
    /// Every kind that can be added, in menu order.
    pub fn fabrics() -> (r: Vec<NodeKind>)
        ensures
            r@ == all_kinds(),
    {
        let r = vec![
            NodeKind::Number,
            NodeKind::String,
            NodeKind::Vector2,
            NodeKind::Vector3,
            NodeKind::Vector4,
            NodeKind::Color,
            NodeKind::Sphere,
            NodeKind::Metal,
            NodeKind::Dielectric,
            NodeKind::Lambertian,
            NodeKind::Emissive,
            NodeKind::Checkerboard,
            NodeKind::Texture,
            NodeKind::Collection,
            NodeKind::Scene,
            NodeKind::Camera,
            NodeKind::TriangleRender,
            NodeKind::XraysRender,
            NodeKind::Output,
        ];
        assert(r@ =~= all_kinds());
        r
    }

    /// The kind of the node; vectors count by their length.
    pub open spec fn kind_spec(&self) -> NodeKind {
        match self {
            Node::Number(_) => NodeKind::Number,
            Node::String(_) => NodeKind::String,
            Node::Vector(v) => if v.components@.len() <= 2 {
                NodeKind::Vector2
            } else if v.components@.len() == 3 {
                NodeKind::Vector3
            } else {
                NodeKind::Vector4
            },
            Node::Color(_) => NodeKind::Color,
            Node::Sphere(_) => NodeKind::Sphere,
            Node::Material(MaterialNode::Metal { .. }) => NodeKind::Metal,
            Node::Material(MaterialNode::Dielectric { .. }) => NodeKind::Dielectric,
            Node::Material(MaterialNode::Lambertian { .. }) => NodeKind::Lambertian,
            Node::Material(MaterialNode::Emissive { .. }) => NodeKind::Emissive,
            Node::Material(MaterialNode::Checkerboard { .. }) => NodeKind::Checkerboard,
            Node::Texture(_) => NodeKind::Texture,
            Node::Collection(_) => NodeKind::Collection,
            Node::Scene(_) => NodeKind::Scene,
            Node::Camera(_) => NodeKind::Camera,
            Node::Render(RenderNode::TriangleRender) => NodeKind::TriangleRender,
            Node::Render(RenderNode::XraysRender(_)) => NodeKind::XraysRender,
            Node::Output(_) => NodeKind::Output,
        }
    }

    pub fn kind(&self) -> (r: NodeKind)
        ensures
            r == self.kind_spec(),
    {
        match self {
            Node::Number(_) => NodeKind::Number,
            Node::String(_) => NodeKind::String,
            Node::Vector(v) => if v.components.len() <= 2 {
                NodeKind::Vector2
            } else if v.components.len() == 3 {
                NodeKind::Vector3
            } else {
                NodeKind::Vector4
            },
            Node::Color(_) => NodeKind::Color,
            Node::Sphere(_) => NodeKind::Sphere,
            Node::Material(MaterialNode::Metal { .. }) => NodeKind::Metal,
            Node::Material(MaterialNode::Dielectric { .. }) => NodeKind::Dielectric,
            Node::Material(MaterialNode::Lambertian { .. }) => NodeKind::Lambertian,
            Node::Material(MaterialNode::Emissive { .. }) => NodeKind::Emissive,
            Node::Material(MaterialNode::Checkerboard { .. }) => NodeKind::Checkerboard,
            Node::Texture(_) => NodeKind::Texture,
            Node::Collection(_) => NodeKind::Collection,
            Node::Scene(_) => NodeKind::Scene,
            Node::Camera(_) => NodeKind::Camera,
            Node::Render(RenderNode::TriangleRender) => NodeKind::TriangleRender,
            Node::Render(RenderNode::XraysRender(_)) => NodeKind::XraysRender,
            Node::Output(_) => NodeKind::Output,
        }
    }

    /// The capability bits of the node's input pins; a collection has one
    /// pin per member and one open pin.
    pub open spec fn inputs_spec(&self) -> Seq<u64> {
        match self {
            Node::Collection(c) => c.inputs@,
            _ => kind_inputs(self.kind_spec()),
        }
    }

    pub fn inputs(&self) -> (r: Vec<u64>)
        ensures
            r@ == self.inputs_spec(),
    {
        match self {
            Node::Collection(c) => seq_to_vec(c.inputs.as_slice()),
            _ => self.kind().inputs(),
        }
    }

    pub fn outputs(&self) -> (r: Vec<u64>)
        ensures
            r@ == kind_outputs(self.kind_spec()),
    {
        self.kind().outputs()
    }

    pub fn name(&self) -> (r: &'static str)
        ensures
            r@.len() > 0,
    {
        self.kind().name()
    }
}

impl Graph {
    /// Whether output pin `output` of `from` may be wired to input pin
    /// `input` of `to`: both pins exist and share a capability bit.
    pub fn can_connect(&self, from: NodeId, output: usize, to: NodeId, input: usize) -> (r: bool)
        ensures
            r == (node_at(self.slots@, from) is Some && node_at(self.slots@, to) is Some && output < kind_outputs(
                node_at(self.slots@, from)->Some_0.kind_spec(),
            ).len() && input < node_at(self.slots@, to)->Some_0.inputs_spec().len() && flags::compatible(
                kind_outputs(node_at(self.slots@, from)->Some_0.kind_spec())[output as int],
                node_at(self.slots@, to)->Some_0.inputs_spec()[input as int],
            )),
    {
        let a = match self.node(from) {
            Some(n) => n,
            None => {
                return false;
            },
        };
        let b = match self.node(to) {
            Some(n) => n,
            None => {
                return false;
            },
        };
        let outs = a.outputs();
        let ins = b.inputs();
        if output >= outs.len() || input >= ins.len() {
            return false;
        }
        flags::is_compatible(outs[output], ins[input])
    }
}

} // verus!
