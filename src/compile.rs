//! The scene compiler: turns the nodes that feed a scene root into a flat
//! scene, reusing texture data that is already loaded, and keeps the root
//! subscribed to exactly the nodes that fed it.
use vstd::prelude::*;
use crate::flags;
use crate::graph::{Graph, Slot, collected, law_collected_duplicate_free, node_at, subs_at};
use crate::node::{InputMaterial, MaterialNode, Node, SceneNode, SphereNode, TextureNode};
use crate::render::Vec3Bits;
use crate::reuse::{carried_from, law_textures_carried_over, unique_files};
use crate::scene::{Material, Scene, Sphere, TextureData, TextureSource};
use crate::subscription::{Event, EventCallback, NodeId};

verus! {

/// The node kinds that feed a scene.
pub const SCENE_CONTENT: u64 = flags::PRIMITIVES | flags::MATERIALS | flags::TEXTURE | flags::COLLECTION;

#[derive(Clone, Copy, Debug, PartialEq, Eq, Structural)]
pub enum SceneNodeResponse {
    Recalculated,
    Nothing,
}

/// The dirty mask after a compile from `d`: clean, except that the very first
/// compile leaves everything dirty once more.
pub open spec fn dirty_after_compile(d: u32) -> u32 {
    if d == flags::DIRTY_INIT {
        flags::DIRTY_ALL
    } else {
        flags::DIRTY_NONE
    }
}

/// The state of a scene under construction.
pub struct Build {
    pub textures: Seq<TextureData>,
    /// Textures of the previous scene not yet carried over.
    pub spare: Seq<TextureData>,
    /// Index in `textures` of each texture node, by node index.
    pub texture_of: Seq<Option<usize>>,
    pub materials: Seq<Material>,
    /// Index in `materials` of each material node, by node index.
    pub material_of: Seq<Option<usize>>,
    pub spheres: Seq<Sphere>,
    pub serial: u64,
}

/// The texture entry holds the file `path` at `scale`.
pub open spec fn texture_matches(d: TextureData, path: Seq<char>, scale: u32) -> bool {
    d.key is Some && d.key->Some_0@ == path && d.scale == scale
}

/// The first index from `i` on whose entry holds `path` at `scale`.
pub open spec fn find_texture(s: Seq<TextureData>, path: Seq<char>, scale: u32, i: int) -> Option<int>
    decreases s.len() - i,
{
    if i < 0 || i >= s.len() {
        None
    } else if texture_matches(s[i], path, scale) {
        Some(i)
    } else {
        find_texture(s, path, scale, i + 1)
    }
}

/// The identity after `s`.
pub open spec fn next_serial(s: u64) -> u64 {
    if s == u64::MAX {
        0
    } else {
        (s + 1) as u64
    }
}

pub open spec fn color_texture(c: Vec3Bits) -> TextureData {
    TextureData { key: None, scale: crate::scene::UNIT_SCALE, source: TextureSource::Color(c) }
}

/// A texture node: reuse an entry of this scene with the same file and
/// scale; else move one over from the previous scene; else load it afresh
/// under a new identity.
pub open spec fn texture_step(b: Build, n: NodeId, t: TextureNode) -> Build {
    let scale = t.scale.current();
    match find_texture(b.textures, t.path@, scale, 0) {
        Some(i) => Build { texture_of: b.texture_of.update(n.0 as int, Some(i as usize)), ..b },
        None => match find_texture(b.spare, t.path@, scale, 0) {
            Some(j) => Build {
                textures: b.textures.push(b.spare[j]),
                spare: b.spare.remove(j),
                texture_of: b.texture_of.update(n.0 as int, Some(b.textures.len() as usize)),
                ..b
            },
            None => Build {
                textures: b.textures.push(
                    TextureData { key: Some(t.path), scale, source: TextureSource::File(b.serial) },
                ),
                texture_of: b.texture_of.update(n.0 as int, Some(b.textures.len() as usize)),
                serial: next_serial(b.serial),
                ..b
            },
        },
    }
}

/// The texture index that a material's texture input resolves to, if any.
pub open spec fn resolved_texture(b: Build, m: MaterialNode) -> Option<usize> {
    match m.texture_spec() {
        Some(t) => if t.0 < b.texture_of.len() {
            b.texture_of[t.0 as int]
        } else {
            None
        },
        None => None,
    }
}

/// The record of a material, and the textures after the single-colour
/// textures that it needs were appended.
pub open spec fn material_record(m: MaterialNode, tex: Option<usize>, ts: Seq<TextureData>) -> (
    Material,
    Seq<TextureData>,
) {
    match m {
        MaterialNode::Metal { albedo, fuzz, .. } => match tex {
            Some(i) => (Material::Metal { albedo: i, fuzz }, ts),
            None => (Material::Metal { albedo: ts.len() as usize, fuzz }, ts.push(color_texture(albedo))),
        },
        MaterialNode::Dielectric { ior } => (Material::Dielectric { refraction_index: ior }, ts),
        MaterialNode::Lambertian { albedo, .. } => match tex {
            Some(i) => (Material::Lambertian { albedo: i }, ts),
            None => (Material::Lambertian { albedo: ts.len() as usize }, ts.push(color_texture(albedo))),
        },
        MaterialNode::Emissive { emit, .. } => match tex {
            Some(i) => (Material::Emissive { emit: i }, ts),
            None => (Material::Emissive { emit: ts.len() as usize }, ts.push(color_texture(emit))),
        },
        MaterialNode::Checkerboard { even, odd } => (
            Material::Checkerboard { even: ts.len() as usize, odd: (ts.len() + 1) as usize },
            ts.push(color_texture(even)).push(color_texture(odd)),
        ),
    }
}

/// Appends the record of `m`; returns the state and the record's index.
pub open spec fn push_material(b: Build, m: MaterialNode) -> (Build, usize) {
    let (rec, ts) = material_record(m, resolved_texture(b, m), b.textures);
    (Build { textures: ts, materials: b.materials.push(rec), ..b }, b.materials.len() as usize)
}

pub open spec fn material_step(b: Build, n: NodeId, m: MaterialNode) -> Build {
    let (b2, k) = push_material(b, m);
    Build { material_of: b2.material_of.update(n.0 as int, Some(k)), ..b2 }
}

/// A sphere: its material is compiled in place or is the record of the
/// material node that it references; a sphere whose referenced material was
/// not compiled is left out.
pub open spec fn sphere_step(b: Build, s: SphereNode) -> Build {
    match s.material {
        InputMaterial::Internal(m) => {
            let (b2, k) = push_material(b, m);
            Build {
                spheres: b2.spheres.push(Sphere { center: s.center, radius: s.radius, material_idx: k }),
                ..b2
            }
        },
        InputMaterial::External(id) => {
            let k = if id.0 < b.material_of.len() {
                b.material_of[id.0 as int]
            } else {
                None
            };
            match k {
                Some(k) => Build {
                    spheres: b.spheres.push(Sphere { center: s.center, radius: s.radius, material_idx: k }),
                    ..b
                },
                None => b,
            }
        },
    }
}

pub open spec fn build_step(g: Seq<Option<Slot>>, b: Build, n: NodeId) -> Build {
    match node_at(g, n) {
        Some(Node::Texture(t)) => texture_step(b, n, t),
        Some(Node::Material(m)) => material_step(b, n, m),
        Some(Node::Sphere(s)) => sphere_step(b, s),
        _ => b,
    }
}

/// Processes `nodes[i..]` in order.
pub open spec fn build_from(g: Seq<Option<Slot>>, nodes: Seq<NodeId>, i: int, b: Build) -> Build
    decreases nodes.len() - i,
{
    if i < 0 || i >= nodes.len() {
        b
    } else {
        build_from(g, nodes, i + 1, build_step(g, b, nodes[i]))
    }
}

/// The state before the first node: nothing built, the previous scene's
/// textures spare.
pub open spec fn initial_build(n: nat, old_textures: Seq<TextureData>, serial: u64) -> Build {
    Build {
        textures: Seq::empty(),
        spare: old_textures,
        texture_of: Seq::new(n, |i: int| None),
        materials: Seq::empty(),
        material_of: Seq::new(n, |i: int| None),
        spheres: Seq::empty(),
        serial,
    }
}

/// Every index held in the state points at an existing record.
pub open spec fn build_wf(b: Build, n: nat) -> bool {
    &&& b.texture_of.len() == n
    &&& b.material_of.len() == n
    &&& forall|i: int|
        0 <= i < n && (#[trigger] b.texture_of[i]) is Some ==> b.texture_of[i]->Some_0 < b.textures.len()
    &&& forall|i: int|
        0 <= i < n && (#[trigger] b.material_of[i]) is Some ==> b.material_of[i]->Some_0 < b.materials.len()
    &&& forall|i: int|
        0 <= i < b.materials.len() ==> (#[trigger] b.materials[i]).indices_below(b.textures.len())
    &&& forall|i: int|
        0 <= i < b.spheres.len() ==> (#[trigger] b.spheres[i]).material_idx < b.materials.len()
}

/// A texture node whose file and scale are already in the scene under
/// construction shares that entry; failing that, an entry of the previous
/// scene with the same file and scale is carried over whole, identity
/// included, and nothing is loaded.
pub proof fn law_texture_reuse(b: Build, n: NodeId, t: TextureNode)
    ensures
        ({
            let b2 = texture_step(b, n, t);
            let scale = t.scale.current();
            &&& find_texture(b.textures, t.path@, scale, 0) is Some ==> b2.textures == b.textures
                && b2.serial == b.serial
            &&& find_texture(b.textures, t.path@, scale, 0) is None && find_texture(b.spare, t.path@, scale, 0)
                is Some ==> b2.textures == b.textures.push(
                b.spare[find_texture(b.spare, t.path@, scale, 0)->Some_0],
            ) && b2.serial == b.serial
        }),
{
}

/// The executable counterpart of `Build`.
struct Builder {
    textures: Vec<TextureData>,
    spare: Vec<TextureData>,
    texture_of: Vec<Option<usize>>,
    materials: Vec<Material>,
    material_of: Vec<Option<usize>>,
    spheres: Vec<Sphere>,
    serial: u64,
}

impl Builder {
    closed spec fn view(&self) -> Build {
        Build {
            textures: self.textures@,
            spare: self.spare@,
            texture_of: self.texture_of@,
            materials: self.materials@,
            material_of: self.material_of@,
            spheres: self.spheres@,
            serial: self.serial,
        }
    }

    fn new(n: usize, spare: Vec<TextureData>, serial: u64) -> (r: Self)
        ensures
            r.view() == initial_build(n as nat, spare@, serial),
            build_wf(r.view(), n as nat),
    {
        let mut texture_of: Vec<Option<usize>> = Vec::new();
        let mut material_of: Vec<Option<usize>> = Vec::new();
        let mut i: usize = 0;
        while i < n
            invariant
                i <= n,
                texture_of@ == Seq::new(i as nat, |j: int| None::<usize>),
                material_of@ == Seq::new(i as nat, |j: int| None::<usize>),
            decreases n - i,
        {
            texture_of.push(None);
            material_of.push(None);
            i = i + 1;
            assert(texture_of@ =~= Seq::new(i as nat, |j: int| None::<usize>));
            assert(material_of@ =~= Seq::new(i as nat, |j: int| None::<usize>));
        }
        let r = Builder {
            textures: Vec::new(),
            spare,
            texture_of,
            materials: Vec::new(),
            material_of,
            spheres: Vec::new(),
            serial,
        };
        assert(r.view() =~= initial_build(n as nat, spare@, serial));
        r
    }
}

fn find_texture_exec(s: &Vec<TextureData>, path: &String, scale: u32) -> (r: Option<usize>)
    ensures
        match r {
            Some(i) => find_texture(s@, path@, scale, 0) == Some(i as int) && i < s@.len(),
            None => find_texture(s@, path@, scale, 0) is None,
        },
{
    let mut i: usize = 0;
    while i < s.len()
        invariant
            i <= s@.len(),
            find_texture(s@, path@, scale, 0) == find_texture(s@, path@, scale, i as int),
        decreases s@.len() - i,
    {
        let d = &s[i];
        let hit = match &d.key {
            Some(k) => *k == *path && d.scale == scale,
            None => false,
        };
        if hit {
            return Some(i);
        }
        i = i + 1;
    }
    None
}

impl MaterialNode {
    /// The record of the material, given the index of its texture if that
    /// resolved; the single-colour textures that it needs instead are
    /// appended to `textures`.
    pub fn to_xrays_material(&self, texture_id: Option<usize>, textures: &mut Vec<TextureData>) -> (r: Material)
        ensures
            (r, final(textures)@) == material_record(*self, texture_id, old(textures)@),
    {
        match self {
            MaterialNode::Metal { albedo, fuzz, .. } => match texture_id {
                Some(i) => Material::Metal { albedo: i, fuzz: *fuzz },
                None => {
                    let i = textures.len();
                    textures.push(TextureData::new_from_color(*albedo));
                    Material::Metal { albedo: i, fuzz: *fuzz }
                },
            },
            MaterialNode::Dielectric { ior } => Material::Dielectric { refraction_index: *ior },
            MaterialNode::Lambertian { albedo, .. } => match texture_id {
                Some(i) => Material::Lambertian { albedo: i },
                None => {
                    let i = textures.len();
                    textures.push(TextureData::new_from_color(*albedo));
                    Material::Lambertian { albedo: i }
                },
            },
            MaterialNode::Emissive { emit, .. } => match texture_id {
                Some(i) => Material::Emissive { emit: i },
                None => {
                    let i = textures.len();
                    textures.push(TextureData::new_from_color(*emit));
                    Material::Emissive { emit: i }
                },
            },
            MaterialNode::Checkerboard { even, odd } => {
                let i = textures.len();
                textures.push(TextureData::new_from_color(*even));
                let j = textures.len();
                textures.push(TextureData::new_from_color(*odd));
                Material::Checkerboard { even: i, odd: j }
            },
        }
    }
}

impl Builder {
    fn texture_step_exec(&mut self, n: NodeId, t: &TextureNode)
        requires
            n.0 < old(self).texture_of@.len(),
            build_wf(old(self).view(), old(self).texture_of@.len()),
        ensures
            final(self).view() == texture_step(old(self).view(), n, *t),
            build_wf(final(self).view(), old(self).texture_of@.len()),
    {
        let ghost len = self.texture_of@.len();
        let scale = t.scale.get();
        match find_texture_exec(&self.textures, &t.path, scale) {
            Some(i) => {
                self.texture_of.set(n.0, Some(i));
            },
            None => match find_texture_exec(&self.spare, &t.path, scale) {
                Some(j) => {
                    let d = self.spare.remove(j);
                    let k = self.textures.len();
                    self.textures.push(d);
                    self.texture_of.set(n.0, Some(k));
                },
                None => {
                    let k = self.textures.len();
                    self.textures.push(
                        TextureData { key: Some(t.path.clone()), scale, source: TextureSource::File(self.serial) },
                    );
                    self.texture_of.set(n.0, Some(k));
                    self.serial = if self.serial == u64::MAX {
                        0
                    } else {
                        self.serial + 1
                    };
                },
            },
        }
        proof {
            let b = self.view();
            assert forall|i: int| 0 <= i < b.materials.len() implies (#[trigger] b.materials[i]).indices_below(
                b.textures.len(),
            ) by {
                assert(old(self).view().materials[i].indices_below(old(self).view().textures.len()));
            }
        }
        assert(self.view() =~= texture_step(old(self).view(), n, *t));
    }

    fn resolved_texture_exec(&self, m: &MaterialNode) -> (r: Option<usize>)
        ensures
            r == resolved_texture(self.view(), *m),
    {
        match m.get_texture_node_id() {
            Some(t) => if t.0 < self.texture_of.len() {
                self.texture_of[t.0]
            } else {
                None
            },
            None => None,
        }
    }

    fn push_material_exec(&mut self, m: &MaterialNode) -> (r: usize)
        requires
            build_wf(old(self).view(), old(self).texture_of@.len()),
        ensures
            (final(self).view(), r) == push_material(old(self).view(), *m),
            build_wf(final(self).view(), old(self).texture_of@.len()),
            r < final(self).materials@.len(),
            final(self).texture_of@ == old(self).texture_of@,
            final(self).material_of@ == old(self).material_of@,
    {
        let tex = self.resolved_texture_exec(m);
        let rec = m.to_xrays_material(tex, &mut self.textures);
        let k = self.materials.len();
        self.materials.push(rec);
        proof {
            let b = self.view();
            let b0 = old(self).view();
            assert forall|i: int| 0 <= i < b.materials.len() implies (#[trigger] b.materials[i]).indices_below(
                b.textures.len(),
            ) by {
                if i < b0.materials.len() {
                    assert(b0.materials[i].indices_below(b0.textures.len()));
                } else {
                    match tex {
                        Some(t) => {
                            assert(b0.texture_of[m.texture_spec()->Some_0.0 as int] is Some);
                        },
                        None => {},
                    }
                }
            }
        }
        assert(self.view() =~= push_material(old(self).view(), *m).0);
        k
    }

    fn material_step_exec(&mut self, n: NodeId, m: &MaterialNode)
        requires
            n.0 < old(self).texture_of@.len(),
            build_wf(old(self).view(), old(self).texture_of@.len()),
        ensures
            final(self).view() == material_step(old(self).view(), n, *m),
            build_wf(final(self).view(), old(self).texture_of@.len()),
    {
        let k = self.push_material_exec(m);
        self.material_of.set(n.0, Some(k));
        assert(self.view() =~= material_step(old(self).view(), n, *m));
    }

    fn sphere_step_exec(&mut self, s: &SphereNode)
        requires
            build_wf(old(self).view(), old(self).texture_of@.len()),
        ensures
            final(self).view() == sphere_step(old(self).view(), *s),
            build_wf(final(self).view(), old(self).texture_of@.len()),
    {
        match &s.material {
            InputMaterial::Internal(m) => {
                let k = self.push_material_exec(m);
                self.spheres.push(Sphere { center: s.center, radius: s.radius, material_idx: k });
                assert(self.view() =~= sphere_step(old(self).view(), *s));
            },
            InputMaterial::External(id) => {
                let k = if id.0 < self.material_of.len() {
                    self.material_of[id.0]
                } else {
                    None
                };
                match k {
                    Some(k) => {
                        self.spheres.push(Sphere { center: s.center, radius: s.radius, material_idx: k });
                        assert(self.view() =~= sphere_step(old(self).view(), *s));
                    },
                    None => {},
                }
            },
        }
    }
}

/// Each live node other than the scene root: subscribed to by the root if
/// it fed the new scene, no longer subscribed to if it fed only the previous
/// one, otherwise untouched.
pub open spec fn churned(
    g: Seq<Option<Slot>>,
    g2: Seq<Option<Slot>>,
    scene_id: NodeId,
    nodes: Seq<NodeId>,
    previous: Seq<NodeId>,
) -> bool {
    forall|j: NodeId|
        j.0 < g.len() && g[j.0 as int] is Some && j != scene_id ==> #[trigger] subs_at(g2, j) == if nodes.contains(
            j,
        ) {
            subs_at(g, j).insert((Event::OnChange, scene_id), EventCallback::MarkSceneDirty)
        } else if previous.contains(j) {
            subs_at(g, j).remove((Event::OnChange, scene_id))
        } else {
            subs_at(g, j)
        }
}

proof fn lemma_scene_not_content()
    ensures
        flags::SCENE & SCENE_CONTENT == 0,
{
    assert(0x10u64 | (0x20u64 | 0x40u64 | 0x80u64 | 0x100u64 | 0x200u64) | 0x400u64 | 0x800u64 == 0xFF0u64)
        by (bit_vector);
    assert(0x2000u64 & 0xFF0u64 == 0) by (bit_vector);
}

/// The outcome of compiling the scene root `scene_id` of `g` into `g2`.
pub open spec fn compiled(g: Seq<Option<Slot>>, g2: Seq<Option<Slot>>, scene_id: NodeId, r: SceneNodeResponse) -> bool {
    match node_at(g, scene_id) {
        Some(Node::Scene(s)) => if s.dirty == flags::DIRTY_NONE {
            r == SceneNodeResponse::Nothing && g2 == g
        } else {
            let nodes = collected(g, scene_id, SCENE_CONTENT);
            let b = build_from(g, nodes, 0, initial_build(g.len(), s.inner_scene.textures@, s.next_texture_serial));
            let s2 = g2[scene_id.0 as int]->Some_0.node->Scene_0;
            &&& r == SceneNodeResponse::Recalculated
            &&& g2.len() == g.len()
            &&& forall|j: int| 0 <= j < g.len() ==> (#[trigger] g2[j] is Some) == (g[j] is Some)
            &&& forall|j: int|
                0 <= j < g.len() && g[j] is Some ==> (#[trigger] g2[j])->Some_0.node is Scene == g[j]->Some_0.node is Scene
            &&& forall|j: int|
                0 <= j < g.len() && g[j] is Some && j != scene_id.0 ==> (#[trigger] g2[j])->Some_0.node == g[j]->Some_0.node
            &&& g2[scene_id.0 as int]->Some_0.subscription == g[scene_id.0 as int]->Some_0.subscription
            &&& s2.scene_data == s.scene_data
            &&& s2.tracked_nodes@ == nodes
            &&& s2.dirty == dirty_after_compile(s.dirty)
            &&& s2.inner_scene.spheres@ == b.spheres
            &&& s2.inner_scene.materials@ == b.materials
            &&& s2.inner_scene.textures@ == b.textures
            &&& s2.inner_scene.wf()
            &&& s2.next_texture_serial == b.serial
            &&& churned(g, g2, scene_id, nodes, s.tracked_nodes@)
            &&& unique_files(s.inner_scene.textures@) ==> unique_files(s2.inner_scene.textures@) && carried_from(
                s.inner_scene.textures@,
                s2.inner_scene.textures@,
            )
        },
        _ => r == SceneNodeResponse::Nothing && g2 == g,
    }
}

/// Once a scene root other than a fresh one has been compiled, compiling it
/// again with nothing changed in between does nothing and says so.
pub proof fn law_second_compile_is_noop(
    g: Seq<Option<Slot>>,
    g2: Seq<Option<Slot>>,
    g3: Seq<Option<Slot>>,
    scene_id: NodeId,
    r1: SceneNodeResponse,
    r2: SceneNodeResponse,
)
    requires
        node_at(g, scene_id) is Some,
        node_at(g, scene_id)->Some_0 is Scene,
        node_at(g, scene_id)->Some_0->Scene_0.dirty != flags::DIRTY_INIT,
        compiled(g, g2, scene_id, r1),
        compiled(g2, g3, scene_id, r2),
    ensures
        r2 == SceneNodeResponse::Nothing,
        g3 == g2,
{
    let s = node_at(g, scene_id)->Some_0->Scene_0;
    if s.dirty != flags::DIRTY_NONE {
        assert(g2[scene_id.0 as int] is Some);
        assert(g2[scene_id.0 as int]->Some_0.node is Scene);
    }
}

/// A freshly made scene root is compiled twice before it settles: the first
/// compile leaves it wholly dirty, the second compiles again, and the third
/// does nothing.
pub proof fn law_first_compile_repeats_once(
    g: Seq<Option<Slot>>,
    g2: Seq<Option<Slot>>,
    g3: Seq<Option<Slot>>,
    g4: Seq<Option<Slot>>,
    scene_id: NodeId,
    r1: SceneNodeResponse,
    r2: SceneNodeResponse,
    r3: SceneNodeResponse,
)
    requires
        node_at(g, scene_id) is Some,
        node_at(g, scene_id)->Some_0 is Scene,
        node_at(g, scene_id)->Some_0->Scene_0.dirty == flags::DIRTY_INIT,
        compiled(g, g2, scene_id, r1),
        compiled(g2, g3, scene_id, r2),
        compiled(g3, g4, scene_id, r3),
    ensures
        r1 == SceneNodeResponse::Recalculated,
        node_at(g2, scene_id)->Some_0->Scene_0.dirty == flags::DIRTY_ALL,
        r2 == SceneNodeResponse::Recalculated,
        node_at(g3, scene_id)->Some_0->Scene_0.dirty == flags::DIRTY_NONE,
        r3 == SceneNodeResponse::Nothing,
        g4 == g3,
{
    assert(g2[scene_id.0 as int] is Some);
    assert(g2[scene_id.0 as int]->Some_0.node is Scene);
    assert(g3[scene_id.0 as int] is Some);
    assert(g3[scene_id.0 as int]->Some_0.node is Scene);
}

fn contains_id(v: &Vec<NodeId>, x: NodeId) -> (r: bool)
    ensures
        r == v@.contains(x),
{
    let mut i: usize = 0;
    while i < v.len()
        invariant
            i <= v@.len(),
            forall|k: int| 0 <= k < i ==> v@[k] != x,
        decreases v@.len() - i,
    {
        if v[i] == x {
            return true;
        }
        i = i + 1;
    }
    false
}

impl Graph {
    /// Recompiles the scene of the root `scene_id` if anything changed since
    /// the last compile, and reports whether it did. The root ends up
    /// subscribed to the change events of exactly the nodes that fed the new
    /// scene, and clean, except after its very first compile, which leaves it
    /// wholly dirty once more. Anything other than a scene root is left alone.
    pub fn handle_recalculate(&mut self, scene_id: NodeId) -> (r: SceneNodeResponse)
        requires
            old(self).wf(),
        ensures
            final(self).wf(),
            compiled(old(self).slots@, final(self).slots@, scene_id, r),
    {
        let ghost g0 = self.slots@;
        let dirty = match self.node(scene_id) {
            Some(Node::Scene(s)) => s.dirty,
            _ => {
                return SceneNodeResponse::Nothing;
            },
        };
        if dirty == flags::DIRTY_NONE {
            return SceneNodeResponse::Nothing;
        }
        let nodes = self.collect(scene_id, SCENE_CONTENT);
        proof {
            law_collected_duplicate_free(g0, scene_id, SCENE_CONTENT);
            lemma_scene_not_content();
        }
        assert(node_at(g0, scene_id) is Some && node_at(g0, scene_id)->Some_0 is Scene);
        let slot = self.take_slot(scene_id.0);
        let (sn, sub) = match slot {
            Some(Slot { node: Node::Scene(sn), subscription }) => (sn, subscription),
            _ => {
                proof {
                    assert(false);
                }
                return SceneNodeResponse::Nothing;
            },
        };
        let ghost g1 = self.slots@;
        let mut i: usize = 0;
        while i < nodes.len()
            invariant
                self.wf(),
                i <= nodes@.len(),
                nodes@ == collected(g0, scene_id, SCENE_CONTENT),
                nodes@.no_duplicates(),
                forall|k: int|
                    0 <= k < nodes@.len() ==> node_at(g0, #[trigger] nodes@[k]) is Some && node_at(
                        g0,
                        nodes@[k],
                    )->Some_0.kind_bits_spec() & SCENE_CONTENT != 0,
                g1 == g0.update(scene_id.0 as int, None),
                scene_id.0 < g0.len(),
                node_at(g0, scene_id) is Some && node_at(g0, scene_id)->Some_0 is Scene,
                self.slots@.len() == g1.len(),
                forall|j: int| 0 <= j < g1.len() ==> (#[trigger] self.slots@[j] is Some) == (g1[j] is Some),
                forall|j: int|
                    0 <= j < g1.len() && g1[j] is Some ==> (#[trigger] self.slots@[j])->Some_0.node
                        == g1[j]->Some_0.node,
                forall|j: NodeId|
                    j.0 < g1.len() && g1[j.0 as int] is Some ==> #[trigger] subs_at(self.slots@, j) == if nodes@.subrange(
                        0,
                        i as int,
                    ).contains(j) {
                        subs_at(g1, j).insert((Event::OnChange, scene_id), EventCallback::MarkSceneDirty)
                    } else {
                        subs_at(g1, j)
                    },
            decreases nodes@.len() - i,
        {
            let n = nodes[i];
            let ghost before = self.slots@;
            proof {
                lemma_scene_not_content();
                assert(node_at(g0, n) is Some);
                if n == scene_id {
                    assert(node_at(g0, n)->Some_0.kind_bits_spec() == flags::SCENE);
                }
                assert(!nodes@.subrange(0, i as int).contains(n)) by {
                    if nodes@.subrange(0, i as int).contains(n) {
                        let k = choose|k: int| 0 <= k < i && nodes@.subrange(0, i as int)[k] == n;
                        assert(nodes@[k] == nodes@[i as int]);
                    }
                }
                assert(nodes@.subrange(0, i + 1) == nodes@.subrange(0, i as int).push(n));
            }
            let present = self.has_subscription(n, scene_id, Event::OnChange);
            if !present {
                self.subscribe(n, scene_id, Event::OnChange, EventCallback::MarkSceneDirty);
            } else {
                proof {
                    let m = subs_at(before, n);
                    assert(m.contains_key((Event::OnChange, scene_id)));
                    assert(m[(Event::OnChange, scene_id)] == EventCallback::MarkSceneDirty);
                    assert(m.insert((Event::OnChange, scene_id), EventCallback::MarkSceneDirty) =~= m);
                }
            }
            proof {
                assert forall|j: NodeId|
                    j.0 < g1.len() && g1[j.0 as int] is Some implies #[trigger] subs_at(self.slots@, j)
                    == if nodes@.subrange(0, i + 1).contains(j) {
                        subs_at(g1, j).insert((Event::OnChange, scene_id), EventCallback::MarkSceneDirty)
                    } else {
                        subs_at(g1, j)
                    } by {
                    if j == n {
                        assert(nodes@.subrange(0, i + 1)[i as int] == n);
                        assert(subs_at(before, j) == subs_at(g1, j));
                        if present {
                            assert(subs_at(self.slots@, j) == subs_at(before, j));
                        } else {
                            assert(subs_at(self.slots@, j) == subs_at(before, j).insert(
                                (Event::OnChange, scene_id),
                                EventCallback::MarkSceneDirty,
                            ));
                        }
                    } else {
                        assert(nodes@.subrange(0, i + 1).contains(j) == nodes@.subrange(0, i as int).contains(j));
                        assert(subs_at(self.slots@, j) == subs_at(before, j));
                    }
                }
            }
            i = i + 1;
        }
        assert(nodes@.subrange(0, nodes@.len() as int) == nodes@);
        let mut t: usize = 0;
        while t < sn.tracked_nodes.len()
            invariant
                self.wf(),
                t <= sn.tracked_nodes@.len(),
                self.slots@.len() == g1.len(),
                forall|j: int| 0 <= j < g1.len() ==> (#[trigger] self.slots@[j] is Some) == (g1[j] is Some),
                forall|j: int|
                    0 <= j < g1.len() && g1[j] is Some ==> (#[trigger] self.slots@[j])->Some_0.node
                        == g1[j]->Some_0.node,
                forall|j: NodeId|
                    j.0 < g1.len() && g1[j.0 as int] is Some ==> #[trigger] subs_at(self.slots@, j) == if nodes@.contains(j) {
                        subs_at(g1, j).insert((Event::OnChange, scene_id), EventCallback::MarkSceneDirty)
                    } else if sn.tracked_nodes@.subrange(0, t as int).contains(j) {
                        subs_at(g1, j).remove((Event::OnChange, scene_id))
                    } else {
                        subs_at(g1, j)
                    },
            decreases sn.tracked_nodes@.len() - t,
        {
            let o = sn.tracked_nodes[t];
            let ghost before = self.slots@;
            proof {
                assert(sn.tracked_nodes@.subrange(0, t + 1) == sn.tracked_nodes@.subrange(0, t as int).push(o));
            }
            if !contains_id(&nodes, o) {
                self.unsubscribe(o, scene_id, Event::OnChange);
                proof {
                    if o.0 < g1.len() && g1[o.0 as int] is Some {
                        assert(subs_at(g1, o).remove((Event::OnChange, scene_id)).remove((Event::OnChange, scene_id)) =~= subs_at(g1, o).remove((Event::OnChange, scene_id)));
                    }
                }
            }
            proof {
                assert forall|j: NodeId|
                    j.0 < g1.len() && g1[j.0 as int] is Some implies #[trigger] subs_at(self.slots@, j)
                    == if nodes@.contains(j) {
                        subs_at(g1, j).insert((Event::OnChange, scene_id), EventCallback::MarkSceneDirty)
                    } else if sn.tracked_nodes@.subrange(0, t + 1).contains(j) {
                        subs_at(g1, j).remove((Event::OnChange, scene_id))
                    } else {
                        subs_at(g1, j)
                    } by {
                    if j == o {
                        assert(sn.tracked_nodes@.subrange(0, t + 1)[t as int] == o);
                        assert(sn.tracked_nodes@.subrange(0, t + 1).contains(j));
                        let prev = subs_at(before, j);
                        assert(prev == if nodes@.contains(j) {
                            subs_at(g1, j).insert((Event::OnChange, scene_id), EventCallback::MarkSceneDirty)
                        } else if sn.tracked_nodes@.subrange(0, t as int).contains(j) {
                            subs_at(g1, j).remove((Event::OnChange, scene_id))
                        } else {
                            subs_at(g1, j)
                        });
                        if !nodes@.contains(j) {
                            assert(subs_at(self.slots@, j) == prev.remove((Event::OnChange, scene_id)));
                            assert(subs_at(g1, j).remove((Event::OnChange, scene_id)).remove((Event::OnChange, scene_id)) =~= subs_at(g1, j).remove((Event::OnChange, scene_id)));
                        } else {
                            assert(subs_at(self.slots@, j) == prev);
                        }
                    } else {
                        assert(sn.tracked_nodes@.subrange(0, t + 1).contains(j) == sn.tracked_nodes@.subrange(
                            0,
                            t as int,
                        ).contains(j));
                        assert(subs_at(self.slots@, j) == subs_at(before, j));
                    }
                }
            }
            t = t + 1;
        }
        assert(sn.tracked_nodes@.subrange(0, sn.tracked_nodes@.len() as int) == sn.tracked_nodes@);
        let ghost g2 = self.slots@;
        let SceneNode { scene_data, inner_scene, tracked_nodes, dirty: old_dirty, next_texture_serial } = sn;
        let Scene { spheres: _, materials: _, textures: old_textures } = inner_scene;
        let mut b = Builder::new(self.slots.len(), old_textures, next_texture_serial);
        let ghost b0 = b.view();
        let mut k: usize = 0;
        while k < nodes.len()
            invariant
                k <= nodes@.len(),
                nodes@ == collected(g0, scene_id, SCENE_CONTENT),
                forall|q: int|
                    0 <= q < nodes@.len() ==> node_at(g0, #[trigger] nodes@[q]) is Some && node_at(
                        g0,
                        nodes@[q],
                    )->Some_0.kind_bits_spec() & SCENE_CONTENT != 0,
                self.slots@.len() == g0.len(),
                g1 == g0.update(scene_id.0 as int, None),
                scene_id.0 < g0.len(),
                node_at(g0, scene_id) is Some && node_at(g0, scene_id)->Some_0 is Scene,
                forall|j: int| 0 <= j < g1.len() ==> (#[trigger] self.slots@[j] is Some) == (g1[j] is Some),
                forall|j: int|
                    0 <= j < g1.len() && g1[j] is Some ==> (#[trigger] self.slots@[j])->Some_0.node
                        == g1[j]->Some_0.node,
                b.texture_of@.len() == g0.len(),
                build_wf(b.view(), g0.len()),
                build_from(g0, nodes@, 0, b0) == build_from(g0, nodes@, k as int, b.view()),
            decreases nodes@.len() - k,
        {
            let n = nodes[k];
            proof {
                lemma_scene_not_content();
                assert(node_at(g0, n) is Some);
                if n == scene_id {
                    assert(node_at(g0, n)->Some_0.kind_bits_spec() == flags::SCENE);
                }
                assert(node_at(self.slots@, n) == node_at(g0, n));
            }
            match self.node(n) {
                Some(Node::Texture(tn)) => b.texture_step_exec(n, tn),
                Some(Node::Material(m)) => b.material_step_exec(n, m),
                Some(Node::Sphere(sp)) => b.sphere_step_exec(sp),
                _ => {},
            }
            k = k + 1;
        }
        let Builder { textures, spare: _, texture_of: _, materials, material_of: _, spheres, serial } = b;
        let new_scene = SceneNode {
            scene_data,
            inner_scene: Scene { spheres, materials, textures },
            tracked_nodes: nodes,
            dirty: if old_dirty == flags::DIRTY_INIT {
                flags::DIRTY_ALL
            } else {
                flags::DIRTY_NONE
            },
            next_texture_serial: serial,
        };
        self.slots.set(scene_id.0, Some(Slot { node: Node::Scene(new_scene), subscription: sub }));
        proof {
            let g3 = self.slots@;
            assert forall|j: NodeId|
                j.0 < g0.len() && g0[j.0 as int] is Some && j != scene_id implies #[trigger] subs_at(g3, j)
                == if collected(g0, scene_id, SCENE_CONTENT).contains(j) {
                    subs_at(g0, j).insert((Event::OnChange, scene_id), EventCallback::MarkSceneDirty)
                } else if tracked_nodes@.contains(j) {
                    subs_at(g0, j).remove((Event::OnChange, scene_id))
                } else {
                    subs_at(g0, j)
                } by {
                assert(j.0 != scene_id.0);
                assert(subs_at(g3, j) == subs_at(g2, j)) by {
                    assert(g3[j.0 as int] == g2[j.0 as int]);
                }
                assert(subs_at(g1, j) == subs_at(g0, j));
            }
        }
        proof {
            let g3 = self.slots@;
            let s0 = node_at(g0, scene_id)->Some_0->Scene_0;
            assert(s0.dirty == old_dirty);
            assert(s0.tracked_nodes == tracked_nodes);
            assert(s0.inner_scene.textures@ == old_textures@);
            assert(g3.len() == g0.len());
            assert(forall|j: int| 0 <= j < g0.len() ==> (#[trigger] g3[j] is Some) == (g0[j] is Some));
            assert(forall|j: int|
                0 <= j < g0.len() && g0[j] is Some && j != scene_id.0 ==> (#[trigger] g3[j])->Some_0.node == g0[j]->Some_0.node);
            assert(g3[scene_id.0 as int]->Some_0.subscription == g0[scene_id.0 as int]->Some_0.subscription);
            assert(b0 == initial_build(g0.len(), s0.inner_scene.textures@, s0.next_texture_serial));
            assert(build_from(g0, nodes@, nodes@.len() as int, b.view()) == b.view());
            if unique_files(s0.inner_scene.textures@) {
                law_textures_carried_over(g0, nodes@, s0.inner_scene.textures@, s0.next_texture_serial);
            }
        }
        SceneNodeResponse::Recalculated
    }
}

} // verus!
