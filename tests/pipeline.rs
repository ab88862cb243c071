use reactor::compile::SceneNodeResponse;
use reactor::draw::SceneUpdate;
use reactor::flags;
use reactor::graph::Graph;
use reactor::node::{
    CameraNode, CollectionNode, InputMaterial, MaterialNode, Node, RenderNode, SceneNode, SphereNode, TextureNode,
    XraysRenderNode,
};
use reactor::pin::NodePin;
use reactor::render::{Camera, Vec3Bits};
use reactor::scene::{Material, TextureSource};
use reactor::subscription::{Event, NodeId};

fn bits(x: f32) -> u32 {
    x.to_bits()
}

fn v3(x: f32, y: f32, z: f32) -> Vec3Bits {
    Vec3Bits { x: bits(x), y: bits(y), z: bits(z) }
}

fn texture(path: &str, scale: f32) -> Node {
    Node::Texture(TextureNode { path: path.to_string(), scale: NodePin::new(bits(scale)) })
}

fn lambert(tex: Option<NodeId>) -> Node {
    Node::Material(MaterialNode::Lambertian { albedo: v3(0.5, 0.5, 0.5), texture: tex })
}

fn sphere(material: InputMaterial) -> Node {
    Node::Sphere(SphereNode { center: v3(0.0, 0.0, 0.0), radius: bits(1.0), material })
}

fn collection(members: Vec<NodeId>) -> Node {
    let n = members.len();
    let mut c = CollectionNode::new();
    c.nodes = members;
    c.inputs = vec![flags::ALL; n + 1];
    Node::Collection(c)
}

fn scene_root(g: &mut Graph, input: NodeId) -> NodeId {
    let mut s = SceneNode::new();
    s.scene_data.set(Some(input));
    g.add_node(Node::Scene(s))
}

fn scene_of(g: &Graph, id: NodeId) -> &SceneNode {
    match g.node(id) {
        Some(Node::Scene(s)) => s,
        _ => panic!("not a scene root"),
    }
}

#[test]
fn node_reached_twice_is_collected_once() {
    let mut g = Graph::new();
    let t = g.add_node(texture("a.jpeg", 1.0));
    let m = g.add_node(lambert(Some(t)));
    let s1 = g.add_node(sphere(InputMaterial::External(m)));
    let s2 = g.add_node(sphere(InputMaterial::External(m)));
    let c = g.add_node(collection(vec![s1, s2]));
    let root = scene_root(&mut g, c);
    let mask = reactor::compile::SCENE_CONTENT;
    let first = g.collect(root, mask);
    assert_eq!(first, vec![t, m, s1, s2, c]);
    let second = g.collect(root, mask);
    assert_eq!(first, second);
}

#[test]
fn collect_skips_missing_inputs_and_cycles() {
    let mut g = Graph::new();
    let c1 = g.add_node(collection(vec![NodeId(7)]));
    let c2 = g.add_node(collection(vec![c1, NodeId(99)]));
    let root = scene_root(&mut g, c2);
    let found = g.collect(root, reactor::compile::SCENE_CONTENT);
    assert_eq!(found, vec![c1, c2]);
    // a collection that contains itself is followed once
    let mut g2 = Graph::new();
    let looped = g2.add_node(collection(vec![NodeId(0)]));
    assert_eq!(g2.collect(looped, flags::COLLECTION), vec![looped]);
}

#[test]
fn fresh_scene_root_compiles_twice_then_settles() {
    let mut g = Graph::new();
    let s = g.add_node(sphere(InputMaterial::Internal(MaterialNode::Dielectric { ior: bits(1.5) })));
    let root = scene_root(&mut g, s);
    assert_eq!(scene_of(&g, root).dirty, flags::DIRTY_INIT);
    assert_eq!(g.handle_recalculate(root), SceneNodeResponse::Recalculated);
    assert_eq!(scene_of(&g, root).dirty, flags::DIRTY_ALL);
    assert_eq!(g.handle_recalculate(root), SceneNodeResponse::Recalculated);
    assert_eq!(scene_of(&g, root).dirty, flags::DIRTY_NONE);
    assert_eq!(g.handle_recalculate(root), SceneNodeResponse::Nothing);
    assert_eq!(g.handle_recalculate(root), SceneNodeResponse::Nothing);
    let scene = &scene_of(&g, root).inner_scene;
    assert_eq!(scene.spheres.len(), 1);
    assert_eq!(scene.materials, vec![Material::Dielectric { refraction_index: bits(1.5) }]);
    assert_eq!(scene.spheres[0].material_idx, 0);
}

#[test]
fn compiled_scene_resolves_textures_and_materials() {
    let mut g = Graph::new();
    let t = g.add_node(texture("earth.jpeg", 1.0));
    let textured = g.add_node(lambert(Some(t)));
    let plain = g.add_node(lambert(None));
    let s1 = g.add_node(sphere(InputMaterial::External(textured)));
    let s2 = g.add_node(sphere(InputMaterial::External(plain)));
    let s3 = g.add_node(sphere(InputMaterial::Internal(MaterialNode::Checkerboard {
        even: v3(0.0, 0.0, 0.0),
        odd: v3(1.0, 1.0, 1.0),
    })));
    let c = g.add_node(collection(vec![s1, s2, s3]));
    let root = scene_root(&mut g, c);
    assert_eq!(g.handle_recalculate(root), SceneNodeResponse::Recalculated);
    let sn = scene_of(&g, root);
    let scene = &sn.inner_scene;
    assert_eq!(scene.textures.len(), 4);
    assert_eq!(scene.textures[0].key.as_deref(), Some("earth.jpeg"));
    assert_eq!(scene.textures[0].source, TextureSource::File(0));
    assert_eq!(scene.textures[1].source, TextureSource::Color(v3(0.5, 0.5, 0.5)));
    assert_eq!(
        scene.materials,
        vec![
            Material::Lambertian { albedo: 0 },
            Material::Lambertian { albedo: 1 },
            Material::Checkerboard { even: 2, odd: 3 },
        ]
    );
    let idx: Vec<usize> = scene.spheres.iter().map(|s| s.material_idx).collect();
    assert_eq!(idx, vec![0, 1, 2]);
    assert_eq!(sn.next_texture_serial, 1);
    assert_eq!(sn.tracked_nodes, vec![t, textured, s1, plain, s2, s3, c]);
}

#[test]
fn compile_subscribes_and_unsubscribes() {
    let mut g = Graph::new();
    let s1 = g.add_node(sphere(InputMaterial::Internal(MaterialNode::Dielectric { ior: bits(1.5) })));
    let s2 = g.add_node(sphere(InputMaterial::Internal(MaterialNode::Dielectric { ior: bits(1.3) })));
    let c = g.add_node(collection(vec![s1, s2]));
    let root = scene_root(&mut g, c);
    g.handle_recalculate(root);
    assert!(g.has_subscription(s1, root, Event::OnChange));
    assert!(g.has_subscription(s2, root, Event::OnChange));
    assert!(g.has_subscription(c, root, Event::OnChange));
    assert!(!g.has_subscription(root, root, Event::OnChange));
    g.handle_recalculate(root);
    // dropping s2 from the collection fires the collection's change event
    g.collection_remove(c, 1);
    assert_eq!(scene_of(&g, root).dirty, flags::DIRTY_ALL);
    assert_eq!(g.handle_recalculate(root), SceneNodeResponse::Recalculated);
    assert!(g.has_subscription(s1, root, Event::OnChange));
    assert!(!g.has_subscription(s2, root, Event::OnChange));
    assert_eq!(g.handle_recalculate(root), SceneNodeResponse::Nothing);
}

#[test]
fn scale_change_keeps_other_textures() {
    let mut g = Graph::new();
    let ta = g.add_node(texture("a.jpeg", 1.0));
    let tb = g.add_node(texture("b.jpeg", 1.0));
    let ma = g.add_node(lambert(Some(ta)));
    let mb = g.add_node(lambert(Some(tb)));
    let sa = g.add_node(sphere(InputMaterial::External(ma)));
    let sb = g.add_node(sphere(InputMaterial::External(mb)));
    let c = g.add_node(collection(vec![sa, sb]));
    let root = scene_root(&mut g, c);
    g.handle_recalculate(root);
    g.handle_recalculate(root);
    let before: Vec<(Option<String>, u32, TextureSource)> = scene_of(&g, root)
        .inner_scene
        .textures
        .iter()
        .map(|t| (t.key.clone(), t.scale, t.source))
        .collect();
    assert_eq!(before[0], (Some("a.jpeg".to_string()), bits(1.0), TextureSource::File(0)));
    assert_eq!(before[1], (Some("b.jpeg".to_string()), bits(1.0), TextureSource::File(1)));

    g.set_texture_scale(ta, bits(2.0));
    assert_eq!(scene_of(&g, root).dirty, flags::DIRTY_ALL);
    assert_eq!(g.handle_recalculate(root), SceneNodeResponse::Recalculated);
    let after = &scene_of(&g, root).inner_scene.textures;
    assert_eq!(after.len(), 2);
    assert_eq!(after[0].key.as_deref(), Some("a.jpeg"));
    assert_eq!(after[0].scale, bits(2.0));
    assert_eq!(after[0].source, TextureSource::File(2));
    assert_eq!(after[1].key.as_deref(), Some("b.jpeg"));
    assert_eq!(after[1].source, TextureSource::File(1));
}

#[test]
fn same_file_and_scale_share_one_texture() {
    let mut g = Graph::new();
    let t1 = g.add_node(texture("moon.jpeg", 1.0));
    let t2 = g.add_node(texture("moon.jpeg", 1.0));
    let m1 = g.add_node(lambert(Some(t1)));
    let m2 = g.add_node(lambert(Some(t2)));
    let s1 = g.add_node(sphere(InputMaterial::External(m1)));
    let s2 = g.add_node(sphere(InputMaterial::External(m2)));
    let c = g.add_node(collection(vec![s1, s2]));
    let root = scene_root(&mut g, c);
    g.handle_recalculate(root);
    let scene = &scene_of(&g, root).inner_scene;
    assert_eq!(scene.textures.len(), 1);
    assert_eq!(scene.materials, vec![Material::Lambertian { albedo: 0 }, Material::Lambertian { albedo: 0 }]);
}

#[test]
fn dangling_material_reference_leaves_sphere_out() {
    let mut g = Graph::new();
    let s = g.add_node(sphere(InputMaterial::External(NodeId(42))));
    let root = scene_root(&mut g, s);
    assert_eq!(g.handle_recalculate(root), SceneNodeResponse::Recalculated);
    assert_eq!(scene_of(&g, root).inner_scene.spheres.len(), 0);
}

#[test]
fn dangling_texture_falls_back_to_colour() {
    let mut g = Graph::new();
    let m = g.add_node(lambert(Some(NodeId(42))));
    let s = g.add_node(sphere(InputMaterial::External(m)));
    let root = scene_root(&mut g, s);
    g.handle_recalculate(root);
    let scene = &scene_of(&g, root).inner_scene;
    assert_eq!(scene.textures.len(), 1);
    assert_eq!(scene.textures[0].source, TextureSource::Color(v3(0.5, 0.5, 0.5)));
}

#[test]
fn rewiring_scene_input_marks_root_dirty() {
    let mut g = Graph::new();
    let s = g.add_node(sphere(InputMaterial::Internal(MaterialNode::Dielectric { ior: bits(1.5) })));
    let root = g.add_node(Node::Scene(SceneNode::new()));
    g.handle_recalculate(root);
    g.handle_recalculate(root);
    assert_eq!(g.handle_recalculate(root), SceneNodeResponse::Nothing);
    assert_eq!(scene_of(&g, root).inner_scene.spheres.len(), 0);
    g.connect_scene_input(root, s);
    assert_eq!(scene_of(&g, root).dirty, flags::DIRTY_ALL);
    assert_eq!(g.handle_recalculate(root), SceneNodeResponse::Recalculated);
    assert_eq!(scene_of(&g, root).inner_scene.spheres.len(), 1);
    g.disconnect_scene_input(root);
    assert_eq!(g.handle_recalculate(root), SceneNodeResponse::Recalculated);
    assert_eq!(scene_of(&g, root).inner_scene.spheres.len(), 0);
    assert!(!g.has_subscription(s, root, Event::OnChange));
}

#[test]
fn notify_drops_subscribers_that_are_gone() {
    let mut g = Graph::new();
    let t = g.add_node(texture("a.jpeg", 1.0));
    let root = scene_root(&mut g, t);
    g.handle_recalculate(root);
    g.handle_recalculate(root);
    assert!(g.has_subscription(t, root, Event::OnChange));
    g.remove_node(root);
    g.set_texture_path(t, "b.jpeg".to_string());
    assert!(!g.has_subscription(t, root, Event::OnChange));
}

#[test]
fn setting_same_scale_fires_nothing() {
    let mut g = Graph::new();
    let t = g.add_node(texture("a.jpeg", 1.0));
    let root = scene_root(&mut g, t);
    g.handle_recalculate(root);
    g.handle_recalculate(root);
    g.set_texture_scale(t, bits(1.0));
    assert_eq!(g.handle_recalculate(root), SceneNodeResponse::Nothing);
}

fn camera() -> Camera {
    Camera {
        eye_pos: v3(0.0, 0.0, 0.0),
        eye_dir: v3(0.0, 0.0, 1.0),
        up: v3(0.0, 1.0, 0.0),
        vfov_degrees: bits(30.0),
        aperture: bits(0.1),
        focus_distance: bits(10.0),
    }
}

#[test]
fn render_node_hands_over_rebuilt_scenes() {
    let mut g = Graph::new();
    let s = g.add_node(sphere(InputMaterial::Internal(MaterialNode::Dielectric { ior: bits(1.5) })));
    let root = scene_root(&mut g, s);
    let cam = g.add_node(Node::Camera(CameraNode { camera: camera() }));
    let mut x = XraysRenderNode::new(1024);
    x.camera.set(Some(cam));
    x.scene = Some(root);
    let r = g.add_node(Node::Render(RenderNode::XraysRender(x)));

    let p1 = g.plan_draw(r).unwrap();
    assert_eq!(p1.scene, SceneUpdate::Rebuilt(root));
    assert_eq!(p1.camera, Some(camera()));
    assert_eq!(p1.sampling.max_samples_per_pixel, 256);
    // the first compile left the root dirty once more
    assert_eq!(g.plan_draw(r).unwrap().scene, SceneUpdate::Rebuilt(root));
    assert_eq!(g.plan_draw(r).unwrap().scene, SceneUpdate::Unchanged);
    assert!(g.plan_draw(s).is_none());
}

#[test]
fn render_node_without_scene_gets_placeholder_once() {
    let mut g = Graph::new();
    let r = g.add_node(Node::Render(RenderNode::XraysRender(XraysRenderNode::new(64))));
    let p = g.plan_draw(r).unwrap();
    assert_eq!(p.scene, SceneUpdate::Placeholder);
    assert_eq!(p.camera, None);
    assert_eq!(g.plan_draw(r).unwrap().scene, SceneUpdate::Unchanged);
}

#[test]
fn reset_input_of_render_node() {
    let mut x = XraysRenderNode::new(64);
    x.num_samples_per_pixel.set(4);
    x.force_redraw = false;
    x.scene = Some(NodeId(3));
    assert!(x.reset_input(1));
    assert_eq!(x.sampling_params().num_samples_per_pixel, 1);
    assert!(x.reset_input(4));
    assert_eq!(x.scene, None);
    assert!(x.force_redraw);
    assert!(!x.reset_input(5));
}

#[test]
fn connect_checks_pins_and_invalidates() {
    let mut g = Graph::new();
    let s = g.add_node(sphere(InputMaterial::Internal(MaterialNode::Dielectric { ior: bits(1.5) })));
    let t = g.add_node(texture("a.jpeg", 1.0));
    let root = g.add_node(Node::Scene(SceneNode::new()));
    g.handle_recalculate(root);
    g.handle_recalculate(root);
    // a texture cannot feed a scene root
    assert!(!g.connect(t, 0, root, 0));
    assert_eq!(scene_of(&g, root).dirty, flags::DIRTY_NONE);
    assert!(g.connect(s, 0, root, 0));
    assert_eq!(scene_of(&g, root).dirty, flags::DIRTY_ALL);
    assert_eq!(scene_of(&g, root).scene_data.get(), Some(s));
    g.handle_recalculate(root);
    g.disconnect(root, 0);
    assert_eq!(scene_of(&g, root).scene_data.get(), None);
    assert_eq!(scene_of(&g, root).dirty, flags::DIRTY_ALL);
}

#[test]
fn connecting_into_collection_recompiles_scene() {
    let mut g = Graph::new();
    let s1 = g.add_node(sphere(InputMaterial::Internal(MaterialNode::Dielectric { ior: bits(1.5) })));
    let s2 = g.add_node(sphere(InputMaterial::Internal(MaterialNode::Dielectric { ior: bits(1.3) })));
    let c = g.add_node(collection(vec![s1]));
    let root = scene_root(&mut g, c);
    g.handle_recalculate(root);
    g.handle_recalculate(root);
    assert!(g.connect(s2, 0, c, 1));
    assert_eq!(g.handle_recalculate(root), SceneNodeResponse::Recalculated);
    assert_eq!(scene_of(&g, root).inner_scene.spheres.len(), 2);
    g.disconnect(c, 0);
    assert_eq!(g.handle_recalculate(root), SceneNodeResponse::Recalculated);
    assert_eq!(scene_of(&g, root).tracked_nodes, vec![s2, c]);
}

#[test]
fn deleting_a_fed_node_recompiles_without_it() {
    let mut g = Graph::new();
    let s1 = g.add_node(sphere(InputMaterial::Internal(MaterialNode::Dielectric { ior: bits(1.5) })));
    let s2 = g.add_node(sphere(InputMaterial::Internal(MaterialNode::Dielectric { ior: bits(1.3) })));
    let c = g.add_node(collection(vec![s1, s2]));
    let root = scene_root(&mut g, c);
    g.handle_recalculate(root);
    g.handle_recalculate(root);
    assert!(g.delete_node(s1).is_some());
    assert!(g.node(s1).is_none());
    assert!(g.delete_node(s1).is_none());
    assert_eq!(g.handle_recalculate(root), SceneNodeResponse::Recalculated);
    assert_eq!(scene_of(&g, root).inner_scene.spheres.len(), 1);
    assert_eq!(scene_of(&g, root).tracked_nodes, vec![s2, c]);
}
