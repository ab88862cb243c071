use reactor::catalogue::NodeKind;
use reactor::flags::{self, is_compatible, merge_dirty};
use reactor::gpu::{layout_scene, GpuMaterial, TextureDescriptor};
use reactor::graph::Graph;
use reactor::node::{MaterialNode, Node, NumberNode, OutputNode, StringNode};
use reactor::output::{EditMode, LoggerConfig, RenderNodeData, RenderSelector, RenderTarget};
use reactor::pin::NodePin;
use reactor::render::Vec3Bits;
use reactor::scene::{Material, Scene, Sphere, TextureData};
use reactor::subscription::{Event, EventCallback, EventMessage, EventResponse, NodeId, Subscription};

#[test]
fn compatibility_is_bit_overlap() {
    assert!(is_compatible(flags::MATERIAL_METAL, flags::MATERIALS));
    assert!(is_compatible(flags::MATERIALS, flags::MATERIAL_METAL));
    assert!(!is_compatible(flags::TEXTURE, flags::MATERIALS));
    assert!(!is_compatible(flags::MATERIALS, flags::TEXTURE));
    assert!(is_compatible(flags::COLOR, flags::TYPICAL_VECTOR_INPUT));
    assert!(!is_compatible(0, flags::ALL));
    assert_eq!(flags::MATERIALS, 0x3E0);
    assert_eq!(merge_dirty(flags::DIRTY_TEXTURE_VALUE, flags::DIRTY_MATERIAL_LAYOUT), 0x9);
}

#[test]
fn subscribing_twice_keeps_one_entry() {
    let mut s = Subscription::new();
    s.subscribe(NodeId(4), Event::OnChange, EventCallback::MarkSceneDirty);
    s.subscribe(NodeId(4), Event::OnChange, EventCallback::MarkSceneDirty);
    assert!(s.has_subscription(NodeId(4), Event::OnChange));
    assert_eq!(s.subscribers(Event::OnChange), vec![(NodeId(4), EventCallback::MarkSceneDirty)]);
    s.unsubscribe(NodeId(9), Event::OnChange);
    assert_eq!(s.subscribers(Event::OnChange).len(), 1);
    s.unsubscribe(NodeId(4), Event::OnChange);
    assert!(!s.has_subscription(NodeId(4), Event::OnChange));
    assert!(s.subscribers(Event::OnChange).is_empty());
}

#[test]
fn subscription_messages() {
    let mut s = Subscription::new();
    assert_eq!(
        s.handle_event(EventMessage::Subscribe { node_id: NodeId(1), event: Event::OnChange, callback: EventCallback::MarkSceneDirty }),
        None
    );
    assert_eq!(
        s.handle_event(EventMessage::HasSubscription { node_id: NodeId(1), event: Event::OnChange }),
        Some(EventResponse::HasSubscription(true))
    );
    s.handle_event(EventMessage::Unsubscribe { node_id: NodeId(1), event: Event::OnChange });
    assert_eq!(
        s.handle_event(EventMessage::HasSubscription { node_id: NodeId(1), event: Event::OnChange }),
        Some(EventResponse::HasSubscription(false))
    );
}

#[test]
fn node_pin_defaults_until_set() {
    let mut p = NodePin::new(3u32);
    assert_eq!(p.get(), 3);
    p.set(5);
    assert_eq!(*p.as_ref(), 5);
    p.set_initial(7);
    assert_eq!(p.get(), 5);
    p.reset();
    assert_eq!(p.get(), 7);
    *p.as_mut() = 9;
    assert_eq!(p.get(), 9);
    assert_eq!(p.value, None);
}

#[test]
fn catalogue_pins() {
    let kinds = Node::fabrics();
    assert_eq!(kinds.len(), 19);
    assert_eq!(kinds[0].name(), "Number");
    assert_eq!(NodeKind::Sphere.inputs(), vec![flags::TYPICAL_VECTOR_INPUT, flags::TYPICAL_NUMBER_INPUT, flags::MATERIALS]);
    assert_eq!(NodeKind::Texture.outputs(), vec![flags::TEXTURE | flags::STRING]);
    assert!(NodeKind::Output.outputs().is_empty());
    assert_eq!(NodeKind::Scene.name(), "Scene");
}

#[test]
fn wiring_checks_capabilities() {
    let mut g = Graph::new();
    let metal = g.add_node(Node::Material(MaterialNode::Metal {
        albedo: Vec3Bits { x: 0, y: 0, z: 0 },
        fuzz: 0,
        texture: None,
    }));
    let number = g.add_node(Node::Number(NumberNode { value: 0 }));
    let sphere = g.add_node(Node::Sphere(reactor::node::SphereNode {
        center: Vec3Bits { x: 0, y: 0, z: 0 },
        radius: 0,
        material: reactor::node::InputMaterial::External(metal),
    }));
    assert!(g.can_connect(metal, 0, sphere, 2));
    assert!(!g.can_connect(metal, 0, sphere, 1));
    assert!(g.can_connect(number, 0, sphere, 1));
    assert!(!g.can_connect(number, 1, sphere, 1));
    assert!(!g.can_connect(NodeId(40), 0, sphere, 1));
    assert_eq!(g.node(sphere).unwrap().name(), "Sphere Primitive");
}

#[test]
fn output_node_tabs() {
    let mut o = OutputNode::new(vec!["Viewport".to_string(), "Viewport 2".to_string()], Some("Viewport 2".to_string()));
    assert!(o.contains_tab("Viewport"));
    assert!(!o.contains_tab("Settings"));
    assert_eq!(o.selected_title().map(|s| s.as_str()), Some("Viewport 2"));
    o.open_tab("Viewport 3");
    o.open_tab("Viewport");
    assert_eq!(o.tab_titles.len(), 3);
    o.remove_tab("Viewport 2");
    assert_eq!(o.tab_titles, vec!["Viewport".to_string(), "Viewport 3".to_string()]);
    assert_eq!(o.selected_title(), None);
    o.selected_title = Some("Viewport".to_string());
    o.set_open_tab_titles(vec!["Viewport".to_string()]);
    assert_eq!(o.selected_title.as_deref(), Some("Viewport"));
    o.set_open_tab_titles(vec!["Other".to_string()]);
    assert_eq!(o.selected_title, None);
}

#[test]
fn small_settings_types() {
    let mut m = EditMode::default();
    assert_eq!(m.switch(), EditMode::View);
    assert_eq!(m.switch(), EditMode::Editing);
    let c = LoggerConfig::default();
    assert_eq!(c.filter, "info");
    assert!(c.print_to_stdout && c.compact && c.path.is_none());
    assert_eq!(RenderTarget::Viewport("Main".to_string()).title(), "Main");
    let s = StringNode { value: "hello".to_string() };
    assert_eq!(s.value(), "hello");
}

#[test]
fn gpu_layout_of_scene() {
    let scene = Scene {
        spheres: vec![
            Sphere { center: Vec3Bits { x: 0, y: 0, z: 0 }, radius: 1, material_idx: 1 },
            Sphere { center: Vec3Bits { x: 0, y: 0, z: 0 }, radius: 1, material_idx: 0 },
            Sphere { center: Vec3Bits { x: 0, y: 0, z: 0 }, radius: 1, material_idx: 1 },
        ],
        materials: vec![Material::Checkerboard { even: 0, odd: 1 }, Material::Emissive { emit: 1 }],
        textures: vec![
            TextureData::new_from_color(Vec3Bits { x: 0, y: 0, z: 0 }),
            TextureData { key: Some("a.jpeg".to_string()), scale: 0, source: reactor::scene::TextureSource::File(0) },
        ],
    };
    let l = layout_scene(&scene, &vec![(1, 1), (4, 2)]).unwrap();
    assert_eq!(
        l.descriptors,
        vec![
            TextureDescriptor { width: 1, height: 1, offset: 0 },
            TextureDescriptor { width: 4, height: 2, offset: 1 },
        ]
    );
    assert_eq!(l.materials[0], GpuMaterial::checkerboard(l.descriptors[1], l.descriptors[0]));
    assert_eq!(l.materials[1], GpuMaterial::emissive(l.descriptors[1]));
    assert_eq!(l.lights, vec![0, 2]);
    assert!(layout_scene(&scene, &vec![(1, 1), (70000, 70000)]).is_none());
    assert_eq!(TextureDescriptor::empty().offset, 0xFFFF_FFFF);
    assert_eq!(GpuMaterial::dielectric(5).x, 5);
}

#[test]
fn dropped_wire_candidates() {
    let feeds_texture = reactor::catalogue::input_candidates(flags::TEXTURE);
    assert_eq!(
        feeds_texture,
        vec![(NodeKind::Metal, 2), (NodeKind::Lambertian, 1), (NodeKind::Emissive, 1), (NodeKind::Collection, 0)]
    );
    let drives_scene_input = reactor::catalogue::output_candidates(flags::PRIMITIVES | flags::COLLECTION);
    assert_eq!(drives_scene_input, vec![(NodeKind::Sphere, 0), (NodeKind::Collection, 0)]);
}

#[test]
fn render_selectors() {
    let d = RenderNodeData { id: NodeId(1), output_id: NodeId(2), target: RenderTarget::Viewport("Main".to_string()) };
    assert!(d.select(RenderSelector::All));
    assert!(d.select(RenderSelector::ById(NodeId(1))));
    assert!(!d.select(RenderSelector::ById(NodeId(2))));
    assert!(d.select(RenderSelector::ByOutputId(NodeId(2))));
    assert!(d.select(RenderSelector::ByTargetTitle("Main")));
    assert!(!d.select(RenderSelector::ByTargetTitle("Other")));
}
