//! Edits that the graph editor makes, and the invalidation that each sets
//! off: changing a scene root's input marks it wholly dirty, and changing a
//! node that others watch fires its change event.
use vstd::prelude::*;
use crate::flags;
use crate::catalogue::kind_outputs;
use crate::graph::{Graph, Slot, node_at, notified, subs_at};
use crate::node::{Node, SceneNode, TextureNode};
use crate::pin::NodePin;
use crate::scene::Scene;
use crate::subscription::{Event, NodeId};

verus! {

impl SceneNode {
    /// A scene root with no input that has never been compiled.
    pub fn new() -> (r: Self)
        ensures
            r.scene_data.current() is None,
            r.inner_scene.wf(),
            r.inner_scene.spheres@.len() == 0,
            r.inner_scene.materials@.len() == 0,
            r.inner_scene.textures@.len() == 0,
            r.tracked_nodes@.len() == 0,
            r.dirty == flags::DIRTY_INIT,
            r.next_texture_serial == 0,
    {
        SceneNode {
            scene_data: NodePin::new(None),
            inner_scene: Scene::empty(),
            tracked_nodes: Vec::new(),
            dirty: flags::DIRTY_INIT,
            next_texture_serial: 0,
        }
    }
}

/// The graph with the node under `id` replaced by `node`, its subscribers kept.
pub open spec fn with_node(g: Seq<Option<Slot>>, id: NodeId, node: Node) -> Seq<Option<Slot>> {
    g.update(id.0 as int, Some(Slot { node, subscription: g[id.0 as int]->Some_0.subscription }))
}

/// A scene root whose input and dirty mask are replaced.
pub open spec fn rewired(s: SceneNode, input: NodePin<Option<NodeId>>) -> Node {
    Node::Scene(SceneNode { scene_data: input, dirty: s.dirty | flags::DIRTY_ALL, ..s })
}

/// `mid` is `g` with the members and inputs of the collection `id`
/// replaced, everything else kept.
pub open spec fn collection_edited(
    g: Seq<Option<Slot>>,
    mid: Seq<Option<Slot>>,
    id: NodeId,
    nodes: Seq<NodeId>,
    inputs: Seq<u64>,
) -> bool {
    &&& mid.len() == g.len()
    &&& id.0 < g.len()
    &&& forall|j: int| 0 <= j < g.len() && j != id.0 ==> #[trigger] mid[j] == g[j]
    &&& mid[id.0 as int] is Some
    &&& mid[id.0 as int]->Some_0.subscription == g[id.0 as int]->Some_0.subscription
    &&& mid[id.0 as int]->Some_0.node is Collection
    &&& mid[id.0 as int]->Some_0.node->Collection_0.nodes@ == nodes
    &&& mid[id.0 as int]->Some_0.node->Collection_0.inputs@ == inputs
}

impl Graph {
    /// Puts `node` back under `i` with the subscribers of `slot`.
    fn put_back(&mut self, i: usize, node: Node, subscription: crate::subscription::Subscription)
        requires
            old(self).wf(),
            subscription.wf(),
            i < old(self).slots@.len(),
        ensures
            final(self).wf(),
            final(self).slots@ == old(self).slots@.update(i as int, Some(Slot { node, subscription })),
    {
        self.slots.set(i, Some(Slot { node, subscription }));
    }

    /// Wires `from` into the input of the scene root `scene_id`, which
    /// becomes wholly dirty. Anything other than a scene root is left alone.
    pub fn connect_scene_input(&mut self, scene_id: NodeId, from: NodeId)
        requires
            old(self).wf(),
        ensures
            final(self).wf(),
            match node_at(old(self).slots@, scene_id) {
                Some(Node::Scene(s)) => final(self).slots@ == with_node(
                    old(self).slots@,
                    scene_id,
                    rewired(s, NodePin { initial: s.scene_data.initial, value: Some(Some(from)) }),
                ),
                _ => final(self).slots@ == old(self).slots@,
            },
    {
        if scene_id.0 >= self.slots.len() {
            return ;
        }
        let slot = self.take_slot(scene_id.0);
        match slot {
            Some(Slot { node: Node::Scene(mut s), subscription }) => {
                s.scene_data.set(Some(from));
                s.dirty = flags::merge_dirty(s.dirty, flags::DIRTY_ALL);
                self.put_back(scene_id.0, Node::Scene(s), subscription);
            },
            other => {
                self.slots.set(scene_id.0, other);
                assert(self.slots@ =~= old(self).slots@);
            },
        }
    }

    /// Unwires the input of the scene root `scene_id`, which becomes wholly
    /// dirty. Anything other than a scene root is left alone.
    pub fn disconnect_scene_input(&mut self, scene_id: NodeId)
        requires
            old(self).wf(),
        ensures
            final(self).wf(),
            match node_at(old(self).slots@, scene_id) {
                Some(Node::Scene(s)) => final(self).slots@ == with_node(
                    old(self).slots@,
                    scene_id,
                    rewired(s, NodePin { initial: s.scene_data.initial, value: None }),
                ),
                _ => final(self).slots@ == old(self).slots@,
            },
    {
        if scene_id.0 >= self.slots.len() {
            return ;
        }
        let slot = self.take_slot(scene_id.0);
        match slot {
            Some(Slot { node: Node::Scene(mut s), subscription }) => {
                s.scene_data.reset();
                s.dirty = flags::merge_dirty(s.dirty, flags::DIRTY_ALL);
                self.put_back(scene_id.0, Node::Scene(s), subscription);
            },
            other => {
                self.slots.set(scene_id.0, other);
                assert(self.slots@ =~= old(self).slots@);
            },
        }
    }

    /// A render node took the scene root `scene_id` as its scene: everything
    /// must be compiled for it.
    pub fn register_in_render(&mut self, scene_id: NodeId)
        requires
            old(self).wf(),
        ensures
            final(self).wf(),
            match node_at(old(self).slots@, scene_id) {
                Some(Node::Scene(s)) => final(self).slots@ == with_node(
                    old(self).slots@,
                    scene_id,
                    rewired(s, s.scene_data),
                ),
                _ => final(self).slots@ == old(self).slots@,
            },
    {
        if scene_id.0 >= self.slots.len() {
            return ;
        }
        let slot = self.take_slot(scene_id.0);
        match slot {
            Some(Slot { node: Node::Scene(mut s), subscription }) => {
                s.dirty = flags::merge_dirty(s.dirty, flags::DIRTY_ALL);
                self.put_back(scene_id.0, Node::Scene(s), subscription);
            },
            other => {
                self.slots.set(scene_id.0, other);
                assert(self.slots@ =~= old(self).slots@);
            },
        }
    }

    /// Sets the scale of the texture node `id`; if the value changed, the
    /// node fires its change event.
    pub fn set_texture_scale(&mut self, id: NodeId, scale: u32)
        requires
            old(self).wf(),
        ensures
            final(self).wf(),
            match node_at(old(self).slots@, id) {
                Some(Node::Texture(t)) => if t.scale.current() == scale {
                    final(self).slots@ == old(self).slots@
                } else {
                    notified(
                        with_node(
                            old(self).slots@,
                            id,
                            Node::Texture(
                                TextureNode {
                                    path: t.path,
                                    scale: NodePin { initial: t.scale.initial, value: Some(scale) },
                                },
                            ),
                        ),
                        final(self).slots@,
                        id,
                        Event::OnChange,
                        subs_at(old(self).slots@, id),
                    )
                },
                _ => final(self).slots@ == old(self).slots@,
            },
    {
        if id.0 >= self.slots.len() {
            return ;
        }
        let slot = self.take_slot(id.0);
        match slot {
            Some(Slot { node: Node::Texture(mut t), subscription }) => {
                if t.scale.get() == scale {
                    self.put_back(id.0, Node::Texture(t), subscription);
                    assert(self.slots@ =~= old(self).slots@);
                } else {
                    t.scale.set(scale);
                    self.put_back(id.0, Node::Texture(t), subscription);
                    self.notify(id, Event::OnChange);
                }
            },
            other => {
                self.slots.set(id.0, other);
                assert(self.slots@ =~= old(self).slots@);
            },
        }
    }

    /// Sets the image file of the texture node `id`; if it changed, the node
    /// fires its change event.
    pub fn set_texture_path(&mut self, id: NodeId, path: String)
        requires
            old(self).wf(),
        ensures
            final(self).wf(),
            match node_at(old(self).slots@, id) {
                Some(Node::Texture(t)) => if t.path@ == path@ {
                    final(self).slots@ == old(self).slots@
                } else {
                    notified(
                        with_node(old(self).slots@, id, Node::Texture(TextureNode { path, scale: t.scale })),
                        final(self).slots@,
                        id,
                        Event::OnChange,
                        subs_at(old(self).slots@, id),
                    )
                },
                _ => final(self).slots@ == old(self).slots@,
            },
    {
        if id.0 >= self.slots.len() {
            return ;
        }
        let slot = self.take_slot(id.0);
        match slot {
            Some(Slot { node: Node::Texture(t), subscription }) => {
                if t.path == path {
                    self.put_back(id.0, Node::Texture(t), subscription);
                    assert(self.slots@ =~= old(self).slots@);
                } else {
                    let TextureNode { path: _, scale } = t;
                    self.put_back(id.0, Node::Texture(TextureNode { path, scale }), subscription);
                    self.notify(id, Event::OnChange);
                }
            },
            other => {
                self.slots.set(id.0, other);
                assert(self.slots@ =~= old(self).slots@);
            },
        }
    }

    /// Wires `member` into input `idx` of the collection `id`, which fires
    /// its change event. A position past the end changes nothing.
    pub fn collection_insert(&mut self, id: NodeId, idx: usize, member: NodeId)
        requires
            old(self).wf(),
        ensures
            final(self).wf(),
            match node_at(old(self).slots@, id) {
                Some(Node::Collection(c)) => if idx <= c.nodes@.len() && idx <= c.inputs@.len() {
                    exists|mid: Seq<Option<Slot>>|
                        collection_edited(
                            old(self).slots@,
                            mid,
                            id,
                            c.nodes@.insert(idx as int, member),
                            c.inputs@.insert(idx as int, flags::ALL),
                        ) && notified(mid, final(self).slots@, id, Event::OnChange, subs_at(old(self).slots@, id))
                } else {
                    final(self).slots@ == old(self).slots@
                },
                _ => final(self).slots@ == old(self).slots@,
            },
    {
        if id.0 >= self.slots.len() {
            return ;
        }
        let slot = self.take_slot(id.0);
        match slot {
            Some(Slot { node: Node::Collection(mut c), subscription }) => {
                if idx <= c.nodes.len() && idx <= c.inputs.len() {
                    let ghost n0 = c.nodes@;
                    let ghost i0 = c.inputs@;
                    c.nodes.insert(idx, member);
                    c.inputs.insert(idx, flags::ALL);
                    self.put_back(id.0, Node::Collection(c), subscription);
                    let ghost mid = self.slots@;
                    self.notify(id, Event::OnChange);
                    assert(collection_edited(old(self).slots@, mid, id, n0.insert(idx as int, member), i0.insert(idx as int, flags::ALL)) && notified(
                        mid,
                        self.slots@,
                        id,
                        Event::OnChange,
                        subs_at(old(self).slots@, id),
                    ));
                } else {
                    self.put_back(id.0, Node::Collection(c), subscription);
                    assert(self.slots@ =~= old(self).slots@);
                }
            },
            other => {
                self.slots.set(id.0, other);
                assert(self.slots@ =~= old(self).slots@);
            },
        }
    }

    /// Unwires input `idx` of the collection `id`, which fires its change
    /// event. A position past the end changes nothing.
    pub fn collection_remove(&mut self, id: NodeId, idx: usize)
        requires
            old(self).wf(),
        ensures
            final(self).wf(),
            match node_at(old(self).slots@, id) {
                Some(Node::Collection(c)) => if idx < c.nodes@.len() && idx < c.inputs@.len() {
                    exists|mid: Seq<Option<Slot>>|
                        collection_edited(
                            old(self).slots@,
                            mid,
                            id,
                            c.nodes@.remove(idx as int),
                            c.inputs@.remove(idx as int),
                        ) && notified(mid, final(self).slots@, id, Event::OnChange, subs_at(old(self).slots@, id))
                } else {
                    final(self).slots@ == old(self).slots@
                },
                _ => final(self).slots@ == old(self).slots@,
            },
    {
        if id.0 >= self.slots.len() {
            return ;
        }
        let slot = self.take_slot(id.0);
        match slot {
            Some(Slot { node: Node::Collection(mut c), subscription }) => {
                if idx < c.nodes.len() && idx < c.inputs.len() {
                    let ghost n0 = c.nodes@;
                    let ghost i0 = c.inputs@;
                    c.nodes.remove(idx);
                    c.inputs.remove(idx);
                    self.put_back(id.0, Node::Collection(c), subscription);
                    let ghost mid = self.slots@;
                    self.notify(id, Event::OnChange);
                    assert(collection_edited(old(self).slots@, mid, id, n0.remove(idx as int), i0.remove(idx as int)) && notified(
                        mid,
                        self.slots@,
                        id,
                        Event::OnChange,
                        subs_at(old(self).slots@, id),
                    ));
                } else {
                    self.put_back(id.0, Node::Collection(c), subscription);
                    assert(self.slots@ =~= old(self).slots@);
                }
            },
            other => {
                self.slots.set(id.0, other);
                assert(self.slots@ =~= old(self).slots@);
            },
        }
    }
}

/// Output pin `output` of `from` may feed input pin `input` of `to`.
pub open spec fn wire_allowed(g: Seq<Option<Slot>>, from: NodeId, output: usize, to: NodeId, input: usize) -> bool {
    &&& node_at(g, from) is Some
    &&& node_at(g, to) is Some
    &&& output < kind_outputs(node_at(g, from)->Some_0.kind_spec()).len()
    &&& input < node_at(g, to)->Some_0.inputs_spec().len()
    &&& flags::compatible(
        kind_outputs(node_at(g, from)->Some_0.kind_spec())[output as int],
        node_at(g, to)->Some_0.inputs_spec()[input as int],
    )
}

impl Graph {
    /// Wires output `output` of `from` into input `input` of `to` if the pins
    /// are compatible, and reports whether it did. A scene root takes the
    /// wire as its input and becomes wholly dirty; a collection takes `from`
    /// as a member at that position and fires its change event; other nodes
    /// read their wired inputs when drawn.
    pub fn connect(&mut self, from: NodeId, output: usize, to: NodeId, input: usize) -> (r: bool)
        requires
            old(self).wf(),
        ensures
            final(self).wf(),
            r == wire_allowed(old(self).slots@, from, output, to, input),
            !r ==> final(self).slots@ == old(self).slots@,
            r ==> match node_at(old(self).slots@, to) {
                Some(Node::Scene(s)) => final(self).slots@ == with_node(
                    old(self).slots@,
                    to,
                    rewired(s, NodePin { initial: s.scene_data.initial, value: Some(Some(from)) }),
                ),
                Some(Node::Collection(c)) => if input <= c.nodes@.len() {
                    exists|mid: Seq<Option<Slot>>|
                        collection_edited(
                            old(self).slots@,
                            mid,
                            to,
                            c.nodes@.insert(input as int, from),
                            c.inputs@.insert(input as int, flags::ALL),
                        ) && notified(mid, final(self).slots@, to, Event::OnChange, subs_at(old(self).slots@, to))
                } else {
                    final(self).slots@ == old(self).slots@
                },
                _ => final(self).slots@ == old(self).slots@,
            },
    {
        if !self.can_connect(from, output, to, input) {
            return false;
        }
        let is_scene = match self.node(to) {
            Some(Node::Scene(_)) => true,
            _ => false,
        };
        let is_collection = match self.node(to) {
            Some(Node::Collection(_)) => true,
            _ => false,
        };
        if is_scene {
            self.connect_scene_input(to, from);
        } else if is_collection {
            self.collection_insert(to, input, from);
        }
        true
    }

    /// Unwires input `input` of `to`: a scene root loses its input and
    /// becomes wholly dirty; a collection drops the member at that position
    /// and fires its change event; other nodes are left alone.
    pub fn disconnect(&mut self, to: NodeId, input: usize)
        requires
            old(self).wf(),
        ensures
            final(self).wf(),
            match node_at(old(self).slots@, to) {
                Some(Node::Scene(s)) => if input == 0 {
                    final(self).slots@ == with_node(
                        old(self).slots@,
                        to,
                        rewired(s, NodePin { initial: s.scene_data.initial, value: None }),
                    )
                } else {
                    final(self).slots@ == old(self).slots@
                },
                Some(Node::Collection(c)) => if input < c.nodes@.len() && input < c.inputs@.len() {
                    exists|mid: Seq<Option<Slot>>|
                        collection_edited(
                            old(self).slots@,
                            mid,
                            to,
                            c.nodes@.remove(input as int),
                            c.inputs@.remove(input as int),
                        ) && notified(mid, final(self).slots@, to, Event::OnChange, subs_at(old(self).slots@, to))
                } else {
                    final(self).slots@ == old(self).slots@
                },
                _ => final(self).slots@ == old(self).slots@,
            },
    {
        let is_scene = match self.node(to) {
            Some(Node::Scene(_)) => true,
            _ => false,
        };
        let is_collection = match self.node(to) {
            Some(Node::Collection(_)) => true,
            _ => false,
        };
        if is_scene {
            if input == 0 {
                self.disconnect_scene_input(to);
            }
        } else if is_collection {
            self.collection_remove(to, input);
        }
    }

    /// Deletes the node `id`: it first fires its change event, so that the
    /// scene roots that it fed recompile without it, and is then removed.
    pub fn delete_node(&mut self, id: NodeId) -> (r: Option<Node>)
        requires
            old(self).wf(),
        ensures
            final(self).wf(),
            r is Some <==> node_at(old(self).slots@, id) is Some,
            r is Some ==> exists|mid: Seq<Option<Slot>>|
                notified(old(self).slots@, mid, id, Event::OnChange, subs_at(old(self).slots@, id))
                    && final(self).slots@ == mid.update(id.0 as int, None) && r == Some(
                    mid[id.0 as int]->Some_0.node,
                ),
            r is None ==> final(self).slots@ == old(self).slots@,
    {
        if self.node(id).is_none() {
            return None;
        }
        self.notify(id, Event::OnChange);
        let ghost mid = self.slots@;
        let r = self.remove_node(id);
        assert(notified(old(self).slots@, mid, id, Event::OnChange, subs_at(old(self).slots@, id))
            && self.slots@ == mid.update(id.0 as int, None) && r == Some(mid[id.0 as int]->Some_0.node));
        r
    }
}

} // verus!
