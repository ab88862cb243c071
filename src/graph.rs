//! The node graph: an arena of nodes addressed by `NodeId`, each with its
//! subscription table, and the traversal that collects contributing nodes.
use vstd::prelude::*;
use crate::flags;
use crate::node::{Node, SceneNode};
use crate::subscription::{Event, EventCallback, NodeId, Subscription};

verus! {

/// A node together with the table of its subscribers.
pub struct Slot {
    pub node: Node,
    pub subscription: Subscription,
}

pub struct Graph {
    pub slots: Vec<Option<Slot>>,
}

/// The node stored under `id`, if any.
pub open spec fn node_at(g: Seq<Option<Slot>>, id: NodeId) -> Option<Node> {
    if id.0 < g.len() && g[id.0 as int] is Some {
        Some(g[id.0 as int]->Some_0.node)
    } else {
        None
    }
}

/// Depth-first visit of `id`: the node is marked, its inputs are visited in
/// order, and then it is appended if its kind meets `mask`. Absent nodes and
/// nodes already marked add nothing; `fuel` bounds the depth.
pub open spec fn visit(
    g: Seq<Option<Slot>>,
    id: NodeId,
    mask: u64,
    vis: Seq<bool>,
    out: Seq<NodeId>,
    fuel: nat,
) -> (Seq<bool>, Seq<NodeId>)
    decreases fuel, 0nat, 0nat,
{
    if fuel == 0 || node_at(g, id) is None || id.0 >= vis.len() || vis[id.0 as int] {
        (vis, out)
    } else {
        let node = node_at(g, id)->Some_0;
        let vis1 = vis.update(id.0 as int, true);
        let (vis2, out2) = visit_list(g, node.children_spec(), 0, mask, vis1, out, (fuel - 1) as nat);
        if node.kind_bits_spec() & mask != 0 {
            (vis2, out2.push(id))
        } else {
            (vis2, out2)
        }
    }
}

/// Visits `ids[i..]` in order.
pub open spec fn visit_list(
    g: Seq<Option<Slot>>,
    ids: Seq<NodeId>,
    i: nat,
    mask: u64,
    vis: Seq<bool>,
    out: Seq<NodeId>,
    fuel: nat,
) -> (Seq<bool>, Seq<NodeId>)
    decreases fuel, 1nat, ids.len() - i,
{
    if i >= ids.len() {
        (vis, out)
    } else {
        let (vis1, out1) = visit(g, ids[i as int], mask, vis, out, fuel);
        visit_list(g, ids, i + 1, mask, vis1, out1, fuel)
    }
}

/// The nodes reachable from `root` whose kind meets `mask`, each once, every
/// node after the nodes that it draws on.
pub open spec fn collected(g: Seq<Option<Slot>>, root: NodeId, mask: u64) -> Seq<NodeId> {
    visit(g, root, mask, Seq::new(g.len(), |i: int| false), Seq::empty(), g.len()).1
}

/// What one visit adds: marks only grow, and the appended nodes are live,
/// meet the mask, were unmarked before and are marked after, each once.
pub open spec fn grows(
    g: Seq<Option<Slot>>,
    mask: u64,
    vis: Seq<bool>,
    out: Seq<NodeId>,
    res: (Seq<bool>, Seq<NodeId>),
) -> bool {
    let (vis2, out2) = res;
    &&& vis2.len() == vis.len()
    &&& forall|j: int| 0 <= j < vis.len() && vis[j] ==> vis2[j]
    &&& out.len() <= out2.len()
    &&& out2.subrange(0, out.len() as int) == out
    &&& forall|k: int|
        out.len() <= k < out2.len() ==> {
            let n = #[trigger] out2[k];
            &&& n.0 < vis.len()
            &&& !vis[n.0 as int]
            &&& vis2[n.0 as int]
            &&& node_at(g, n) is Some
            &&& node_at(g, n)->Some_0.kind_bits_spec() & mask != 0
        }
    &&& forall|k1: int, k2: int|
        out.len() <= k1 < k2 < out2.len() ==> #[trigger] out2[k1] != #[trigger] out2[k2]
}

proof fn lemma_grows_trans(
    g: Seq<Option<Slot>>,
    mask: u64,
    vis: Seq<bool>,
    out: Seq<NodeId>,
    mid: (Seq<bool>, Seq<NodeId>),
    res: (Seq<bool>, Seq<NodeId>),
)
    requires
        grows(g, mask, vis, out, mid),
        grows(g, mask, mid.0, mid.1, res),
    ensures
        grows(g, mask, vis, out, res),
{
    let (vis1, out1) = mid;
    let (vis2, out2) = res;
    assert(out2.subrange(0, out.len() as int) == out1.subrange(0, out.len() as int));
    assert forall|k: int| out.len() <= k < out2.len() implies {
        let n = #[trigger] out2[k];
        &&& n.0 < vis.len()
        &&& !vis[n.0 as int]
        &&& vis2[n.0 as int]
        &&& node_at(g, n) is Some
        &&& node_at(g, n)->Some_0.kind_bits_spec() & mask != 0
    } by {
        if k < out1.len() {
            assert(out2[k] == out1.subrange(0, out1.len() as int)[k]);
            assert(out2[k] == out1[k]);
        }
    }
    assert forall|k1: int, k2: int| out.len() <= k1 < k2 < out2.len() implies #[trigger] out2[k1]
        != #[trigger] out2[k2] by {
        if k2 < out1.len() {
            assert(out2[k1] == out1[k1]);
            assert(out2[k2] == out1[k2]);
        } else if k1 < out1.len() {
            assert(out2[k1] == out1[k1]);
            assert(vis1[out2[k1].0 as int]);
            assert(!vis1[out2[k2].0 as int]);
        }
    }
}

proof fn lemma_visit_grows(g: Seq<Option<Slot>>, id: NodeId, mask: u64, vis: Seq<bool>, out: Seq<NodeId>, fuel: nat)
    ensures
        grows(g, mask, vis, out, visit(g, id, mask, vis, out, fuel)),
    decreases fuel, 0nat, 0nat,
{
    if fuel == 0 || node_at(g, id) is None || id.0 >= vis.len() || vis[id.0 as int] {
        assert(out.subrange(0, out.len() as int) == out);
    } else {
        let node = node_at(g, id)->Some_0;
        let vis1 = vis.update(id.0 as int, true);
        let mid = visit_list(g, node.children_spec(), 0, mask, vis1, out, (fuel - 1) as nat);
        lemma_visit_list_grows(g, node.children_spec(), 0, mask, vis1, out, (fuel - 1) as nat);
        let (vis2, out2) = mid;
        assert(grows(g, mask, vis, out, (vis1, out))) by {
            assert(out.subrange(0, out.len() as int) == out);
        }
        lemma_grows_trans(g, mask, vis, out, (vis1, out), mid);
        if node.kind_bits_spec() & mask != 0 {
            let out3 = out2.push(id);
            assert(out3.subrange(0, out.len() as int) == out2.subrange(0, out.len() as int));
            assert forall|k: int| out.len() <= k < out2.len() implies out3[k] == out2[k] by {}
            assert forall|k1: int, k2: int| out.len() <= k1 < k2 < out3.len() implies #[trigger] out3[k1]
                != #[trigger] out3[k2] by {
                if k2 == out2.len() {
                    assert(!vis1[out2[k1].0 as int]);
                }
            }
        }
    }
}

proof fn lemma_visit_list_grows(
    g: Seq<Option<Slot>>,
    ids: Seq<NodeId>,
    i: nat,
    mask: u64,
    vis: Seq<bool>,
    out: Seq<NodeId>,
    fuel: nat,
)
    ensures
        grows(g, mask, vis, out, visit_list(g, ids, i, mask, vis, out, fuel)),
    decreases fuel, 1nat, ids.len() - i,
{
    if i >= ids.len() {
        assert(out.subrange(0, out.len() as int) == out);
    } else {
        let mid = visit(g, ids[i as int], mask, vis, out, fuel);
        lemma_visit_grows(g, ids[i as int], mask, vis, out, fuel);
        lemma_visit_list_grows(g, ids, i + 1, mask, mid.0, mid.1, fuel);
        lemma_grows_trans(g, mask, vis, out, mid, visit_list(g, ids, i + 1, mask, mid.0, mid.1, fuel));
    }
}

/// Collecting holds each node once, and only live nodes whose kind meets the
/// mask; being a function of the graph, it gives the same sequence each time
/// the graph is unchanged.
pub proof fn law_collected_duplicate_free(g: Seq<Option<Slot>>, root: NodeId, mask: u64)
    ensures
        collected(g, root, mask).no_duplicates(),
        forall|k: int|
            0 <= k < collected(g, root, mask).len() ==> node_at(g, #[trigger] collected(g, root, mask)[k])
                is Some && node_at(g, collected(g, root, mask)[k])->Some_0.kind_bits_spec() & mask != 0,
        collected(g, root, mask) == collected(g, root, mask),
{
    let vis = Seq::new(g.len(), |i: int| false);
    lemma_visit_grows(g, root, mask, vis, Seq::empty(), g.len());
}

/// The subscribers of the node under `id`; none where there is no node.
pub open spec fn subs_at(g: Seq<Option<Slot>>, id: NodeId) -> Map<(Event, NodeId), EventCallback> {
    if id.0 < g.len() && g[id.0 as int] is Some {
        g[id.0 as int]->Some_0.subscription@
    } else {
        Map::empty()
    }
}

/// The node under `id` is a scene root.
pub open spec fn is_scene_at(g: Seq<Option<Slot>>, id: NodeId) -> bool {
    node_at(g, id) is Some && node_at(g, id)->Some_0 is Scene
}

/// A node as it is after being marked wholly dirty: scene roots get every
/// dirty bit, other nodes stay as they are.
pub open spec fn marked(n: Node) -> Node {
    match n {
        Node::Scene(s) => Node::Scene(SceneNode { dirty: flags::DIRTY_ALL, ..s }),
        _ => n,
    }
}

/// The graph after `subject` fired `event` with subscribers `subs`: each
/// subscribed scene root is marked dirty, and each subscriber that is gone
/// or no scene root is dropped from the subject's table.
pub open spec fn notified(
    g: Seq<Option<Slot>>,
    g2: Seq<Option<Slot>>,
    subject: NodeId,
    event: Event,
    subs: Map<(Event, NodeId), EventCallback>,
) -> bool {
    &&& g2.len() == g.len()
    &&& forall|j: int| 0 <= j < g.len() ==> (#[trigger] g2[j] is Some) == (g[j] is Some)
    &&& forall|n: NodeId|
        n.0 < g.len() && g[n.0 as int] is Some ==> (#[trigger] g2[n.0 as int])->Some_0.node
            == if subs.contains_key((event, n)) {
            marked(g[n.0 as int]->Some_0.node)
        } else {
            g[n.0 as int]->Some_0.node
        }
    &&& forall|j: int|
        0 <= j < g.len() && g[j] is Some && j != subject.0 ==> (#[trigger] g2[j])->Some_0.subscription
            == g[j]->Some_0.subscription
    &&& forall|k: (Event, NodeId)|
        #[trigger] subs_at(g2, subject).contains_key(k) <==> subs_at(g, subject).contains_key(k) && !(
        k.0 == event && !is_scene_at(g, k.1))
    &&& forall|k: (Event, NodeId)|
        #[trigger] subs_at(g2, subject).contains_key(k) ==> subs_at(g2, subject)[k] == subs_at(g, subject)[k]
}

impl Graph {
    pub fn new() -> (r: Self)
        ensures
            r.slots@.len() == 0,
    {
        Graph { slots: Vec::new() }
    }

    /// Every subscription table in the graph is well formed.
    pub open spec fn wf(&self) -> bool {
        forall|i: int|
            0 <= i < self.slots@.len() && (#[trigger] self.slots@[i]) is Some
                ==> self.slots@[i]->Some_0.subscription.wf()
    }

    pub open spec fn node_spec(&self, id: NodeId) -> Option<Node> {
        node_at(self.slots@, id)
    }

    /// Adds a node with no subscribers under a fresh identifier.
    pub fn add_node(&mut self, node: Node) -> (r: NodeId)
        requires
            old(self).wf(),
        ensures
            final(self).wf(),
            r.0 == old(self).slots@.len(),
            final(self).slots@.len() == old(self).slots@.len() + 1,
            final(self).slots@.subrange(0, r.0 as int) == old(self).slots@,
            final(self).slots@[r.0 as int] is Some,
            final(self).slots@[r.0 as int]->Some_0.node == node,
            final(self).slots@[r.0 as int]->Some_0.subscription@.is_empty(),
    {
        let id = NodeId(self.slots.len());
        self.slots.push(Some(Slot { node, subscription: Subscription::new() }));
        assert(self.slots@.subrange(0, id.0 as int) =~= old(self).slots@);
        id
    }

    /// Removes a node; its identifier is not given out again.
    pub fn remove_node(&mut self, id: NodeId) -> (r: Option<Node>)
        requires
            old(self).wf(),
        ensures
            final(self).wf(),
            r == old(self).node_spec(id),
            final(self).slots@.len() == old(self).slots@.len(),
            id.0 < old(self).slots@.len() ==> final(self).slots@ == old(self).slots@.update(id.0 as int, None),
            id.0 >= old(self).slots@.len() ==> final(self).slots@ == old(self).slots@,
    {
        if id.0 < self.slots.len() {
            match self.take_slot(id.0) {
                Some(s) => Some(s.node),
                None => None,
            }
        } else {
            None
        }
    }

    pub fn has_subscription(&self, subject: NodeId, subscriber: NodeId, event: Event) -> (r: bool)
        requires
            self.wf(),
        ensures
            r == subs_at(self.slots@, subject).contains_key((event, subscriber)),
    {
        if subject.0 < self.slots.len() {
            match &self.slots[subject.0] {
                Some(slot) => slot.subscription.has_subscription(subscriber, event),
                None => false,
            }
        } else {
            false
        }
    }

    /// Registers `callback` of `subscriber` for `event` of `subject`,
    /// replacing an earlier one; nothing happens where `subject` is absent.
    pub fn subscribe(&mut self, subject: NodeId, subscriber: NodeId, event: Event, callback: EventCallback)
        requires
            old(self).wf(),
        ensures
            final(self).wf(),
            final(self).slots@.len() == old(self).slots@.len(),
            forall|j: int|
                0 <= j < old(self).slots@.len() ==> (#[trigger] final(self).slots@[j] is Some)
                    == (old(self).slots@[j] is Some),
            forall|j: int|
                0 <= j < old(self).slots@.len() && old(self).slots@[j] is Some ==> (
                #[trigger] final(self).slots@[j])->Some_0.node == old(self).slots@[j]->Some_0.node,
            forall|j: int|
                0 <= j < old(self).slots@.len() && old(self).slots@[j] is Some && j != subject.0 ==> (
                #[trigger] final(self).slots@[j])->Some_0.subscription == old(
                self,
                ).slots@[j]->Some_0.subscription,
            node_at(old(self).slots@, subject) is Some ==> subs_at(final(self).slots@, subject) == subs_at(
                old(self).slots@,
                subject,
            ).insert((event, subscriber), callback),
    {
        if subject.0 < self.slots.len() {
            let slot = self.take_slot(subject.0);
            match slot {
                Some(mut s) => {
                    s.subscription.subscribe(subscriber, event, callback);
                    self.slots.set(subject.0, Some(s));
                },
                None => {
                    self.slots.set(subject.0, None);
                },
            }
            assert(self.slots@.len() == old(self).slots@.len());
        }
    }

    /// Removes the callback of `subscriber` for `event` of `subject`, if any.
    pub fn unsubscribe(&mut self, subject: NodeId, subscriber: NodeId, event: Event)
        requires
            old(self).wf(),
        ensures
            final(self).wf(),
            final(self).slots@.len() == old(self).slots@.len(),
            forall|j: int|
                0 <= j < old(self).slots@.len() ==> (#[trigger] final(self).slots@[j] is Some)
                    == (old(self).slots@[j] is Some),
            forall|j: int|
                0 <= j < old(self).slots@.len() && old(self).slots@[j] is Some ==> (
                #[trigger] final(self).slots@[j])->Some_0.node == old(self).slots@[j]->Some_0.node,
            forall|j: int|
                0 <= j < old(self).slots@.len() && old(self).slots@[j] is Some && j != subject.0 ==> (
                #[trigger] final(self).slots@[j])->Some_0.subscription == old(
                self,
                ).slots@[j]->Some_0.subscription,
            subs_at(final(self).slots@, subject) == subs_at(old(self).slots@, subject).remove(
                (event, subscriber),
            ),
    {
        if subject.0 < self.slots.len() {
            let slot = self.take_slot(subject.0);
            match slot {
                Some(mut s) => {
                    s.subscription.unsubscribe(subscriber, event);
                    self.slots.set(subject.0, Some(s));
                },
                None => {
                    self.slots.set(subject.0, None);
                },
            }
        } else {
            assert(Map::<(Event, NodeId), EventCallback>::empty().remove((event, subscriber)) =~= Map::empty());
        }
        assert(subs_at(final(self).slots@, subject) =~= subs_at(old(self).slots@, subject).remove(
            (event, subscriber),
        ));
    }

    /// Marks the scene root under `j` wholly dirty; reports whether there is one.
    fn mark_scene_dirty(&mut self, j: NodeId) -> (r: bool)
        requires
            old(self).wf(),
        ensures
            final(self).wf(),
            r == is_scene_at(old(self).slots@, j),
            r ==> final(self).slots@ == old(self).slots@.update(
                j.0 as int,
                Some(
                    Slot {
                        node: marked(old(self).slots@[j.0 as int]->Some_0.node),
                        subscription: old(self).slots@[j.0 as int]->Some_0.subscription,
                    },
                ),
            ),
            !r ==> final(self).slots@ == old(self).slots@,
    {
        if j.0 >= self.slots.len() {
            return false;
        }
        let slot = self.take_slot(j.0);
        match slot {
            Some(Slot { node: Node::Scene(mut s), subscription }) => {
                s.dirty = flags::DIRTY_ALL;
                self.slots.set(j.0, Some(Slot { node: Node::Scene(s), subscription }));
                true
            },
            other => {
                self.slots.set(j.0, other);
                assert(self.slots@ =~= old(self).slots@);
                false
            },
        }
    }

    /// Fires `event` of `subject`: the subscribers registered when it fires
    /// are called in turn; a scene root is marked wholly dirty, and a
    /// subscriber that is gone or no scene root is dropped from the table.
    pub fn notify(&mut self, subject: NodeId, event: Event)
        requires
            old(self).wf(),
        ensures
            final(self).wf(),
            notified(old(self).slots@, final(self).slots@, subject, event, subs_at(old(self).slots@, subject)),
    {
        let subs: Vec<(NodeId, EventCallback)> = if subject.0 < self.slots.len() {
            match &self.slots[subject.0] {
                Some(slot) => slot.subscription.subscribers(event),
                None => Vec::new(),
            }
        } else {
            Vec::new()
        };
        let ghost g0 = self.slots@;
        let ghost m0 = subs_at(g0, subject);
        let ghost done: Set<NodeId> = Set::empty();
        let mut i: usize = 0;
        while i < subs.len()
            invariant
                self.wf(),
                i <= subs@.len(),
                self.slots@.len() == g0.len(),
                forall|a: int|
                    0 <= a < subs@.len() ==> m0.contains_key((event, (#[trigger] subs@[a]).0)) && m0[(
                    event,
                    subs@[a].0,
                )] == subs@[a].1,
                forall|n: NodeId|
                    #[trigger] m0.contains_key((event, n)) ==> exists|a: int|
                        0 <= a < subs@.len() && (#[trigger] subs@[a]).0 == n,
                forall|a: int, b: int|
                    0 <= a < b < subs@.len() ==> (#[trigger] subs@[a]).0 != (#[trigger] subs@[b]).0,
                forall|n: NodeId| #[trigger] done.contains(n) <==> exists|a: int| 0 <= a < i && (#[trigger] subs@[a]).0 == n,
                forall|j: int| 0 <= j < g0.len() ==> (#[trigger] self.slots@[j] is Some) == (g0[j] is Some),
                forall|n: NodeId|
                    n.0 < g0.len() && g0[n.0 as int] is Some ==> (#[trigger] self.slots@[n.0 as int])->Some_0.node
                        == if done.contains(n) {
                        marked(g0[n.0 as int]->Some_0.node)
                    } else {
                        g0[n.0 as int]->Some_0.node
                    },
                forall|j: int|
                    0 <= j < g0.len() && g0[j] is Some && j != subject.0 ==> (#[trigger] self.slots@[j])->Some_0.subscription
                        == g0[j]->Some_0.subscription,
                forall|k: (Event, NodeId)|
                    #[trigger] subs_at(self.slots@, subject).contains_key(k) <==> m0.contains_key(k) && !(
                    k.0 == event && done.contains(k.1) && !is_scene_at(g0, k.1)),
                forall|k: (Event, NodeId)|
                    #[trigger] subs_at(self.slots@, subject).contains_key(k) ==> subs_at(self.slots@, subject)[k] == m0[k],
            decreases subs@.len() - i,
        {
            let (sub_id, callback) = subs[i];
            let ghost before = self.slots@;
            match callback {
                EventCallback::MarkSceneDirty => {
                    proof {
                        if is_scene_at(before, sub_id) {
                            assert(is_scene_at(g0, sub_id));
                        }
                        if is_scene_at(g0, sub_id) {
                            assert(is_scene_at(before, sub_id));
                        }
                    }
                    if !self.mark_scene_dirty(sub_id) {
                        self.unsubscribe(subject, sub_id, event);
                    } else {
                        assert(subs_at(self.slots@, subject) == subs_at(before, subject));
                    }
                },
            }
            proof {
                let ghost done0 = done;
                done = done.insert(sub_id);
                assert forall|n: NodeId|
                    n.0 < g0.len() && g0[n.0 as int] is Some implies (#[trigger] self.slots@[n.0 as int])->Some_0.node
                    == if done.contains(n) {
                        marked(g0[n.0 as int]->Some_0.node)
                    } else {
                        g0[n.0 as int]->Some_0.node
                    } by {
                    if n.0 == sub_id.0 {
                        assert(n == sub_id);
                        assert(!done0.contains(sub_id));
                    } else {
                        assert(n != sub_id);
                    }
                }
                assert forall|k: (Event, NodeId)|
                    #[trigger] subs_at(self.slots@, subject).contains_key(k) <==> m0.contains_key(k) && !(
                    k.0 == event && done.contains(k.1) && !is_scene_at(g0, k.1)) by {
                    if k.1 == sub_id {
                    }
                }
                assert forall|n: NodeId| #[trigger] done.contains(n) <==> exists|a: int| 0 <= a < i + 1 && (#[trigger] subs@[a]).0 == n by {
                    if n == sub_id {
                        assert(subs@[i as int].0 == n);
                    }
                }
                assert(!(exists|a: int| 0 <= a < i && (#[trigger] subs@[a]).0 == sub_id));
            }
            i = i + 1;
        }
        proof {
            assert forall|n: NodeId| m0.contains_key((event, n)) implies #[trigger] done.contains(n) by {
                let a = choose|a: int| 0 <= a < subs@.len() && (#[trigger] subs@[a]).0 == n;
            }
        }
    }

    /// Moves the slot at `i` out, leaving it empty.
    pub(crate) fn take_slot(&mut self, i: usize) -> (r: Option<Slot>)
        requires
            old(self).wf(),
            i < old(self).slots@.len(),
        ensures
            final(self).wf(),
            r == old(self).slots@[i as int],
            final(self).slots@ == old(self).slots@.update(i as int, None),
    {
        self.slots.push(None);
        let r = self.slots.swap_remove(i);
        assert(self.slots@ =~= old(self).slots@.update(i as int, None));
        r
    }

    pub fn node(&self, id: NodeId) -> (r: Option<&Node>)
        ensures
            match r {
                Some(n) => self.node_spec(id) == Some(*n),
                None => self.node_spec(id) is None,
            },
    {
        if id.0 < self.slots.len() {
            match &self.slots[id.0] {
                Some(slot) => Some(&slot.node),
                None => None,
            }
        } else {
            None
        }
    }

    fn visit_exec(&self, id: NodeId, mask: u64, vis: &mut Vec<bool>, out: &mut Vec<NodeId>, fuel: usize)
        ensures
            (final(vis)@, final(out)@) == visit(self.slots@, id, mask, old(vis)@, old(out)@, fuel as nat),
        decreases fuel,
    {
        if fuel == 0 || id.0 >= self.slots.len() || id.0 >= vis.len() {
            return ;
        }
        let node = match &self.slots[id.0] {
            Some(slot) => &slot.node,
            None => {
                return ;
            },
        };
        if vis[id.0] {
            return ;
        }
        vis.set(id.0, true);
        let children = node.children();
        let ghost vis1 = vis@;
        let ghost out0 = out@;
        let mut i: usize = 0;
        while i < children.len()
            invariant
                i <= children@.len(),
                children@ == node.children_spec(),
                node_at(self.slots@, id) == Some(*node),
                fuel > 0,
                visit_list(self.slots@, children@, 0, mask, vis1, out0, (fuel - 1) as nat) == visit_list(
                    self.slots@,
                    children@,
                    i as nat,
                    mask,
                    vis@,
                    out@,
                    (fuel - 1) as nat,
                ),
            decreases children@.len() - i,
        {
            self.visit_exec(children[i], mask, vis, out, fuel - 1);
            i = i + 1;
        }
        if node.kind_bits() & mask != 0 {
            out.push(id);
        }
    }

    /// The identifiers of the nodes that contribute to `root` and whose kind
    /// meets `mask`, each once, in depth-first order with every node after
    /// the nodes that it draws on. Missing inputs contribute nothing, and a
    /// node reached again (also round a cycle) is not followed again.
    pub fn collect(&self, root: NodeId, mask: u64) -> (r: Vec<NodeId>)
        ensures
            r@ == collected(self.slots@, root, mask),
            r@.no_duplicates(),
    {
        let n = self.slots.len();
        let mut vis: Vec<bool> = Vec::new();
        let mut i: usize = 0;
        while i < n
            invariant
                i <= n,
                n == self.slots@.len(),
                vis@ == Seq::new(i as nat, |j: int| false),
            decreases n - i,
        {
            vis.push(false);
            i = i + 1;
            assert(vis@ =~= Seq::new(i as nat, |j: int| false));
        }
        let mut out: Vec<NodeId> = Vec::new();
        assert(out@ == Seq::<NodeId>::empty());
        self.visit_exec(root, mask, &mut vis, &mut out, n);
        proof {
            law_collected_duplicate_free(self.slots@, root, mask);
        }
        out
    }
}

} // verus!
