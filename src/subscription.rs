//! Per-node tables of subscribers to the node's events.
use vstd::prelude::*;

verus! {

/// A stable handle of a node in a graph.
#[derive(Clone, Copy, Debug, PartialEq, Eq, Hash, Structural)]
pub struct NodeId(pub usize);

/// The kinds of event that a node can fire.
#[derive(Clone, Copy, Debug, PartialEq, Eq, Hash, Structural)]
pub enum Event {
    OnChange,
}

/// What happens to a subscriber when the subject fires: it is looked up by
/// its identifier in the graph, never held by reference.
#[derive(Clone, Copy, Debug, PartialEq, Eq, Hash, Structural)]
pub enum EventCallback {
    /// Marks the subscribing scene root as wholly dirty; a subscriber that is
    /// gone or is no scene root is dropped from the table instead.
    MarkSceneDirty,
}

#[derive(Clone, Copy, Debug, PartialEq, Eq, Structural)]
pub struct Subscriber {
    pub event: Event,
    pub node_id: NodeId,
    pub callback: EventCallback,
}

pub open spec fn key_of(s: Subscriber) -> (Event, NodeId) {
    (s.event, s.node_id)
}

/// No two entries are for the same event and subscriber.
pub open spec fn keys_distinct(s: Seq<Subscriber>) -> bool {
    forall|i: int, j: int| 0 <= i < j < s.len() ==> key_of(#[trigger] s[i]) != key_of(#[trigger] s[j])
}

/// The subscribers of one node, at most one callback per event and subscriber.
pub struct Subscription {
    entries: Vec<Subscriber>,
    table: Ghost<Map<(Event, NodeId), EventCallback>>,
}

impl Subscription {
    pub closed spec fn view(&self) -> Map<(Event, NodeId), EventCallback> {
        self.table@
    }

    pub closed spec fn wf(&self) -> bool {
        let e = self.entries@;
        &&& forall|i: int, j: int|
            0 <= i < j < e.len() ==> key_of(#[trigger] e[i]) != key_of(#[trigger] e[j])
        &&& forall|i: int|
            0 <= i < e.len() ==> self.table@.contains_key(#[trigger] key_of(e[i]))
                && self.table@[key_of(e[i])] == e[i].callback
        &&& forall|k: (Event, NodeId)|
            #[trigger] self.table@.contains_key(k) ==> exists|i: int|
                0 <= i < e.len() && key_of(#[trigger] e[i]) == k
    }

    /// The entries in the order in which they were first registered.
    pub closed spec fn order(&self) -> Seq<Subscriber> {
        self.entries@
    }

    pub fn new() -> (r: Self)
        ensures
            r.wf(),
            r@ == Map::<(Event, NodeId), EventCallback>::empty(),
    {
        Subscription { entries: Vec::new(), table: Ghost(Map::empty()) }
    }

    fn find(&self, node_id: NodeId, event: Event) -> (r: Option<usize>)
        requires
            self.wf(),
        ensures
            match r {
                Some(i) => i < self.entries@.len() && key_of(self.entries@[i as int]) == (event, node_id),
                None => !self@.contains_key((event, node_id)),
            },
    {
        let mut i: usize = 0;
        while i < self.entries.len()
            invariant
                self.wf(),
                i <= self.entries@.len(),
                forall|j: int| 0 <= j < i ==> key_of(#[trigger] self.entries@[j]) != (event, node_id),
            decreases self.entries@.len() - i,
        {
            let s = self.entries[i];
            if s.node_id == node_id && s.event == event {
                return Some(i);
            }
            i = i + 1;
        }
        None
    }

    pub fn has_subscription(&self, node_id: NodeId, event: Event) -> (r: bool)
        requires
            self.wf(),
        ensures
            r == self@.contains_key((event, node_id)),
    {
        match self.find(node_id, event) {
            Some(_) => true,
            None => false,
        }
    }

    /// Registers `callback` for the pair, replacing any earlier one.
    pub fn subscribe(&mut self, node_id: NodeId, event: Event, callback: EventCallback)
        requires
            old(self).wf(),
        ensures
            final(self).wf(),
            final(self)@ == old(self)@.insert((event, node_id), callback),
            keys_distinct(final(self).order()),
            exists|i: int|
                0 <= i < final(self).order().len() && #[trigger] final(self).order()[i] == (Subscriber {
                    event,
                    node_id,
                    callback,
                }),
    {
        let k = Ghost((event, node_id));
        match self.find(node_id, event) {
            Some(i) => {
                let ghost old_e = self.entries@;
                self.entries.set(i, Subscriber { event, node_id, callback });
                self.table = Ghost(self.table@.insert(k@, callback));
                assert(self.order()[i as int] == Subscriber { event, node_id, callback });
                assert forall|kk: (Event, NodeId)| #[trigger]
                    self.table@.contains_key(kk) implies exists|j: int|
                    0 <= j < self.entries@.len() && key_of(#[trigger] self.entries@[j]) == kk by {
                    if kk == k@ {
                        assert(key_of(self.entries@[i as int]) == kk);
                    } else {
                        let j = choose|j: int| 0 <= j < old_e.len() && key_of(#[trigger] old_e[j]) == kk;
                        assert(key_of(self.entries@[j]) == kk);
                    }
                }
            },
            None => {
                let ghost old_e = self.entries@;
                self.entries.push(Subscriber { event, node_id, callback });
                self.table = Ghost(self.table@.insert(k@, callback));
                assert(self.order()[old_e.len() as int] == Subscriber { event, node_id, callback });
                assert forall|kk: (Event, NodeId)| #[trigger]
                    self.table@.contains_key(kk) implies exists|j: int|
                    0 <= j < self.entries@.len() && key_of(#[trigger] self.entries@[j]) == kk by {
                    if kk == k@ {
                        assert(key_of(self.entries@[old_e.len() as int]) == kk);
                    } else {
                        let j = choose|j: int| 0 <= j < old_e.len() && key_of(#[trigger] old_e[j]) == kk;
                        assert(key_of(self.entries@[j]) == kk);
                    }
                }
            },
        }
    }

    /// Removes the pair's callback if there is one; otherwise changes nothing.
    pub fn unsubscribe(&mut self, node_id: NodeId, event: Event)
        requires
            old(self).wf(),
        ensures
            final(self).wf(),
            final(self)@ == old(self)@.remove((event, node_id)),
            keys_distinct(final(self).order()),
            forall|i: int|
                0 <= i < final(self).order().len() ==> key_of(#[trigger] final(self).order()[i]) != (event, node_id),
            !old(self)@.contains_key((event, node_id)) ==> final(self).order() == old(self).order(),
    {
        let k = Ghost((event, node_id));
        match self.find(node_id, event) {
            Some(i) => {
                let ghost old_e = self.entries@;
                self.entries.remove(i);
                self.table = Ghost(self.table@.remove(k@));
                assert forall|a: int, b: int|
                    0 <= a < b < self.entries@.len() implies key_of(#[trigger] self.entries@[a])
                    != key_of(#[trigger] self.entries@[b]) by {
                    let oa = if a < i { a } else { a + 1 };
                    let ob = if b < i { b } else { b + 1 };
                    assert(self.entries@[a] == old_e[oa]);
                    assert(self.entries@[b] == old_e[ob]);
                }
                assert forall|a: int| 0 <= a < self.entries@.len() implies self.table@.contains_key(
                    #[trigger] key_of(self.entries@[a]),
                ) && self.table@[key_of(self.entries@[a])] == self.entries@[a].callback by {
                    let oa = if a < i { a } else { a + 1 };
                    assert(self.entries@[a] == old_e[oa]);
                    assert(key_of(old_e[oa]) != key_of(old_e[i as int]));
                }
                assert forall|kk: (Event, NodeId)| #[trigger]
                    self.table@.contains_key(kk) implies exists|j: int|
                    0 <= j < self.entries@.len() && key_of(#[trigger] self.entries@[j]) == kk by {
                    let j = choose|j: int| 0 <= j < old_e.len() && key_of(#[trigger] old_e[j]) == kk;
                    assert(j != i);
                    let nj = if j < i { j } else { j - 1 };
                    assert(self.entries@[nj] == old_e[j]);
                }
            },
            None => {
                assert(self.table@.remove(k@) =~= self.table@);
            },
        }
    }

    /// A copy of the subscribers of `event`, in registration order, to be
    /// dispatched after the table may have changed.
    pub fn subscribers(&self, event: Event) -> (r: Vec<(NodeId, EventCallback)>)
        requires
            self.wf(),
        ensures
            forall|i: int|
                0 <= i < r@.len() ==> self@.contains_key((event, (#[trigger] r@[i]).0))
                    && self@[(event, r@[i].0)] == r@[i].1,
            forall|n: NodeId|
                #[trigger] self@.contains_key((event, n)) ==> exists|i: int|
                    0 <= i < r@.len() && (#[trigger] r@[i]).0 == n,
            forall|i: int, j: int| 0 <= i < j < r@.len() ==> (#[trigger] r@[i]).0 != (#[trigger] r@[j]).0,
    {
        let mut r: Vec<(NodeId, EventCallback)> = Vec::new();
        let mut i: usize = 0;
        let ghost pos: Seq<int> = Seq::empty();
        while i < self.entries.len()
            invariant
                self.wf(),
                i <= self.entries@.len(),
                pos.len() == r@.len(),
                forall|a: int|
                    0 <= a < r@.len() ==> 0 <= #[trigger] pos[a] < i && self.entries@[pos[a]].event == event
                        && self.entries@[pos[a]].node_id == r@[a].0 && self.entries@[pos[a]].callback
                        == r@[a].1,
                forall|a: int, b: int| 0 <= a < b < r@.len() ==> #[trigger] pos[a] < #[trigger] pos[b],
                forall|j: int|
                    0 <= j < i && (#[trigger] self.entries@[j]).event == event ==> exists|a: int|
                        0 <= a < r@.len() && pos[a] == j,
            decreases self.entries@.len() - i,
        {
            let s = self.entries[i];
            let ghost pos0 = pos;
            if s.event == event {
                r.push((s.node_id, s.callback));
                proof {
                    pos = pos.push(i as int);
                }
            }
            proof {
                assert forall|j: int|
                    0 <= j < i + 1 && (#[trigger] self.entries@[j]).event == event implies exists|a: int|
                    0 <= a < r@.len() && pos[a] == j by {
                    if j == i {
                        assert(pos[r@.len() - 1] == j);
                    } else {
                        let a = choose|a: int| 0 <= a < pos0.len() && pos0[a] == j;
                        assert(pos[a] == j);
                    }
                }
            }
            i = i + 1;
        }
        proof {
            assert forall|a: int| 0 <= a < r@.len() implies self@.contains_key(
                (event, (#[trigger] r@[a]).0),
            ) && self@[(event, r@[a].0)] == r@[a].1 by {
                assert(key_of(self.entries@[pos[a]]) == (event, r@[a].0));
            }
            assert forall|n: NodeId| #[trigger] self@.contains_key((event, n)) implies exists|a: int|
                0 <= a < r@.len() && (#[trigger] r@[a]).0 == n by {
                let j = choose|j: int|
                    0 <= j < self.entries@.len() && key_of(#[trigger] self.entries@[j]) == (event, n);
                assert(self.entries@[j].event == event);
                let a = choose|a: int| 0 <= a < r@.len() && pos[a] == j;
                assert(r@[a].0 == n);
            }
            assert forall|a: int, b: int| 0 <= a < b < r@.len() implies (#[trigger] r@[a]).0
                != (#[trigger] r@[b]).0 by {
                assert(pos[a] < pos[b]);
                assert(key_of(self.entries@[pos[a]]) != key_of(self.entries@[pos[b]]));
            }
        }
        r
    }
}

/// A request to a node's subscription table.
#[derive(Clone, Copy, Debug, PartialEq, Eq, Structural)]
pub enum EventMessage {
    HasSubscription { node_id: NodeId, event: Event },
    Subscribe { node_id: NodeId, event: Event, callback: EventCallback },
    Unsubscribe { node_id: NodeId, event: Event },
}

#[derive(Clone, Copy, Debug, PartialEq, Eq, Structural)]
pub enum EventResponse {
    HasSubscription(bool),
}

impl Subscription {
    /// Carries out a request; only a query has an answer.
    pub fn handle_event(&mut self, event_msg: EventMessage) -> (r: Option<EventResponse>)
        requires
            old(self).wf(),
        ensures
            final(self).wf(),
            match event_msg {
                EventMessage::HasSubscription { node_id, event } => r == Some(
                    EventResponse::HasSubscription(old(self)@.contains_key((event, node_id))),
                ) && final(self)@ == old(self)@,
                EventMessage::Subscribe { node_id, event, callback } => r is None && final(self)@ == old(
                    self,
                )@.insert((event, node_id), callback),
                EventMessage::Unsubscribe { node_id, event } => r is None && final(self)@ == old(
                    self,
                )@.remove((event, node_id)),
            },
    {
        match event_msg {
            EventMessage::HasSubscription { node_id, event } => {
                Some(EventResponse::HasSubscription(self.has_subscription(node_id, event)))
            },
            EventMessage::Subscribe { node_id, event, callback } => {
                self.subscribe(node_id, event, callback);
                None
            },
            EventMessage::Unsubscribe { node_id, event } => {
                self.unsubscribe(node_id, event);
                None
            },
        }
    }
}

/// Subscribing the same pair twice leaves the table as subscribing once: one
/// callback, the latest.
pub proof fn law_subscribe_idempotent(
    m: Map<(Event, NodeId), EventCallback>,
    node_id: NodeId,
    event: Event,
    callback: EventCallback,
)
    ensures
        m.insert((event, node_id), callback).insert((event, node_id), callback) == m.insert(
            (event, node_id),
            callback,
        ),
        m.insert((event, node_id), callback).contains_key((event, node_id)),
{
    assert(m.insert((event, node_id), callback).insert((event, node_id), callback) =~= m.insert(
        (event, node_id),
        callback,
    ));
}

/// Unsubscribing a pair that is not registered leaves the table as it was.
pub proof fn law_unsubscribe_absent(m: Map<(Event, NodeId), EventCallback>, node_id: NodeId, event: Event)
    requires
        !m.contains_key((event, node_id)),
    ensures
        m.remove((event, node_id)) == m,
{
    assert(m.remove((event, node_id)) =~= m);
}

} // verus!
