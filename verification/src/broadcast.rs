use vstd::prelude::*;

use std::collections::HashSet;

use crate::envelope::{Message, MessageView};
use crate::errors::NodeError;

verus! {

/// A neighbor mapping: node label to the labels it relays to.
pub type Topology = Vec<(String, Vec<String>)>;

/// The spec image of a topology.
pub type TopologyView = Seq<(Seq<char>, Seq<Seq<char>>)>;

/// A request body the broadcast node consumes.
pub enum Request {
    Init { msg_id: usize, node_id: String, node_ids: Vec<String> },
    Topology { msg_id: usize, topology: Topology },
    Broadcast { msg_id: usize, message: i64, idempotency_key: Option<String> },
    Read { msg_id: usize },
    /// An acknowledgment of one of this node's own flooded sends;
    /// fire-and-forget, so it asks for no reaction.
    BroadcastOk { msg_id: usize, in_reply_to: usize },
}

/// A response body the broadcast node produces.
pub enum Response {
    InitOk { msg_id: usize, in_reply_to: usize },
    TopologyOk { msg_id: usize, in_reply_to: usize },
    BroadcastOk { msg_id: usize, in_reply_to: usize },
    ReadOk { msg_id: usize, in_reply_to: usize, messages: Vec<i64> },
    Broadcast { msg_id: usize, message: i64, idempotency_key: Option<String> },
}

/// The spec image of a request body.
#[verifier::ext_equal]
pub enum RequestView {
    Init { msg_id: int, node_id: Seq<char>, node_ids: Seq<Seq<char>> },
    Topology { msg_id: int, topology: TopologyView },
    Broadcast { msg_id: int, message: i64, idempotency_key: Option<Seq<char>> },
    Read { msg_id: int },
    BroadcastOk { msg_id: int, in_reply_to: int },
}

/// The spec image of a response body.
#[verifier::ext_equal]
pub enum ResponseView {
    InitOk { msg_id: int, in_reply_to: int },
    TopologyOk { msg_id: int, in_reply_to: int },
    BroadcastOk { msg_id: int, in_reply_to: int },
    ReadOk { msg_id: int, in_reply_to: int, messages: Seq<i64> },
    Broadcast { msg_id: int, message: i64, idempotency_key: Option<Seq<char>> },
}

impl DeepView for Request {
    type V = RequestView;

    open spec fn deep_view(&self) -> RequestView {
        match self {
            Request::Init { msg_id, node_id, node_ids } => RequestView::Init {
                msg_id: *msg_id as int,
                node_id: node_id@,
                node_ids: node_ids.deep_view(),
            },
            Request::Topology { msg_id, topology } => RequestView::Topology {
                msg_id: *msg_id as int,
                topology: topology.deep_view(),
            },
            Request::Broadcast { msg_id, message, idempotency_key } => RequestView::Broadcast {
                msg_id: *msg_id as int,
                message: *message,
                idempotency_key: idempotency_key.deep_view(),
            },
            Request::Read { msg_id } => RequestView::Read { msg_id: *msg_id as int },
            Request::BroadcastOk { msg_id, in_reply_to } => RequestView::BroadcastOk {
                msg_id: *msg_id as int,
                in_reply_to: *in_reply_to as int,
            },
        }
    }
}

impl DeepView for Response {
    type V = ResponseView;

    open spec fn deep_view(&self) -> ResponseView {
        match self {
            Response::InitOk { msg_id, in_reply_to } => ResponseView::InitOk {
                msg_id: *msg_id as int,
                in_reply_to: *in_reply_to as int,
            },
            Response::TopologyOk { msg_id, in_reply_to } => ResponseView::TopologyOk {
                msg_id: *msg_id as int,
                in_reply_to: *in_reply_to as int,
            },
            Response::BroadcastOk { msg_id, in_reply_to } => ResponseView::BroadcastOk {
                msg_id: *msg_id as int,
                in_reply_to: *in_reply_to as int,
            },
            Response::ReadOk { msg_id, in_reply_to, messages } => ResponseView::ReadOk {
                msg_id: *msg_id as int,
                in_reply_to: *in_reply_to as int,
                messages: messages.deep_view(),
            },
            Response::Broadcast { msg_id, message, idempotency_key } => ResponseView::Broadcast {
                msg_id: *msg_id as int,
                message: *message,
                idempotency_key: idempotency_key.deep_view(),
            },
        }
    }
}

/// The abstract state of a broadcast node.
#[verifier::ext_equal]
pub struct NodeView {
    pub initialized: bool,
    pub label: Seq<char>,
    pub id_counter: int,
    pub node_ids: Seq<Seq<char>>,
    pub topology: TopologyView,
    pub seen: Set<i64>,
    pub delivered: Seq<i64>,
}

impl NodeView {
    /// The state a node starts in, before the initialization handshake.
    pub open spec fn fresh() -> NodeView {
        NodeView {
            initialized: false,
            label: Seq::empty(),
            id_counter: 0,
            node_ids: Seq::empty(),
            topology: Seq::empty(),
            seen: Set::empty(),
            delivered: Seq::empty(),
        }
    }

    /// The delivered-value list is a duplicate-free enumeration of the
    /// delivered-value set.
    pub open spec fn wf(self) -> bool {
        &&& self.delivered.no_duplicates()
        &&& self.delivered.to_set() == self.seen
    }
}

/// The neighbor list the first topology entry for `label` carries, or
/// the empty list while no topology mentions it.
pub open spec fn neighbors_of(topology: TopologyView, label: Seq<char>) -> Seq<Seq<char>>
    decreases topology.len(),
{
    if topology.len() == 0 {
        Seq::empty()
    } else if topology[0].0 == label {
        topology[0].1
    } else {
        neighbors_of(topology.skip(1), label)
    }
}

/// The acknowledgment a delivered broadcast earns, addressed straight
/// back to whoever delivered it.
pub open spec fn ack_view(label: Seq<char>, dest: Seq<char>, stamp: int, in_reply_to: int)
    -> MessageView<ResponseView>
{
    MessageView {
        src: label,
        dest: dest,
        body: ResponseView::BroadcastOk { msg_id: stamp, in_reply_to: in_reply_to },
    }
}

/// A relayed broadcast envelope: the flooded copy of `value` this node
/// addresses to one neighbor.
pub open spec fn relay_view(label: Seq<char>, dest: Seq<char>, stamp: int, value: i64)
    -> MessageView<ResponseView>
{
    MessageView {
        src: label,
        dest: dest,
        body: ResponseView::Broadcast { msg_id: stamp, message: value, idempotency_key: None },
    }
}

/// The flood batch: one relayed copy per neighbor, in neighbor-list
/// order, skipping every neighbor equal to the direct sender.
pub open spec fn relays(
    neighbors: Seq<Seq<char>>,
    sender: Seq<char>,
    label: Seq<char>,
    stamp: int,
    value: i64,
) -> Seq<MessageView<ResponseView>>
    decreases neighbors.len(),
{
    if neighbors.len() == 0 {
        Seq::empty()
    } else if neighbors[0] == sender {
        relays(neighbors.skip(1), sender, label, stamp, value)
    } else {
        seq![relay_view(label, neighbors[0], stamp, value)]
            + relays(neighbors.skip(1), sender, label, stamp, value)
    }
}

/// Whether the node processes this envelope at all: everything before
/// the initialization handshake but the handshake itself is refused.
pub open spec fn accepts(s: NodeView, m: MessageView<RequestView>) -> bool {
    s.initialized || m.body is Init
}

/// The state after one accepted envelope. The outbound id counter is
/// bumped exactly once per envelope, whatever the body asks for.
pub open spec fn step(s: NodeView, m: MessageView<RequestView>) -> NodeView {
    let t = NodeView { id_counter: s.id_counter + 1, ..s };
    match m.body {
        RequestView::Init { node_id, node_ids, .. } => NodeView {
            initialized: true,
            label: node_id,
            node_ids: node_ids,
            ..t
        },
        RequestView::Topology { topology, .. } => NodeView { topology: topology, ..t },
        RequestView::Broadcast { message, .. } => NodeView {
            seen: t.seen.insert(message),
            delivered: if t.seen.contains(message) {
                t.delivered
            } else {
                t.delivered.push(message)
            },
            ..t
        },
        RequestView::Read { .. } => t,
        RequestView::BroadcastOk { .. } => t,
    }
}

/// The batch of outbound envelopes one accepted envelope produces, in
/// emission order, every one stamped with the bumped counter value.
pub open spec fn replies(s: NodeView, m: MessageView<RequestView>) -> Seq<MessageView<ResponseView>> {
    let stamp = s.id_counter + 1;
    match m.body {
        RequestView::Init { msg_id, node_id, .. } => seq![
            MessageView {
                src: node_id,
                dest: m.src,
                body: ResponseView::InitOk { msg_id: stamp, in_reply_to: msg_id },
            },
        ],
        RequestView::Topology { msg_id, .. } => seq![
            MessageView {
                src: s.label,
                dest: m.src,
                body: ResponseView::TopologyOk { msg_id: stamp, in_reply_to: msg_id },
            },
        ],
        RequestView::Broadcast { msg_id, message, .. } => seq![
            ack_view(s.label, m.src, stamp, msg_id),
        ] + relays(neighbors_of(s.topology, s.label), m.src, s.label, stamp, message),
        RequestView::Read { msg_id } => seq![
            MessageView {
                src: s.label,
                dest: m.src,
                body: ResponseView::ReadOk {
                    msg_id: stamp,
                    in_reply_to: msg_id,
                    messages: s.delivered,
                },
            },
        ],
        RequestView::BroadcastOk { .. } => Seq::empty(),
    }
}

/// Appending one neighbor to the list appends at most one relay.
proof fn lemma_relays_push(
    neighbors: Seq<Seq<char>>,
    last: Seq<char>,
    sender: Seq<char>,
    label: Seq<char>,
    stamp: int,
    value: i64,
)
    ensures
        relays(neighbors.push(last), sender, label, stamp, value) == (if last == sender {
            relays(neighbors, sender, label, stamp, value)
        } else {
            relays(neighbors, sender, label, stamp, value).push(
                relay_view(label, last, stamp, value),
            )
        }),
    decreases neighbors.len(),
{
    let pushed = neighbors.push(last);
    let rv = relay_view(label, last, stamp, value);
    if neighbors.len() == 0 {
        assert(pushed.skip(1) =~= Seq::<Seq<char>>::empty());
        assert(pushed[0] == last);
        assert(relays(Seq::<Seq<char>>::empty(), sender, label, stamp, value)
            == Seq::<MessageView<ResponseView>>::empty());
        if last == sender {
        } else {
            assert(relays(pushed, sender, label, stamp, value) =~~= relays(
                neighbors,
                sender,
                label,
                stamp,
                value,
            ).push(rv));
        }
    } else {
        let rest = relays(neighbors.skip(1), sender, label, stamp, value);
        assert(pushed.skip(1) =~= neighbors.skip(1).push(last));
        lemma_relays_push(neighbors.skip(1), last, sender, label, stamp, value);
        if last == sender {
            assert(relays(pushed.skip(1), sender, label, stamp, value) == rest);
        } else {
            assert(relays(pushed.skip(1), sender, label, stamp, value) == rest.push(rv));
            if pushed[0] == sender {
            } else {
                assert(seq![relay_view(label, pushed[0], stamp, value)] + rest.push(rv) =~~= (seq![
                    relay_view(label, neighbors[0], stamp, value),
                ] + rest).push(rv));
            }
        }
    }
}

/// First-match lookup of a label's neighbor list.
fn lookup_neighbors<'a>(topology: &'a Topology, label: &String) -> (r: Option<&'a Vec<String>>)
    ensures
        (match r {
            Some(v) => v.deep_view(),
            None => Seq::<Seq<char>>::empty(),
        }) == neighbors_of(topology.deep_view(), label@),
{
    let ghost whole = topology.deep_view();
    proof {
        assert(whole.skip(0) =~= whole);
    }
    let mut i: usize = 0;
    while i < topology.len()
        invariant
            0 <= i <= topology.len(),
            whole == topology.deep_view(),
            neighbors_of(whole.skip(i as int), label@) == neighbors_of(whole, label@),
        decreases topology.len() - i,
    {
        if topology[i].0 == *label {
            proof {
                assert(whole.skip(i as int)[0] == whole[i as int]);
            }
            return Some(&topology[i].1);
        }
        proof {
            assert(whole.skip(i as int).skip(1) =~= whole.skip(i as int + 1));
        }
        i = i + 1;
    }
    proof {
        assert(whole.skip(topology.len() as int) =~= Seq::<(Seq<char>, Seq<Seq<char>>)>::empty());
    }
    None
}

/// The gossip node itself: a label, the outbound id counter, the
/// membership and neighbor maps, and the delivered-value set, held
/// both as a hash set (constant-time membership) and as a
/// duplicate-free list (the read-back snapshot).
pub struct BroadcastHandler {
    pub label: String,
    pub initialized: bool,
    pub id_counter: usize,
    pub node_ids: Vec<String>,
    pub topology: Topology,
    pub seen: HashSet<i64>,
    pub messages: Vec<i64>,
}

impl View for BroadcastHandler {
    type V = NodeView;

    open spec fn view(&self) -> NodeView {
        NodeView {
            initialized: self.initialized,
            label: self.label@,
            id_counter: self.id_counter as int,
            node_ids: self.node_ids.deep_view(),
            topology: self.topology.deep_view(),
            seen: self.seen@,
            delivered: self.messages@,
        }
    }
}

impl BroadcastHandler {
    pub fn new() -> (h: BroadcastHandler)
        ensures
            h@ == NodeView::fresh(),
            h@.wf(),
    {
        let h = BroadcastHandler {
            label: String::new(),
            initialized: false,
            id_counter: 0,
            node_ids: Vec::new(),
            topology: Vec::new(),
            seen: HashSet::new(),
            messages: Vec::new(),
        };
        proof {
            assert(h@.node_ids =~= Seq::<Seq<char>>::empty());
            assert(h@.topology =~= Seq::<(Seq<char>, Seq<Seq<char>>)>::empty());
            assert(h@ =~= NodeView::fresh());
            assert(h@.delivered.to_set() =~= h@.seen);
        }
        h
    }

    /// The flood batch for one delivered value: the acknowledgment to
    /// the direct sender, then one relayed copy per neighbor but the
    /// sender, in neighbor-list order, all stamped with the current
    /// counter value.
    fn broadcast(&self, src: &String, msg_id: usize, value: i64) -> (out: Vec<Message<Response>>)
        ensures
            out.deep_view() == seq![
                ack_view(self@.label, src@, self.id_counter as int, msg_id as int),
            ] + relays(neighbors_of(self@.topology, self@.label), src@, self@.label,
                self.id_counter as int, value),
    {
        let ghost label = self@.label;
        let ghost stamp = self.id_counter as int;
        let ghost ack = ack_view(label, src@, stamp, msg_id as int);
        let ghost nview = neighbors_of(self@.topology, label);
        let mut out: Vec<Message<Response>> = Vec::new();
        out.push(
            Message {
                src: self.label.clone(),
                dest: src.clone(),
                body: Response::BroadcastOk { msg_id: self.id_counter, in_reply_to: msg_id },
            },
        );
        match lookup_neighbors(&self.topology, &self.label) {
            None => {
                proof {
                    assert(out.deep_view() =~~= seq![ack] + relays(nview, src@, label, stamp,
                        value));
                }
                out
            },
            Some(neighbors) => {
                let ghost nv = neighbors.deep_view();
                proof {
                    assert(nv.take(0) =~= Seq::<Seq<char>>::empty());
                    assert(out.deep_view() =~~= seq![ack] + relays(
                        nv.take(0),
                        src@,
                        label,
                        stamp,
                        value,
                    ));
                }
                let mut i: usize = 0;
                while i < neighbors.len()
                    invariant
                        0 <= i <= neighbors.len(),
                        nv == neighbors.deep_view(),
                        nv == nview,
                        stamp == self.id_counter as int,
                        label == self.label@,
                        ack == ack_view(label, src@, stamp, msg_id as int),
                        out.deep_view() == seq![ack] + relays(
                            nv.take(i as int),
                            src@,
                            label,
                            stamp,
                            value,
                        ),
                    decreases neighbors.len() - i,
                {
                    let ghost out_pre = out.deep_view();
                    if !(neighbors[i] == *src) {
                        out.push(
                            Message {
                                src: self.label.clone(),
                                dest: neighbors[i].clone(),
                                body: Response::Broadcast {
                                    msg_id: self.id_counter,
                                    message: value,
                                    idempotency_key: None,
                                },
                            },
                        );
                        proof {
                            assert(out.deep_view() =~~= out_pre.push(
                                relay_view(label, nv[i as int], stamp, value),
                            ));
                        }
                    }
                    proof {
                        assert(nv.take(i as int + 1) =~= nv.take(i as int).push(nv[i as int]));
                        lemma_relays_push(nv.take(i as int), nv[i as int], src@, label, stamp,
                            value);
                        assert(out.deep_view() =~~= seq![ack] + relays(
                            nv.take(i as int + 1),
                            src@,
                            label,
                            stamp,
                            value,
                        ));
                    }
                    i = i + 1;
                }
                proof {
                    assert(nv.take(neighbors.len() as int) =~= nv);
                }
                out
            },
        }
    }

    /// Process one inbound envelope: bump the outbound id counter,
    /// apply the body to the node state, and return the outbound batch.
    /// Every envelope before the initialization handshake but the
    /// handshake itself is a fatal protocol violation.
    pub fn handle(&mut self, message: Message<Request>) -> (r: Result<
        Vec<Message<Response>>,
        NodeError,
    >)
        requires
            old(self).id_counter < usize::MAX,
            old(self)@.wf(),
        ensures
            final(self)@.wf(),
            accepts(old(self)@, message.deep_view()) ==> (r matches Ok(out)
                && final(self)@ == step(old(self)@, message.deep_view())
                && out.deep_view() == replies(old(self)@, message.deep_view())),
            !accepts(old(self)@, message.deep_view()) ==> r == Err::<
                Vec<Message<Response>>,
                NodeError,
            >(NodeError::ProtocolViolation) && *final(self) == *old(self),
    {
        let ghost pre = self@;
        let ghost mv = message.deep_view();
        if !self.initialized {
            match &message.body {
                Request::Init { .. } => {},
                _ => {
                    return Err(NodeError::ProtocolViolation);
                },
            }
        }
        self.id_counter = self.id_counter + 1;
        let ghost stamp = pre.id_counter + 1;
        let Message { src, dest: _, body } = message;
        match body {
            Request::Init { msg_id, node_id, node_ids } => {
                self.label = node_id;
                self.initialized = true;
                self.node_ids = node_ids;
                let mut out: Vec<Message<Response>> = Vec::new();
                out.push(
                    Message {
                        src: self.label.clone(),
                        dest: src,
                        body: Response::InitOk { msg_id: self.id_counter, in_reply_to: msg_id },
                    },
                );
                proof {
                    assert(self@ =~= step(pre, mv));
                    assert(out.deep_view() =~= replies(pre, mv));
                }
                Ok(out)
            },
            Request::Topology { msg_id, topology } => {
                self.topology = topology;
                let mut out: Vec<Message<Response>> = Vec::new();
                out.push(
                    Message {
                        src: self.label.clone(),
                        dest: src,
                        body: Response::TopologyOk { msg_id: self.id_counter, in_reply_to: msg_id },
                    },
                );
                proof {
                    assert(self@ =~= step(pre, mv));
                    assert(out.deep_view() =~= replies(pre, mv));
                }
                Ok(out)
            },
            Request::Broadcast { msg_id, message: value, idempotency_key: _ } => {
                if !self.seen.contains(&value) {
                    self.seen.insert(value);
                    self.messages.push(value);
                    proof {
                        pre.delivered.lemma_push_to_set_commute(value);
                        assert(self@.delivered.to_set() =~= self@.seen);
                    }
                } else {
                    proof {
                        assert(pre.seen.insert(value) =~= pre.seen);
                    }
                }
                proof {
                    assert(self@ =~= step(pre, mv));
                }
                let out = self.broadcast(&src, msg_id, value);
                proof {
                    assert(out.deep_view() =~= replies(pre, mv));
                }
                Ok(out)
            },
            Request::Read { msg_id } => {
                let snapshot = self.messages.clone();
                let mut out: Vec<Message<Response>> = Vec::new();
                out.push(
                    Message {
                        src: self.label.clone(),
                        dest: src,
                        body: Response::ReadOk {
                            msg_id: self.id_counter,
                            in_reply_to: msg_id,
                            messages: snapshot,
                        },
                    },
                );
                proof {
                    assert(self@ =~= step(pre, mv));
                    assert(snapshot@ =~= self.messages@);
                    assert(snapshot.deep_view() =~= pre.delivered);
                    assert(out.deep_view() =~~= replies(pre, mv));
                }
                Ok(out)
            },
            Request::BroadcastOk { .. } => {
                let out: Vec<Message<Response>> = Vec::new();
                proof {
                    assert(self@ =~= step(pre, mv));
                    assert(out.deep_view() =~= replies(pre, mv));
                }
                Ok(out)
            },
        }
    }
}

} // verus!
