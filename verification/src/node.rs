use vstd::prelude::*;

use crate::envelope::{Message, MessageView};
use crate::errors::NodeError;

verus! {

/// A request body the single-reply echo node consumes. This node also
/// answers stray `EchoOk` acknowledgments by echoing them back.
pub enum Request {
    Init { msg_id: usize, node_id: String, node_ids: Vec<String> },
    InitOk { in_reply_to: usize },
    Echo { msg_id: usize, echo: String },
    EchoOk { msg_id: usize, in_reply_to: usize, echo: String },
}

/// A response body the single-reply echo node produces. Its handshake
/// acknowledgment carries no fresh id of its own.
pub enum Response {
    InitOk { in_reply_to: usize },
    EchoOk { msg_id: usize, in_reply_to: usize, echo: String },
}

/// The spec image of a request body.
#[verifier::ext_equal]
pub enum RequestView {
    Init { msg_id: int, node_id: Seq<char>, node_ids: Seq<Seq<char>> },
    InitOk { in_reply_to: int },
    Echo { msg_id: int, echo: Seq<char> },
    EchoOk { msg_id: int, in_reply_to: int, echo: Seq<char> },
}

/// The spec image of a response body.
#[verifier::ext_equal]
pub enum ResponseView {
    InitOk { in_reply_to: int },
    EchoOk { msg_id: int, in_reply_to: int, echo: Seq<char> },
}

impl DeepView for Request {
    type V = RequestView;

    open spec fn deep_view(&self) -> RequestView {
        match self {
            Request::Init { msg_id, node_id, node_ids } => RequestView::Init {
                msg_id: *msg_id as int,
                node_id: node_id@,
                node_ids: node_ids.deep_view(),
            },
            Request::InitOk { in_reply_to } => RequestView::InitOk {
                in_reply_to: *in_reply_to as int,
            },
            Request::Echo { msg_id, echo } => RequestView::Echo {
                msg_id: *msg_id as int,
                echo: echo@,
            },
            Request::EchoOk { msg_id, in_reply_to, echo } => RequestView::EchoOk {
                msg_id: *msg_id as int,
                in_reply_to: *in_reply_to as int,
                echo: echo@,
            },
        }
    }
}

impl DeepView for Response {
    type V = ResponseView;

    open spec fn deep_view(&self) -> ResponseView {
        match self {
            Response::InitOk { in_reply_to } => ResponseView::InitOk {
                in_reply_to: *in_reply_to as int,
            },
            Response::EchoOk { msg_id, in_reply_to, echo } => ResponseView::EchoOk {
                msg_id: *msg_id as int,
                in_reply_to: *in_reply_to as int,
                echo: echo@,
            },
        }
    }
}

/// The abstract state of the node.
#[verifier::ext_equal]
pub struct NodeStateView {
    pub label: Seq<char>,
    pub id_counter: int,
}

/// Whether the node answers this body at all: receiving an `InitOk`
/// is a protocol violation, since nothing this node sends is an
/// `Init`.
pub open spec fn accepts(m: MessageView<RequestView>) -> bool {
    !(m.body is InitOk)
}

/// The state after one envelope: the counter advances whether or not
/// a reply is owed, and the handshake assigns the label.
pub open spec fn step(s: NodeStateView, m: MessageView<RequestView>) -> NodeStateView {
    match m.body {
        RequestView::Init { node_id, .. } => NodeStateView {
            label: node_id,
            id_counter: s.id_counter + 1,
        },
        _ => NodeStateView { id_counter: s.id_counter + 1, ..s },
    }
}

/// The single reply an accepted envelope produces.
pub open spec fn reply(s: NodeStateView, m: MessageView<RequestView>) -> MessageView<
    ResponseView,
> {
    let stamp = s.id_counter + 1;
    match m.body {
        RequestView::Init { msg_id, node_id, .. } => MessageView {
            src: node_id,
            dest: m.src,
            body: ResponseView::InitOk { in_reply_to: msg_id },
        },
        RequestView::Echo { msg_id, echo } => MessageView {
            src: s.label,
            dest: m.src,
            body: ResponseView::EchoOk { msg_id: stamp, in_reply_to: msg_id, echo: echo },
        },
        RequestView::EchoOk { msg_id, echo, .. } => MessageView {
            src: s.label,
            dest: m.src,
            body: ResponseView::EchoOk { msg_id: stamp, in_reply_to: msg_id, echo: echo },
        },
        RequestView::InitOk { .. } => MessageView {
            src: s.label,
            dest: m.src,
            body: ResponseView::InitOk { in_reply_to: 0 },
        },
    }
}

/// The single-reply echo node: a label and the outbound id counter.
pub struct Node {
    pub label: String,
    pub id_counter: usize,
}

impl View for Node {
    type V = NodeStateView;

    open spec fn view(&self) -> NodeStateView {
        NodeStateView { label: self.label@, id_counter: self.id_counter as int }
    }
}

impl Node {
    pub fn new() -> (n: Node)
        ensures
            n@.label == Seq::<char>::empty(),
            n@.id_counter == 0,
    {
        Node { label: String::new(), id_counter: 0 }
    }

    /// Process one inbound envelope into exactly one reply. The
    /// counter is bumped even for the refused `InitOk` body, exactly
    /// as the state machine says.
    pub fn handle(&mut self, message: Message<Request>) -> (r: Result<
        Message<Response>,
        NodeError,
    >)
        requires
            old(self).id_counter < usize::MAX,
        ensures
            final(self)@ == step(old(self)@, message.deep_view()),
            accepts(message.deep_view()) ==> (r matches Ok(out) && out.deep_view() == reply(
                old(self)@,
                message.deep_view(),
            )),
            !accepts(message.deep_view()) ==> r == Err::<Message<Response>, NodeError>(
                NodeError::ProtocolViolation,
            ),
    {
        let ghost pre = self@;
        let ghost mv = message.deep_view();
        self.id_counter = self.id_counter + 1;
        let Message { src, dest: _, body } = message;
        match body {
            Request::Init { msg_id, node_id, node_ids: _ } => {
                self.label = node_id;
                let out = Message {
                    src: self.label.clone(),
                    dest: src,
                    body: Response::InitOk { in_reply_to: msg_id },
                };
                proof {
                    assert(out.deep_view() =~~= reply(pre, mv));
                }
                Ok(out)
            },
            Request::Echo { msg_id, echo } => {
                let out = Message {
                    src: self.label.clone(),
                    dest: src,
                    body: Response::EchoOk {
                        msg_id: self.id_counter,
                        in_reply_to: msg_id,
                        echo: echo,
                    },
                };
                proof {
                    assert(out.deep_view() =~~= reply(pre, mv));
                }
                Ok(out)
            },
            Request::EchoOk { msg_id, in_reply_to: _, echo } => {
                let out = Message {
                    src: self.label.clone(),
                    dest: src,
                    body: Response::EchoOk {
                        msg_id: self.id_counter,
                        in_reply_to: msg_id,
                        echo: echo,
                    },
                };
                proof {
                    assert(out.deep_view() =~~= reply(pre, mv));
                }
                Ok(out)
            },
            Request::InitOk { .. } => Err(NodeError::ProtocolViolation),
        }
    }
}

} // verus!
