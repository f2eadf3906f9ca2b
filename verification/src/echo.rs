use vstd::prelude::*;

use crate::envelope::{Message, MessageView};
use crate::errors::NodeError;

verus! {

/// A request body the echo node consumes.
pub enum Request {
    Echo { msg_id: usize, echo: String },
    Init { msg_id: usize, node_id: String, node_ids: Vec<String> },
}

/// A response body the echo node produces.
pub enum Response {
    EchoOk { msg_id: usize, in_reply_to: usize, echo: String },
    InitOk { msg_id: usize, in_reply_to: usize },
}

/// The spec image of an echo request body.
#[verifier::ext_equal]
pub enum RequestView {
    Echo { msg_id: int, echo: Seq<char> },
    Init { msg_id: int, node_id: Seq<char>, node_ids: Seq<Seq<char>> },
}

/// The spec image of an echo response body.
#[verifier::ext_equal]
pub enum ResponseView {
    EchoOk { msg_id: int, in_reply_to: int, echo: Seq<char> },
    InitOk { msg_id: int, in_reply_to: int },
}

impl DeepView for Request {
    type V = RequestView;

    open spec fn deep_view(&self) -> RequestView {
        match self {
            Request::Echo { msg_id, echo } => RequestView::Echo {
                msg_id: *msg_id as int,
                echo: echo@,
            },
            Request::Init { msg_id, node_id, node_ids } => RequestView::Init {
                msg_id: *msg_id as int,
                node_id: node_id@,
                node_ids: node_ids.deep_view(),
            },
        }
    }
}

impl DeepView for Response {
    type V = ResponseView;

    open spec fn deep_view(&self) -> ResponseView {
        match self {
            Response::EchoOk { msg_id, in_reply_to, echo } => ResponseView::EchoOk {
                msg_id: *msg_id as int,
                in_reply_to: *in_reply_to as int,
                echo: echo@,
            },
            Response::InitOk { msg_id, in_reply_to } => ResponseView::InitOk {
                msg_id: *msg_id as int,
                in_reply_to: *in_reply_to as int,
            },
        }
    }
}

/// The abstract state of an echo node.
#[verifier::ext_equal]
pub struct EchoView {
    pub label: Seq<char>,
    pub id_counter: int,
}

/// The state after one envelope: the counter always advances, and the
/// handshake assigns the label.
pub open spec fn step(s: EchoView, m: MessageView<RequestView>) -> EchoView {
    match m.body {
        RequestView::Init { node_id, .. } => EchoView {
            label: node_id,
            id_counter: s.id_counter + 1,
        },
        RequestView::Echo { .. } => EchoView { id_counter: s.id_counter + 1, ..s },
    }
}

/// The single reply one envelope produces: the handshake is
/// acknowledged, and everything else is echoed back verbatim.
pub open spec fn reply(s: EchoView, m: MessageView<RequestView>) -> MessageView<ResponseView> {
    let stamp = s.id_counter + 1;
    match m.body {
        RequestView::Init { msg_id, node_id, .. } => MessageView {
            src: node_id,
            dest: m.src,
            body: ResponseView::InitOk { msg_id: stamp, in_reply_to: msg_id },
        },
        RequestView::Echo { msg_id, echo } => MessageView {
            src: s.label,
            dest: m.src,
            body: ResponseView::EchoOk { msg_id: stamp, in_reply_to: msg_id, echo: echo },
        },
    }
}

/// The echo node: a label and the outbound id counter.
pub struct EchoHandler {
    pub label: String,
    pub id_counter: usize,
}

impl View for EchoHandler {
    type V = EchoView;

    open spec fn view(&self) -> EchoView {
        EchoView { label: self.label@, id_counter: self.id_counter as int }
    }
}

impl EchoHandler {
    pub fn new() -> (h: EchoHandler)
        ensures
            h@.label == Seq::<char>::empty(),
            h@.id_counter == 0,
    {
        EchoHandler { label: String::new(), id_counter: 0 }
    }

    /// Process one inbound envelope. The echo protocol refuses
    /// nothing: every envelope earns exactly one reply.
    pub fn handle(&mut self, message: Message<Request>) -> (r: Result<
        Vec<Message<Response>>,
        NodeError,
    >)
        requires
            old(self).id_counter < usize::MAX,
        ensures
            final(self)@ == step(old(self)@, message.deep_view()),
            r matches Ok(out) && out.deep_view() == seq![
                reply(old(self)@, message.deep_view()),
            ],
    {
        let ghost pre = self@;
        let ghost mv = message.deep_view();
        self.id_counter = self.id_counter + 1;
        let Message { src, dest: _, body } = message;
        let mut out: Vec<Message<Response>> = Vec::new();
        match body {
            Request::Init { msg_id, node_id, node_ids: _ } => {
                self.label = node_id;
                out.push(
                    Message {
                        src: self.label.clone(),
                        dest: src,
                        body: Response::InitOk { msg_id: self.id_counter, in_reply_to: msg_id },
                    },
                );
                proof {
                    assert(out.deep_view() =~~= seq![reply(pre, mv)]);
                }
            },
            Request::Echo { msg_id, echo } => {
                out.push(
                    Message {
                        src: self.label.clone(),
                        dest: src,
                        body: Response::EchoOk {
                            msg_id: self.id_counter,
                            in_reply_to: msg_id,
                            echo: echo,
                        },
                    },
                );
                proof {
                    assert(out.deep_view() =~~= seq![reply(pre, mv)]);
                }
            },
        }
        Ok(out)
    }
}

} // verus!
