use vstd::prelude::*;
use vstd::string::StringExecFns;

use crate::digits::{dec_digits, to_decimal};
use crate::envelope::{Message, MessageView};
use crate::errors::NodeError;

verus! {

/// A request body the id-generator node consumes.
pub enum Request {
    Generate { msg_id: usize },
    Init { msg_id: usize, node_id: String, node_ids: Vec<String> },
}

/// A response body the id-generator node produces.
pub enum Response {
    GenerateOk { in_reply_to: usize, msg_id: usize, id: String },
    InitOk { msg_id: usize, in_reply_to: usize },
}

/// The spec image of a generator request body.
#[verifier::ext_equal]
pub enum RequestView {
    Generate { msg_id: int },
    Init { msg_id: int, node_id: Seq<char>, node_ids: Seq<Seq<char>> },
}

/// The spec image of a generator response body.
#[verifier::ext_equal]
pub enum ResponseView {
    GenerateOk { in_reply_to: int, msg_id: int, id: Seq<char> },
    InitOk { msg_id: int, in_reply_to: int },
}

impl DeepView for Request {
    type V = RequestView;

    open spec fn deep_view(&self) -> RequestView {
        match self {
            Request::Generate { msg_id } => RequestView::Generate { msg_id: *msg_id as int },
            Request::Init { msg_id, node_id, node_ids } => RequestView::Init {
                msg_id: *msg_id as int,
                node_id: node_id@,
                node_ids: node_ids.deep_view(),
            },
        }
    }
}

impl DeepView for Response {
    type V = ResponseView;

    open spec fn deep_view(&self) -> ResponseView {
        match self {
            Response::GenerateOk { in_reply_to, msg_id, id } => ResponseView::GenerateOk {
                in_reply_to: *in_reply_to as int,
                msg_id: *msg_id as int,
                id: id@,
            },
            Response::InitOk { msg_id, in_reply_to } => ResponseView::InitOk {
                msg_id: *msg_id as int,
                in_reply_to: *in_reply_to as int,
            },
        }
    }
}

/// The abstract state of an id-generator node.
#[verifier::ext_equal]
pub struct GeneratorView {
    pub label: Seq<char>,
    pub id_counter: int,
}

/// The id handed out for one generate request: the node label, a
/// hyphen, and the decimal outbound counter. The counter is bumped
/// once per inbound envelope, so within one node every generated id
/// is fresh.
pub open spec fn generated_id(label: Seq<char>, counter: int) -> Seq<char> {
    label + seq!['-'] + dec_digits(counter as nat)
}

/// The state after one envelope.
pub open spec fn step(s: GeneratorView, m: MessageView<RequestView>) -> GeneratorView {
    match m.body {
        RequestView::Init { node_id, .. } => GeneratorView {
            label: node_id,
            id_counter: s.id_counter + 1,
        },
        RequestView::Generate { .. } => GeneratorView { id_counter: s.id_counter + 1, ..s },
    }
}

/// The single reply one envelope produces.
pub open spec fn reply(s: GeneratorView, m: MessageView<RequestView>) -> MessageView<
    ResponseView,
> {
    let stamp = s.id_counter + 1;
    match m.body {
        RequestView::Init { msg_id, node_id, .. } => MessageView {
            src: node_id,
            dest: m.src,
            body: ResponseView::InitOk { msg_id: stamp, in_reply_to: msg_id },
        },
        RequestView::Generate { msg_id } => MessageView {
            src: s.label,
            dest: m.src,
            body: ResponseView::GenerateOk {
                in_reply_to: msg_id,
                msg_id: stamp,
                id: generated_id(s.label, stamp),
            },
        },
    }
}

/// The id-generator node: a label and the outbound id counter.
pub struct GeneratorHandler {
    pub label: String,
    pub id_counter: usize,
}

impl View for GeneratorHandler {
    type V = GeneratorView;

    open spec fn view(&self) -> GeneratorView {
        GeneratorView { label: self.label@, id_counter: self.id_counter as int }
    }
}

impl GeneratorHandler {
    pub fn new() -> (h: GeneratorHandler)
        ensures
            h@.label == Seq::<char>::empty(),
            h@.id_counter == 0,
    {
        GeneratorHandler { label: String::new(), id_counter: 0 }
    }

    /// Process one inbound envelope. The generator protocol refuses
    /// nothing: every envelope earns exactly one reply.
    pub fn handle(&mut self, message: Message<Request>) -> (r: Result<
        Vec<Message<Response>>,
        NodeError,
    >)
        requires
            old(self).id_counter < usize::MAX,
        ensures
            final(self)@ == step(old(self)@, message.deep_view()),
            r matches Ok(out) && out.deep_view() == seq![
                reply(old(self)@, message.deep_view()),
            ],
    {
        let ghost pre = self@;
        let ghost mv = message.deep_view();
        self.id_counter = self.id_counter + 1;
        let Message { src, dest: _, body } = message;
        let mut out: Vec<Message<Response>> = Vec::new();
        match body {
            Request::Init { msg_id, node_id, node_ids: _ } => {
                self.label = node_id;
                out.push(
                    Message {
                        src: self.label.clone(),
                        dest: src,
                        body: Response::InitOk { msg_id: self.id_counter, in_reply_to: msg_id },
                    },
                );
                proof {
                    assert(out.deep_view() =~~= seq![reply(pre, mv)]);
                }
            },
            Request::Generate { msg_id } => {
                let mut id = self.label.clone();
                id.append("-");
                let counter_digits = to_decimal(self.id_counter);
                id.append(counter_digits.as_str());
                proof {
                    reveal_strlit("-");
                    assert(id@ =~= generated_id(pre.label, pre.id_counter + 1));
                }
                out.push(
                    Message {
                        src: self.label.clone(),
                        dest: src,
                        body: Response::GenerateOk {
                            in_reply_to: msg_id,
                            msg_id: self.id_counter,
                            id: id,
                        },
                    },
                );
                proof {
                    assert(out.deep_view() =~~= seq![reply(pre, mv)]);
                }
            },
        }
        Ok(out)
    }
}

} // verus!
