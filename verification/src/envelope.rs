use vstd::prelude::*;

use crate::errors::NodeError;

verus! {

/// The transport-level wrapper around a protocol body: one envelope
/// per line on the wire, owned by whoever currently processes it.
pub struct Message<T> {
    pub src: String,
    pub dest: String,
    pub body: T,
}

/// The mathematical image of an envelope: both labels as character
/// sequences around the view of the body.
#[verifier::ext_equal]
pub struct MessageView<B> {
    pub src: Seq<char>,
    pub dest: Seq<char>,
    pub body: B,
}

impl<T: DeepView> DeepView for Message<T> {
    type V = MessageView<T::V>;

    open spec fn deep_view(&self) -> MessageView<T::V> {
        MessageView { src: self.src@, dest: self.dest@, body: self.body.deep_view() }
    }
}

impl<T: View> View for Message<T> {
    type V = MessageView<T::V>;

    open spec fn view(&self) -> MessageView<T::V> {
        MessageView { src: self.src@, dest: self.dest@, body: self.body@ }
    }
}

/// A protocol handler that a node runtime drives. The runtime hands
/// the handler one inbound envelope at a time and forwards the batch
/// of outbound envelopes it returns, in emission order; an error is
/// fatal to the run.
pub trait Handle<Request, Response>: Sized {
    fn new() -> Self;

    fn handle(&mut self, message: Message<Request>) -> Result<Vec<Message<Response>>, NodeError>;
}

} // verus!
