use crate::message::Message;
use vstd::prelude::*;

verus! {

/// The receiving end of a `crossbeam_channel` channel, carried through as an
/// opaque value.
#[verifier::external_type_specification]
#[verifier::external_body]
#[verifier::reject_recursive_types(T)]
pub struct ExReceiver<T>(crossbeam_channel::Receiver<T>);

/// Calls `crossbeam_channel::Receiver::try_recv`, which never blocks, and
/// hands on the message it got, if any. An empty and a disconnected channel
/// both give `None`. Nothing is claimed of the result: what arrives depends
/// on the sending thread.
#[verifier::external_body]
pub(crate) fn try_receive(queue: &crossbeam_channel::Receiver<Message>) -> (r: Option<Message>) {
    match queue.try_recv() {
        Ok(message) => Some(message),
        Err(_) => None,
    }
}

/// The sending end of a `crossbeam_channel` channel, carried through as an
/// opaque value.
#[verifier::external_type_specification]
#[verifier::external_body]
#[verifier::reject_recursive_types(T)]
pub struct ExSender<T>(crossbeam_channel::Sender<T>);

/// Calls `crossbeam_channel::Sender::try_send`, which never blocks, and says
/// whether the channel took the message. A full and a disconnected channel
/// both give `false`, and the message is dropped. Nothing is claimed of the
/// result: whether there is room depends on the receiving thread.
#[verifier::external_body]
pub(crate) fn try_send(queue: &crossbeam_channel::Sender<Message>, message: Message) -> (accepted:
    bool) {
    queue.try_send(message).is_ok()
}

} // verus!
