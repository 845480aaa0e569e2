//! Raw message handlers of the binding layer.

use std::sync::Arc;

use vstd::prelude::*;

use crate::message::{Message, MessageView, decode_utf8_lossy, utf8_lossy};

verus! {

/// A handle that sends raw messages and receives those that its validator
/// accepts; `H` is the platform's own handle.
pub struct RawHandler<H> {
    inner: H,
}

impl<H> RawHandler<H> {
    /// The platform handle that this handler wraps.
    pub closed spec fn handle(&self) -> H {
        self.inner
    }

    /// Wraps a platform handle.
    pub fn from_inner(inner: H) -> (r: Arc<Self>)
        ensures
            (*r).handle() == inner,
    {
        Arc::new(RawHandler { inner })
    }

    /// The platform handle.
    pub fn inner(&self) -> (r: &H)
        ensures
            *r == self.handle(),
    {
        &self.inner
    }
}

/// The text of a message as the binding layer hands it out.
pub open spec fn spec_message_to_string(m: MessageView) -> Seq<char> {
    match m {
        MessageView::Text(t) => t,
        MessageView::Binary(b) => utf8_lossy(b),
        _ => Seq::empty(),
    }
}

/// The text of a message: a text message as it is, a binary one decoded as
/// UTF-8 (lossily), any other message as the empty string.
pub fn message_to_string(msg: &Message) -> (r: String)
    ensures
        r@ == spec_message_to_string(msg@),
        msg@ is Binary && vstd::utf8::valid_utf8(msg@->Binary_0) ==> r@ == vstd::utf8::decode_utf8(
            msg@->Binary_0,
        ),
{
    match msg {
        Message::Text(text) => text.clone(),
        Message::Binary(data) => decode_utf8_lossy(data.as_slice()),
        _ => String::new(),
    }
}

} // verus!
