//! The unit of application-level exchange, independent of wire encoding.

use vstd::prelude::*;

verus! {

/// Mathematical image of a message.
pub ghost struct MessageModel {
    pub subject: Seq<char>,
    pub body: Seq<u8>,
    pub reply_to: Option<Seq<char>>,
}

/// A message: a subject, an opaque byte body, and an optional reply subject.
/// Immutable once constructed.
#[derive(Debug)]
pub struct BrokerMessage {
    pub subject: String,
    pub body: Vec<u8>,
    pub reply_to: Option<String>,
}

impl View for BrokerMessage {
    type V = MessageModel;

    open spec fn view(&self) -> MessageModel {
        MessageModel {
            subject: self.subject@,
            body: self.body@,
            reply_to: match self.reply_to {
                Some(r) => Some(r@),
                None => None,
            },
        }
    }
}

impl BrokerMessage {
    /// A field-for-field copy.
    pub fn duplicate(&self) -> (r: BrokerMessage)
        ensures
            r@ == self@,
    {
        BrokerMessage {
            subject: self.subject.clone(),
            body: vstd::slice::slice_to_vec(self.body.as_slice()),
            reply_to: match &self.reply_to {
                Some(r) => Some(r.clone()),
                None => None,
            },
        }
    }
}

} // verus!
