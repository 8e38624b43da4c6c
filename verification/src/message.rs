//! A retrieved message wrapped for forwarding: a new message whose subject
//! names that of the retrieved one and which carries the retrieved message,
//! byte for byte, as an attachment.
//!
//! The cycle relays retrieved bytes as they are. This is for a caller that
//! would rather submit a structured message, and has the subject of the
//! retrieved message at hand.

use vstd::prelude::*;
use vstd::string::*;

verus! {

/// The subject of the message that forwards one with the subject
/// `subject`.
pub open spec fn forwarded_subject(subject: Seq<char>) -> Seq<char> {
    "Fwd: "@ + subject
}

/// The file name under which the retrieved message is attached.
pub open spec fn attachment_name() -> Seq<char> {
    "original.eml"@
}

/// A message that forwards another.
#[derive(Debug, PartialEq, Eq)]
pub struct OutboundMessage {
    subject: String,
    attachment_name: String,
    attachment: Vec<u8>,
}

/// An `OutboundMessage` with its contents as sequences.
pub ghost struct OutboundMessageView {
    pub subject: Seq<char>,
    pub attachment_name: Seq<char>,
    pub attachment: Seq<u8>,
}

impl View for OutboundMessage {
    type V = OutboundMessageView;

    closed spec fn view(&self) -> OutboundMessageView {
        OutboundMessageView {
            subject: self.subject@,
            attachment_name: self.attachment_name@,
            attachment: self.attachment@,
        }
    }
}

impl OutboundMessage {
    /// Wraps the message `retrieved`, whose subject is `subject`: the new
    /// subject is `Fwd: ` followed by the old one, and the retrieved bytes
    /// are attached unchanged under the name `original.eml`.
    pub fn wrap(subject: &str, retrieved: Vec<u8>) -> (message: OutboundMessage)
        ensures
            message@ == (OutboundMessageView {
                subject: forwarded_subject(subject@),
                attachment_name: attachment_name(),
                attachment: retrieved@,
            }),
    {
        let mut text = String::from_str("Fwd: ");
        text.append(subject);
        OutboundMessage {
            subject: text,
            attachment_name: String::from_str("original.eml"),
            attachment: retrieved,
        }
    }

    /// The subject.
    pub fn subject(&self) -> (subject: &String)
        ensures
            subject@ == self@.subject,
    {
        &self.subject
    }

    /// The file name of the attachment.
    pub fn attachment_name(&self) -> (name: &String)
        ensures
            name@ == self@.attachment_name,
    {
        &self.attachment_name
    }

    /// The attached bytes.
    pub fn attachment(&self) -> (bytes: &Vec<u8>)
        ensures
            bytes@ == self@.attachment,
    {
        &self.attachment
    }
}

} // verus!
