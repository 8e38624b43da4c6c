//! The ways in which a forwarding cycle can end without forwarding.

use vstd::prelude::*;

verus! {

/// Why a cycle forwarded nothing, or stopped part of the way.
#[derive(Debug, PartialEq, Eq)]
pub enum ForwardError {
    /// The mail host is no valid domain name, or has no registrable root.
    InvalidDomain,
    /// A server could not be reached, or the encrypted connection failed.
    ConnectFailed,
    /// The retrieval server rejected the credentials.
    AuthenticationFailed,
    /// The inbox is absent or cannot be read.
    MailboxUnavailable,
    /// The inbox holds no unread message. This is the usual outcome, no fault.
    NoNewMail,
    /// The message with this identifier had no body that could be retrieved.
    FetchFailed(u32),
    /// This text, the sender or a recipient, is no valid address.
    InvalidAddress(String),
    /// The submission server refused the message, with this code and reply.
    SubmissionRejected(u16, String),
}

/// A `ForwardError` with its texts as sequences of characters.
pub ghost enum ErrorView {
    InvalidDomain,
    ConnectFailed,
    AuthenticationFailed,
    MailboxUnavailable,
    NoNewMail,
    FetchFailed(u32),
    InvalidAddress(Seq<char>),
    SubmissionRejected(u16, Seq<char>),
}

impl View for ForwardError {
    type V = ErrorView;

    open spec fn view(&self) -> ErrorView {
        match self {
            ForwardError::InvalidDomain => ErrorView::InvalidDomain,
            ForwardError::ConnectFailed => ErrorView::ConnectFailed,
            ForwardError::AuthenticationFailed => ErrorView::AuthenticationFailed,
            ForwardError::MailboxUnavailable => ErrorView::MailboxUnavailable,
            ForwardError::NoNewMail => ErrorView::NoNewMail,
            ForwardError::FetchFailed(id) => ErrorView::FetchFailed(*id),
            ForwardError::InvalidAddress(text) => ErrorView::InvalidAddress(text@),
            ForwardError::SubmissionRejected(code, reply) => ErrorView::SubmissionRejected(
                *code,
                reply@,
            ),
        }
    }
}

impl ForwardError {
    /// Whether this is a genuine fault, to be reported as one: everything but
    /// an inbox without unread mail.
    pub fn is_fault(&self) -> (fault: bool)
        ensures
            fault == !(self@ is NoNewMail),
    {
        match self {
            ForwardError::NoNewMail => false,
            _ => true,
        }
    }

}

impl Clone for ForwardError {
    fn clone(&self) -> (copy: ForwardError)
        ensures
            copy@ == self@,
    {
        match self {
            ForwardError::InvalidDomain => ForwardError::InvalidDomain,
            ForwardError::ConnectFailed => ForwardError::ConnectFailed,
            ForwardError::AuthenticationFailed => ForwardError::AuthenticationFailed,
            ForwardError::MailboxUnavailable => ForwardError::MailboxUnavailable,
            ForwardError::NoNewMail => ForwardError::NoNewMail,
            ForwardError::FetchFailed(id) => ForwardError::FetchFailed(*id),
            ForwardError::InvalidAddress(text) => ForwardError::InvalidAddress(text.clone()),
            ForwardError::SubmissionRejected(code, reply) => ForwardError::SubmissionRejected(
                *code,
                reply.clone(),
            ),
        }
    }
}

} // verus!
