//! What a forwarder is told once, before it starts.

use crate::text::{split_whitespace, texts, tokens};
use vstd::prelude::*;

verus! {

/// The port of the retrieval server where none is given.
pub const DEFAULT_RETRIEVAL_PORT: u16 = 993;

/// The port of the submission server where none is given.
pub const DEFAULT_SUBMISSION_PORT: u16 = 587;

/// The seconds between the end of one cycle and the start of the next,
/// whatever the cycle's outcome.
pub const POLL_INTERVAL_SECONDS: u64 = 300;

/// The account, the two servers and the recipients. It is made once and only
/// read afterwards.
#[derive(Debug, PartialEq, Eq)]
pub struct Configuration {
    /// The account's name at both servers, and the local part of the
    /// sender's address.
    pub identity: String,
    /// The account's password.
    pub secret: String,
    /// The retrieval server's host name.
    pub retrieval_host: String,
    /// The retrieval server's port.
    pub retrieval_port: u16,
    /// The submission server's host name.
    pub submission_host: String,
    /// The submission server's port.
    pub submission_port: u16,
    /// Whether the retrieval server's certificate must be valid.
    pub strict_certificates: bool,
    /// The recipients' addresses, separated by whitespace.
    pub recipients: String,
    /// The seconds after which an attempt to connect to a server, or to read
    /// from it, is given up. Without it a server that does not answer holds
    /// the cycle up for good.
    pub deadline_seconds: Option<u64>,
}

/// A `Configuration` with its texts as sequences of characters.
pub ghost struct ConfigurationView {
    pub identity: Seq<char>,
    pub secret: Seq<char>,
    pub retrieval_host: Seq<char>,
    pub retrieval_port: u16,
    pub submission_host: Seq<char>,
    pub submission_port: u16,
    pub strict_certificates: bool,
    pub recipients: Seq<char>,
    pub deadline_seconds: Option<u64>,
}

impl ConfigurationView {
    /// A configuration names at least one recipient.
    pub open spec fn wf(self) -> bool {
        tokens(self.recipients).len() > 0
    }
}

impl View for Configuration {
    type V = ConfigurationView;

    open spec fn view(&self) -> ConfigurationView {
        ConfigurationView {
            identity: self.identity@,
            secret: self.secret@,
            retrieval_host: self.retrieval_host@,
            retrieval_port: self.retrieval_port,
            submission_host: self.submission_host@,
            submission_port: self.submission_port,
            strict_certificates: self.strict_certificates,
            recipients: self.recipients@,
            deadline_seconds: self.deadline_seconds,
        }
    }
}

impl Clone for Configuration {
    fn clone(&self) -> (copy: Configuration)
        ensures
            copy@ == self@,
    {
        Configuration {
            identity: self.identity.clone(),
            secret: self.secret.clone(),
            retrieval_host: self.retrieval_host.clone(),
            retrieval_port: self.retrieval_port,
            submission_host: self.submission_host.clone(),
            submission_port: self.submission_port,
            strict_certificates: self.strict_certificates,
            recipients: self.recipients.clone(),
            deadline_seconds: self.deadline_seconds,
        }
    }
}

impl Configuration {
    /// A configuration with the usual ports, 993 for retrieval and 587 for
    /// submission, with strict certificate validation and without a
    /// deadline.
    pub fn with_defaults(
        identity: String,
        secret: String,
        retrieval_host: String,
        submission_host: String,
        recipients: String,
    ) -> (config: Configuration)
        ensures
            config@ == (ConfigurationView {
                identity: identity@,
                secret: secret@,
                retrieval_host: retrieval_host@,
                retrieval_port: 993,
                submission_host: submission_host@,
                submission_port: 587,
                strict_certificates: true,
                recipients: recipients@,
                deadline_seconds: None,
            }),
    {
        Configuration {
            identity,
            secret,
            retrieval_host,
            retrieval_port: DEFAULT_RETRIEVAL_PORT,
            submission_host,
            submission_port: DEFAULT_SUBMISSION_PORT,
            strict_certificates: true,
            recipients,
            deadline_seconds: None,
        }
    }

    /// Whether the list of recipients names at least one: whether it holds
    /// anything but whitespace.
    pub fn has_recipients(&self) -> (present: bool)
        ensures
            present == self@.wf(),
    {
        let named = split_whitespace(self.recipients.as_str());
        assert(texts(named@).len() == named@.len());
        named.len() > 0
    }
}

} // verus!
