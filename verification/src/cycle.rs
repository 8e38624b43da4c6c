//! One fetch-and-forward cycle as a state machine.
//!
//! The machine decides; its caller acts. `Cycle::begin` and `Cycle::step`
//! each hand back an `Action`, the caller carries it out against the
//! retrieval or the submission server and reports what came of it as an
//! `Event`, and so on until the action is `Finish`. The retrieved bytes are
//! relayed as they are, and unread messages are found by the `UNSEEN` flag.
//!
//! `Cycle::begin` looks up the root domain and builds the envelope.
//! `Cycle::start` takes both as they are given, so that the machine can be
//! followed on values of one's own choosing.

use crate::address::{build_envelope, envelope_of, envelope_view, Envelope, EnvelopeView};
use crate::batch::{distinct, distinct_in_order, lemma_distinct, lemma_distinct_keeps_distinct};
use crate::config::{Configuration, ConfigurationView};
use crate::domain::{optional_text, registrable_root, root_domain};
use crate::error::{ErrorView, ForwardError};
use vstd::prelude::*;
use vstd::string::*;

verus! {

/// What the machine is waiting for.
#[derive(Clone, Copy, Debug, PartialEq, Eq, Structural)]
pub enum Phase {
    /// For the connection to the retrieval server.
    Connecting,
    /// For the answer to the login.
    Authenticating,
    /// For the inbox to be selected.
    Selecting,
    /// For the identifiers of the unread messages.
    Searching,
    /// For the body of the message at the cursor.
    Fetching,
    /// For the submission server's answer on the message at the cursor.
    Submitting,
    /// For the end of the logout.
    Closing,
    /// For nothing: the cycle is over.
    Finished,
}

/// The retrieval session of a cycle.
#[derive(Clone, Copy, Debug, PartialEq, Eq, Structural)]
pub enum Session {
    /// None was opened.
    Absent,
    /// The login succeeded and no logout was asked for.
    Open,
    /// The logout was asked for.
    Released,
}

/// What came of the action that the machine asked for last.
#[derive(Debug, PartialEq, Eq)]
pub enum Event {
    /// The retrieval server was reached.
    Connected,
    /// The retrieval server was not reached.
    ConnectFailed,
    /// The retrieval server accepted the credentials.
    LoggedIn,
    /// The retrieval server rejected the credentials.
    LoginRejected,
    /// The inbox was selected.
    Selected,
    /// The inbox is absent or cannot be read.
    SelectFailed,
    /// The search gave these identifiers.
    SearchCompleted(Vec<u32>),
    /// The search could not be made.
    SearchFailed,
    /// The message's bytes, header and body.
    Fetched(Vec<u8>),
    /// The message has no body that could be retrieved.
    FetchFailed,
    /// The submission server accepted the message.
    Submitted,
    /// The submission server was not reached.
    SinkUnreachable,
    /// The submission server refused the message, with this code and reply.
    SubmissionRejected(u16, String),
    /// The logout was made.
    LoggedOut,
}

/// An `Event` with its contents as sequences.
pub ghost enum EventView {
    Connected,
    ConnectFailed,
    LoggedIn,
    LoginRejected,
    Selected,
    SelectFailed,
    SearchCompleted(Seq<u32>),
    SearchFailed,
    Fetched(Seq<u8>),
    FetchFailed,
    Submitted,
    SinkUnreachable,
    SubmissionRejected(u16, Seq<char>),
    LoggedOut,
}

impl View for Event {
    type V = EventView;

    open spec fn view(&self) -> EventView {
        match self {
            Event::Connected => EventView::Connected,
            Event::ConnectFailed => EventView::ConnectFailed,
            Event::LoggedIn => EventView::LoggedIn,
            Event::LoginRejected => EventView::LoginRejected,
            Event::Selected => EventView::Selected,
            Event::SelectFailed => EventView::SelectFailed,
            Event::SearchCompleted(ids) => EventView::SearchCompleted(ids@),
            Event::SearchFailed => EventView::SearchFailed,
            Event::Fetched(message) => EventView::Fetched(message@),
            Event::FetchFailed => EventView::FetchFailed,
            Event::Submitted => EventView::Submitted,
            Event::SinkUnreachable => EventView::SinkUnreachable,
            Event::SubmissionRejected(code, reply) => EventView::SubmissionRejected(*code, reply@),
            Event::LoggedOut => EventView::LoggedOut,
        }
    }
}

/// What the caller is to do next.
#[derive(Debug, PartialEq, Eq)]
pub enum Action {
    /// Open an encrypted connection to the retrieval server, and hold its
    /// certificate to `certificate_domain`, unless `strict` is false. Give up
    /// connecting, and later reading, after `deadline_seconds`, if there are
    /// any.
    Connect {
        host: String,
        port: u16,
        certificate_domain: String,
        strict: bool,
        deadline_seconds: Option<u64>,
    },
    /// Log in with these credentials.
    Login { identity: String, secret: String },
    /// Select this mailbox.
    Select { mailbox: String },
    /// Search the mailbox for the messages that meet this criterion.
    Search { criterion: String },
    /// Retrieve, in this format, the message with this identifier.
    Fetch { id: u32, format: String },
    /// Open a fresh connection to the submission server, log in and send
    /// `message` under `envelope`. Give up after `deadline_seconds`, if there
    /// are any.
    Submit {
        host: String,
        port: u16,
        identity: String,
        secret: String,
        envelope: Envelope,
        message: Vec<u8>,
        deadline_seconds: Option<u64>,
    },
    /// Log out of the retrieval server.
    Logout,
    /// Nothing more: the cycle ended with the number of messages forwarded,
    /// or with the reason why it stopped.
    Finish { outcome: Result<usize, ForwardError> },
}

/// An `Action` with its contents as sequences.
pub ghost enum ActionView {
    Connect {
        host: Seq<char>,
        port: u16,
        certificate_domain: Seq<char>,
        strict: bool,
        deadline_seconds: Option<u64>,
    },
    Login { identity: Seq<char>, secret: Seq<char> },
    Select { mailbox: Seq<char> },
    Search { criterion: Seq<char> },
    Fetch { id: u32, format: Seq<char> },
    Submit {
        host: Seq<char>,
        port: u16,
        identity: Seq<char>,
        secret: Seq<char>,
        envelope: EnvelopeView,
        message: Seq<u8>,
        deadline_seconds: Option<u64>,
    },
    Logout,
    Finish { outcome: Result<nat, ErrorView> },
}

impl View for Action {
    type V = ActionView;

    open spec fn view(&self) -> ActionView {
        match self {
            Action::Connect {
                host,
                port,
                certificate_domain,
                strict,
                deadline_seconds,
            } => ActionView::Connect {
                host: host@,
                port: *port,
                certificate_domain: certificate_domain@,
                strict: *strict,
                deadline_seconds: *deadline_seconds,
            },
            Action::Login { identity, secret } => ActionView::Login {
                identity: identity@,
                secret: secret@,
            },
            Action::Select { mailbox } => ActionView::Select { mailbox: mailbox@ },
            Action::Search { criterion } => ActionView::Search { criterion: criterion@ },
            Action::Fetch { id, format } => ActionView::Fetch { id: *id, format: format@ },
            Action::Submit {
                host,
                port,
                identity,
                secret,
                envelope,
                message,
                deadline_seconds,
            } => ActionView::Submit {
                host: host@,
                port: *port,
                identity: identity@,
                secret: secret@,
                envelope: envelope@,
                message: message@,
                deadline_seconds: *deadline_seconds,
            },
            Action::Logout => ActionView::Logout,
            Action::Finish { outcome } => ActionView::Finish {
                outcome: match outcome {
                    Ok(forwarded) => Ok(*forwarded as nat),
                    Err(failure) => Err(failure@),
                },
            },
        }
    }
}

/// The view of an action that may be absent.
pub open spec fn optional_action(action: Option<Action>) -> Option<ActionView> {
    match action {
        Some(action) => Some(action@),
        None => None,
    }
}

/// The mailbox that is read.
pub open spec fn inbox() -> Seq<char> {
    "INBOX"@
}

/// The format in which a message is retrieved: all of it, header and body.
pub open spec fn whole_message() -> Seq<char> {
    "RFC822"@
}

/// The criterion by which unread messages are found.
pub open spec fn unseen() -> Seq<char> {
    "UNSEEN"@
}

/// The state of a cycle.
pub ghost struct CycleView {
    /// What the cycle was started with.
    pub config: ConfigurationView,
    /// The root domain of the retrieval host.
    pub domain: Seq<char>,
    /// The envelope of every message of the cycle, or why there is none.
    pub envelope: Result<EnvelopeView, ErrorView>,
    /// What the machine is waiting for.
    pub phase: Phase,
    /// How far the retrieval session has come.
    pub session: Session,
    /// The identifiers to forward, each once.
    pub pending: Seq<u32>,
    /// How many of them have been forwarded.
    pub cursor: nat,
    /// Why the cycle stopped, where it did.
    pub failure: Option<ErrorView>,
}

impl CycleView {
    /// What holds of every state that a cycle can be in.
    pub open spec fn wf(self) -> bool {
        &&& self.cursor <= self.pending.len()
        &&& self.pending.no_duplicates()
        &&& match self.phase {
            Phase::Connecting | Phase::Authenticating => {
                &&& self.session is Absent
                &&& self.failure is None
                &&& self.pending.len() == 0
            },
            Phase::Selecting | Phase::Searching => {
                &&& self.session is Open
                &&& self.failure is None
                &&& self.pending.len() == 0
            },
            Phase::Fetching | Phase::Submitting => {
                &&& self.session is Open
                &&& self.failure is None
                &&& self.cursor < self.pending.len()
            },
            Phase::Closing => {
                &&& self.session is Released
                &&& self.failure is None ==> 0 < self.cursor == self.pending.len()
            },
            Phase::Finished => {
                &&& !(self.session is Open)
                &&& self.failure is None ==> self.session is Released && 0 < self.cursor
                    == self.pending.len()
                &&& self.session is Absent ==> self.pending.len() == 0 && (self.failure == Some(
                    ErrorView::InvalidDomain,
                ) || self.failure == Some(ErrorView::ConnectFailed) || self.failure == Some(
                    ErrorView::AuthenticationFailed,
                ))
            },
        }
    }

    /// What the cycle reports when it is over: how many messages it
    /// forwarded, or why it stopped.
    pub open spec fn outcome(self) -> Result<nat, ErrorView> {
        match self.failure {
            Some(failure) => Err(failure),
            None => Ok(self.cursor),
        }
    }

    /// The cycle ends here, before any session was opened.
    pub open spec fn abandoned(self, failure: ErrorView) -> (CycleView, Option<ActionView>) {
        (
            CycleView { phase: Phase::Finished, failure: Some(failure), ..self },
            Some(ActionView::Finish { outcome: Err(failure) }),
        )
    }

    /// The cycle stops here, and the session is closed before the failure is
    /// reported.
    pub open spec fn stopped(self, failure: ErrorView) -> (CycleView, Option<ActionView>) {
        (
            CycleView {
                phase: Phase::Closing,
                session: Session::Released,
                failure: Some(failure),
                ..self
            },
            Some(ActionView::Logout),
        )
    }

    /// The submission of `message` under `envelope`.
    pub open spec fn submission(self, envelope: EnvelopeView, message: Seq<u8>) -> ActionView {
        ActionView::Submit {
            host: self.config.submission_host,
            port: self.config.submission_port,
            identity: self.config.identity,
            secret: self.config.secret,
            envelope,
            message,
            deadline_seconds: self.config.deadline_seconds,
        }
    }
}

/// How a cycle starts, given the root domain of the retrieval host and the
/// envelope of its messages: with the connection to the retrieval server,
/// its certificate held to the root domain; or not at all, where there is no
/// root domain.
pub open spec fn start_spec(
    config: ConfigurationView,
    domain: Option<Seq<char>>,
    envelope: Result<EnvelopeView, ErrorView>,
) -> (CycleView, ActionView) {
    let start = CycleView {
        config,
        domain: Seq::empty(),
        envelope,
        phase: Phase::Connecting,
        session: Session::Absent,
        pending: Seq::empty(),
        cursor: 0,
        failure: None,
    };
    match domain {
        Some(domain) => (
            CycleView { domain, ..start },
            ActionView::Connect {
                host: config.retrieval_host,
                port: config.retrieval_port,
                certificate_domain: domain,
                strict: config.strict_certificates,
                deadline_seconds: config.deadline_seconds,
            },
        ),
        None => (
            CycleView {
                phase: Phase::Finished,
                failure: Some(ErrorView::InvalidDomain),
                ..start
            },
            ActionView::Finish { outcome: Err(ErrorView::InvalidDomain) },
        ),
    }
}

/// The envelope of the messages that a cycle for `config` forwards: from the
/// identity at the root domain of the retrieval host to the configured
/// recipients.
pub open spec fn envelope_for(config: ConfigurationView) -> Result<EnvelopeView, ErrorView> {
    match registrable_root(config.retrieval_host) {
        Some(domain) => envelope_of(config.identity, domain, config.recipients),
        None => Err(ErrorView::InvalidDomain),
    }
}

/// How a cycle for `config` starts: as `start_spec` says, with the root
/// domain of the retrieval host and the envelope for the configuration.
pub open spec fn begin_spec(config: ConfigurationView) -> (CycleView, ActionView) {
    start_spec(config, registrable_root(config.retrieval_host), envelope_for(config))
}

/// The state after `event`, and the action that it calls for. An event that
/// the state is not waiting for changes nothing and calls for nothing.
pub open spec fn step_spec(s: CycleView, event: EventView) -> (CycleView, Option<ActionView>) {
    match s.phase {
        Phase::Connecting => match event {
            EventView::Connected => (
                CycleView { phase: Phase::Authenticating, ..s },
                Some(ActionView::Login { identity: s.config.identity, secret: s.config.secret }),
            ),
            EventView::ConnectFailed => s.abandoned(ErrorView::ConnectFailed),
            _ => (s, None),
        },
        Phase::Authenticating => match event {
            EventView::LoggedIn => (
                CycleView { phase: Phase::Selecting, session: Session::Open, ..s },
                Some(ActionView::Select { mailbox: inbox() }),
            ),
            EventView::LoginRejected => s.abandoned(ErrorView::AuthenticationFailed),
            _ => (s, None),
        },
        Phase::Selecting => match event {
            EventView::Selected => (
                CycleView { phase: Phase::Searching, ..s },
                Some(ActionView::Search { criterion: unseen() }),
            ),
            EventView::SelectFailed => s.stopped(ErrorView::MailboxUnavailable),
            _ => (s, None),
        },
        Phase::Searching => match event {
            EventView::SearchCompleted(ids) => if ids.len() == 0 {
                s.stopped(ErrorView::NoNewMail)
            } else {
                (
                    CycleView { phase: Phase::Fetching, pending: distinct(ids), cursor: 0, ..s },
                    Some(ActionView::Fetch { id: ids[0], format: whole_message() }),
                )
            },
            EventView::SearchFailed => s.stopped(ErrorView::MailboxUnavailable),
            _ => (s, None),
        },
        Phase::Fetching => match event {
            EventView::Fetched(message) => match s.envelope {
                Ok(envelope) => (
                    CycleView { phase: Phase::Submitting, ..s },
                    Some(s.submission(envelope, message)),
                ),
                Err(failure) => s.stopped(failure),
            },
            EventView::FetchFailed => s.stopped(ErrorView::FetchFailed(s.pending[s.cursor as int])),
            _ => (s, None),
        },
        Phase::Submitting => match event {
            EventView::Submitted => if s.cursor + 1 < s.pending.len() {
                (
                    CycleView { phase: Phase::Fetching, cursor: s.cursor + 1, ..s },
                    Some(
                        ActionView::Fetch {
                            id: s.pending[s.cursor as int + 1],
                            format: whole_message(),
                        },
                    ),
                )
            } else {
                (
                    CycleView {
                        phase: Phase::Closing,
                        session: Session::Released,
                        cursor: s.cursor + 1,
                        ..s
                    },
                    Some(ActionView::Logout),
                )
            },
            EventView::SinkUnreachable => s.stopped(ErrorView::ConnectFailed),
            EventView::SubmissionRejected(code, reply) => s.stopped(
                ErrorView::SubmissionRejected(code, reply),
            ),
            _ => (s, None),
        },
        Phase::Closing => match event {
            EventView::LoggedOut => (
                CycleView { phase: Phase::Finished, ..s },
                Some(ActionView::Finish { outcome: s.outcome() }),
            ),
            _ => (s, None),
        },
        Phase::Finished => (s, None),
    }
}

/// The place of the first of `bodies` that is present, if one is.
pub open spec fn first_present(bodies: Seq<Option<Vec<u8>>>) -> Option<int>
    decreases bodies.len(),
{
    if bodies.len() == 0 {
        None
    } else if bodies[0] is Some {
        Some(0)
    } else {
        match first_present(bodies.skip(1)) {
            Some(i) => Some(i + 1),
            None => None,
        }
    }
}

/// The first body that is present is present and none before it is; none
/// is found exactly where all are absent.
pub proof fn lemma_first_present(bodies: Seq<Option<Vec<u8>>>)
    ensures
        match first_present(bodies) {
            Some(i) => 0 <= i < bodies.len() && bodies[i] is Some && forall|k: int|
                0 <= k < i ==> bodies[k] is None,
            None => forall|k: int| 0 <= k < bodies.len() ==> bodies[k] is None,
        },
    decreases bodies.len(),
{
    if bodies.len() > 0 && bodies[0] is None {
        let rest = bodies.skip(1);
        lemma_first_present(rest);
        match first_present(rest) {
            Some(i) => {
                assert(bodies[i + 1] == rest[i]);
                assert forall|k: int| 0 <= k < i + 1 implies bodies[k] is None by {
                    if k > 0 {
                        assert(bodies[k] == rest[k - 1]);
                    }
                }
            },
            None => {
                assert forall|k: int| 0 <= k < bodies.len() implies bodies[k] is None by {
                    if k > 0 {
                        assert(bodies[k] == rest[k - 1]);
                    }
                }
            },
        }
    }
}

/// What a fetch came to, given the body of each item of the server's answer,
/// where the item has one. An identifier names one message, but the answer
/// may hold more items, such as changes of flags, which have no body. The
/// message is the first body that is present; where there is none, the
/// fetch has failed.
pub fn fetch_outcome(bodies: Vec<Option<Vec<u8>>>) -> (event: Event)
    ensures
        match first_present(bodies@) {
            Some(i) => event@ == EventView::Fetched(bodies@[i]->0@),
            None => event@ == EventView::FetchFailed,
        },
{
    let ghost given = bodies@;
    let mut items = bodies;
    let mut i: usize = 0;
    while i < items.len()
        invariant
            i <= items.len(),
            items@ == given,
            bodies@ == given,
            forall|k: int| 0 <= k < i ==> given[k] is None,
        decreases items.len() - i,
    {
        if items[i].is_some() {
            proof {
                lemma_first_present(given);
            }
            let found = items.remove(i);
            return match found {
                Some(body) => Event::Fetched(body),
                None => Event::FetchFailed,
            };
        }
        i += 1;
    }
    proof {
        lemma_first_present(given);
    }
    Event::FetchFailed
}

/// Every step keeps a state well-formed.
pub proof fn lemma_step_keeps_wf(s: CycleView, event: EventView)
    requires
        s.wf(),
    ensures
        step_spec(s, event).0.wf(),
{
    if s.phase == Phase::Searching {
        if let EventView::SearchCompleted(ids) = event {
            lemma_distinct(ids);
        }
    }
}

/// One cycle: the state of the machine between two actions.
#[derive(Debug)]
pub struct Cycle {
    config: Configuration,
    domain: String,
    envelope: Result<Envelope, ForwardError>,
    phase: Phase,
    session: Session,
    pending: Vec<u32>,
    cursor: usize,
    failure: Option<ForwardError>,
}

impl View for Cycle {
    type V = CycleView;

    closed spec fn view(&self) -> CycleView {
        CycleView {
            config: self.config@,
            domain: self.domain@,
            envelope: envelope_view(self.envelope),
            phase: self.phase,
            session: self.session,
            pending: self.pending@,
            cursor: self.cursor as nat,
            failure: match self.failure {
                Some(failure) => Some(failure@),
                None => None,
            },
        }
    }
}

impl Cycle {
    #[verifier::type_invariant]
    spec fn inv(self) -> bool {
        self@.wf()
    }

    /// Starts a cycle with a root domain and an envelope that are given. The
    /// first action is the connection to the retrieval server, whose
    /// certificate is held to `domain`; without a domain the cycle is over at
    /// once, with `InvalidDomain`. Every message of the cycle is submitted
    /// under `envelope`; where that is an error, the cycle stops with it at
    /// the first message that was fetched.
    pub fn start(
        config: Configuration,
        domain: Option<String>,
        envelope: Result<Envelope, ForwardError>,
    ) -> (start: (Cycle, Action))
        ensures
            (start.0@, start.1@) == start_spec(
                config@,
                optional_text(domain),
                envelope_view(envelope),
            ),
            start.0@.wf(),
    {
        match domain {
            Some(domain) => {
                let action = Action::Connect {
                    host: config.retrieval_host.clone(),
                    port: config.retrieval_port,
                    certificate_domain: domain.clone(),
                    strict: config.strict_certificates,
                    deadline_seconds: config.deadline_seconds,
                };
                let cycle = Cycle {
                    config,
                    domain,
                    envelope,
                    phase: Phase::Connecting,
                    session: Session::Absent,
                    pending: Vec::new(),
                    cursor: 0,
                    failure: None,
                };
                (cycle, action)
            },
            None => {
                let cycle = Cycle {
                    config,
                    domain: String::new(),
                    envelope,
                    phase: Phase::Finished,
                    session: Session::Absent,
                    pending: Vec::new(),
                    cursor: 0,
                    failure: Some(ForwardError::InvalidDomain),
                };
                (cycle, Action::Finish { outcome: Err(ForwardError::InvalidDomain) })
            },
        }
    }

    /// Starts a cycle for `config`: with the root domain of the retrieval
    /// host, and with the envelope from the identity at that domain to the
    /// configured recipients. Where the host name has no root domain, the
    /// cycle is over at once, with `InvalidDomain`.
    pub fn begin(config: Configuration) -> (start: (Cycle, Action))
        requires
            config@.wf(),
        ensures
            (start.0@, start.1@) == begin_spec(config@),
            start.0@.wf(),
    {
        match root_domain(config.retrieval_host.as_str()) {
            Ok(domain) => {
                let envelope = build_envelope(
                    config.identity.as_str(),
                    domain.as_str(),
                    config.recipients.as_str(),
                );
                Cycle::start(config, Some(domain), envelope)
            },
            Err(failure) => Cycle::start(config, None, Err(failure)),
        }
    }

    /// What the machine is waiting for.
    pub fn phase(&self) -> (phase: Phase)
        ensures
            phase == self@.phase,
    {
        self.phase
    }

    /// How far the retrieval session has come.
    pub fn session(&self) -> (session: Session)
        ensures
            session == self@.session,
    {
        self.session
    }

    /// How many messages have been forwarded.
    pub fn forwarded(&self) -> (count: usize)
        ensures
            count == self@.cursor,
    {
        self.cursor
    }

    /// Whether the cycle is over.
    pub fn is_finished(&self) -> (over: bool)
        ensures
            over == (self@.phase == Phase::Finished),
    {
        self.phase == Phase::Finished
    }

    fn abandon(self, failure: ForwardError) -> (next: (Cycle, Option<Action>))
        requires
            self@.wf(),
            self@.session is Absent,
            self@.pending.len() == 0,
            failure@ == ErrorView::ConnectFailed || failure@ == ErrorView::AuthenticationFailed,
        ensures
            (next.0@, optional_action(next.1)) == self@.abandoned(failure@),
    {
        let action = Action::Finish { outcome: Err(failure.clone()) };
        (Cycle { phase: Phase::Finished, failure: Some(failure), ..self }, Some(action))
    }

    fn stop(self, failure: ForwardError) -> (next: (Cycle, Option<Action>))
        requires
            self@.wf(),
            self@.session is Open,
        ensures
            (next.0@, optional_action(next.1)) == self@.stopped(failure@),
    {
        (
            Cycle {
                phase: Phase::Closing,
                session: Session::Released,
                failure: Some(failure),
                ..self
            },
            Some(Action::Logout),
        )
    }

    /// Takes in what came of the last action, and says what to do next. An
    /// event that the machine is not waiting for is passed over: the state
    /// stays as it is and there is nothing to do.
    pub fn step(self, event: Event) -> (next: (Cycle, Option<Action>))
        ensures
            (next.0@, optional_action(next.1)) == step_spec(self@, event@),
            next.0@.wf(),
            event@ matches EventView::SearchCompleted(ids) ==> (self@.phase is Searching
                && ids.len() > 0 && ids.no_duplicates() ==> next.0@.pending == ids),
    {
        proof {
            use_type_invariant(&self);
            lemma_step_keeps_wf(self@, event@);
            if let EventView::SearchCompleted(ids) = event@ {
                if ids.no_duplicates() {
                    lemma_distinct_keeps_distinct(ids);
                }
            }
        }
        match self.phase {
            Phase::Connecting => match event {
                Event::Connected => {
                    let action = Action::Login {
                        identity: self.config.identity.clone(),
                        secret: self.config.secret.clone(),
                    };
                    (Cycle { phase: Phase::Authenticating, ..self }, Some(action))
                },
                Event::ConnectFailed => self.abandon(ForwardError::ConnectFailed),
                _ => (self, None),
            },
            Phase::Authenticating => match event {
                Event::LoggedIn => {
                    let action = Action::Select { mailbox: String::from_str("INBOX") };
                    (
                        Cycle { phase: Phase::Selecting, session: Session::Open, ..self },
                        Some(action),
                    )
                },
                Event::LoginRejected => self.abandon(ForwardError::AuthenticationFailed),
                _ => (self, None),
            },
            Phase::Selecting => match event {
                Event::Selected => {
                    let action = Action::Search { criterion: String::from_str("UNSEEN") };
                    (Cycle { phase: Phase::Searching, ..self }, Some(action))
                },
                Event::SelectFailed => self.stop(ForwardError::MailboxUnavailable),
                _ => (self, None),
            },
            Phase::Searching => match event {
                Event::SearchCompleted(ids) => {
                    if ids.len() == 0 {
                        self.stop(ForwardError::NoNewMail)
                    } else {
                        let pending = distinct_in_order(&ids);
                        proof {
                            lemma_distinct(ids@);
                        }
                        let action = Action::Fetch {
                            id: pending[0],
                            format: String::from_str("RFC822"),
                        };
                        (Cycle { phase: Phase::Fetching, pending, cursor: 0, ..self }, Some(action))
                    }
                },
                Event::SearchFailed => self.stop(ForwardError::MailboxUnavailable),
                _ => (self, None),
            },
            Phase::Fetching => match event {
                Event::Fetched(message) => {
                    match &self.envelope {
                        Ok(envelope) => {
                            let action = Action::Submit {
                                host: self.config.submission_host.clone(),
                                port: self.config.submission_port,
                                identity: self.config.identity.clone(),
                                secret: self.config.secret.clone(),
                                envelope: envelope.clone(),
                                message,
                                deadline_seconds: self.config.deadline_seconds,
                            };
                            (Cycle { phase: Phase::Submitting, ..self }, Some(action))
                        },
                        Err(failure) => {
                            let failure = failure.clone();
                            self.stop(failure)
                        },
                    }
                },
                Event::FetchFailed => {
                    let id = self.pending[self.cursor];
                    self.stop(ForwardError::FetchFailed(id))
                },
                _ => (self, None),
            },
            Phase::Submitting => match event {
                Event::Submitted => {
                    let count: usize = self.pending.len();
                    let cursor: usize = self.cursor + 1;
                    if cursor < count {
                        let action = Action::Fetch {
                            id: self.pending[cursor],
                            format: String::from_str("RFC822"),
                        };
                        (Cycle { phase: Phase::Fetching, cursor, ..self }, Some(action))
                    } else {
                        (
                            Cycle {
                                phase: Phase::Closing,
                                session: Session::Released,
                                cursor,
                                ..self
                            },
                            Some(Action::Logout),
                        )
                    }
                },
                Event::SinkUnreachable => self.stop(ForwardError::ConnectFailed),
                Event::SubmissionRejected(code, reply) => self.stop(
                    ForwardError::SubmissionRejected(code, reply),
                ),
                _ => (self, None),
            },
            Phase::Closing => match event {
                Event::LoggedOut => {
                    let outcome = match &self.failure {
                        Some(failure) => Err(failure.clone()),
                        None => Ok(self.cursor),
                    };
                    (Cycle { phase: Phase::Finished, ..self }, Some(Action::Finish { outcome }))
                },
                _ => (self, None),
            },
            Phase::Finished => (self, None),
        }
    }
}

} // verus!
