//! What holds of every cycle, whatever its caller reports: runs of the
//! machine over arbitrary sequences of events, and what the actions of such
//! a run look like.

use crate::address::{envelope_of, sender_text, EnvelopeView};
use crate::batch::{lemma_distinct, lemma_distinct_keeps_distinct};
use crate::config::ConfigurationView;
use crate::cycle::{
    begin_spec, envelope_for, lemma_step_keeps_wf, step_spec, ActionView, CycleView, EventView,
    Phase, Session,
};
use crate::domain::registrable_root;
use crate::error::ErrorView;
use crate::text::tokens;
use vstd::prelude::*;

verus! {

/// The state that a cycle for `config` is in after `events`, and the
/// actions that it has asked for up to there, the first one included.
pub open spec fn run(config: ConfigurationView, events: Seq<EventView>) -> (
    CycleView,
    Seq<ActionView>,
)
    decreases events.len(),
{
    if events.len() == 0 {
        (begin_spec(config).0, seq![begin_spec(config).1])
    } else {
        let (state, actions) = run(config, events.drop_last());
        let (next, action) = step_spec(state, events.last());
        match action {
            Some(action) => (next, actions.push(action)),
            None => (next, actions),
        }
    }
}

/// One message as it is handed to the submission server.
pub ghost struct Submission {
    pub envelope: EnvelopeView,
    pub message: Seq<u8>,
}

/// How often `actions` asks for a logout.
pub open spec fn logouts(actions: Seq<ActionView>) -> nat
    decreases actions.len(),
{
    if actions.len() == 0 {
        0
    } else if actions.last() is Logout {
        logouts(actions.drop_last()) + 1
    } else {
        logouts(actions.drop_last())
    }
}

/// The identifiers that `actions` asks to fetch, in their order.
pub open spec fn fetches(actions: Seq<ActionView>) -> Seq<u32>
    decreases actions.len(),
{
    if actions.len() == 0 {
        Seq::empty()
    } else {
        match actions.last() {
            ActionView::Fetch { id, .. } => fetches(actions.drop_last()).push(id),
            _ => fetches(actions.drop_last()),
        }
    }
}

/// The submissions that `actions` asks for, in their order.
pub open spec fn submissions(actions: Seq<ActionView>) -> Seq<Submission>
    decreases actions.len(),
{
    if actions.len() == 0 {
        Seq::empty()
    } else {
        match actions.last() {
            ActionView::Submit { envelope, message, .. } => submissions(actions.drop_last()).push(
                Submission { envelope, message },
            ),
            _ => submissions(actions.drop_last()),
        }
    }
}

/// How far a state that has stopped had come: how many messages it had
/// asked to fetch and how many it had handed to the submission server.
pub open spec fn progress_at_rest(s: CycleView) -> (nat, nat) {
    match s.failure {
        None => (s.cursor, s.cursor),
        Some(ErrorView::FetchFailed(_)) | Some(ErrorView::InvalidAddress(_)) => (
            s.cursor + 1,
            s.cursor,
        ),
        Some(ErrorView::SubmissionRejected(_, _)) => (s.cursor + 1, s.cursor + 1),
        Some(ErrorView::ConnectFailed) => if s.session is Absent {
            (0, 0)
        } else {
            (s.cursor + 1, s.cursor + 1)
        },
        Some(_) => (0, 0),
    }
}

/// How the actions asked for so far fit the state that asked for them.
pub open spec fn coherent(s: CycleView, actions: Seq<ActionView>) -> bool {
    let fetched = fetches(actions);
    let sent = submissions(actions);
    &&& logouts(actions) == if s.session is Released {
        1nat
    } else {
        0nat
    }
    &&& fetched.len() <= s.pending.len()
    &&& fetched == s.pending.take(fetched.len() as int)
    &&& forall|k: int|
        0 <= k < sent.len() ==> s.envelope == Ok::<EnvelopeView, ErrorView>(
            (#[trigger] sent[k]).envelope,
        )
    &&& s.envelope matches Err(e) ==> e is InvalidAddress || s.failure == Some(
        ErrorView::InvalidDomain,
    )
    &&& match s.phase {
        Phase::Connecting | Phase::Authenticating | Phase::Selecting | Phase::Searching => {
            fetched.len() == 0 && sent.len() == 0
        },
        Phase::Fetching => fetched.len() == s.cursor + 1 && sent.len() == s.cursor,
        Phase::Submitting => fetched.len() == s.cursor + 1 && sent.len() == s.cursor + 1,
        Phase::Closing | Phase::Finished => {
            &&& (fetched.len(), sent.len()) == progress_at_rest(s)
            &&& s.failure matches Some(ErrorView::FetchFailed(id)) ==> s.cursor < s.pending.len()
                && s.pending[s.cursor as int] == id
            &&& s.failure matches Some(ErrorView::InvalidAddress(text)) ==> s.envelope == Err::<
                EnvelopeView,
                ErrorView,
            >(ErrorView::InvalidAddress(text))
            &&& s.failure == Some(ErrorView::NoNewMail) ==> s.pending.len() == 0
        },
    }
}

proof fn lemma_pushed(actions: Seq<ActionView>, action: ActionView)
    ensures
        logouts(actions.push(action)) == logouts(actions) + if action is Logout {
            1nat
        } else {
            0nat
        },
        fetches(actions.push(action)) == match action {
            ActionView::Fetch { id, .. } => fetches(actions).push(id),
            _ => fetches(actions),
        },
        submissions(actions.push(action)) == match action {
            ActionView::Submit { envelope, message, .. } => submissions(actions).push(
                Submission { envelope, message },
            ),
            _ => submissions(actions),
        },
{
    assert(actions.push(action).drop_last() =~= actions);
}

proof fn lemma_step_coherent(s: CycleView, actions: Seq<ActionView>, event: EventView)
    requires
        s.wf(),
        coherent(s, actions),
    ensures
        match step_spec(s, event).1 {
            Some(action) => coherent(step_spec(s, event).0, actions.push(action)),
            None => coherent(step_spec(s, event).0, actions),
        },
{
    let (next, action) = step_spec(s, event);
    if action is Some {
        lemma_pushed(actions, action->0);
    }
    let fetched = fetches(actions);
    match s.phase {
        Phase::Searching => {
            if let EventView::SearchCompleted(ids) = event {
                lemma_distinct(ids);
                if ids.len() > 0 {
                    assert(seq![ids[0]] =~= next.pending.take(1));
                    assert(fetched.push(ids[0]) =~= seq![ids[0]]);
                }
            }
        },
        Phase::Submitting => {
            if event is Submitted && s.cursor + 1 < s.pending.len() {
                assert(fetched.push(s.pending[s.cursor as int + 1]) =~= s.pending.take(
                    fetched.len() as int + 1,
                ));
            }
        },
        _ => {},
    }
}

/// Every run keeps the state well-formed and its actions coherent with it,
/// and leaves the configuration, the root domain and the envelope as they
/// were at the start.
pub proof fn lemma_run_coherent(config: ConfigurationView, events: Seq<EventView>)
    ensures
        run(config, events).0.wf(),
        run(config, events).0.config == config,
        run(config, events).0.domain == begin_spec(config).0.domain,
        run(config, events).0.envelope == envelope_for(config),
        coherent(run(config, events).0, run(config, events).1),
    decreases events.len(),
{
    if events.len() == 0 {
        let (s, first) = begin_spec(config);
        let actions = seq![first];
        lemma_pushed(Seq::empty(), first);
        assert(Seq::<ActionView>::empty().push(first) =~= actions);
        assert(fetches(actions) =~= s.pending.take(0));
    } else {
        lemma_run_coherent(config, events.drop_last());
        let (s, actions) = run(config, events.drop_last());
        lemma_step_keeps_wf(s, events.last());
        lemma_step_coherent(s, actions, events.last());
    }
}

/// A run over one more event is the run so far and one step.
pub proof fn lemma_run_push(config: ConfigurationView, events: Seq<EventView>, event: EventView)
    ensures
        run(config, events.push(event)).0 == step_spec(run(config, events).0, event).0,
        run(config, events.push(event)).1 == match step_spec(run(config, events).0, event).1 {
            Some(action) => run(config, events).1.push(action),
            None => run(config, events).1,
        },
{
    assert(events.push(event).drop_last() =~= events);
}

proof fn lemma_state_before(config: ConfigurationView, events: Seq<EventView>, n: int)
    requires
        0 < n <= events.len(),
    ensures
        run(config, events.take(n)).0 == step_spec(
            run(config, events.take(n - 1)).0,
            events[n - 1],
        ).0,
{
    assert(events.take(n).drop_last() =~= events.take(n - 1));
}

/// The logout is asked for at most once, and exactly once where a session
/// was opened: after every sequence of events the number of logouts asked
/// for is one where the session has been released and none where it has
/// not; a cycle that is over leaves no session open; and a cycle that is
/// over with messages forwarded, without new mail, or stopped by the
/// mailbox, by a fetch, by an address or by a rejected submission, has asked
/// for the logout exactly once.
pub proof fn lemma_session_closed_once(config: ConfigurationView, events: Seq<EventView>)
    ensures
        logouts(run(config, events).1) <= 1,
        logouts(run(config, events).1) == 1 <==> run(config, events).0.session is Released,
        run(config, events).0.phase is Finished ==> !(run(config, events).0.session is Open),
        run(config, events).0.phase is Finished ==> match run(config, events).0.outcome() {
            Ok(_) => logouts(run(config, events).1) == 1,
            Err(ErrorView::NoNewMail) => logouts(run(config, events).1) == 1,
            Err(ErrorView::MailboxUnavailable) => logouts(run(config, events).1) == 1,
            Err(ErrorView::FetchFailed(_)) => logouts(run(config, events).1) == 1,
            Err(ErrorView::InvalidAddress(_)) => logouts(run(config, events).1) == 1,
            Err(ErrorView::SubmissionRejected(_, _)) => logouts(run(config, events).1) == 1,
            Err(_) => true,
        },
{
    lemma_run_coherent(config, events);
}

/// A session that was opened is not forgotten: where it was open or
/// released after the first `n` events, it is released once the cycle is
/// over, and the logout was asked for exactly once.
pub proof fn lemma_opened_session_is_closed(
    config: ConfigurationView,
    events: Seq<EventView>,
    n: int,
)
    requires
        0 <= n <= events.len(),
        !(run(config, events.take(n)).0.session is Absent),
    ensures
        !(run(config, events).0.session is Absent),
        run(config, events).0.phase is Finished ==> logouts(run(config, events).1) == 1,
    decreases events.len() - n,
{
    if n == events.len() {
        assert(events.take(n) =~= events);
        lemma_session_closed_once(config, events);
    } else {
        lemma_run_coherent(config, events.take(n));
        lemma_state_before(config, events, n + 1);
        lemma_opened_session_is_closed(config, events, n + 1);
    }
}

proof fn lemma_no_new_mail_is_kept(
    config: ConfigurationView,
    events: Seq<EventView>,
    i: int,
    n: int,
)
    requires
        0 <= i < n <= events.len(),
        run(config, events.take(i)).0.phase is Searching,
        events[i] matches EventView::SearchCompleted(ids) && ids.len() == 0,
    ensures
        run(config, events.take(n)).0.failure == Some(ErrorView::NoNewMail),
        run(config, events.take(n)).0.phase is Closing || run(config, events.take(n)).0.phase
            is Finished,
    decreases n - i,
{
    lemma_state_before(config, events, n);
    if n > i + 1 {
        lemma_no_new_mail_is_kept(config, events, i, n - 1);
    }
}

/// Where the search finds no unread message, the cycle reports that there
/// is no new mail and nothing is fetched or submitted: if the machine was
/// waiting for the search when event `i` said that it found nothing, then
/// whatever else is reported, no fetch and no submission is ever asked for,
/// the logout is asked for once, and the cycle's outcome is `NoNewMail`.
pub proof fn lemma_empty_search_forwards_nothing(
    config: ConfigurationView,
    events: Seq<EventView>,
    i: int,
)
    requires
        0 <= i < events.len(),
        run(config, events.take(i)).0.phase is Searching,
        events[i] matches EventView::SearchCompleted(ids) && ids.len() == 0,
    ensures
        run(config, events).0.outcome() == Err::<nat, ErrorView>(ErrorView::NoNewMail),
        fetches(run(config, events).1).len() == 0,
        submissions(run(config, events).1).len() == 0,
        logouts(run(config, events).1) == 1,
{
    lemma_no_new_mail_is_kept(config, events, i, events.len() as int);
    assert(events.take(events.len() as int) =~= events);
    lemma_run_coherent(config, events);
}

/// Each identifier is acted on at most once, in the order of the search:
/// the identifiers fetched so far are the first of the pending ones, which
/// hold none twice; and a message is submitted only after it was fetched,
/// one at a time.
pub proof fn lemma_identifiers_once_in_order(config: ConfigurationView, events: Seq<EventView>)
    ensures
        fetches(run(config, events).1).len() <= run(config, events).0.pending.len(),
        fetches(run(config, events).1) == run(config, events).0.pending.take(
            fetches(run(config, events).1).len() as int,
        ),
        fetches(run(config, events).1).no_duplicates(),
        submissions(run(config, events).1).len() <= fetches(run(config, events).1).len()
            <= submissions(run(config, events).1).len() + 1,
{
    lemma_run_coherent(config, events);
    let (s, actions) = run(config, events);
    let fetched = fetches(actions);
    assert forall|i: int, j: int|
        0 <= i < fetched.len() && 0 <= j < fetched.len() && i != j implies fetched[i]
        != fetched[j] by {
        assert(fetched[i] == s.pending[i]);
        assert(fetched[j] == s.pending[j]);
    }
}

/// The first failure ends the batch. Where a cycle has stopped because the
/// message `id` could not be fetched, `id` is the pending identifier after
/// those that were forwarded, it is the last that was asked for, every
/// message before it was submitted and none after, and the logout was asked
/// for.
pub proof fn lemma_fetch_failure_stops_batch(
    config: ConfigurationView,
    events: Seq<EventView>,
    id: u32,
)
    requires
        run(config, events).0.failure == Some(ErrorView::FetchFailed(id)),
    ensures
        run(config, events).0.cursor < run(config, events).0.pending.len(),
        run(config, events).0.pending[run(config, events).0.cursor as int] == id,
        fetches(run(config, events).1) == run(config, events).0.pending.take(
            run(config, events).0.cursor as int + 1,
        ),
        submissions(run(config, events).1).len() == run(config, events).0.cursor,
        logouts(run(config, events).1) == 1,
{
    lemma_run_coherent(config, events);
}

proof fn lemma_invalid_domain_is_kept(config: ConfigurationView, events: Seq<EventView>)
    requires
        registrable_root(config.retrieval_host) is None,
    ensures
        run(config, events).0 == begin_spec(config).0,
        run(config, events).1 == seq![begin_spec(config).1],
    decreases events.len(),
{
    if events.len() > 0 {
        lemma_invalid_domain_is_kept(config, events.drop_last());
    }
}

/// A host name without a root domain ends the cycle before it starts: the
/// only action is the report of `InvalidDomain`, whatever is reported back.
pub proof fn lemma_invalid_domain_does_nothing(config: ConfigurationView, events: Seq<EventView>)
    requires
        registrable_root(config.retrieval_host) is None,
    ensures
        run(config, events).0.phase is Finished,
        run(config, events).0.outcome() == Err::<nat, ErrorView>(ErrorView::InvalidDomain),
        run(config, events).1 == seq![
            ActionView::Finish { outcome: Err(ErrorView::InvalidDomain) },
        ],
{
    lemma_invalid_domain_is_kept(config, events);
}

/// Every submission is made under the one envelope of the configuration:
/// its sender is the identity at the root domain of the retrieval host, and
/// its recipients are the tokens of the configured list, each of them and
/// the sender a valid address.
pub proof fn lemma_submissions_carry_envelope(
    config: ConfigurationView,
    events: Seq<EventView>,
    k: int,
)
    requires
        0 <= k < submissions(run(config, events).1).len(),
    ensures
        registrable_root(config.retrieval_host) is Some,
        envelope_of(
            config.identity,
            registrable_root(config.retrieval_host)->0,
            config.recipients,
        ) == Ok::<EnvelopeView, ErrorView>(submissions(run(config, events).1)[k].envelope),
        submissions(run(config, events).1)[k].envelope.sender == sender_text(
            config.identity,
            registrable_root(config.retrieval_host)->0,
        ),
        submissions(run(config, events).1)[k].envelope.recipients == tokens(config.recipients),
        submissions(run(config, events).1)[k].envelope.valid(),
{
    lemma_run_coherent(config, events);
    crate::address::lemma_recipients_of(config.recipients);
}

/// No message is submitted under an invalid address. Where the sender or a
/// recipient of the configuration is no valid address, no submission is
/// ever asked for; and a cycle that stopped with `InvalidAddress` names the
/// text that the envelope was refused for, and had submitted nothing.
pub proof fn lemma_invalid_address_blocks_submission(
    config: ConfigurationView,
    events: Seq<EventView>,
)
    ensures
        envelope_for(config) is Err ==> submissions(run(config, events).1).len() == 0,
        run(config, events).0.failure matches Some(ErrorView::InvalidAddress(text)) ==> {
            &&& envelope_for(config) == Err::<EnvelopeView, ErrorView>(
                ErrorView::InvalidAddress(text),
            )
            &&& submissions(run(config, events).1).len() == 0
        },
{
    lemma_run_coherent(config, events);
    let sent = submissions(run(config, events).1);
    if sent.len() > 0 {
        assert(envelope_for(config) == Ok::<EnvelopeView, ErrorView>(sent[0].envelope));
    }
}

/// The events of a cycle up to the search, where everything goes well and
/// the search finds `ids`.
pub open spec fn opening(ids: Seq<u32>) -> Seq<EventView> {
    seq![
        EventView::Connected,
        EventView::LoggedIn,
        EventView::Selected,
        EventView::SearchCompleted(ids),
    ]
}

/// The events of messages that are fetched and submitted one after the
/// other: for each of `bodies`, that it was fetched and that it was
/// accepted.
pub open spec fn deliveries(bodies: Seq<Seq<u8>>) -> Seq<EventView>
    decreases bodies.len(),
{
    if bodies.len() == 0 {
        Seq::empty()
    } else {
        deliveries(bodies.drop_last()).push(EventView::Fetched(bodies.last())).push(
            EventView::Submitted,
        )
    }
}

/// What is submitted where everything goes well: each of `bodies` in its
/// order, under `envelope`.
pub open spec fn submitted_under(envelope: EnvelopeView, bodies: Seq<Seq<u8>>) -> Seq<Submission> {
    Seq::new(bodies.len(), |k: int| Submission { envelope, message: bodies[k] })
}

proof fn lemma_deliveries(
    config: ConfigurationView,
    envelope: EnvelopeView,
    ids: Seq<u32>,
    bodies: Seq<Seq<u8>>,
    k: int,
)
    requires
        envelope_for(config) == Ok::<EnvelopeView, ErrorView>(envelope),
        ids.no_duplicates(),
        0 < ids.len() == bodies.len(),
        0 <= k <= ids.len(),
    ensures
        ({
            let (s, actions) = run(config, opening(ids) + deliveries(bodies.take(k)));
            &&& s.pending == ids
            &&& s.cursor == k
            &&& s.failure is None
            &&& s.envelope == Ok::<EnvelopeView, ErrorView>(envelope)
            &&& s.config == config
            &&& submissions(actions) == submitted_under(envelope, bodies.take(k))
            &&& if k < ids.len() {
                &&& s.phase is Fetching
                &&& fetches(actions) == ids.take(k + 1)
                &&& logouts(actions) == 0
            } else {
                &&& s.phase is Closing
                &&& fetches(actions) == ids
                &&& logouts(actions) == 1
            }
        }),
    decreases k,
{
    if k == 0 {
        let e0 = Seq::<EventView>::empty();
        let e1 = e0.push(EventView::Connected);
        let e2 = e1.push(EventView::LoggedIn);
        let e3 = e2.push(EventView::Selected);
        let e4 = e3.push(EventView::SearchCompleted(ids));
        assert(bodies.take(0) =~= Seq::<Seq<u8>>::empty());
        assert(opening(ids) + deliveries(bodies.take(0)) =~= e4);
        let first = begin_spec(config).1;
        lemma_pushed(Seq::empty(), first);
        assert(Seq::<ActionView>::empty().push(first) =~= seq![first]);
        lemma_run_push(config, e0, EventView::Connected);
        lemma_pushed(run(config, e0).1, run(config, e1).1.last());
        lemma_run_push(config, e1, EventView::LoggedIn);
        lemma_pushed(run(config, e1).1, run(config, e2).1.last());
        lemma_run_push(config, e2, EventView::Selected);
        lemma_pushed(run(config, e2).1, run(config, e3).1.last());
        lemma_run_push(config, e3, EventView::SearchCompleted(ids));
        lemma_pushed(run(config, e3).1, run(config, e4).1.last());
        lemma_distinct_keeps_distinct(ids);
        lemma_distinct(ids);
        assert(fetches(run(config, e4).1) =~= ids.take(1));
        assert(submissions(run(config, e4).1) =~= submitted_under(envelope, bodies.take(0)));
    } else {
        lemma_deliveries(config, envelope, ids, bodies, k - 1);
        let before = opening(ids) + deliveries(bodies.take(k - 1));
        let fetched = EventView::Fetched(bodies[k - 1]);
        let mid = before.push(fetched);
        let after = mid.push(EventView::Submitted);
        assert(bodies.take(k).drop_last() =~= bodies.take(k - 1));
        assert(bodies.take(k).last() == bodies[k - 1]);
        assert(opening(ids) + deliveries(bodies.take(k)) =~= after);
        lemma_run_push(config, before, fetched);
        lemma_pushed(run(config, before).1, run(config, mid).1.last());
        lemma_run_push(config, mid, EventView::Submitted);
        lemma_pushed(run(config, mid).1, run(config, after).1.last());
        assert(submissions(run(config, after).1) =~= submitted_under(envelope, bodies.take(k)));
        if k < ids.len() {
            assert(fetches(run(config, after).1) =~= ids.take(k + 1));
        } else {
            assert(ids.take(k) =~= ids);
        }
    }
}

/// Where everything goes well, every message is forwarded, in the order of
/// the search. For a configuration whose envelope is `envelope`: where the
/// search finds the identifiers `ids`, none twice, each fetch gives the body
/// at its place in `bodies`, each submission is accepted, and the logout is
/// made, the cycle is over with as many messages forwarded as were found;
/// it has asked to fetch exactly `ids`, in their order; it has handed the
/// submission server exactly the bodies, in that order, each under
/// `envelope`; and it has asked for the logout once.
pub proof fn lemma_every_message_forwarded(
    config: ConfigurationView,
    envelope: EnvelopeView,
    ids: Seq<u32>,
    bodies: Seq<Seq<u8>>,
)
    requires
        envelope_for(config) == Ok::<EnvelopeView, ErrorView>(envelope),
        ids.no_duplicates(),
        0 < ids.len() == bodies.len(),
    ensures
        ({
            let events = (opening(ids) + deliveries(bodies)).push(EventView::LoggedOut);
            let (s, actions) = run(config, events);
            &&& s.phase is Finished
            &&& s.outcome() == Ok::<nat, ErrorView>(ids.len())
            &&& fetches(actions) == ids
            &&& submissions(actions) == submitted_under(envelope, bodies)
            &&& logouts(actions) == 1
            &&& actions.last() == (ActionView::Finish { outcome: Ok(ids.len()) })
        }),
{
    let n = ids.len() as int;
    lemma_deliveries(config, envelope, ids, bodies, n);
    assert(bodies.take(n) =~= bodies);
    let before = opening(ids) + deliveries(bodies);
    lemma_run_push(config, before, EventView::LoggedOut);
    lemma_pushed(run(config, before).1, ActionView::Finish { outcome: Ok(ids.len()) });
}

} // verus!
