//! What holds of a session over its whole life, and of the lines it
//! handles, whatever the server and the callers do.

use crate::codec::{command_line, ParsedMessageView};
use crate::connection::{ConnectionCommandView, ConnectionConfigView};
use crate::messages::{IrcEventView, MessageKind};
use crate::session::{
    chat,
    command_actions,
    ends_session,
    line_actions,
    new_message,
    next_state,
    privmsg_actions,
    report_end,
    sender_of,
    step_actions,
    SessionActionView,
    SessionEventView,
    SessionState,
};
use crate::text::same_ignoring_ascii_case;
use vstd::prelude::*;

verus! {

/// Whether the action reports the end of the session to the event sink.
pub open spec fn reports_end(action: SessionActionView) -> bool {
    match action {
        SessionActionView::Emit(event) => event is Disconnected,
        _ => false,
    }
}

/// How many of the actions report the end of the session.
pub open spec fn end_reports(actions: Seq<SessionActionView>) -> nat
    decreases actions.len(),
{
    if actions.len() == 0 {
        0
    } else {
        end_reports(actions.drop_last()) + if reports_end(actions.last()) {
            1nat
        } else {
            0nat
        }
    }
}

/// Every action a session takes, in order, when it starts in `state` and is
/// fed `inputs`: events, each with the time at which it is taken.
pub open spec fn trace(
    id: Seq<char>,
    config: ConnectionConfigView,
    state: SessionState,
    inputs: Seq<(SessionEventView, i64)>,
) -> Seq<SessionActionView>
    decreases inputs.len(),
{
    if inputs.len() == 0 {
        Seq::empty()
    } else {
        step_actions(id, config, state, inputs[0].0, inputs[0].1) + trace(
            id,
            config,
            next_state(state, inputs[0].0),
            inputs.drop_first(),
        )
    }
}

/// The state a session is in after it took `inputs`, starting in `state`.
pub open spec fn end_state(state: SessionState, inputs: Seq<(SessionEventView, i64)>) -> SessionState
    decreases inputs.len(),
{
    if inputs.len() == 0 {
        state
    } else {
        end_state(next_state(state, inputs[0].0), inputs.drop_first())
    }
}

/// Whether a session that starts in `state` is ready at some point while it
/// takes `inputs`.
pub open spec fn becomes_ready(state: SessionState, inputs: Seq<(SessionEventView, i64)>) -> bool
    decreases inputs.len(),
{
    state == SessionState::Ready || (inputs.len() > 0 && becomes_ready(
        next_state(state, inputs[0].0),
        inputs.drop_first(),
    ))
}

/// Whether the session is over: closing or closed.
pub open spec fn is_over(state: SessionState) -> bool {
    state == SessionState::Closing || state == SessionState::Closed
}

/// The end reports of two runs of actions add up.
pub proof fn lemma_end_reports_concat(a: Seq<SessionActionView>, b: Seq<SessionActionView>)
    ensures
        end_reports(a + b) == end_reports(a) + end_reports(b),
    decreases b.len(),
{
    if b.len() == 0 {
        assert(a + b =~= a);
    } else {
        assert((a + b).drop_last() =~= a + b.drop_last());
        assert((a + b).last() == b.last());
        lemma_end_reports_concat(a, b.drop_last());
    }
}

/// Actions of which none reports the end hold no end report.
pub proof fn lemma_end_reports_none(actions: Seq<SessionActionView>)
    requires
        forall|i: int| 0 <= i < actions.len() ==> !reports_end(#[trigger] actions[i]),
    ensures
        end_reports(actions) == 0,
    decreases actions.len(),
{
    if actions.len() > 0 {
        let rest = actions.drop_last();
        assert forall|i: int| 0 <= i < rest.len() implies !reports_end(#[trigger] rest[i]) by {
            assert(rest[i] == actions[i]);
        }
        lemma_end_reports_none(rest);
    }
}

/// Handling an inbound line never reports the end of the session.
pub proof fn lemma_line_never_reports_end(
    id: Seq<char>,
    config: ConnectionConfigView,
    p: ParsedMessageView,
    now: i64,
)
    ensures
        end_reports(line_actions(id, config, p, now)) == 0,
{
    lemma_end_reports_none(line_actions(id, config, p, now));
}

proof fn lemma_end_reports_one(action: SessionActionView)
    ensures
        end_reports(seq![action]) == if reports_end(action) {
            1nat
        } else {
            0nat
        },
{
    let single = seq![action];
    assert(single.len() == 1);
    assert(single.last() == action);
    assert(single.drop_last().len() == 0);
    assert(end_reports(single.drop_last()) == 0);
}

/// A command from the inbox makes the session report its end exactly when
/// the command is a quit, and then once.
pub proof fn lemma_command_end_reports(
    id: Seq<char>,
    config: ConnectionConfigView,
    command: ConnectionCommandView,
    now: i64,
)
    ensures
        end_reports(command_actions(id, config, command, now)) == if command is Quit {
            1nat
        } else {
            0nat
        },
{
    let sent = seq![SessionActionView::Send(command_line(command))];
    lemma_end_reports_one(sent[0]);
    match command {
        ConnectionCommandView::Privmsg { target, message } => {
            let echo = chat(
                new_message(
                    id,
                    target,
                    Some(config.nickname),
                    message,
                    MessageKind::Privmsg,
                    now,
                ),
            );
            lemma_end_reports_none(echo);
            lemma_end_reports_concat(sent, echo);
        },
        ConnectionCommandView::Quit { reason } => {
            let end = report_end(id, reason);
            lemma_end_reports_one(end[0]);
            assert(end =~= seq![end[0]]);
            lemma_end_reports_concat(sent, end);
        },
        _ => {},
    }
}

/// One step reports the end of the session exactly when it takes a ready
/// session out of the ready state, and then once.
pub proof fn lemma_step_end_reports(
    id: Seq<char>,
    config: ConnectionConfigView,
    state: SessionState,
    event: SessionEventView,
    now: i64,
)
    ensures
        end_reports(step_actions(id, config, state, event, now)) == if state == SessionState::Ready
            && ends_session(event) {
            1nat
        } else {
            0nat
        },
{
    let actions = step_actions(id, config, state, event, now);
    if state == SessionState::Ready {
        match event {
            SessionEventView::Line(line) => {
                lemma_end_reports_none(actions);
            },
            SessionEventView::Command(command) => {
                lemma_command_end_reports(id, config, command, now);
            },
            _ => {
                if ends_session(event) {
                    assert(actions =~= seq![actions[0]]);
                    lemma_end_reports_one(actions[0]);
                } else {
                    lemma_end_reports_none(actions);
                }
            },
        }
    } else {
        lemma_end_reports_none(actions);
    }
}

/// A session that is over stays over.
pub proof fn lemma_over_stays_over(state: SessionState, inputs: Seq<(SessionEventView, i64)>)
    requires
        is_over(state),
    ensures
        is_over(end_state(state, inputs)),
        !becomes_ready(state, inputs),
    decreases inputs.len(),
{
    if inputs.len() > 0 {
        lemma_over_stays_over(next_state(state, inputs[0].0), inputs.drop_first());
    }
}

/// Over its whole life a session reports its end at most once: exactly once
/// if it was ever ready and is over, and not at all otherwise. Events that
/// arrive after the end, a quit after the peer closed among them, add no
/// second report.
pub proof fn lemma_one_end_report_per_session(
    id: Seq<char>,
    config: ConnectionConfigView,
    state: SessionState,
    inputs: Seq<(SessionEventView, i64)>,
)
    ensures
        end_reports(trace(id, config, state, inputs)) == if becomes_ready(state, inputs) && is_over(
            end_state(state, inputs),
        ) {
            1nat
        } else {
            0nat
        },
    decreases inputs.len(),
{
    if inputs.len() > 0 {
        let event = inputs[0].0;
        let next = next_state(state, event);
        let rest = inputs.drop_first();
        lemma_step_end_reports(id, config, state, event, inputs[0].1);
        lemma_one_end_report_per_session(id, config, next, rest);
        lemma_end_reports_concat(
            step_actions(id, config, state, event, inputs[0].1),
            trace(id, config, next, rest),
        );
        if is_over(next) {
            lemma_over_stays_over(next, rest);
        }
    }
}

/// A ready session that is sent a quit, at any point among other events,
/// is over afterwards and has reported its end exactly once.
pub proof fn lemma_quit_reports_end_once(
    id: Seq<char>,
    config: ConnectionConfigView,
    inputs: Seq<(SessionEventView, i64)>,
    at: int,
)
    requires
        0 <= at < inputs.len(),
        inputs[at].0 is Command,
        inputs[at].0->Command_0 is Quit,
    ensures
        is_over(end_state(SessionState::Ready, inputs)),
        end_reports(trace(id, config, SessionState::Ready, inputs)) == 1,
{
    lemma_quit_ends_session(SessionState::Ready, inputs, at);
    lemma_one_end_report_per_session(id, config, SessionState::Ready, inputs);
}

proof fn lemma_quit_ends_session(
    state: SessionState,
    inputs: Seq<(SessionEventView, i64)>,
    at: int,
)
    requires
        state == SessionState::Ready || is_over(state),
        0 <= at < inputs.len(),
        inputs[at].0 is Command,
        inputs[at].0->Command_0 is Quit,
    ensures
        is_over(end_state(state, inputs)),
    decreases inputs.len(),
{
    let next = next_state(state, inputs[0].0);
    let rest = inputs.drop_first();
    if is_over(next) {
        lemma_over_stays_over(next, rest);
    } else {
        assert(at > 0);
        assert(rest[at - 1] == inputs[at]);
        lemma_quit_ends_session(next, rest, at - 1);
    }
}

/// A message addressed to our own nickname, in whatever ASCII case, is
/// filed under its sender: both the appended and the emitted copy carry the
/// sender as their target.
pub proof fn lemma_direct_message_filed_under_sender(
    id: Seq<char>,
    config: ConnectionConfigView,
    p: ParsedMessageView,
    now: i64,
)
    requires
        p.command == "PRIVMSG"@,
        p.params.len() > 0,
        same_ignoring_ascii_case(p.params[0], config.nickname),
        sender_of(p) is Some,
    ensures
        ({
            let actions = line_actions(id, config, p, now);
            &&& actions.len() == 2
            &&& actions[0] is Append
            &&& actions[0]->Append_0.target == sender_of(p)->0
            &&& actions[1] == SessionActionView::Emit(
                IrcEventView::Message { data: actions[0]->Append_0 },
            )
        }),
{
    reveal_strlit("PRIVMSG");
    reveal_strlit("PING");
    reveal_strlit("001");
    reveal_strlit("353");
    reveal_strlit("332");
    assert("PRIVMSG"@.len() == 7);
    assert(line_actions(id, config, p, now) == privmsg_actions(id, config, p, now));
}

} // verus!
