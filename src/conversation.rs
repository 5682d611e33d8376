//! The conversation state machine and the ordered message history.

use vstd::prelude::*;

verus! {

#[derive(Clone, Copy, PartialEq, Eq, Debug, Structural)]
pub enum SessionStatus {
    Idle,
    Listening,
    FinalizingAsr,
    Thinking,
    Responding,
    Speaking,
}

/// The state that follows `s` in the conversation cycle.
pub open spec fn next_in_cycle(s: SessionStatus) -> SessionStatus {
    match s {
        SessionStatus::Idle => SessionStatus::Listening,
        SessionStatus::Listening => SessionStatus::FinalizingAsr,
        SessionStatus::FinalizingAsr => SessionStatus::Thinking,
        SessionStatus::Thinking => SessionStatus::Responding,
        SessionStatus::Responding => SessionStatus::Speaking,
        SessionStatus::Speaking => SessionStatus::Idle,
    }
}

/// A transition is legal along the cycle, or to `Idle` from anywhere.
pub open spec fn is_legal(from: SessionStatus, to: SessionStatus) -> bool {
    to == SessionStatus::Idle || to == next_in_cycle(from)
}

#[derive(Clone, Copy, PartialEq, Eq, Debug, Structural)]
pub enum Role {
    User,
    Assistant,
}

pub struct Message {
    pub role: Role,
    pub content: String,
    pub timestamp: u64,
}

/// A rejected transition: the state it was asked from, and the one asked for.
#[derive(Clone, Copy, PartialEq, Eq, Debug, Structural)]
pub struct InvalidTransition {
    pub from: SessionStatus,
    pub to: SessionStatus,
}

/// The name by which a state is published to the host.
pub open spec fn status_text(s: SessionStatus) -> Seq<char> {
    match s {
        SessionStatus::Idle => "Idle"@,
        SessionStatus::Listening => "Listening"@,
        SessionStatus::FinalizingAsr => "FinalizingASR"@,
        SessionStatus::Thinking => "Thinking"@,
        SessionStatus::Responding => "Responding"@,
        SessionStatus::Speaking => "Speaking"@,
    }
}

impl InvalidTransition {
    /// A description naming both states.
    pub fn message(&self) -> (r: String)
        ensures
            r@ == "invalid transition from "@ + status_text(self.from) + " to "@ + status_text(
                self.to,
            ),
    {
        let mut s = String::from_str("invalid transition from ");
        s.append(status_name(self.from));
        s.append(" to ");
        s.append(status_name(self.to));
        s
    }
}

pub fn status_name(s: SessionStatus) -> (r: &'static str)
    ensures
        r@ == status_text(s),
{
    match s {
        SessionStatus::Idle => "Idle",
        SessionStatus::Listening => "Listening",
        SessionStatus::FinalizingAsr => "FinalizingASR",
        SessionStatus::Thinking => "Thinking",
        SessionStatus::Responding => "Responding",
        SessionStatus::Speaking => "Speaking",
    }
}

/// Checks a requested transition: `Ok` with the new state where it is
/// legal, the rejection otherwise.
pub fn check_transition(from: SessionStatus, to: SessionStatus) -> (r: Result<
    SessionStatus,
    InvalidTransition,
>)
    ensures
        is_legal(from, to) ==> r == Ok::<SessionStatus, InvalidTransition>(to),
        !is_legal(from, to) ==> r == Err::<SessionStatus, InvalidTransition>(
            InvalidTransition { from, to },
        ),
{
    let next = match from {
        SessionStatus::Idle => SessionStatus::Listening,
        SessionStatus::Listening => SessionStatus::FinalizingAsr,
        SessionStatus::FinalizingAsr => SessionStatus::Thinking,
        SessionStatus::Thinking => SessionStatus::Responding,
        SessionStatus::Responding => SessionStatus::Speaking,
        SessionStatus::Speaking => SessionStatus::Idle,
    };
    if to == SessionStatus::Idle || to == next {
        Ok(to)
    } else {
        Err(InvalidTransition { from, to })
    }
}

/// Session status and message history of one conversation.
pub struct ConversationState {
    status: SessionStatus,
    history: Vec<Message>,
    last_timestamp: u64,
}

impl ConversationState {
    pub closed spec fn status_spec(&self) -> SessionStatus {
        self.status
    }

    pub closed spec fn messages(&self) -> Seq<Message> {
        self.history@
    }

    /// Timestamps never decrease along the history.
    pub closed spec fn wf(&self) -> bool {
        &&& forall|i: int, j: int|
            0 <= i <= j < self.history@.len() ==> (#[trigger] self.history@[i]).timestamp
                <= (#[trigger] self.history@[j]).timestamp
        &&& forall|i: int|
            0 <= i < self.history@.len() ==> (#[trigger] self.history@[i]).timestamp
                <= self.last_timestamp
    }

    pub fn new() -> (r: Self)
        ensures
            r.wf(),
            r.status_spec() == SessionStatus::Idle,
            r.messages().len() == 0,
    {
        ConversationState { status: SessionStatus::Idle, history: Vec::new(), last_timestamp: 0 }
    }

    pub fn get_conversation_status(&self) -> (r: SessionStatus)
        ensures
            r == self.status_spec(),
    {
        self.status
    }

    pub fn is_conversation_active(&self) -> (r: bool)
        ensures
            r == (self.status_spec() != SessionStatus::Idle),
    {
        self.status != SessionStatus::Idle
    }

    /// The full ordered log.
    pub fn get_conversation_history(&self) -> (r: &[Message])
        ensures
            r@ == self.messages(),
    {
        self.history.as_slice()
    }

    /// Moves to `to` where the transition is legal; otherwise reports the
    /// rejected transition and leaves the state as it was.
    pub fn transition_conversation_status(&mut self, to: SessionStatus) -> (r: Result<
        (),
        InvalidTransition,
    >)
        requires
            old(self).wf(),
        ensures
            final(self).wf(),
            final(self).messages() == old(self).messages(),
            is_legal(old(self).status_spec(), to) ==> r is Ok && final(self).status_spec() == to,
            !is_legal(old(self).status_spec(), to) ==> {
                &&& r == Err::<(), InvalidTransition>(
                    InvalidTransition { from: old(self).status_spec(), to },
                )
                &&& final(self).status_spec() == old(self).status_spec()
            },
    {
        match check_transition(self.status, to) {
            Ok(next) => {
                self.status = next;
                Ok(())
            },
            Err(e) => Err(e),
        }
    }

    fn append(&mut self, role: Role, content: String, now_ms: u64)
        requires
            old(self).wf(),
        ensures
            final(self).wf(),
            final(self).status_spec() == old(self).status_spec(),
            final(self).messages().len() == old(self).messages().len() + 1,
            final(self).messages().take(old(self).messages().len() as int) == old(self).messages(),
            final(self).messages().last().role == role,
            final(self).messages().last().content == content,
            final(self).messages().last().timestamp == if now_ms >= old(self).last_timestamp {
                now_ms
            } else {
                old(self).last_timestamp
            },
    {
        let t = if now_ms >= self.last_timestamp {
            now_ms
        } else {
            self.last_timestamp
        };
        self.history.push(Message { role, content, timestamp: t });
        self.last_timestamp = t;
        assert(self.history@.take(old(self).history@.len() as int) =~= old(self).history@);
    }

    /// Appends a user message stamped `now_ms`, or the latest timestamp if
    /// the clock reads earlier.
    pub fn add_user_message(&mut self, content: String, now_ms: u64)
        requires
            old(self).wf(),
        ensures
            final(self).wf(),
            final(self).status_spec() == old(self).status_spec(),
            final(self).messages().len() == old(self).messages().len() + 1,
            final(self).messages().take(old(self).messages().len() as int) == old(self).messages(),
            final(self).messages().last().role == Role::User,
            final(self).messages().last().content == content,
            final(self).messages().len() == 1 || final(self).messages().last().timestamp
                >= old(self).messages().last().timestamp,
            final(self).messages().last().timestamp >= now_ms,
    {
        self.append(Role::User, content, now_ms);
    }

    /// Appends an assistant message stamped as `add_user_message` does.
    pub fn add_assistant_message(&mut self, content: String, now_ms: u64)
        requires
            old(self).wf(),
        ensures
            final(self).wf(),
            final(self).status_spec() == old(self).status_spec(),
            final(self).messages().len() == old(self).messages().len() + 1,
            final(self).messages().take(old(self).messages().len() as int) == old(self).messages(),
            final(self).messages().last().role == Role::Assistant,
            final(self).messages().last().content == content,
            final(self).messages().len() == 1 || final(self).messages().last().timestamp
                >= old(self).messages().last().timestamp,
            final(self).messages().last().timestamp >= now_ms,
    {
        self.append(Role::Assistant, content, now_ms);
    }
}

/// State legality: a requested transition succeeds exactly on the edges of
/// the cycle `Idle, Listening, FinalizingAsr, Thinking, Responding,
/// Speaking, Idle` and on any edge to `Idle`; every other request is
/// rejected and leaves the state where it was.
pub proof fn lemma_state_legality(from: SessionStatus, to: SessionStatus)
    ensures
        is_legal(from, to) <==> (to == SessionStatus::Idle || (from == SessionStatus::Idle && to
            == SessionStatus::Listening) || (from == SessionStatus::Listening && to
            == SessionStatus::FinalizingAsr) || (from == SessionStatus::FinalizingAsr && to
            == SessionStatus::Thinking) || (from == SessionStatus::Thinking && to
            == SessionStatus::Responding) || (from == SessionStatus::Responding && to
            == SessionStatus::Speaking)),
{
}

} // verus!
