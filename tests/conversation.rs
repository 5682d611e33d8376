use voice_assistant::conversation::{
    check_transition, ConversationState, InvalidTransition, Role, SessionStatus,
};

const ALL: [SessionStatus; 6] = [
    SessionStatus::Idle,
    SessionStatus::Listening,
    SessionStatus::FinalizingAsr,
    SessionStatus::Thinking,
    SessionStatus::Responding,
    SessionStatus::Speaking,
];

#[test]
fn listening_to_responding_is_rejected() {
    let mut c = ConversationState::new();
    c.transition_conversation_status(SessionStatus::Listening).unwrap();
    let e = c.transition_conversation_status(SessionStatus::Responding).unwrap_err();
    assert_eq!(e, InvalidTransition { from: SessionStatus::Listening, to: SessionStatus::Responding });
    assert_eq!(e.message(), "invalid transition from Listening to Responding");
    assert_eq!(c.get_conversation_status(), SessionStatus::Listening);
    assert!(c.transition_conversation_status(SessionStatus::FinalizingAsr).is_ok());
    assert_eq!(c.get_conversation_status(), SessionStatus::FinalizingAsr);
}

#[test]
fn full_cycle_succeeds() {
    let mut c = ConversationState::new();
    assert!(!c.is_conversation_active());
    for s in &ALL[1..] {
        c.transition_conversation_status(*s).unwrap();
        assert!(c.is_conversation_active());
    }
    c.transition_conversation_status(SessionStatus::Idle).unwrap();
    assert!(!c.is_conversation_active());
}

#[test]
fn legality_table() {
    for (i, from) in ALL.iter().enumerate() {
        for (j, to) in ALL.iter().enumerate() {
            let legal = j == 0 || j == (i + 1) % 6;
            assert_eq!(check_transition(*from, *to).is_ok(), legal, "{:?} -> {:?}", from, to);
        }
    }
}

#[test]
fn abort_to_idle_from_anywhere() {
    for s in &ALL {
        assert_eq!(check_transition(*s, SessionStatus::Idle), Ok(SessionStatus::Idle));
    }
}

#[test]
fn self_transition_is_rejected_except_idle() {
    assert!(check_transition(SessionStatus::Thinking, SessionStatus::Thinking).is_err());
    assert!(check_transition(SessionStatus::Idle, SessionStatus::Idle).is_ok());
}

#[test]
fn history_is_ordered_and_timestamps_monotonic() {
    let mut c = ConversationState::new();
    c.add_user_message("hello".to_string(), 100);
    c.add_assistant_message("hi there".to_string(), 50);
    c.add_user_message("bye".to_string(), 300);
    let h = c.get_conversation_history();
    assert_eq!(h.len(), 3);
    assert_eq!(h[0].role, Role::User);
    assert_eq!(h[0].content, "hello");
    assert_eq!(h[0].timestamp, 100);
    assert_eq!(h[1].role, Role::Assistant);
    assert_eq!(h[1].content, "hi there");
    assert_eq!(h[1].timestamp, 100);
    assert_eq!(h[2].content, "bye");
    assert_eq!(h[2].timestamp, 300);
}

#[test]
fn transitions_leave_history_alone() {
    let mut c = ConversationState::new();
    c.add_user_message("x".to_string(), 1);
    let _ = c.transition_conversation_status(SessionStatus::Speaking);
    assert_eq!(c.get_conversation_history().len(), 1);
}
