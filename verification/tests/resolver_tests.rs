use exmatrikulator::action::{Action, FailurePolicy, MessageHandle, OutgoingText};
use exmatrikulator::event::Origin;
use exmatrikulator::resolver::{
    delete_message_and_quoted_message, handle_callback, handle_user_verification,
    CLEANUP_DELAY_SECS,
};

fn challenge() -> MessageHandle {
    MessageHandle { chat_id: -1001, message_id: 18 }
}

fn join_notice() -> MessageHandle {
    MessageHandle { chat_id: -1001, message_id: 17 }
}

fn origin() -> Origin {
    Origin { message: challenge(), quoted: Some(join_notice()) }
}

fn thanks(name: &str, identity: &str) -> Action {
    Action::SendTransient {
        message: OutgoingText {
            chat_id: -1001,
            reply_to: None,
            text: format!(
                "[{}](tg://user?id={}), danke, dass du dich verifiziert hast. Ich werde in anderen Gruppen nicht mehr fragen.",
                name, identity
            ),
            markdown: true,
            button: None,
        },
        delete_after_secs: 10,
    }
}

#[test]
fn the_cleanup_delay() {
    assert_eq!(CLEANUP_DELAY_SECS, 10);
}

#[test]
fn own_press_verifies() {
    let actions =
        handle_callback(42, &String::from("Ada"), &String::from("notabot_42"), &origin());
    assert_eq!(
        actions,
        vec![
            Action::AnswerCallback { toast: None },
            thanks("Ada", "42"),
            Action::MarkVerified { identity: 42 },
            Action::DeleteMessage { target: join_notice() },
            Action::DeleteMessage { target: challenge() },
        ]
    );
}

#[test]
fn own_press_records_exactly_one_verification() {
    let actions =
        handle_callback(42, &String::from("Ada"), &String::from("notabot_42"), &origin());
    let recorded: Vec<&Action> =
        actions.iter().filter(|a| matches!(a, Action::MarkVerified { .. })).collect();
    assert_eq!(recorded, vec![&Action::MarkVerified { identity: 42 }]);
}

#[test]
fn the_thanks_are_never_deleted_on_the_spot() {
    let actions =
        handle_callback(42, &String::from("Ada"), &String::from("notabot_42"), &origin());
    let transient: Vec<u64> = actions
        .iter()
        .filter_map(|a| match a {
            Action::SendTransient { delete_after_secs, .. } => Some(*delete_after_secs),
            _ => None,
        })
        .collect();
    assert_eq!(transient, vec![CLEANUP_DELAY_SECS]);
    for action in &actions {
        if let Action::DeleteMessage { target } = action {
            assert!(*target == challenge() || *target == join_notice());
        }
    }
}

#[test]
fn foreign_press_is_turned_away() {
    let actions =
        handle_callback(7, &String::from("Eve"), &String::from("notabot_42"), &origin());
    assert_eq!(
        actions,
        vec![Action::AnswerCallback {
            toast: Some(String::from("Dieser Button ist nicht für dich!")),
        }]
    );
}

#[test]
fn a_token_of_another_flow_is_left_alone() {
    for token in ["", "vote_42", "notabot", "notabot_", "notabot_042", "notabot_42_1", "notabotx_42"] {
        let actions = handle_callback(42, &String::from("Ada"), &String::from(token), &origin());
        assert!(actions.is_empty(), "token {:?}", token);
    }
}

#[test]
fn verification_of_a_negative_identity() {
    let actions = handle_user_verification(-5, &String::from("Neg"), &origin());
    assert_eq!(actions[1], thanks("Neg", "-5"));
    assert_eq!(actions[2], Action::MarkVerified { identity: -5 });
}

#[test]
fn a_challenge_that_quoted_nothing() {
    let bare = Origin { message: challenge(), quoted: None };
    let actions = handle_user_verification(42, &String::from("Ada"), &bare);
    assert_eq!(
        actions,
        vec![
            Action::AnswerCallback { toast: None },
            thanks("Ada", "42"),
            Action::MarkVerified { identity: 42 },
            Action::DeleteMessage { target: challenge() },
        ]
    );
}

#[test]
fn the_quoted_message_goes_first() {
    assert_eq!(
        delete_message_and_quoted_message(challenge(), Some(join_notice())),
        vec![
            Action::DeleteMessage { target: join_notice() },
            Action::DeleteMessage { target: challenge() },
        ]
    );
    assert_eq!(
        delete_message_and_quoted_message(challenge(), None),
        vec![Action::DeleteMessage { target: challenge() }]
    );
}

#[test]
fn only_a_lost_write_aborts_the_event() {
    let actions =
        handle_callback(42, &String::from("Ada"), &String::from("notabot_42"), &origin());
    let policies: Vec<FailurePolicy> = actions.iter().map(|a| a.on_failure()).collect();
    assert_eq!(
        policies,
        vec![
            FailurePolicy::Continue,
            FailurePolicy::Continue,
            FailurePolicy::Abort,
            FailurePolicy::Continue,
            FailurePolicy::Continue,
        ]
    );
    assert_eq!(
        Action::QueryAdministrators { chat_id: 1, member: 2 }.on_failure(),
        FailurePolicy::Continue
    );
}
