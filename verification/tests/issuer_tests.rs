use exmatrikulator::action::{Action, Button, MessageHandle, OutgoingText};
use exmatrikulator::event::{ChatKind, Joiner};
use exmatrikulator::issuer::{handle_new_member, send_captcha};
use exmatrikulator::store::{Chatter, MemberStore};

fn notice() -> MessageHandle {
    MessageHandle { chat_id: -1001, message_id: 17 }
}

fn joiner(identity: i64, name: &str) -> Joiner {
    Joiner { identity, display_name: String::from(name) }
}

fn token_of(action: &Action) -> String {
    match action {
        Action::SendText { message } => match &message.button {
            Some(button) => button.token.clone(),
            None => panic!("a challenge carries a button"),
        },
        other => panic!("not a challenge: {:?}", other),
    }
}

#[test]
fn the_challenge_in_full() {
    let action = send_captcha(notice(), &joiner(42, "Ada"), &String::from("Foo"));
    let expected = Action::SendText {
        message: OutgoingText {
            chat_id: -1001,
            reply_to: Some(notice()),
            text: String::from(
                "Willkommen in Foo, [Ada](tg://user?id=42)!\n\nUm Spam zu verhinden bitte ich dich, den Button unten innerhalb von 30 Sekunden zu drücken. Danke!",
            ),
            markdown: true,
            button: Some(Button {
                label: String::from("Ich bin kein Bot!"),
                token: String::from("notabot_42"),
            }),
        },
    };
    assert_eq!(action, expected);
}

#[test]
fn unknown_joiner_is_challenged_once() {
    let store = MemberStore::new();
    let actions = handle_new_member(
        notice(),
        &String::from("Foo"),
        ChatKind::Group,
        &vec![joiner(42, "Ada")],
        &store,
    );
    assert_eq!(actions.len(), 1);
    assert_eq!(actions[0], send_captcha(notice(), &joiner(42, "Ada"), &String::from("Foo")));
    assert_eq!(token_of(&actions[0]), "notabot_42");
}

#[test]
fn unverified_record_is_challenged_once() {
    let mut store = MemberStore::new();
    store.insert(Chatter { telegram_id: 42, is_verified: false, is_global_admin: false });
    let actions = handle_new_member(
        notice(),
        &String::from("Foo"),
        ChatKind::Supergroup,
        &vec![joiner(42, "Ada")],
        &store,
    );
    assert_eq!(actions.len(), 1);
    assert_eq!(token_of(&actions[0]), "notabot_42");
}

#[test]
fn verified_joiner_is_left_alone() {
    let mut store = MemberStore::new();
    store.mark_verified(42);
    let actions = handle_new_member(
        notice(),
        &String::from("Foo"),
        ChatKind::Group,
        &vec![joiner(42, "Ada")],
        &store,
    );
    assert!(actions.is_empty());
}

#[test]
fn each_unverified_joiner_gets_their_own_challenge() {
    let mut store = MemberStore::new();
    store.mark_verified(2);
    store.insert(Chatter { telegram_id: 3, is_verified: false, is_global_admin: true });
    let joined = vec![joiner(1, "Ada"), joiner(2, "Bob"), joiner(3, "Cy"), joiner(-4, "Di")];
    let actions =
        handle_new_member(notice(), &String::from("Foo"), ChatKind::Group, &joined, &store);
    let tokens: Vec<String> = actions.iter().map(token_of).collect();
    assert_eq!(tokens, vec!["notabot_1", "notabot_3", "notabot_-4"]);
    assert_eq!(actions[1], send_captcha(notice(), &joined[2], &String::from("Foo")));
}

#[test]
fn nobody_joined_nothing_sent() {
    let store = MemberStore::new();
    let actions =
        handle_new_member(notice(), &String::from("Foo"), ChatKind::Group, &Vec::new(), &store);
    assert!(actions.is_empty());
}

#[test]
fn no_challenge_outside_groups() {
    let store = MemberStore::new();
    let actions = handle_new_member(
        notice(),
        &String::from("Foo"),
        ChatKind::Other,
        &vec![joiner(42, "Ada")],
        &store,
    );
    assert!(actions.is_empty());
}
