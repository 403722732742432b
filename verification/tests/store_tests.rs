use exmatrikulator::action::Action;
use exmatrikulator::action::MessageHandle;
use exmatrikulator::store::{get_chatter_by_id, is_chatter_admin, Chatter, MemberStore};

fn row(telegram_id: i64, is_verified: bool, is_global_admin: bool) -> Chatter {
    Chatter { telegram_id, is_verified, is_global_admin }
}

#[test]
fn unknown_member_is_not_found() {
    let store = MemberStore::new();
    assert_eq!(get_chatter_by_id(42, &store), None);
}

#[test]
fn inserted_row_is_found_under_its_identity() {
    let mut store = MemberStore::new();
    store.insert(row(42, false, true));
    assert_eq!(get_chatter_by_id(42, &store), Some(row(42, false, true)));
    assert_eq!(get_chatter_by_id(43, &store), None);
}

#[test]
fn insert_replaces_the_row_of_the_same_identity() {
    let mut store = MemberStore::new();
    store.insert(row(42, false, true));
    store.insert(row(42, true, false));
    assert_eq!(get_chatter_by_id(42, &store), Some(row(42, true, false)));
}

#[test]
fn first_verification_creates_the_record() {
    let mut store = MemberStore::new();
    store.mark_verified(42);
    assert_eq!(get_chatter_by_id(42, &store), Some(row(42, true, false)));
}

#[test]
fn verification_raises_the_flag_of_an_existing_record() {
    let mut store = MemberStore::new();
    store.insert(row(42, false, false));
    store.mark_verified(42);
    assert_eq!(get_chatter_by_id(42, &store), Some(row(42, true, false)));
}

#[test]
fn verification_keeps_administrator_rights() {
    let mut store = MemberStore::new();
    store.insert(row(42, false, true));
    store.mark_verified(42);
    assert_eq!(get_chatter_by_id(42, &store), Some(row(42, true, true)));
}

#[test]
fn verifying_twice_is_verifying_once() {
    let mut once = MemberStore::new();
    once.insert(row(7, false, true));
    once.mark_verified(42);

    let mut twice = MemberStore::new();
    twice.insert(row(7, false, true));
    twice.mark_verified(42);
    twice.mark_verified(42);

    for id in [7i64, 42, 43] {
        assert_eq!(get_chatter_by_id(id, &once), get_chatter_by_id(id, &twice));
    }
    assert_eq!(get_chatter_by_id(42, &twice), Some(row(42, true, false)));
}

#[test]
fn verification_touches_nobody_else() {
    let mut store = MemberStore::new();
    store.insert(row(7, false, true));
    store.insert(row(8, true, false));
    store.mark_verified(42);
    assert_eq!(get_chatter_by_id(7, &store), Some(row(7, false, true)));
    assert_eq!(get_chatter_by_id(8, &store), Some(row(8, true, false)));
}

#[test]
fn stored_admin_flag() {
    let mut store = MemberStore::new();
    store.insert(row(1, true, true));
    store.insert(row(2, true, false));
    assert!(store.is_admin(1));
    assert!(!store.is_admin(2));
    assert!(!store.is_admin(3));
}

#[test]
fn a_record_decides_admin_rights_by_its_flag() {
    let admins = vec![5i64, 6];
    assert!(is_chatter_admin(&Some(row(9, false, true)), 9, &admins));
    assert!(!is_chatter_admin(&Some(row(9, true, false)), 9, &admins));
    // A record without the flag is not overruled by the chat's list.
    assert!(!is_chatter_admin(&Some(row(5, true, false)), 5, &admins));
}

#[test]
fn the_chat_decides_admin_rights_of_an_unknown_member() {
    let admins = vec![5i64, 6];
    assert!(is_chatter_admin(&None, 5, &admins));
    assert!(is_chatter_admin(&None, 6, &admins));
    assert!(!is_chatter_admin(&None, 7, &admins));
    assert!(!is_chatter_admin(&None, 5, &Vec::new()));
}

#[test]
fn only_a_verification_changes_the_table() {
    let mut store = MemberStore::new();
    store.insert(row(7, false, false));
    let handle = MessageHandle { chat_id: -100, message_id: 3 };
    store.apply(&Action::DeleteMessage { target: handle });
    store.apply(&Action::AnswerCallback { toast: None });
    store.apply(&Action::QueryAdministrators { chat_id: -100, member: 7 });
    assert_eq!(get_chatter_by_id(7, &store), Some(row(7, false, false)));
    store.apply(&Action::MarkVerified { identity: 7 });
    assert_eq!(get_chatter_by_id(7, &store), Some(row(7, true, false)));
}

#[test]
fn applying_a_list_applies_each_in_order() {
    let mut store = MemberStore::new();
    let handle = MessageHandle { chat_id: -100, message_id: 3 };
    let actions = vec![
        Action::MarkVerified { identity: 1 },
        Action::DeleteMessage { target: handle },
        Action::MarkVerified { identity: 2 },
        Action::MarkVerified { identity: 1 },
    ];
    store.apply_all(&actions);
    assert_eq!(get_chatter_by_id(1, &store), Some(row(1, true, false)));
    assert_eq!(get_chatter_by_id(2, &store), Some(row(2, true, false)));
    assert_eq!(get_chatter_by_id(3, &store), None);
    store.apply_all(&Vec::new());
    assert_eq!(get_chatter_by_id(1, &store), Some(row(1, true, false)));
}

#[test]
fn no_action_takes_a_verification_back() {
    let mut store = MemberStore::new();
    store.insert(row(1, true, true));
    let handle = MessageHandle { chat_id: -100, message_id: 3 };
    let actions = vec![
        Action::AnswerCallback { toast: Some(String::from("no")) },
        Action::MarkVerified { identity: 2 },
        Action::DeleteMessage { target: handle },
        Action::MarkVerified { identity: 1 },
        Action::QueryAdministrators { chat_id: -100, member: 1 },
    ];
    for action in &actions {
        store.apply(action);
        assert_eq!(get_chatter_by_id(1, &store), Some(row(1, true, true)));
    }
}
