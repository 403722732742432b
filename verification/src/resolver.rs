//! Resolving a pressed challenge button.
//!
//! The token under the button names the member it was issued to. Only that
//! member's own press verifies; anyone else's is turned away and changes
//! nothing.

use crate::action::{
    plan_view, rows_after_all, Action, ActionView, MessageHandle, OutgoingText, OutgoingTextView,
};
use crate::event::Origin;
use crate::store::{upsert_verified, Chatter};
use crate::token::{
    append_decimal, bound_identity, challenge_token, decimal, lemma_bound_identity_inverts,
    parse_challenge_token,
};
use vstd::prelude::*;
use vstd::string::*;

verus! {

/// How long a confirmation stays in the chat before it is tidied away, in seconds.
pub const CLEANUP_DELAY_SECS: u64 = 10;

/// What somebody sees who presses a button that was meant for another member.
pub open spec fn rejection_toast() -> Seq<char> {
    "Dieser Button ist nicht für dich!"@
}

/// The thanks that mention the verified member.
pub open spec fn confirmation_text(display_name: Seq<char>, identity: i64) -> Seq<char> {
    "["@ + display_name + "](tg://user?id="@ + decimal(identity as int)
        + "), danke, dass du dich verifiziert hast. Ich werde in anderen Gruppen nicht mehr fragen."@
}

/// The confirmation: sent to the chat of the challenge, and deleted again after
/// the cleanup delay.
pub open spec fn confirmation(chat_id: i64, display_name: Seq<char>, identity: i64) -> ActionView {
    ActionView::SendTransient {
        message: OutgoingTextView {
            chat_id,
            reply_to: None,
            text: confirmation_text(display_name, identity),
            markdown: true,
            button: None,
        },
        delete_after_secs: CLEANUP_DELAY_SECS,
    }
}

/// Deleting a message together with the message it replied to, the quoted one
/// first.
pub open spec fn deletion_plan(message: MessageHandle, quoted: Option<MessageHandle>) -> Seq<
    ActionView,
> {
    match quoted {
        Some(q) => seq![
            ActionView::DeleteMessage { target: q },
            ActionView::DeleteMessage { target: message },
        ],
        None => seq![ActionView::DeleteMessage { target: message }],
    }
}

/// What a member's press of their own challenge leads to.
pub open spec fn verification_plan(responder: i64, responder_name: Seq<char>, origin: Origin) -> Seq<
    ActionView,
> {
    seq![
        ActionView::AnswerCallback { toast: None },
        confirmation(origin.message.chat_id, responder_name, responder),
        ActionView::MarkVerified { identity: responder },
    ] + deletion_plan(origin.message, origin.quoted)
}

/// What a pressed button leads to.
///
/// A token that is no challenge token belongs to some other flow and is left
/// alone. A challenge token bound to somebody else earns the presser a toast. The
/// presser's own token verifies them.
pub open spec fn callback_plan(
    responder: i64,
    responder_name: Seq<char>,
    token: Seq<char>,
    origin: Origin,
) -> Seq<ActionView> {
    match bound_identity(token) {
        None => Seq::empty(),
        Some(bound) => if bound == responder {
            verification_plan(responder, responder_name, origin)
        } else {
            seq![ActionView::AnswerCallback { toast: Some(rejection_toast()) }]
        },
    }
}

/// Asks for `message` to be deleted, and before it the message it replied to.
pub fn delete_message_and_quoted_message(message: MessageHandle, quoted: Option<MessageHandle>) -> (actions:
    Vec<Action>)
    ensures
        plan_view(actions@) == deletion_plan(message, quoted),
{
    let mut actions: Vec<Action> = Vec::new();
    match quoted {
        Some(q) => {
            actions.push(Action::DeleteMessage { target: q });
        },
        None => {},
    }
    actions.push(Action::DeleteMessage { target: message });
    assert(plan_view(actions@) =~= deletion_plan(message, quoted));
    actions
}

/// Verifies `responder`, who has pressed their own challenge under `origin`.
///
/// The callback is answered, the thanks are sent, the verification is recorded,
/// and the challenge is deleted with the join notice it replied to. The thanks
/// are never deleted on the spot: they go with the cleanup delay.
pub fn handle_user_verification(responder: i64, responder_name: &String, origin: &Origin) -> (actions:
    Vec<Action>)
    ensures
        plan_view(actions@) == verification_plan(responder, responder_name@, *origin),
{
    let mut text = String::from_str("[");
    text.append(responder_name.as_str());
    text.append("](tg://user?id=");
    append_decimal(&mut text, responder);
    text.append(
        "), danke, dass du dich verifiziert hast. Ich werde in anderen Gruppen nicht mehr fragen.",
    );
    let mut actions: Vec<Action> = Vec::new();
    actions.push(Action::AnswerCallback { toast: None });
    actions.push(
        Action::SendTransient {
            message: OutgoingText {
                chat_id: origin.message.chat_id,
                reply_to: None,
                text,
                markdown: true,
                button: None,
            },
            delete_after_secs: CLEANUP_DELAY_SECS,
        },
    );
    actions.push(Action::MarkVerified { identity: responder });
    let ghost head = actions@;
    let mut deletions = delete_message_and_quoted_message(origin.message, origin.quoted);
    let ghost tail = deletions@;
    actions.append(&mut deletions);
    assert(plan_view(actions@) =~= plan_view(head) + plan_view(tail));
    assert(plan_view(head) =~= seq![
        ActionView::AnswerCallback { toast: None },
        confirmation(origin.message.chat_id, responder_name@, responder),
        ActionView::MarkVerified { identity: responder },
    ]);
    actions
}

/// Decides what a pressed button leads to.
pub fn handle_callback(responder: i64, responder_name: &String, token: &String, origin: &Origin) -> (actions:
    Vec<Action>)
    ensures
        plan_view(actions@) == callback_plan(responder, responder_name@, token@, *origin),
{
    match parse_challenge_token(token.as_str()) {
        None => {
            let actions: Vec<Action> = Vec::new();
            assert(plan_view(actions@) =~= Seq::<ActionView>::empty());
            actions
        },
        Some(bound) => {
            if bound == responder {
                handle_user_verification(responder, responder_name, origin)
            } else {
                let mut actions: Vec<Action> = Vec::new();
                actions.push(
                    Action::AnswerCallback {
                        toast: Some(String::from_str("Dieser Button ist nicht für dich!")),
                    },
                );
                assert(plan_view(actions@) =~= seq![
                    ActionView::AnswerCallback { toast: Some(rejection_toast()) },
                ]);
                actions
            }
        },
    }
}

/// Pressing a challenge that was issued to somebody else shows the presser the
/// rejection and does nothing more: no record is written and no message is
/// deleted.
pub proof fn lemma_foreign_press_changes_nothing(
    responder: i64,
    responder_name: Seq<char>,
    bound: i64,
    origin: Origin,
    rows: Map<i64, Chatter>,
)
    requires
        bound != responder,
    ensures
        callback_plan(responder, responder_name, challenge_token(bound as int), origin) == seq![
            ActionView::AnswerCallback { toast: Some(rejection_toast()) },
        ],
        rows_after_all(
            rows,
            callback_plan(responder, responder_name, challenge_token(bound as int), origin),
        ) == rows,
{
    let plan = callback_plan(responder, responder_name, challenge_token(bound as int), origin);
    lemma_bound_identity_inverts(challenge_token(bound as int), bound);
    assert(plan.drop_last() =~= Seq::<ActionView>::empty());
    reveal_with_fuel(rows_after_all, 2);
}

/// Pressing one's own challenge records exactly one verification, that of the
/// presser, after the thanks and before any deletion. The thanks are sent as a
/// transient message with the cleanup delay, and no deletion on the spot is
/// asked for but those of the challenge and of the message it quoted.
pub proof fn lemma_own_press_verifies_once(
    responder: i64,
    responder_name: Seq<char>,
    origin: Origin,
    rows: Map<i64, Chatter>,
)
    ensures
        ({
            let plan = callback_plan(
                responder,
                responder_name,
                challenge_token(responder as int),
                origin,
            );
            &&& plan == verification_plan(responder, responder_name, origin)
            &&& forall|i: int|
                0 <= i < plan.len() ==> (#[trigger] plan[i] is MarkVerified <==> i == 2)
            &&& plan[2] == (ActionView::MarkVerified { identity: responder })
            &&& plan[1] == confirmation(origin.message.chat_id, responder_name, responder)
            &&& plan[1] matches ActionView::SendTransient { delete_after_secs, .. }
                && delete_after_secs == CLEANUP_DELAY_SECS && delete_after_secs > 0
            &&& forall|i: int|
                0 <= i < plan.len() && #[trigger] plan[i] is DeleteMessage ==> i > 2 && (plan[i]
                    == (ActionView::DeleteMessage { target: origin.message }) || Some(
                    plan[i]->target,
                ) == origin.quoted)
            &&& rows_after_all(rows, plan) == upsert_verified(rows, responder)
        }),
{
    let plan = callback_plan(responder, responder_name, challenge_token(responder as int), origin);
    lemma_bound_identity_inverts(challenge_token(responder as int), responder);
    let upto = plan.take(3);
    lemma_rows_after_tail(rows, plan, 3);
    assert(upto.last() == plan[2]);
    lemma_only_verifications_touch_rows(rows, upto.drop_last());
}

/// Actions that record no verification leave the member table as it is.
pub proof fn lemma_rows_after_tail(rows: Map<i64, Chatter>, plan: Seq<ActionView>, k: int)
    requires
        0 <= k <= plan.len(),
        forall|i: int| k <= i < plan.len() ==> !(#[trigger] plan[i] is MarkVerified),
    ensures
        rows_after_all(rows, plan) == rows_after_all(rows, plan.take(k)),
    decreases plan.len() - k,
{
    if k == plan.len() {
        assert(plan.take(k) =~= plan);
    } else {
        let shorter = plan.drop_last();
        assert(shorter.take(k) =~= plan.take(k));
        lemma_rows_after_tail(rows, shorter, k);
        assert(!(plan[plan.len() - 1] is MarkVerified));
    }
}

/// A plan without a verification leaves the member table as it is.
pub proof fn lemma_only_verifications_touch_rows(rows: Map<i64, Chatter>, plan: Seq<ActionView>)
    ensures
        (forall|i: int| 0 <= i < plan.len() ==> !(#[trigger] plan[i] is MarkVerified))
            ==> rows_after_all(rows, plan) == rows,
{
    if forall|i: int| 0 <= i < plan.len() ==> !(#[trigger] plan[i] is MarkVerified) {
        lemma_rows_after_tail(rows, plan, 0);
        assert(plan.take(0) =~= Seq::<ActionView>::empty());
    }
}

} // verus!
