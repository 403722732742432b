//! Challenging those who join.
//!
//! Every joiner who has not yet proved to be human gets one message with a
//! single button. The button's token names the joiner, so that pressing it can
//! later be judged from the token alone.

use crate::action::{
    plan_view, Action, ActionView, Button, ButtonView, MessageHandle, OutgoingText,
    OutgoingTextView,
};
use crate::event::{joiners_view, ChatKind, Joiner, JoinerView};
use crate::store::{get_chatter_by_id, is_unverified, lookup, Chatter, MemberStore};
use crate::token::{
    append_decimal, challenge_token, decimal, lemma_token_injective, make_challenge_token,
};
use vstd::prelude::*;
use vstd::string::*;

verus! {

/// What the challenge button shows.
pub open spec fn challenge_label() -> Seq<char> {
    "Ich bin kein Bot!"@
}

/// The welcome that names the chat and mentions the joiner.
pub open spec fn welcome_text(chat_title: Seq<char>, display_name: Seq<char>, identity: i64) -> Seq<
    char,
> {
    "Willkommen in "@ + chat_title + ", ["@ + display_name + "](tg://user?id="@ + decimal(
        identity as int,
    )
        + ")!\n\nUm Spam zu verhinden bitte ich dich, den Button unten innerhalb von 30 Sekunden zu drücken. Danke!"@
}

/// The challenge for `joiner`: a reply to the join notice, with the button bound
/// to the joiner's identity.
pub open spec fn challenge(notice: MessageHandle, chat_title: Seq<char>, joiner: JoinerView) -> ActionView {
    ActionView::SendText {
        message: OutgoingTextView {
            chat_id: notice.chat_id,
            reply_to: Some(notice),
            text: welcome_text(chat_title, joiner.display_name, joiner.identity),
            markdown: true,
            button: Some(
                ButtonView { label: challenge_label(), token: challenge_token(joiner.identity as int) },
            ),
        },
    }
}

/// The challenges for a list of joiners: one for each joiner that `rows` does
/// not show as verified, in the order of joining.
pub open spec fn challenge_plan(
    notice: MessageHandle,
    chat_title: Seq<char>,
    joined: Seq<JoinerView>,
    rows: Map<i64, Chatter>,
) -> Seq<ActionView>
    decreases joined.len(),
{
    if joined.len() == 0 {
        Seq::empty()
    } else {
        let earlier = challenge_plan(notice, chat_title, joined.drop_last(), rows);
        if is_unverified(rows, joined.last().identity) {
            earlier.push(challenge(notice, chat_title, joined.last()))
        } else {
            earlier
        }
    }
}

/// What a join notice leads to: challenges in a group or supergroup, nothing
/// anywhere else.
pub open spec fn new_member_plan(
    notice: MessageHandle,
    chat_title: Seq<char>,
    chat_kind: ChatKind,
    joined: Seq<JoinerView>,
    rows: Map<i64, Chatter>,
) -> Seq<ActionView> {
    if chat_kind is Other {
        Seq::empty()
    } else {
        challenge_plan(notice, chat_title, joined, rows)
    }
}

/// Composes the challenge for one joiner.
pub fn send_captcha(notice: MessageHandle, joiner: &Joiner, chat_title: &String) -> (action: Action)
    ensures
        action@ == challenge(notice, chat_title@, joiner@),
{
    let mut text = String::from_str("Willkommen in ");
    text.append(chat_title.as_str());
    text.append(", [");
    text.append(joiner.display_name.as_str());
    text.append("](tg://user?id=");
    append_decimal(&mut text, joiner.identity);
    text.append(
        ")!\n\nUm Spam zu verhinden bitte ich dich, den Button unten innerhalb von 30 Sekunden zu drücken. Danke!",
    );
    let button = Button {
        label: String::from_str("Ich bin kein Bot!"),
        token: make_challenge_token(joiner.identity),
    };
    Action::SendText {
        message: OutgoingText {
            chat_id: notice.chat_id,
            reply_to: Some(notice),
            text,
            markdown: true,
            button: Some(button),
        },
    }
}

/// Decides what to send when members have joined.
///
/// In a group or supergroup every joiner without a record, or with a record that
/// is not verified, is challenged once; verified joiners are left alone. In any
/// other kind of chat nothing is sent.
pub fn handle_new_member(
    notice: MessageHandle,
    chat_title: &String,
    chat_kind: ChatKind,
    joined: &Vec<Joiner>,
    store: &MemberStore,
) -> (actions: Vec<Action>)
    ensures
        plan_view(actions@) == new_member_plan(
            notice,
            chat_title@,
            chat_kind,
            joiners_view(joined@),
            store@,
        ),
{
    let mut actions: Vec<Action> = Vec::new();
    match chat_kind {
        ChatKind::Other => {
            assert(plan_view(actions@) =~= Seq::<ActionView>::empty());
            return actions;
        },
        _ => {},
    }
    let ghost all = joiners_view(joined@);
    let mut i: usize = 0;
    assert(all.take(0) =~= Seq::<JoinerView>::empty());
    assert(plan_view(actions@) =~= Seq::<ActionView>::empty());
    while i < joined.len()
        invariant
            i <= joined.len(),
            all == joiners_view(joined@),
            plan_view(actions@) == challenge_plan(notice, chat_title@, all.take(i as int), store@),
        decreases joined.len() - i,
    {
        let joiner = &joined[i];
        let ghost before = actions@;
        assert(all.take(i + 1).drop_last() =~= all.take(i as int));
        assert(all.take(i + 1).last() == joiner@);
        let unverified: bool = match get_chatter_by_id(joiner.identity, store) {
            Some(row) => !row.is_verified,
            None => true,
        };
        if unverified {
            let action = send_captcha(notice, joiner, chat_title);
            actions.push(action);
            assert(plan_view(actions@) =~= plan_view(before).push(action@));
        }
        i = i + 1;
    }
    assert(all.take(i as int) =~= all);
    actions
}

/// Whether `action` sends a message whose button is bound to `identity`.
pub open spec fn is_challenge_for(action: ActionView, identity: i64) -> bool {
    &&& action matches ActionView::SendText { message }
    &&& message.button matches Some(button)
    &&& button.token == challenge_token(identity as int)
}

/// How many actions of `plan` challenge `identity`.
pub open spec fn challenges_for(plan: Seq<ActionView>, identity: i64) -> nat
    decreases plan.len(),
{
    if plan.len() == 0 {
        0
    } else {
        challenges_for(plan.drop_last(), identity) + if is_challenge_for(plan.last(), identity) {
            1nat
        } else {
            0nat
        }
    }
}

/// How many times `identity` occurs among `joined`.
pub open spec fn joins_of(joined: Seq<JoinerView>, identity: i64) -> nat
    decreases joined.len(),
{
    if joined.len() == 0 {
        0
    } else {
        joins_of(joined.drop_last(), identity) + if joined.last().identity == identity {
            1nat
        } else {
            0nat
        }
    }
}

/// Each time a member without a verified record joins, that member is sent
/// exactly one challenge, whose token encodes the member's identity. A verified
/// member is sent none, and nothing but challenges is sent.
pub proof fn lemma_one_challenge_per_unverified_join(
    notice: MessageHandle,
    chat_title: Seq<char>,
    joined: Seq<JoinerView>,
    rows: Map<i64, Chatter>,
    identity: i64,
)
    ensures
        ({
            let plan = challenge_plan(notice, chat_title, joined, rows);
            &&& challenges_for(plan, identity) == if is_unverified(rows, identity) {
                joins_of(joined, identity)
            } else {
                0
            }
            &&& forall|i: int|
                0 <= i < plan.len() ==> exists|j: int|
                    0 <= j < joined.len() && is_unverified(rows, joined[j].identity)
                        && #[trigger] plan[i] == challenge(notice, chat_title, #[trigger] joined[j])
        }),
    decreases joined.len(),
{
    let plan = challenge_plan(notice, chat_title, joined, rows);
    if joined.len() > 0 {
        let earlier_joined = joined.drop_last();
        let earlier = challenge_plan(notice, chat_title, earlier_joined, rows);
        let last = joined.last();
        lemma_one_challenge_per_unverified_join(notice, chat_title, earlier_joined, rows, identity);
        if is_unverified(rows, last.identity) {
            assert(plan.drop_last() =~= earlier);
            assert(plan.last() == challenge(notice, chat_title, last));
            if is_challenge_for(plan.last(), identity) {
                lemma_token_injective(last.identity, identity);
            }
        }
        assert forall|i: int| 0 <= i < plan.len() implies exists|j: int|
            0 <= j < joined.len() && is_unverified(rows, joined[j].identity) && #[trigger] plan[i]
                == challenge(notice, chat_title, #[trigger] joined[j]) by {
            if i < earlier.len() {
                let j = choose|j: int|
                    0 <= j < earlier_joined.len() && is_unverified(rows, earlier_joined[j].identity)
                        && #[trigger] earlier[i] == challenge(
                        notice,
                        chat_title,
                        #[trigger] earlier_joined[j],
                    );
                assert(joined[j] == earlier_joined[j]);
                assert(plan[i] == earlier[i]);
            } else {
                assert(plan[i] == challenge(notice, chat_title, joined[joined.len() - 1]));
            }
        }
    }
}

/// The challenges depend on the member table only through the records of those
/// who joined.
pub proof fn lemma_challenge_plan_reads_joiners(
    notice: MessageHandle,
    chat_title: Seq<char>,
    joined: Seq<JoinerView>,
    a: Map<i64, Chatter>,
    b: Map<i64, Chatter>,
)
    requires
        forall|j: int|
            0 <= j < joined.len() ==> lookup(a, #[trigger] joined[j].identity) == lookup(
                b,
                joined[j].identity,
            ),
    ensures
        challenge_plan(notice, chat_title, joined, a) == challenge_plan(notice, chat_title, joined, b),
    decreases joined.len(),
{
    if joined.len() > 0 {
        let earlier = joined.drop_last();
        assert forall|j: int| 0 <= j < earlier.len() implies lookup(
            a,
            #[trigger] earlier[j].identity,
        ) == lookup(b, earlier[j].identity) by {
            assert(earlier[j] == joined[j]);
        }
        lemma_challenge_plan_reads_joiners(notice, chat_title, earlier, a, b);
        let last = joined[joined.len() - 1];
        assert(lookup(a, last.identity) == lookup(b, last.identity));
    }
}

} // verus!
