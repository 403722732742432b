//! Routing each inbound event to the part of the bot that handles it.

use crate::action::{plan_view, Action, ActionView, MessageHandle};
use crate::commands::{
    about_me_reply, echo_reply, handle_command_aboutme, handle_command_verify_all,
    handle_other_text, verify_all_plan,
};
use crate::event::{joiners_view, Event, EventView, JoinerView};
use crate::issuer::{handle_new_member, lemma_challenge_plan_reads_joiners, new_member_plan};
use crate::resolver::{callback_plan, handle_callback};
use crate::store::{get_chatter_by_id, lookup, Chatter, MemberStore};
use vstd::prelude::*;
use vstd::string::*;

verus! {

/// What a text message leads to. Commands are matched exactly, case included.
pub open spec fn text_plan(
    sender: i64,
    sender_name: Seq<char>,
    message: MessageHandle,
    text: Seq<char>,
    rows: Map<i64, Chatter>,
) -> Seq<ActionView> {
    if text == "/aboutme"@ {
        seq![about_me_reply(lookup(rows, sender), sender_name, message)]
    } else if text == "/verifyAll"@ {
        verify_all_plan(lookup(rows, sender), sender, message)
    } else {
        seq![echo_reply(sender_name, text, message)]
    }
}

/// What a leave notice leads to: it is deleted when the member who left has a
/// record that is not verified, and stays otherwise.
pub open spec fn leave_plan(notice: MessageHandle, left_member: Option<Chatter>) -> Seq<ActionView> {
    match left_member {
        Some(row) => if row.is_verified {
            Seq::empty()
        } else {
            seq![ActionView::DeleteMessage { target: notice }]
        },
        None => Seq::empty(),
    }
}

/// What an event leads to, given what the member table holds.
pub open spec fn dispatch_plan(event: EventView, rows: Map<i64, Chatter>) -> Seq<ActionView> {
    match event {
        EventView::Text { sender, sender_name, message, text } => text_plan(
            sender,
            sender_name,
            message,
            text,
            rows,
        ),
        EventView::NewMembers { notice, chat_title, chat_kind, joined } => new_member_plan(
            notice,
            chat_title,
            chat_kind,
            joined,
            rows,
        ),
        EventView::MemberLeft { notice, left_member } => leave_plan(
            notice,
            lookup(rows, left_member),
        ),
        EventView::Callback { responder, responder_name, token, origin } => match (token, origin) {
            (Some(t), Some(o)) => callback_plan(responder, responder_name, t, o),
            _ => Seq::empty(),
        },
        EventView::Other => Seq::empty(),
    }
}

fn text_is(text: &String, command: &str) -> (same: bool)
    ensures
        same == (text@ == command@),
{
    let wanted = String::from_str(command);
    *text == wanted
}

/// Decides what a leave notice leads to.
pub fn handle_member_left(notice: MessageHandle, left_member: &Option<Chatter>) -> (actions: Vec<
    Action,
>)
    ensures
        plan_view(actions@) == leave_plan(notice, *left_member),
{
    let mut actions: Vec<Action> = Vec::new();
    match left_member {
        Some(row) => {
            if !row.is_verified {
                actions.push(Action::DeleteMessage { target: notice });
            }
        },
        None => {},
    }
    assert(plan_view(actions@) =~= leave_plan(notice, *left_member));
    actions
}

/// Decides what to do about one inbound event.
///
/// The actions are to be carried out in order. Events the bot has no use for,
/// and callbacks that lack their token or their message, lead to nothing.
pub fn dispatch(event: &Event, store: &MemberStore) -> (actions: Vec<Action>)
    ensures
        plan_view(actions@) == dispatch_plan(event@, store@),
{
    match event {
        Event::Text { sender, sender_name, message, text } => {
            let chatter = get_chatter_by_id(*sender, store);
            if text_is(text, "/aboutme") {
                let mut actions: Vec<Action> = Vec::new();
                let reply = handle_command_aboutme(&chatter, sender_name, *message);
                actions.push(reply);
                assert(plan_view(actions@) =~= seq![reply@]);
                actions
            } else if text_is(text, "/verifyAll") {
                handle_command_verify_all(&chatter, *sender, *message)
            } else {
                let mut actions: Vec<Action> = Vec::new();
                let reply = handle_other_text(sender_name, text, *message);
                actions.push(reply);
                assert(plan_view(actions@) =~= seq![reply@]);
                actions
            }
        },
        Event::NewMembers { notice, chat_title, chat_kind, joined } => handle_new_member(
            *notice,
            chat_title,
            *chat_kind,
            joined,
            store,
        ),
        Event::MemberLeft { notice, left_member } => {
            let chatter = get_chatter_by_id(*left_member, store);
            handle_member_left(*notice, &chatter)
        },
        Event::Callback { responder, responder_name, token, origin } => {
            match (token, origin) {
                (Some(t), Some(o)) => handle_callback(*responder, responder_name, t, o),
                _ => {
                    let actions: Vec<Action> = Vec::new();
                    assert(plan_view(actions@) =~= Seq::<ActionView>::empty());
                    actions
                },
            }
        },
        Event::Other => {
            let actions: Vec<Action> = Vec::new();
            assert(plan_view(actions@) =~= Seq::<ActionView>::empty());
            actions
        },
    }
}

/// The members whose records decide what `event` leads to: the sender of a
/// text, those who joined, the one who left.
pub open spec fn consulted_members(event: EventView) -> Seq<i64> {
    match event {
        EventView::Text { sender, .. } => seq![sender],
        EventView::NewMembers { joined, .. } => joined.map_values(|j: JoinerView| j.identity),
        EventView::MemberLeft { left_member, .. } => seq![left_member],
        _ => Seq::empty(),
    }
}

/// Lists the members whose records [`dispatch`] will look at for `event`, so
/// that a caller can fetch just those.
pub fn members_to_look_up(event: &Event) -> (members: Vec<i64>)
    ensures
        members@ == consulted_members(event@),
{
    let mut members: Vec<i64> = Vec::new();
    match event {
        Event::Text { sender, .. } => {
            members.push(*sender);
            assert(members@ =~= seq![*sender]);
        },
        Event::NewMembers { joined, .. } => {
            let ghost all = joiners_view(joined@).map_values(|j: JoinerView| j.identity);
            let mut i: usize = 0;
            while i < joined.len()
                invariant
                    i <= joined.len(),
                    all == joiners_view(joined@).map_values(|j: JoinerView| j.identity),
                    members@ == all.take(i as int),
                decreases joined.len() - i,
            {
                members.push(joined[i].identity);
                assert(members@ =~= all.take(i + 1));
                i = i + 1;
            }
            assert(all.take(i as int) =~= all);
        },
        Event::MemberLeft { left_member, .. } => {
            members.push(*left_member);
            assert(members@ =~= seq![*left_member]);
        },
        _ => {
            assert(members@ =~= Seq::<i64>::empty());
        },
    }
    members
}

/// Two member tables that agree on the members an event names lead to the same
/// decision: a table that holds just the records of
/// [`members_to_look_up`] serves as well as the whole.
pub proof fn lemma_dispatch_reads_consulted_members(
    event: EventView,
    a: Map<i64, Chatter>,
    b: Map<i64, Chatter>,
)
    requires
        forall|i: int|
            0 <= i < consulted_members(event).len() ==> lookup(a, #[trigger] consulted_members(
                event,
            )[i]) == lookup(b, consulted_members(event)[i]),
    ensures
        dispatch_plan(event, a) == dispatch_plan(event, b),
{
    let members = consulted_members(event);
    match event {
        EventView::Text { sender, .. } => {
            assert(members[0] == sender);
        },
        EventView::NewMembers { notice, chat_title, chat_kind, joined } => {
            assert forall|j: int| 0 <= j < joined.len() implies lookup(
                a,
                #[trigger] joined[j].identity,
            ) == lookup(b, joined[j].identity) by {
                assert(members[j] == joined[j].identity);
            }
            lemma_challenge_plan_reads_joiners(notice, chat_title, joined, a, b);
        },
        EventView::MemberLeft { left_member, .. } => {
            assert(members[0] == left_member);
        },
        _ => {},
    }
}

/// The notice that a member has left is deleted when that member's record is
/// not verified. It stays when the record is verified, and when there is none.
pub proof fn lemma_leave_notice_cleanup(
    notice: MessageHandle,
    left_member: i64,
    rows: Map<i64, Chatter>,
)
    ensures
        dispatch_plan(EventView::MemberLeft { notice, left_member }, rows) == if rows.contains_key(
            left_member,
        ) && !rows[left_member].is_verified {
            seq![ActionView::DeleteMessage { target: notice }]
        } else {
            Seq::<ActionView>::empty()
        },
{
}

} // verus!
