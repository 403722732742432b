//! What the bot asks its caller to do.
//!
//! The bot itself touches neither the chat service nor the member table. Each
//! decision comes back as a list of actions, to be carried out in order.

use crate::store::{is_unverified, upsert_verified, Chatter, MemberStore};
use vstd::prelude::*;

verus! {

/// A reference to one message of one chat, enough to reply to it or delete it.
#[derive(Clone, Copy, Debug, PartialEq, Eq, Structural)]
pub struct MessageHandle {
    pub chat_id: i64,
    pub message_id: i64,
}

/// The single control under a challenge message.
#[derive(Clone, Debug, PartialEq, Eq)]
pub struct Button {
    /// What the button shows.
    pub label: String,
    /// What the chat service hands back when the button is pressed.
    pub token: String,
}

/// A [`Button`] as plain text.
pub struct ButtonView {
    pub label: Seq<char>,
    pub token: Seq<char>,
}

impl View for Button {
    type V = ButtonView;

    open spec fn view(&self) -> ButtonView {
        ButtonView { label: self.label@, token: self.token@ }
    }
}

/// A text message to send.
#[derive(Clone, Debug, PartialEq, Eq)]
pub struct OutgoingText {
    /// The chat to send to.
    pub chat_id: i64,
    /// The message this one answers, if it is a reply.
    pub reply_to: Option<MessageHandle>,
    pub text: String,
    /// Whether `text` is to be rendered as Markdown.
    pub markdown: bool,
    pub button: Option<Button>,
}

/// An [`OutgoingText`] as plain text.
pub struct OutgoingTextView {
    pub chat_id: i64,
    pub reply_to: Option<MessageHandle>,
    pub text: Seq<char>,
    pub markdown: bool,
    pub button: Option<ButtonView>,
}

impl View for OutgoingText {
    type V = OutgoingTextView;

    open spec fn view(&self) -> OutgoingTextView {
        OutgoingTextView {
            chat_id: self.chat_id,
            reply_to: self.reply_to,
            text: self.text@,
            markdown: self.markdown,
            button: match self.button {
                Some(button) => Some(button@),
                None => None,
            },
        }
    }
}

/// One step for the caller to carry out.
#[derive(Clone, Debug, PartialEq, Eq)]
pub enum Action {
    /// Answer the callback being handled, which ends the client's waiting
    /// state; with a toast, the presser sees that text.
    AnswerCallback { toast: Option<String> },
    /// Send a message that stays.
    SendText { message: OutgoingText },
    /// Send a message, and once it is sent hand its deletion to a detached timer
    /// that fires after `delete_after_secs`. The timer cannot be cancelled, and
    /// nothing waits for it.
    SendTransient { message: OutgoingText, delete_after_secs: u64 },
    /// Delete a message now.
    DeleteMessage { target: MessageHandle },
    /// Record the member as verified in the member table.
    MarkVerified { identity: i64 },
    /// Ask the chat service who administers the chat, to settle whether `member`
    /// does.
    QueryAdministrators { chat_id: i64, member: i64 },
}

/// An [`Action`] as plain text.
pub enum ActionView {
    AnswerCallback { toast: Option<Seq<char>> },
    SendText { message: OutgoingTextView },
    SendTransient { message: OutgoingTextView, delete_after_secs: u64 },
    DeleteMessage { target: MessageHandle },
    MarkVerified { identity: i64 },
    QueryAdministrators { chat_id: i64, member: i64 },
}

impl View for Action {
    type V = ActionView;

    open spec fn view(&self) -> ActionView {
        match *self {
            Action::AnswerCallback { toast } => ActionView::AnswerCallback {
                toast: match toast {
                    Some(text) => Some(text@),
                    None => None,
                },
            },
            Action::SendText { message } => ActionView::SendText { message: message@ },
            Action::SendTransient { message, delete_after_secs } => ActionView::SendTransient {
                message: message@,
                delete_after_secs,
            },
            Action::DeleteMessage { target } => ActionView::DeleteMessage { target },
            Action::MarkVerified { identity } => ActionView::MarkVerified { identity },
            Action::QueryAdministrators { chat_id, member } => ActionView::QueryAdministrators {
                chat_id,
                member,
            },
        }
    }
}

/// A list of actions as plain text, in order.
pub open spec fn plan_view(actions: Seq<Action>) -> Seq<ActionView> {
    actions.map_values(|a: Action| a@)
}

/// What a failed action means for the actions after it.
#[derive(Clone, Copy, Debug, PartialEq, Eq, Structural)]
pub enum FailurePolicy {
    /// Note the failure and carry on with the next action.
    Continue,
    /// Give up on the event and report the failure.
    Abort,
}

/// The policy on the failure of `action`: a write to the member table must not
/// be lost silently, everything said to the chat service is best effort.
pub open spec fn failure_policy(action: ActionView) -> FailurePolicy {
    if action is MarkVerified {
        FailurePolicy::Abort
    } else {
        FailurePolicy::Continue
    }
}

/// The member table after `action` has been carried out.
pub open spec fn rows_after(rows: Map<i64, Chatter>, action: ActionView) -> Map<i64, Chatter> {
    match action {
        ActionView::MarkVerified { identity } => upsert_verified(rows, identity),
        _ => rows,
    }
}

/// The member table after all of `plan` has been carried out, in order.
pub open spec fn rows_after_all(rows: Map<i64, Chatter>, plan: Seq<ActionView>) -> Map<
    i64,
    Chatter,
>
    decreases plan.len(),
{
    if plan.len() == 0 {
        rows
    } else {
        rows_after(rows_after_all(rows, plan.drop_last()), plan.last())
    }
}

/// Whatever is carried out, a verified member stays verified: a verification,
/// once recorded, is never taken back.
pub proof fn lemma_verification_is_never_undone(
    rows: Map<i64, Chatter>,
    plan: Seq<ActionView>,
    identity: i64,
)
    requires
        !is_unverified(rows, identity),
    ensures
        !is_unverified(rows_after_all(rows, plan), identity),
    decreases plan.len(),
{
    if plan.len() > 0 {
        lemma_verification_is_never_undone(rows, plan.drop_last(), identity);
    }
}

impl Action {
    /// What to do about the rest of the event's actions when this one fails.
    pub fn on_failure(&self) -> (policy: FailurePolicy)
        ensures
            policy == failure_policy(self@),
    {
        match self {
            Action::MarkVerified { .. } => FailurePolicy::Abort,
            _ => FailurePolicy::Continue,
        }
    }
}

impl MemberStore {
    /// Carries out what `action` asks of the member table, which is nothing unless
    /// it records a verification.
    pub fn apply(&mut self, action: &Action)
        ensures
            final(self)@ == rows_after(old(self)@, action@),
    {
        match action {
            Action::MarkVerified { identity } => {
                self.mark_verified(*identity);
            },
            _ => {},
        }
    }

    /// Carries out on the member table all that `actions` ask of it, in order.
    pub fn apply_all(&mut self, actions: &Vec<Action>)
        ensures
            final(self)@ == rows_after_all(old(self)@, plan_view(actions@)),
    {
        let ghost plan = plan_view(actions@);
        let mut i: usize = 0;
        assert(plan.take(0) =~= Seq::<ActionView>::empty());
        while i < actions.len()
            invariant
                i <= actions.len(),
                plan == plan_view(actions@),
                self@ == rows_after_all(old(self)@, plan.take(i as int)),
            decreases actions.len() - i,
        {
            self.apply(&actions[i]);
            assert(plan.take(i + 1).drop_last() =~= plan.take(i as int));
            assert(plan.take(i + 1).last() == actions@[i as int]@);
            i = i + 1;
        }
        assert(plan.take(i as int) =~= plan);
    }
}

} // verus!
