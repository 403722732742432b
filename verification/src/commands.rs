//! The text commands, and the reply to any other text.

use crate::action::{
    plan_view, Action, ActionView, MessageHandle, OutgoingText, OutgoingTextView,
};
use crate::store::Chatter;
use crate::token::{append_decimal, decimal};
use vstd::prelude::*;
use vstd::string::*;

verus! {

/// How a flag reads in a member's record.
pub open spec fn flag_text(flag: bool) -> Seq<char> {
    if flag {
        "true"@
    } else {
        "false"@
    }
}

/// A member's record, written out field by field.
pub open spec fn chatter_text(row: Chatter) -> Seq<char> {
    "Chatter { telegram_id: "@ + decimal(row.telegram_id as int) + ", is_verified: "@ + flag_text(
        row.is_verified,
    ) + ", is_global_admin: "@ + flag_text(row.is_global_admin) + " }"@
}

/// What `/aboutme` tells the sender: the stored record, or how to get one.
pub open spec fn about_me_text(sender_name: Seq<char>, chatter: Option<Chatter>) -> Seq<char> {
    match chatter {
        Some(row) => "Hi, "@ + sender_name + "! Das weiß ich über dich:\n```\n"@ + chatter_text(row)
            + "\n```"@,
        None => "Hi, "@ + sender_name
            + "!\nDu hast dich bisher noch nicht verifiziert. Wenn ein Admin /verifyAll ausführt, wirst du automtaisch verifiziert."@,
    }
}

/// The reply to `/aboutme`.
pub open spec fn about_me_reply(
    chatter: Option<Chatter>,
    sender_name: Seq<char>,
    message: MessageHandle,
) -> ActionView {
    ActionView::SendText {
        message: OutgoingTextView {
            chat_id: message.chat_id,
            reply_to: Some(message),
            text: about_me_text(sender_name, chatter),
            markdown: true,
            button: None,
        },
    }
}

/// What `/verifyAll` leads to: a stored record settles the sender's rights by
/// itself, and only for an unknown sender is the chat asked.
pub open spec fn verify_all_plan(chatter: Option<Chatter>, sender: i64, message: MessageHandle) -> Seq<
    ActionView,
> {
    match chatter {
        Some(_) => Seq::empty(),
        None => seq![ActionView::QueryAdministrators { chat_id: message.chat_id, member: sender }],
    }
}

/// The reply to a text that is no command.
pub open spec fn echo_reply(sender_name: Seq<char>, text: Seq<char>, message: MessageHandle) -> ActionView {
    ActionView::SendText {
        message: OutgoingTextView {
            chat_id: message.chat_id,
            reply_to: Some(message),
            text: "Hi, "@ + sender_name + "! You just wrote '"@ + text + "'"@,
            markdown: false,
            button: None,
        },
    }
}

fn append_flag(out: &mut String, flag: bool)
    ensures
        final(out)@ == old(out)@ + flag_text(flag),
{
    if flag {
        out.append("true");
    } else {
        out.append("false");
    }
}

impl Chatter {
    /// Writes the record out field by field.
    pub fn describe(&self) -> (text: String)
        ensures
            text@ == chatter_text(*self),
    {
        let mut text = String::from_str("Chatter { telegram_id: ");
        append_decimal(&mut text, self.telegram_id);
        text.append(", is_verified: ");
        append_flag(&mut text, self.is_verified);
        text.append(", is_global_admin: ");
        append_flag(&mut text, self.is_global_admin);
        text.append(" }");
        text
    }
}

/// Answers `/aboutme` with what is stored about the sender.
pub fn handle_command_aboutme(chatter: &Option<Chatter>, sender_name: &String, message: MessageHandle) -> (action:
    Action)
    ensures
        action@ == about_me_reply(*chatter, sender_name@, message),
{
    let mut text = String::from_str("Hi, ");
    text.append(sender_name.as_str());
    match chatter {
        Some(row) => {
            text.append("! Das weiß ich über dich:\n```\n");
            let record = row.describe();
            text.append(record.as_str());
            text.append("\n```");
        },
        None => {
            text.append(
                "!\nDu hast dich bisher noch nicht verifiziert. Wenn ein Admin /verifyAll ausführt, wirst du automtaisch verifiziert.",
            );
        },
    }
    Action::SendText {
        message: OutgoingText {
            chat_id: message.chat_id,
            reply_to: Some(message),
            text,
            markdown: true,
            button: None,
        },
    }
}

/// Starts the administrator check that `/verifyAll` begins with.
///
/// Nothing is asked of the chat when a stored record already settles the
/// matter. Otherwise the caller fetches the chat's administrators and settles
/// it with [`is_chatter_admin`](crate::store::is_chatter_admin).
pub fn handle_command_verify_all(chatter: &Option<Chatter>, sender: i64, message: MessageHandle) -> (actions:
    Vec<Action>)
    ensures
        plan_view(actions@) == verify_all_plan(*chatter, sender, message),
{
    let mut actions: Vec<Action> = Vec::new();
    match chatter {
        Some(_) => {},
        None => {
            actions.push(Action::QueryAdministrators { chat_id: message.chat_id, member: sender });
        },
    }
    assert(plan_view(actions@) =~= verify_all_plan(*chatter, sender, message));
    actions
}

/// Answers a text that is no command by repeating it.
pub fn handle_other_text(sender_name: &String, text: &String, message: MessageHandle) -> (action:
    Action)
    ensures
        action@ == echo_reply(sender_name@, text@, message),
{
    let mut reply = String::from_str("Hi, ");
    reply.append(sender_name.as_str());
    reply.append("! You just wrote '");
    reply.append(text.as_str());
    reply.append("'");
    Action::SendText {
        message: OutgoingText {
            chat_id: message.chat_id,
            reply_to: Some(message),
            text: reply,
            markdown: false,
            button: None,
        },
    }
}

} // verus!
