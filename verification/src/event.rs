//! What the chat service reports to the bot.

use crate::action::MessageHandle;
use vstd::prelude::*;

verus! {

/// The kind of chat an event comes from.
#[derive(Clone, Copy, Debug, PartialEq, Eq, Structural)]
pub enum ChatKind {
    Group,
    Supergroup,
    /// A private chat, a channel, or anything else where nobody is challenged.
    Other,
}

/// A member who has just joined.
#[derive(Clone, Debug, PartialEq, Eq)]
pub struct Joiner {
    pub identity: i64,
    pub display_name: String,
}

/// A [`Joiner`] as plain text.
pub struct JoinerView {
    pub identity: i64,
    pub display_name: Seq<char>,
}

impl View for Joiner {
    type V = JoinerView;

    open spec fn view(&self) -> JoinerView {
        JoinerView { identity: self.identity, display_name: self.display_name@ }
    }
}

/// A list of joiners as plain text, in order.
pub open spec fn joiners_view(joined: Seq<Joiner>) -> Seq<JoinerView> {
    joined.map_values(|j: Joiner| j@)
}

/// The message under which a pressed button sits.
#[derive(Clone, Copy, Debug, PartialEq, Eq, Structural)]
pub struct Origin {
    /// The message that carries the button.
    pub message: MessageHandle,
    /// The message it was a reply to, if it was a reply.
    pub quoted: Option<MessageHandle>,
}

/// One inbound event. The variants are all there is: what the bot has no use
/// for arrives as [`Event::Other`].
#[derive(Clone, Debug, PartialEq, Eq)]
pub enum Event {
    /// Somebody wrote a text message.
    Text { sender: i64, sender_name: String, message: MessageHandle, text: String },
    /// The chat service announced new members.
    NewMembers { notice: MessageHandle, chat_title: String, chat_kind: ChatKind, joined: Vec<Joiner> },
    /// The chat service announced that a member has left.
    MemberLeft { notice: MessageHandle, left_member: i64 },
    /// Somebody pressed a button. The token and the message may be missing from
    /// what the chat service delivers.
    Callback {
        responder: i64,
        responder_name: String,
        token: Option<String>,
        origin: Option<Origin>,
    },
    /// Any other event.
    Other,
}

/// An [`Event`] as plain text.
pub enum EventView {
    Text { sender: i64, sender_name: Seq<char>, message: MessageHandle, text: Seq<char> },
    NewMembers {
        notice: MessageHandle,
        chat_title: Seq<char>,
        chat_kind: ChatKind,
        joined: Seq<JoinerView>,
    },
    MemberLeft { notice: MessageHandle, left_member: i64 },
    Callback {
        responder: i64,
        responder_name: Seq<char>,
        token: Option<Seq<char>>,
        origin: Option<Origin>,
    },
    Other,
}

impl View for Event {
    type V = EventView;

    open spec fn view(&self) -> EventView {
        match *self {
            Event::Text { sender, sender_name, message, text } => EventView::Text {
                sender,
                sender_name: sender_name@,
                message,
                text: text@,
            },
            Event::NewMembers { notice, chat_title, chat_kind, joined } => EventView::NewMembers {
                notice,
                chat_title: chat_title@,
                chat_kind,
                joined: joiners_view(joined@),
            },
            Event::MemberLeft { notice, left_member } => EventView::MemberLeft {
                notice,
                left_member,
            },
            Event::Callback { responder, responder_name, token, origin } => EventView::Callback {
                responder,
                responder_name: responder_name@,
                token: match token {
                    Some(text) => Some(text@),
                    None => None,
                },
                origin,
            },
            Event::Other => EventView::Other,
        }
    }
}

} // verus!
