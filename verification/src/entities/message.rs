//! One stored email, inbound or outbound.

use vstd::prelude::*;

verus! {

/// Whether the account sent or received a message.
#[derive(Debug, Clone, Copy, PartialEq, Eq, Structural)]
pub enum Direction {
    Sent,
    Received,
}

impl Direction {
    /// The name under which the direction is stored.
    pub fn as_str(&self) -> (r: &'static str)
        ensures
            r@ == self.name_spec(),
    {
        match self {
            Direction::Sent => {
                proof {
                    reveal_strlit("sent");
                    assert("sent"@ =~= Direction::Sent.name_spec());
                }
                "sent"
            },
            Direction::Received => {
                proof {
                    reveal_strlit("received");
                    assert("received"@ =~= Direction::Received.name_spec());
                }
                "received"
            },
        }
    }

    /// The stored name of each direction.
    pub open spec fn name_spec(&self) -> Seq<char> {
        match self {
            Direction::Sent => seq!['s', 'e', 'n', 't'],
            Direction::Received => seq!['r', 'e', 'c', 'e', 'i', 'v', 'e', 'd'],
        }
    }
}

/// An address of a message header, lower-cased, with its display name.
#[derive(Debug)]
pub struct ParsedAddress {
    pub email: String,
    pub name: Option<String>,
}

/// The mathematical value of an address.
pub struct ParsedAddressView {
    pub email: Seq<char>,
    pub name: Option<Seq<char>>,
}

impl DeepView for ParsedAddress {
    type V = ParsedAddressView;

    open spec fn deep_view(&self) -> ParsedAddressView {
        ParsedAddressView { email: self.email@, name: self.name.deep_view() }
    }
}

/// One message. Its `message_id_header`, when present, is unique in a store.
#[derive(Debug)]
pub struct Model {
    pub id: u128,
    pub conversation_id: u128,
    pub user_id: u128,
    pub sender_name: Option<String>,
    pub sender_email: String,
    pub subject: String,
    pub body_text: Option<String>,
    pub body_html: Option<String>,
    pub direction: Direction,
    pub to_emails: Vec<ParsedAddress>,
    pub cc_emails: Vec<ParsedAddress>,
    pub bcc_emails: Vec<ParsedAddress>,
    pub sent_at: i64,
    pub delivered_at: i64,
    pub read_at: Option<i64>,
    pub is_read: bool,
    pub is_from_me: bool,
    pub imap_uid: Option<u32>,
    pub message_id_header: Option<String>,
    pub in_reply_to: Option<String>,
    pub references: Option<String>,
    pub snippet: Option<String>,
    pub has_attachments: bool,
    pub attachment_count: i32,
    pub created_at: i64,
}

/// The mathematical value of a message.
pub struct ModelView {
    pub id: u128,
    pub conversation_id: u128,
    pub user_id: u128,
    pub sender_name: Option<Seq<char>>,
    pub sender_email: Seq<char>,
    pub subject: Seq<char>,
    pub body_text: Option<Seq<char>>,
    pub body_html: Option<Seq<char>>,
    pub direction: Direction,
    pub to_emails: Seq<ParsedAddressView>,
    pub cc_emails: Seq<ParsedAddressView>,
    pub bcc_emails: Seq<ParsedAddressView>,
    pub sent_at: i64,
    pub delivered_at: i64,
    pub read_at: Option<i64>,
    pub is_read: bool,
    pub is_from_me: bool,
    pub imap_uid: Option<u32>,
    pub message_id_header: Option<Seq<char>>,
    pub in_reply_to: Option<Seq<char>>,
    pub references: Option<Seq<char>>,
    pub snippet: Option<Seq<char>>,
    pub has_attachments: bool,
    pub attachment_count: i32,
    pub created_at: i64,
}

impl DeepView for Model {
    type V = ModelView;

    open spec fn deep_view(&self) -> ModelView {
        ModelView {
            id: self.id,
            conversation_id: self.conversation_id,
            user_id: self.user_id,
            sender_name: self.sender_name.deep_view(),
            sender_email: self.sender_email@,
            subject: self.subject@,
            body_text: self.body_text.deep_view(),
            body_html: self.body_html.deep_view(),
            direction: self.direction,
            to_emails: self.to_emails.deep_view(),
            cc_emails: self.cc_emails.deep_view(),
            bcc_emails: self.bcc_emails.deep_view(),
            sent_at: self.sent_at,
            delivered_at: self.delivered_at,
            read_at: self.read_at,
            is_read: self.is_read,
            is_from_me: self.is_from_me,
            imap_uid: self.imap_uid,
            message_id_header: self.message_id_header.deep_view(),
            in_reply_to: self.in_reply_to.deep_view(),
            references: self.references.deep_view(),
            snippet: self.snippet.deep_view(),
            has_attachments: self.has_attachments,
            attachment_count: self.attachment_count,
            created_at: self.created_at,
        }
    }
}

} // verus!
