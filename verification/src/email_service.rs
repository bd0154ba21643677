//! Outreach mail to contacts: the templates, the sender line and the
//! payload that is handed to the delivery service.

use crate::text::{join, to_chars, trim, trim_chars, trim_spec};
use vstd::prelude::*;

verus! {

/// Why no outreach mail was sent.
#[derive(Debug)]
pub enum EmailServiceError {
    /// The contact has no address.
    MissingRecipient,
    /// The delivery service failed; its words.
    Transport(String),
}

impl EmailServiceError {
    /// The report of the error in words.
    pub open spec fn message_spec(&self) -> Seq<char> {
        match self {
            EmailServiceError::MissingRecipient => "contact is missing an email"@,
            EmailServiceError::Transport(text) => "failed to call Resend API: "@ + text@,
        }
    }

    /// The report of the error in words.
    pub fn message(&self) -> (r: String)
        ensures
            r@ == self.message_spec(),
    {
        match self {
            EmailServiceError::MissingRecipient => "contact is missing an email".to_string(),
            EmailServiceError::Transport(text) => join(
                "failed to call Resend API: ",
                text.as_str(),
            ),
        }
    }
}

/// What the delivery service answered to a request to send.
#[derive(Debug)]
pub struct EmailSendResult {
    pub message_id: String,
    pub delivery_status: String,
}

/// What the delivery service knows of a message.
#[derive(Debug)]
pub struct EmailStatusResult {
    pub status: String,
}

/// The texts of a template.
#[derive(Debug)]
pub struct TemplateContent {
    pub subject: String,
    pub html_body: String,
    pub text_body: String,
}

/// The templates for outreach mail.
#[derive(Debug, Clone, Copy, PartialEq, Eq, Structural)]
pub enum EmailTemplateKind {
    Intro,
    FollowUp,
    Custom,
}

impl Default for EmailTemplateKind {
    fn default() -> (r: EmailTemplateKind)
        ensures
            r == EmailTemplateKind::Custom,
    {
        EmailTemplateKind::Custom
    }
}

pub const INTRO_SUBJECT: &'static str = "Quick intro from Poblysh for ";

pub const INTRO_HTML_OPEN: &'static str = "<p>Hi ";

pub const INTRO_HTML_MIDDLE: &'static str =
    ",</p><p>Wanted to introduce you to Poblysh — we help teams like ";

pub const INTRO_HTML_CLOSE: &'static str =
    " accelerate their customer validation work without adding more tools to their stack.</p><p>Are you open to a short call this week to walk through how we're helping other teams track outreach and insights?</p><p>Best,<br/>The Poblysh team</p>";

pub const INTRO_TEXT_OPEN: &'static str = "Hi ";

pub const INTRO_TEXT_MIDDLE: &'static str =
    ",\n\nWanted to introduce you to Poblysh — we help teams like ";

pub const INTRO_TEXT_CLOSE: &'static str =
    " accelerate their customer validation work without adding more tools to their stack.\n\nAre you open to a short call this week to walk through how we're helping other teams track outreach and insights?\n\nBest,\nThe Poblysh team";

pub const FOLLOW_UP_SUBJECT: &'static str = "Following up on Poblysh <> ";

pub const FOLLOW_UP_HTML_CLOSE: &'static str =
    ",</p><p>Just checking back in on Poblysh. Happy to send a short Loom or find time live if you still want to see how teams are logging outreach + interviews in one place.</p><p>Let me know what works best for you.</p><p>Thanks,<br/>The Poblysh team</p>";

pub const FOLLOW_UP_TEXT_CLOSE: &'static str =
    ",\n\nJust checking back in on Poblysh. Happy to send a short Loom or find time live if you still want to see how teams are logging outreach + interviews in one place.\n\nLet me know what works best for you.\n\nThanks,\nThe Poblysh team";

/// The texts of a template for a contact at a startup, as a triple of
/// subject, HTML body and plain body.
pub open spec fn defaults_spec(
    kind: EmailTemplateKind,
    contact_name: Seq<char>,
    startup_name: Seq<char>,
) -> (Seq<char>, Seq<char>, Seq<char>) {
    match kind {
        EmailTemplateKind::Intro => (
            INTRO_SUBJECT@ + startup_name,
            INTRO_HTML_OPEN@ + contact_name + INTRO_HTML_MIDDLE@ + startup_name
                + INTRO_HTML_CLOSE@,
            INTRO_TEXT_OPEN@ + contact_name + INTRO_TEXT_MIDDLE@ + startup_name
                + INTRO_TEXT_CLOSE@,
        ),
        EmailTemplateKind::FollowUp => (
            FOLLOW_UP_SUBJECT@ + startup_name,
            INTRO_HTML_OPEN@ + contact_name + FOLLOW_UP_HTML_CLOSE@,
            INTRO_TEXT_OPEN@ + contact_name + FOLLOW_UP_TEXT_CLOSE@,
        ),
        EmailTemplateKind::Custom => (Seq::empty(), Seq::empty(), Seq::empty()),
    }
}

fn join3(a: &str, b: &str, c: &str) -> (r: String)
    ensures
        r@ == a@ + b@ + c@,
{
    let ab = join(a, b);
    join(ab.as_str(), c)
}

fn join5(a: &str, b: &str, c: &str, d: &str, e: &str) -> (r: String)
    ensures
        r@ == a@ + b@ + c@ + d@ + e@,
{
    let abc = join3(a, b, c);
    join3(abc.as_str(), d, e)
}

impl EmailTemplateKind {
    /// The name of each template as it is shown.
    pub open spec fn display_name_spec(&self) -> Seq<char> {
        match self {
            EmailTemplateKind::Intro => "Intro"@,
            EmailTemplateKind::FollowUp => "Follow-up"@,
            EmailTemplateKind::Custom => "Custom"@,
        }
    }

    /// The name of the template as it is shown.
    pub fn display_name(&self) -> (r: &'static str)
        ensures
            r@ == self.display_name_spec(),
    {
        match self {
            EmailTemplateKind::Intro => "Intro",
            EmailTemplateKind::FollowUp => "Follow-up",
            EmailTemplateKind::Custom => "Custom",
        }
    }

    /// The texts of the template for a contact at a startup. The custom
    /// template has none.
    pub fn defaults(&self, contact_name: &str, startup_name: &str) -> (r: TemplateContent)
        ensures
            (r.subject@, r.html_body@, r.text_body@) == defaults_spec(
                *self,
                contact_name@,
                startup_name@,
            ),
    {
        match self {
            EmailTemplateKind::Intro => TemplateContent {
                subject: join(INTRO_SUBJECT, startup_name),
                html_body: join5(
                    INTRO_HTML_OPEN,
                    contact_name,
                    INTRO_HTML_MIDDLE,
                    startup_name,
                    INTRO_HTML_CLOSE,
                ),
                text_body: join5(
                    INTRO_TEXT_OPEN,
                    contact_name,
                    INTRO_TEXT_MIDDLE,
                    startup_name,
                    INTRO_TEXT_CLOSE,
                ),
            },
            EmailTemplateKind::FollowUp => TemplateContent {
                subject: join(FOLLOW_UP_SUBJECT, startup_name),
                html_body: join3(INTRO_HTML_OPEN, contact_name, FOLLOW_UP_HTML_CLOSE),
                text_body: join3(INTRO_TEXT_OPEN, contact_name, FOLLOW_UP_TEXT_CLOSE),
            },
            EmailTemplateKind::Custom => TemplateContent {
                subject: String::new(),
                html_body: String::new(),
                text_body: String::new(),
            },
        }
    }
}

/// Whether a text is empty once trimmed.
pub open spec fn is_blank(text: Seq<char>) -> bool {
    trim_spec(text).len() == 0
}

/// Whether a text is empty once trimmed.
pub fn blank(text: &str) -> (r: bool)
    ensures
        r == is_blank(text@),
{
    let chars = to_chars(text);
    let trimmed = trim_chars(&chars);
    trimmed.len() == 0
}

/// The sender line of an outreach mail: a name and an address in angle
/// brackets. The name is the sender's, else the sender's address, else the
/// default name; the address is the sender's, else the default address.
pub open spec fn sender_address_spec(
    default_name: Seq<char>,
    default_email: Seq<char>,
    sender_name: Seq<char>,
    sender_email: Seq<char>,
) -> Seq<char> {
    let email = trim_spec(sender_email);
    let name = if is_blank(sender_name) {
        if email.len() == 0 {
            default_name
        } else {
            email
        }
    } else {
        trim_spec(sender_name)
    };
    name + " <"@ + (if email.len() == 0 {
        default_email
    } else {
        email
    }) + ">"@
}

/// Writes the sender line of an outreach mail.
pub fn sender_address(
    default_name: &str,
    default_email: &str,
    sender_name: &str,
    sender_email: &str,
) -> (r: String)
    ensures
        r@ == sender_address_spec(default_name@, default_email@, sender_name@, sender_email@),
{
    let email = trim(sender_email);
    let trimmed_name = trim(sender_name);
    let no_email = email.as_str().is_empty();
    let name: String = if trimmed_name.as_str().is_empty() {
        if no_email {
            default_name.to_string()
        } else {
            email.clone()
        }
    } else {
        trimmed_name
    };
    let address: &str = if no_email {
        default_email
    } else {
        email.as_str()
    };
    let open = join3(name.as_str(), " <", address);
    join(open.as_str(), ">")
}

/// An outreach mail as it is handed to the delivery service.
#[derive(Debug)]
pub struct ContactEmail {
    pub from: String,
    pub to: String,
    pub subject: String,
    pub html: String,
    /// The plain body, left out where it is blank.
    pub text: Option<String>,
}

/// Prepares an outreach mail for a contact. Without an address of the
/// contact there is none.
pub fn send_contact_email(
    default_name: &str,
    default_email: &str,
    to: Option<&String>,
    sender_name: &str,
    sender_email: &str,
    subject: &str,
    html_body: &str,
    text_body: &str,
) -> (r: Result<ContactEmail, EmailServiceError>)
    ensures
        match to {
            None => r matches Err(e) && e == EmailServiceError::MissingRecipient,
            Some(recipient) => r matches Ok(mail) && mail.to@ == recipient@ && mail.from@
                == sender_address_spec(default_name@, default_email@, sender_name@, sender_email@)
                && mail.subject@ == subject@ && mail.html@ == html_body@ && mail.text.deep_view()
                == (if is_blank(text_body@) {
                None::<Seq<char>>
            } else {
                Some(text_body@)
            }),
        },
{
    let recipient = match to {
        Some(recipient) => recipient,
        None => return Err(EmailServiceError::MissingRecipient),
    };
    let text = if blank(text_body) {
        None
    } else {
        Some(text_body.to_string())
    };
    Ok(
        ContactEmail {
            from: sender_address(default_name, default_email, sender_name, sender_email),
            to: recipient.clone(),
            subject: subject.to_string(),
            html: html_body.to_string(),
            text,
        },
    )
}

/// What last happened to a mail at the delivery service.
#[derive(Debug, Clone, Copy, PartialEq, Eq, Structural)]
pub enum DeliveryEvent {
    Bounced,
    Canceled,
    Clicked,
    Complained,
    Delivered,
    DeliveryDelayed,
    Failed,
    Opened,
    Queued,
    Scheduled,
    Sent,
}

impl DeliveryEvent {
    /// The delivery status that each event stands for.
    pub open spec fn status_spec(&self) -> Seq<char> {
        match self {
            DeliveryEvent::Bounced => "bounced"@,
            DeliveryEvent::Canceled => "canceled"@,
            DeliveryEvent::Clicked => "clicked"@,
            DeliveryEvent::Complained => "complained"@,
            DeliveryEvent::Delivered => "delivered"@,
            DeliveryEvent::DeliveryDelayed => "delivery-delayed"@,
            DeliveryEvent::Failed => "failed"@,
            DeliveryEvent::Opened => "opened"@,
            DeliveryEvent::Queued => "queued"@,
            DeliveryEvent::Scheduled => "scheduled"@,
            DeliveryEvent::Sent => "sent"@,
        }
    }
}

/// The delivery status that is logged for the last event of a mail.
pub fn event_to_status(event: DeliveryEvent) -> (r: &'static str)
    ensures
        r@ == event.status_spec(),
{
    match event {
        DeliveryEvent::Bounced => "bounced",
        DeliveryEvent::Canceled => "canceled",
        DeliveryEvent::Clicked => "clicked",
        DeliveryEvent::Complained => "complained",
        DeliveryEvent::Delivered => "delivered",
        DeliveryEvent::DeliveryDelayed => "delivery-delayed",
        DeliveryEvent::Failed => "failed",
        DeliveryEvent::Opened => "opened",
        DeliveryEvent::Queued => "queued",
        DeliveryEvent::Scheduled => "scheduled",
        DeliveryEvent::Sent => "sent",
    }
}

} // verus!
