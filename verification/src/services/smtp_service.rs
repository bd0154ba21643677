//! The outbound dispatcher: from a request to send to a message ready for
//! delivery.

use crate::services::encryption_service::{decrypt_spec, EncryptionService};
use crate::services::error::{MailError, MailErrorView};
use crate::services::store::{credential_of_user, first_index, MailStore};
use crate::text::join;
use vstd::prelude::*;

verus! {

/// An attachment of a message to send.
#[derive(Debug)]
pub struct OutgoingAttachment {
    pub file_name: String,
    pub content_type: String,
    pub data: Vec<u8>,
    pub is_inline: bool,
    pub content_id: Option<String>,
}

/// The mathematical value of an [`OutgoingAttachment`].
pub struct OutgoingAttachmentView {
    pub file_name: Seq<char>,
    pub content_type: Seq<char>,
    pub data: Seq<u8>,
    pub is_inline: bool,
    pub content_id: Option<Seq<char>>,
}

impl DeepView for OutgoingAttachment {
    type V = OutgoingAttachmentView;

    open spec fn deep_view(&self) -> OutgoingAttachmentView {
        OutgoingAttachmentView {
            file_name: self.file_name@,
            content_type: self.content_type@,
            data: self.data@,
            is_inline: self.is_inline,
            content_id: self.content_id.deep_view(),
        }
    }
}

/// A mailbox: an address with an optional display name.
#[derive(Debug)]
pub struct Mailbox {
    pub name: Option<String>,
    pub email: String,
}

/// The mathematical value of a [`Mailbox`].
pub struct MailboxView {
    pub name: Option<Seq<char>>,
    pub email: Seq<char>,
}

impl DeepView for Mailbox {
    type V = MailboxView;

    open spec fn deep_view(&self) -> MailboxView {
        MailboxView { name: self.name.deep_view(), email: self.email@ }
    }
}

/// The kind of a text body.
#[derive(Debug, Clone, Copy, PartialEq, Eq, Structural)]
pub enum TextKind {
    /// `text/plain` in UTF-8.
    Plain,
    /// `text/html` in UTF-8.
    Html,
}

/// One text body of a message.
#[derive(Debug)]
pub struct TextPart {
    pub kind: TextKind,
    pub body: String,
}

/// The mathematical value of a [`TextPart`].
pub struct TextPartView {
    pub kind: TextKind,
    pub body: Seq<char>,
}

impl DeepView for TextPart {
    type V = TextPartView;

    open spec fn deep_view(&self) -> TextPartView {
        TextPartView { kind: self.kind, body: self.body@ }
    }
}

/// One attachment part of a message: where it is shown, under what name or
/// content id, as what media type, and its bytes.
#[derive(Debug)]
pub struct AttachmentBody {
    /// Whether the part is shown inside the HTML body.
    pub is_inline: bool,
    /// The file name of a regular part; the content id of an inline part, by
    /// which the HTML body refers to it as `cid:` and the id.
    pub name: String,
    /// The media type, as the `mime` crate writes it.
    pub content_type: String,
    pub data: Vec<u8>,
}

/// The mathematical value of an [`AttachmentBody`].
pub struct AttachmentBodyView {
    pub is_inline: bool,
    pub name: Seq<char>,
    pub content_type: Seq<char>,
    pub data: Seq<u8>,
}

impl DeepView for AttachmentBody {
    type V = AttachmentBodyView;

    open spec fn deep_view(&self) -> AttachmentBodyView {
        AttachmentBodyView {
            is_inline: self.is_inline,
            name: self.name@,
            content_type: self.content_type@,
            data: self.data@,
        }
    }
}

/// The body of a message: a `mixed` part that holds one `alternative` part
/// of text bodies, followed by the attachments.
#[derive(Debug)]
pub struct MultipartBody {
    pub alternative: Vec<TextPart>,
    pub attachments: Vec<AttachmentBody>,
}

/// The mathematical value of a [`MultipartBody`].
pub struct MultipartBodyView {
    pub alternative: Seq<TextPartView>,
    pub attachments: Seq<AttachmentBodyView>,
}

impl DeepView for MultipartBody {
    type V = MultipartBodyView;

    open spec fn deep_view(&self) -> MultipartBodyView {
        MultipartBodyView {
            alternative: self.alternative.deep_view(),
            attachments: self.attachments.deep_view(),
        }
    }
}

/// A message ready for delivery, with where and as whom to deliver it.
#[derive(Debug)]
pub struct OutgoingEmail {
    pub from: Mailbox,
    pub to: Vec<Mailbox>,
    pub cc: Vec<Mailbox>,
    pub bcc: Vec<Mailbox>,
    pub subject: String,
    pub body: MultipartBody,
    pub smtp_host: String,
    pub smtp_port: i32,
    pub username: String,
    pub password: String,
}

/// The mathematical value of an [`OutgoingEmail`].
pub struct OutgoingEmailView {
    pub from: MailboxView,
    pub to: Seq<MailboxView>,
    pub cc: Seq<MailboxView>,
    pub bcc: Seq<MailboxView>,
    pub subject: Seq<char>,
    pub body: MultipartBodyView,
    pub smtp_host: Seq<char>,
    pub smtp_port: i32,
    pub username: Seq<char>,
    pub password: Seq<char>,
}

impl DeepView for OutgoingEmail {
    type V = OutgoingEmailView;

    open spec fn deep_view(&self) -> OutgoingEmailView {
        OutgoingEmailView {
            from: self.from.deep_view(),
            to: self.to.deep_view(),
            cc: self.cc.deep_view(),
            bcc: self.bcc.deep_view(),
            subject: self.subject@,
            body: self.body.deep_view(),
            smtp_host: self.smtp_host@,
            smtp_port: self.smtp_port,
            username: self.username@,
            password: self.password@,
        }
    }
}

/// Name for the mailbox that the `lettre` crate reads from a text with
/// `Mailbox::from_str`, its address written out, or nothing where it rejects
/// the text.
pub uninterp spec fn parsed_mailbox(text: Seq<char>) -> Option<MailboxView>;

/// Name for the media type that the `mime` crate reads from a text with
/// `Mime::from_str`, written out again, or nothing where it rejects the
/// text.
pub uninterp spec fn parsed_mime(text: Seq<char>) -> Option<Seq<char>>;

/// Calls `Mailbox::from_str` of `lettre`. The result is known to contracts
/// only under the name [`parsed_mailbox`].
#[verifier::external_body]
fn parse_mailbox_text(input: &str) -> (r: Option<Mailbox>)
    ensures
        r.deep_view() == parsed_mailbox(input@),
{
    let mailbox = input.parse::<lettre::message::Mailbox>().ok()?;
    Some(Mailbox { name: mailbox.name, email: mailbox.email.to_string() })
}

/// Calls `Mime::from_str` of `mime` and writes the media type out. The
/// result is known to contracts only under the name [`parsed_mime`].
#[verifier::external_body]
fn parse_mime(input: &str) -> (r: Option<String>)
    ensures
        r.deep_view() == parsed_mime(input@),
{
    input.parse::<mime::Mime>().ok().map(|m| m.to_string())
}

/// Calls `ContentType::parse` of `lettre`, which reads its text with
/// `Mime::from_str` of `mime` and fails exactly where that does: whether the
/// text is accepted is whether [`parsed_mime`] names a media type for it.
#[verifier::external_body]
fn accepts_content_type(input: &str) -> (r: bool)
    ensures
        r == (parsed_mime(input@) is Some),
{
    lettre::message::header::ContentType::parse(input).is_ok()
}

/// The mailbox that a text names, or the refusal of the text.
pub open spec fn mailbox_spec(input: Seq<char>) -> Result<MailboxView, MailErrorView> {
    match parsed_mailbox(input) {
        Some(mailbox) => Ok(mailbox),
        None => Err(MailErrorView::Validation("Invalid email address: "@ + input)),
    }
}

/// Reads a mailbox from a text such as `Name <user@host>`.
pub fn parse_mailbox(input: &str) -> (r: Result<Mailbox, MailError>)
    ensures
        match r {
            Ok(mailbox) => mailbox_spec(input@) == Ok::<MailboxView, MailErrorView>(
                mailbox.deep_view(),
            ),
            Err(e) => mailbox_spec(input@) == Err::<MailboxView, MailErrorView>(e.deep_view()),
        },
{
    match parse_mailbox_text(input) {
        Some(mailbox) => Ok(mailbox),
        None => Err(MailError::Validation(join("Invalid email address: ", input))),
    }
}

/// The mailboxes that a list of texts names, or the refusal of the first
/// text that names none.
pub open spec fn mailboxes_spec(inputs: Seq<Seq<char>>) -> Result<
    Seq<MailboxView>,
    MailErrorView,
>
    decreases inputs.len(),
{
    if inputs.len() == 0 {
        Ok(Seq::empty())
    } else {
        match mailboxes_spec(inputs.drop_last()) {
            Err(e) => Err(e),
            Ok(rest) => match mailbox_spec(inputs.last()) {
                Err(e) => Err(e),
                Ok(mailbox) => Ok(rest.push(mailbox)),
            },
        }
    }
}

proof fn lemma_mailboxes_failure_is_final(inputs: Seq<Seq<char>>, k: int)
    requires
        0 <= k <= inputs.len(),
        mailboxes_spec(inputs.take(k)) is Err,
    ensures
        mailboxes_spec(inputs) == mailboxes_spec(inputs.take(k)),
    decreases inputs.len() - k,
{
    if k == inputs.len() {
        assert(inputs.take(k) == inputs);
    } else {
        assert(inputs.drop_last().take(k) == inputs.take(k));
        lemma_mailboxes_failure_is_final(inputs.drop_last(), k);
    }
}

/// Reads the mailboxes of a list of recipients.
pub fn parse_mailboxes(inputs: &Vec<String>) -> (r: Result<Vec<Mailbox>, MailError>)
    ensures
        match r {
            Ok(list) => mailboxes_spec(inputs.deep_view()) == Ok::<
                Seq<MailboxView>,
                MailErrorView,
            >(list.deep_view()),
            Err(e) => mailboxes_spec(inputs.deep_view()) == Err::<Seq<MailboxView>, MailErrorView>(
                e.deep_view(),
            ),
        },
{
    let ghost list = inputs.deep_view();
    let mut out: Vec<Mailbox> = Vec::new();
    let mut i: usize = 0;
    assert(list.take(0) == Seq::<Seq<char>>::empty());
    assert(out.deep_view() =~= Seq::<MailboxView>::empty());
    while i < inputs.len()
        invariant
            i <= inputs.len(),
            list == inputs.deep_view(),
            mailboxes_spec(list.take(i as int)) == Ok::<Seq<MailboxView>, MailErrorView>(
                out.deep_view(),
            ),
        decreases inputs.len() - i,
    {
        let ghost here = out.deep_view();
        assert(list.take(i + 1).drop_last() == list.take(i as int));
        assert(list.take(i + 1).last() == inputs@[i as int]@);
        match parse_mailbox(inputs[i].as_str()) {
            Ok(mailbox) => {
                out.push(mailbox);
                assert(out.deep_view() =~= here.push(mailbox.deep_view()));
            },
            Err(e) => {
                proof {
                    lemma_mailboxes_failure_is_final(list, i + 1);
                }
                return Err(e);
            },
        }
        i += 1;
    }
    assert(list.take(inputs.len() as int) == list);
    Ok(out)
}

/// The attachment part of an attachment, or the refusal of its media type.
///
/// The media type is read, written out, and read once more as the value of
/// the content type header; each reading may refuse it, with its own words.
/// A regular attachment is named by its file name. An inline attachment is
/// named by its content id, so that `cid:` references of the HTML body find
/// it, and by its file name where it has no content id.
pub open spec fn attachment_part_spec(a: OutgoingAttachmentView) -> Result<
    AttachmentBodyView,
    MailErrorView,
> {
    match parsed_mime(a.content_type) {
        None => Err(MailErrorView::Validation("Invalid content type "@ + a.content_type)),
        Some(written) => if parsed_mime(written) is None {
            Err(MailErrorView::Validation("Failed to parse content type"@))
        } else {
            Ok(
                AttachmentBodyView {
                    is_inline: a.is_inline,
                    name: if a.is_inline && a.content_id is Some {
                        a.content_id->0
                    } else {
                        a.file_name
                    },
                    content_type: written,
                    data: a.data,
                },
            )
        },
    }
}

/// Builds the part of one attachment.
pub fn build_attachment_part(attachment: &OutgoingAttachment) -> (r: Result<
    AttachmentBody,
    MailError,
>)
    ensures
        match r {
            Ok(part) => attachment_part_spec(attachment.deep_view()) == Ok::<
                AttachmentBodyView,
                MailErrorView,
            >(part.deep_view()),
            Err(e) => attachment_part_spec(attachment.deep_view()) == Err::<
                AttachmentBodyView,
                MailErrorView,
            >(e.deep_view()),
        },
{
    let written = match parse_mime(attachment.content_type.as_str()) {
        Some(written) => written,
        None => {
            return Err(
                MailError::Validation(
                    join("Invalid content type ", attachment.content_type.as_str()),
                ),
            );
        },
    };
    if !accepts_content_type(written.as_str()) {
        return Err(MailError::Validation("Failed to parse content type".to_string()));
    }
    let name = if attachment.is_inline {
        match &attachment.content_id {
            Some(id) => id.clone(),
            None => attachment.file_name.clone(),
        }
    } else {
        attachment.file_name.clone()
    };
    Ok(
        AttachmentBody {
            is_inline: attachment.is_inline,
            name,
            content_type: written,
            data: attachment.data.clone(),
        },
    )
}

/// The text bodies of a message: the plain one, then the HTML one, each
/// where given; an empty plain one where neither is.
pub open spec fn alternative_spec(text: Option<Seq<char>>, html: Option<Seq<char>>) -> Seq<
    TextPartView,
> {
    match (text, html) {
        (Some(t), Some(h)) => seq![
            TextPartView { kind: TextKind::Plain, body: t },
            TextPartView { kind: TextKind::Html, body: h },
        ],
        (Some(t), None) => seq![TextPartView { kind: TextKind::Plain, body: t }],
        (None, Some(h)) => seq![TextPartView { kind: TextKind::Html, body: h }],
        (None, None) => seq![TextPartView { kind: TextKind::Plain, body: Seq::empty() }],
    }
}

/// The attachment parts of a list of attachments, or the refusal of the
/// first whose media type is refused.
pub open spec fn attachment_parts_spec(list: Seq<OutgoingAttachmentView>) -> Result<
    Seq<AttachmentBodyView>,
    MailErrorView,
>
    decreases list.len(),
{
    if list.len() == 0 {
        Ok(Seq::empty())
    } else {
        match attachment_parts_spec(list.drop_last()) {
            Err(e) => Err(e),
            Ok(rest) => match attachment_part_spec(list.last()) {
                Err(e) => Err(e),
                Ok(part) => Ok(rest.push(part)),
            },
        }
    }
}

proof fn lemma_parts_failure_is_final(list: Seq<OutgoingAttachmentView>, k: int)
    requires
        0 <= k <= list.len(),
        attachment_parts_spec(list.take(k)) is Err,
    ensures
        attachment_parts_spec(list) == attachment_parts_spec(list.take(k)),
    decreases list.len() - k,
{
    if k == list.len() {
        assert(list.take(k) == list);
    } else {
        assert(list.drop_last().take(k) == list.take(k));
        lemma_parts_failure_is_final(list.drop_last(), k);
    }
}

/// The body of a message.
pub open spec fn body_spec(
    text: Option<Seq<char>>,
    html: Option<Seq<char>>,
    attachments: Seq<OutgoingAttachmentView>,
) -> Result<MultipartBodyView, MailErrorView> {
    match attachment_parts_spec(attachments) {
        Err(e) => Err(e),
        Ok(parts) => Ok(
            MultipartBodyView { alternative: alternative_spec(text, html), attachments: parts },
        ),
    }
}

/// Builds the body of a message: the text bodies as alternatives of each
/// other, and the attachments beside them.
pub fn build_body(
    text_part: Option<&str>,
    html_part: Option<&str>,
    attachments: &Vec<OutgoingAttachment>,
) -> (r: Result<MultipartBody, MailError>)
    ensures
        match r {
            Ok(body) => body_spec(
                text_part.deep_view(),
                html_part.deep_view(),
                attachments.deep_view(),
            ) == Ok::<MultipartBodyView, MailErrorView>(body.deep_view()),
            Err(e) => body_spec(
                text_part.deep_view(),
                html_part.deep_view(),
                attachments.deep_view(),
            ) == Err::<MultipartBodyView, MailErrorView>(e.deep_view()),
        },
{
    let mut parts: Vec<TextPart> = Vec::new();
    if let Some(text) = text_part {
        parts.push(TextPart { kind: TextKind::Plain, body: text.to_string() });
    }
    if let Some(html) = html_part {
        parts.push(TextPart { kind: TextKind::Html, body: html.to_string() });
    }
    if parts.len() == 0 {
        parts.push(TextPart { kind: TextKind::Plain, body: String::new() });
    }
    assert(parts.deep_view() =~= alternative_spec(text_part.deep_view(), html_part.deep_view()));
    let ghost list = attachments.deep_view();
    let mut built: Vec<AttachmentBody> = Vec::new();
    let mut i: usize = 0;
    assert(list.take(0) == Seq::<OutgoingAttachmentView>::empty());
    assert(built.deep_view() =~= Seq::<AttachmentBodyView>::empty());
    while i < attachments.len()
        invariant
            i <= attachments.len(),
            list == attachments.deep_view(),
            attachment_parts_spec(list.take(i as int)) == Ok::<
                Seq<AttachmentBodyView>,
                MailErrorView,
            >(built.deep_view()),
        decreases attachments.len() - i,
    {
        let ghost here = built.deep_view();
        assert(list.take(i + 1).drop_last() == list.take(i as int));
        assert(list.take(i + 1).last() == attachments@[i as int].deep_view());
        match build_attachment_part(&attachments[i]) {
            Ok(part) => {
                built.push(part);
                assert(built.deep_view() =~= here.push(part.deep_view()));
            },
            Err(e) => {
                proof {
                    lemma_parts_failure_is_final(list, i + 1);
                }
                return Err(e);
            },
        }
        i += 1;
    }
    assert(list.take(attachments.len() as int) == list);
    Ok(MultipartBody { alternative: parts, attachments: built })
}

/// The message to deliver for a request to send, or why there is none.
///
/// A request without any recipient is refused before anything else is
/// looked at. The sender is the account of the user, and the message is
/// delivered through the account's outbound host as the account.
pub open spec fn compose_spec(
    key: Seq<u8>,
    accounts: Seq<crate::entities::email_credential::ModelView>,
    user_id: u128,
    to: Seq<Seq<char>>,
    cc: Seq<Seq<char>>,
    bcc: Seq<Seq<char>>,
    subject: Seq<char>,
    text: Option<Seq<char>>,
    html: Option<Seq<char>>,
    attachments: Seq<OutgoingAttachmentView>,
) -> Result<OutgoingEmailView, MailErrorView> {
    if to.len() == 0 && cc.len() == 0 && bcc.len() == 0 {
        Err(MailErrorView::Validation("At least one recipient is required"@))
    } else {
        match first_index(accounts, credential_of_user(user_id)) {
            None => Err(MailErrorView::MissingCredentials),
            Some(at) => {
                let c = accounts[at];
                match decrypt_spec(key, c.encrypted_password, c.nonce) {
                    Err(cause) => Err(MailErrorView::Decryption(cause)),
                    Ok(password) => match mailbox_spec(c.email) {
                        Err(e) => Err(e),
                        Ok(from) => match mailboxes_spec(to) {
                            Err(e) => Err(e),
                            Ok(to_list) => match mailboxes_spec(cc) {
                                Err(e) => Err(e),
                                Ok(cc_list) => match mailboxes_spec(bcc) {
                                    Err(e) => Err(e),
                                    Ok(bcc_list) => match body_spec(text, html, attachments) {
                                        Err(e) => Err(e),
                                        Ok(body) => Ok(
                                            OutgoingEmailView {
                                                from,
                                                to: to_list,
                                                cc: cc_list,
                                                bcc: bcc_list,
                                                subject,
                                                body,
                                                smtp_host: c.smtp_host,
                                                smtp_port: c.smtp_port,
                                                username: c.email,
                                                password,
                                            },
                                        ),
                                    },
                                },
                            },
                        },
                    },
                }
            },
        }
    }
}

/// The outbound dispatcher over its vault.
pub struct SmtpService {
    pub encryption_service: EncryptionService,
}

impl SmtpService {
    /// The dispatcher over a vault.
    pub fn new(encryption_service: EncryptionService) -> (r: SmtpService)
        ensures
            r.encryption_service == encryption_service,
    {
        SmtpService { encryption_service }
    }

    /// Composes the message that `user_id` asks to send: checks the request,
    /// opens the account's secret and builds the message. Delivery is left
    /// to the caller.
    pub fn send_email(
        &self,
        db: &MailStore,
        user_id: u128,
        to: &Vec<String>,
        cc: &Vec<String>,
        bcc: &Vec<String>,
        subject: &str,
        body_text: Option<&str>,
        body_html: Option<&str>,
        attachments: &Vec<OutgoingAttachment>,
    ) -> (r: Result<OutgoingEmail, MailError>)
        ensures
            match r {
                Ok(email) => compose_spec(
                    self.encryption_service.key_bytes(),
                    db.deep_view().credentials,
                    user_id,
                    to.deep_view(),
                    cc.deep_view(),
                    bcc.deep_view(),
                    subject@,
                    body_text.deep_view(),
                    body_html.deep_view(),
                    attachments.deep_view(),
                ) == Ok::<OutgoingEmailView, MailErrorView>(email.deep_view()),
                Err(e) => compose_spec(
                    self.encryption_service.key_bytes(),
                    db.deep_view().credentials,
                    user_id,
                    to.deep_view(),
                    cc.deep_view(),
                    bcc.deep_view(),
                    subject@,
                    body_text.deep_view(),
                    body_html.deep_view(),
                    attachments.deep_view(),
                ) == Err::<OutgoingEmailView, MailErrorView>(e.deep_view()),
            },
    {
        if to.len() == 0 && cc.len() == 0 && bcc.len() == 0 {
            return Err(MailError::Validation("At least one recipient is required".to_string()));
        }
        let at = match db.find_credential(user_id) {
            Some(at) => at,
            None => return Err(MailError::MissingCredentials),
        };
        let creds = &db.credentials[at];
        let password = match self.encryption_service.decrypt(
            creds.encrypted_password.as_str(),
            creds.nonce.as_str(),
        ) {
            Ok(password) => password,
            Err(cause) => return Err(MailError::Decryption(cause)),
        };
        let from = match parse_mailbox(creds.email.as_str()) {
            Ok(from) => from,
            Err(e) => return Err(e),
        };
        let to_list = match parse_mailboxes(to) {
            Ok(list) => list,
            Err(e) => return Err(e),
        };
        let cc_list = match parse_mailboxes(cc) {
            Ok(list) => list,
            Err(e) => return Err(e),
        };
        let bcc_list = match parse_mailboxes(bcc) {
            Ok(list) => list,
            Err(e) => return Err(e),
        };
        let body = match build_body(body_text, body_html, attachments) {
            Ok(body) => body,
            Err(e) => return Err(e),
        };
        Ok(
            OutgoingEmail {
                from,
                to: to_list,
                cc: cc_list,
                bcc: bcc_list,
                subject: subject.to_string(),
                body,
                smtp_host: creds.smtp_host.clone(),
                smtp_port: creds.smtp_port,
                username: creds.email.clone(),
                password,
            },
        )
    }
}

} // verus!
