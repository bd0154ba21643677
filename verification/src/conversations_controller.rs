//! What a user does with conversations: reading, archiving, replying and
//! forwarding.

use crate::entities::conversation::{self, Participant, ParticipantView};
use crate::entities::message::{self, Direction, ParsedAddress, ParsedAddressView};
use crate::entities::email_attachment;
use crate::entities::email_credential::{self, SyncStatus};
use crate::services::encryption_service::{
    base64_decode, decode_base64, decrypt_spec, sealed_by, sealing_fails, EncryptionService,
    VaultError,
};
use crate::services::persistence::{
    attachment_records, bump_conversation, count_spec, counters_full, NewIds, NewIdsView,
};
use crate::services::mime::{size_spec, AttachmentPartView};
use crate::services::smtp_service::{
    compose_spec, OutgoingAttachment, OutgoingAttachmentView, OutgoingEmail, OutgoingEmailView,
    SmtpService,
};
use crate::services::store::{
    any, attachment_has_id, attachment_ids_fresh, conversation_has_id, credential_of_user,
    first_index, lemma_first_index_sound, message_has_id, MailStore, MailStoreView, StoreError,
};
use crate::services::threading::{preview_spec, truncate_preview};
use crate::entities::user;
use crate::text::{
    ascii_fold, contains, contains_spec, eq_ignore_ascii_case, eq_ignore_ascii_case_spec,
    from_chars, is_ascii_text, lemma_lower_ignores_ascii_case, lower, lower_spec, str_eq,
    to_chars,
};
use vstd::prelude::*;

verus! {

/// Why a request on a conversation is refused.
#[derive(Debug, Clone, Copy, PartialEq, Eq, Structural)]
pub enum Refusal {
    /// There is no such conversation.
    NotFound,
    /// The conversation belongs to someone else.
    Forbidden,
    /// The request cannot be carried out as it stands.
    BadRequest,
    /// The request comes from nobody the application knows.
    Unauthorized,
}

/// Whether a message answers the senders of a conversation or goes to
/// everyone in it.
#[derive(Debug, Clone, Copy, PartialEq, Eq, Structural)]
pub enum ReplyKind {
    Reply,
    Forward,
}

/// An attachment as it is uploaded with a reply: its bytes in base64.
#[derive(Debug)]
pub struct AttachmentUpload {
    pub file_name: String,
    pub content_type: String,
    pub data_base64: String,
    pub is_inline: bool,
    pub content_id: Option<String>,
}

/// A reply or a forward as it is requested.
#[derive(Debug)]
pub struct SendReplyRequest {
    pub body_text: Option<String>,
    pub body_html: Option<String>,
    pub to: Vec<String>,
    pub cc: Vec<String>,
    pub bcc: Vec<String>,
    pub attachments: Vec<AttachmentUpload>,
}

/// The connection security that a provider has where none is given.
pub fn default_security() -> (r: String)
    ensures
        r@ == "ssl"@,
{
    "ssl".to_string()
}

/// The provider name that settings have where none is given.
pub fn default_provider() -> (r: String)
    ensures
        r@ == "custom"@,
{
    "custom".to_string()
}

/// The preview of a body: its first 200 characters once trimmed.
pub fn truncate(body: &str) -> (r: String)
    ensures
        r@ == preview_spec(body@),
{
    truncate_preview(body)
}

/// The addresses of a list of recipients, without display names.
pub open spec fn addresses_spec(addresses: Seq<String>) -> Seq<ParsedAddressView> {
    Seq::new(addresses.len(), |i: int| ParsedAddressView { email: addresses[i]@, name: None })
}

/// Lists recipients as addresses without display names.
pub fn addresses_to_json(addresses: &Vec<String>) -> (r: Vec<ParsedAddress>)
    ensures
        r.deep_view() == addresses_spec(addresses@),
{
    let mut out: Vec<ParsedAddress> = Vec::new();
    let mut i: usize = 0;
    while i < addresses.len()
        invariant
            i <= addresses.len(),
            out.deep_view() == addresses_spec(addresses@).take(i as int),
        decreases addresses.len() - i,
    {
        let ghost here = out.deep_view();
        out.push(ParsedAddress { email: addresses[i].clone(), name: None });
        assert(out.deep_view() =~= here.push(addresses_spec(addresses@)[i as int]));
        assert(addresses_spec(addresses@).take(i + 1) =~= addresses_spec(addresses@).take(
            i as int,
        ).push(addresses_spec(addresses@)[i as int]));
        i += 1;
    }
    assert(addresses_spec(addresses@).take(addresses.len() as int) == addresses_spec(addresses@));
    out
}

/// The attachment that an upload holds, or nothing where its bytes are not
/// base64.
pub open spec fn upload_spec(upload: AttachmentUpload) -> Option<OutgoingAttachmentView> {
    match base64_decode(upload.data_base64@) {
        None => None,
        Some(data) => Some(
            OutgoingAttachmentView {
                file_name: upload.file_name@,
                content_type: upload.content_type@,
                data,
                is_inline: upload.is_inline,
                content_id: upload.content_id.deep_view(),
            },
        ),
    }
}

/// Decodes an uploaded attachment.
pub fn to_outgoing_attachment(payload: &AttachmentUpload) -> (r: Result<
    OutgoingAttachment,
    Refusal,
>)
    ensures
        match r {
            Ok(attachment) => upload_spec(*payload) == Some(attachment.deep_view()),
            Err(e) => e == Refusal::BadRequest && upload_spec(*payload) is None,
        },
{
    let data = match decode_base64(payload.data_base64.as_str()) {
        Some(data) => data,
        None => return Err(Refusal::BadRequest),
    };
    Ok(
        OutgoingAttachment {
            file_name: payload.file_name.clone(),
            content_type: payload.content_type.clone(),
            data,
            is_inline: payload.is_inline,
            content_id: payload.content_id.clone(),
        },
    )
}

/// Whether a participant is written to: never the account itself; for a
/// reply the senders, for a forward everyone.
pub open spec fn is_target(p: ParticipantView, user_email: Seq<char>, kind: ReplyKind) -> bool {
    !eq_ignore_ascii_case_spec(p.email, user_email) && (kind == ReplyKind::Forward || p.role
        == "from"@)
}

/// The addresses written to, each once, in the order of the participants.
pub open spec fn targets_spec(
    participants: Seq<ParticipantView>,
    user_email: Seq<char>,
    kind: ReplyKind,
) -> Seq<Seq<char>>
    decreases participants.len(),
{
    if participants.len() == 0 {
        Seq::empty()
    } else {
        let rest = targets_spec(participants.drop_last(), user_email, kind);
        let p = participants.last();
        if is_target(p, user_email, kind) && !rest.contains(p.email) {
            rest.push(p.email)
        } else {
            rest
        }
    }
}

/// The recipients of a reply or forward: those named in the request, and
/// where none is named, those that the conversation gives.
pub open spec fn recipients_spec(
    participants: Seq<ParticipantView>,
    user_email: Seq<char>,
    explicit: Seq<Seq<char>>,
    kind: ReplyKind,
) -> Seq<Seq<char>> {
    if explicit.len() > 0 {
        explicit
    } else {
        targets_spec(participants, user_email, kind)
    }
}

/// The recipients that a conversation gives are the addresses of targets,
/// none twice, and never the account itself.
pub proof fn lemma_targets(
    participants: Seq<ParticipantView>,
    user_email: Seq<char>,
    kind: ReplyKind,
)
    ensures
        targets_spec(participants, user_email, kind).no_duplicates(),
        forall|e: Seq<char>| #[trigger]
            targets_spec(participants, user_email, kind).contains(e) <==> exists|i: int|
                0 <= i < participants.len() && is_target(
                    #[trigger] participants[i],
                    user_email,
                    kind,
                ) && participants[i].email == e,
        forall|e: Seq<char>| #[trigger]
            targets_spec(participants, user_email, kind).contains(e)
                ==> !eq_ignore_ascii_case_spec(e, user_email),
    decreases participants.len(),
{
    let all = targets_spec(participants, user_email, kind);
    if participants.len() > 0 {
        let front = participants.drop_last();
        let rest = targets_spec(front, user_email, kind);
        let p = participants.last();
        lemma_targets(front, user_email, kind);
        assert forall|e: Seq<char>| #[trigger] all.contains(e) <==> exists|i: int|
            0 <= i < participants.len() && is_target(
                #[trigger] participants[i],
                user_email,
                kind,
            ) && participants[i].email == e by {
            if all.contains(e) {
                let k = choose|k: int| 0 <= k < all.len() && all[k] == e;
                if k < rest.len() {
                    assert(rest[k] == e);
                    assert(rest.contains(e));
                    let i = choose|i: int|
                        0 <= i < front.len() && is_target(#[trigger] front[i], user_email, kind)
                            && front[i].email == e;
                    assert(participants[i] == front[i]);
                } else {
                    assert(participants[participants.len() - 1] == p);
                }
            }
            if exists|i: int|
                0 <= i < participants.len() && is_target(
                    #[trigger] participants[i],
                    user_email,
                    kind,
                ) && participants[i].email == e {
                let i = choose|i: int|
                    0 <= i < participants.len() && is_target(
                        #[trigger] participants[i],
                        user_email,
                        kind,
                    ) && participants[i].email == e;
                if i < front.len() {
                    assert(front[i] == participants[i]);
                    assert(rest.contains(e));
                    let k = choose|k: int| 0 <= k < rest.len() && rest[k] == e;
                    assert(all[k] == e);
                } else {
                    if rest.contains(e) {
                        let k = choose|k: int| 0 <= k < rest.len() && rest[k] == e;
                        assert(all[k] == e);
                    } else {
                        assert(all[all.len() - 1] == e);
                    }
                }
            }
        }
        assert forall|e: Seq<char>| #[trigger] all.contains(e) implies !eq_ignore_ascii_case_spec(
            e,
            user_email,
        ) by {
            let i = choose|i: int|
                0 <= i < participants.len() && is_target(
                    #[trigger] participants[i],
                    user_email,
                    kind,
                ) && participants[i].email == e;
        }
    }
}

fn list_contains(list: &Vec<String>, text: &str) -> (r: bool)
    ensures
        r == list.deep_view().contains(text@),
{
    let mut i: usize = 0;
    while i < list.len()
        invariant
            i <= list.len(),
            forall|j: int| 0 <= j < i ==> list.deep_view()[j] != text@,
        decreases list.len() - i,
    {
        if str_eq(list[i].as_str(), text) {
            assert(list.deep_view()[i as int] == text@);
            return true;
        }
        i += 1;
    }
    false
}

/// Chooses the recipients of a reply or a forward in a conversation.
pub fn determine_recipients(
    conversation: &conversation::Model,
    user_email: &str,
    explicit: &Vec<String>,
    kind: &ReplyKind,
) -> (r: Vec<String>)
    ensures
        r.deep_view() == recipients_spec(
            conversation.participants.deep_view(),
            user_email@,
            explicit.deep_view(),
            *kind,
        ),
{
    if explicit.len() > 0 {
        return explicit.clone();
    }
    let ghost all = conversation.participants.deep_view();
    let mut targets: Vec<String> = Vec::new();
    let mut i: usize = 0;
    assert(all.take(0) == Seq::<ParticipantView>::empty());
    assert(targets.deep_view() =~= Seq::<Seq<char>>::empty());
    proof {
        reveal_strlit("from");
    }
    while i < conversation.participants.len()
        invariant
            i <= conversation.participants.len(),
            all == conversation.participants.deep_view(),
            targets.deep_view() == targets_spec(all.take(i as int), user_email@, *kind),
        decreases conversation.participants.len() - i,
    {
        let ghost here = targets.deep_view();
        assert(all.take(i + 1).drop_last() == all.take(i as int));
        assert(all.take(i + 1).last() == all[i as int]);
        let p = &conversation.participants[i];
        let wanted = !eq_ignore_ascii_case(p.email.as_str(), user_email) && (match kind {
            ReplyKind::Forward => true,
            ReplyKind::Reply => str_eq(p.role.as_str(), "from"),
        });
        if wanted && !list_contains(&targets, p.email.as_str()) {
            targets.push(p.email.clone());
            assert(targets.deep_view() =~= here.push(all[i as int].email));
        }
        i += 1;
    }
    assert(all.take(conversation.participants.len() as int) == all);
    targets
}

/// What setting the flags of the conversation `id` of `user_id` does to a
/// store.
///
/// Marking read sets the unread count to zero and marks every message of
/// the conversation read; marking unread sets the unread count to one. The
/// conversation is archived exactly where `archive` says so.
pub open spec fn flags_spec(
    store: MailStoreView,
    user_id: u128,
    id: u128,
    mark_read: bool,
    archive: bool,
) -> Result<MailStoreView, Refusal> {
    match first_index(store.conversations, conversation_has_id(id)) {
        None => Err(Refusal::NotFound),
        Some(at) => {
            let c = store.conversations[at];
            if c.user_id != user_id {
                Err(Refusal::Forbidden)
            } else {
                Ok(
                    MailStoreView {
                        conversations: store.conversations.update(
                            at,
                            conversation::ModelView {
                                unread_count: if mark_read {
                                    0
                                } else {
                                    1
                                },
                                is_read: mark_read,
                                is_archived: archive,
                                ..c
                            },
                        ),
                        messages: if mark_read {
                            read_all(store.messages, id)
                        } else {
                            store.messages
                        },
                        ..store
                    },
                )
            }
        },
    }
}

/// The messages with every message of the conversation `id` marked read.
pub open spec fn read_all(messages: Seq<message::ModelView>, id: u128) -> Seq<
    message::ModelView,
> {
    Seq::new(
        messages.len(),
        |i: int|
            if messages[i].conversation_id == id {
                message::ModelView { is_read: true, ..messages[i] }
            } else {
                messages[i]
            },
    )
}

/// Setting flags keeps the invariant of the store.
pub proof fn lemma_flags_keep_invariant(
    store: MailStoreView,
    user_id: u128,
    id: u128,
    mark_read: bool,
    archive: bool,
)
    requires
        store.wf(),
        flags_spec(store, user_id, id, mark_read, archive) is Ok,
    ensures
        flags_spec(store, user_id, id, mark_read, archive)->Ok_0.wf(),
{
    let after = flags_spec(store, user_id, id, mark_read, archive)->Ok_0;
    lemma_first_index_sound(store.conversations, conversation_has_id(id));
    assert forall|i: int, j: int|
        #![trigger after.conversations[i], after.conversations[j]]
        0 <= i < j < after.conversations.len() implies after.conversations[i].id
        != after.conversations[j].id && (after.conversations[i].thread_id is Some
        && after.conversations[i].user_id == after.conversations[j].user_id
        ==> after.conversations[i].thread_id != after.conversations[j].thread_id) by {
        assert(after.conversations[i].id == store.conversations[i].id);
        assert(after.conversations[j].id == store.conversations[j].id);
        assert(after.conversations[i].thread_id == store.conversations[i].thread_id);
        assert(after.conversations[j].thread_id == store.conversations[j].thread_id);
        assert(after.conversations[i].user_id == store.conversations[i].user_id);
        assert(after.conversations[j].user_id == store.conversations[j].user_id);
    }
    assert forall|i: int| 0 <= i < after.conversations.len() implies (
    #[trigger] after.conversations[i]).message_count >= 0 && after.conversations[i].unread_count
        >= 0 by {
        assert(after.conversations[i].message_count == store.conversations[i].message_count);
        assert(store.conversations[i].unread_count >= 0);
    }
    assert forall|i: int, j: int|
        #![trigger after.messages[i], after.messages[j]]
        0 <= i < j < after.messages.len() implies after.messages[i].id != after.messages[j].id && (
    after.messages[i].message_id_header is Some ==> after.messages[i].message_id_header
        != after.messages[j].message_id_header) by {
        assert(after.messages[i].id == store.messages[i].id);
        assert(after.messages[j].id == store.messages[j].id);
        assert(after.messages[i].message_id_header == store.messages[i].message_id_header);
        assert(after.messages[j].message_id_header == store.messages[j].message_id_header);
    }
}

/// Once a conversation is marked read, nothing in it is unread: its unread
/// count is zero and each of its messages is read.
pub proof fn lemma_mark_read_reads_all(store: MailStoreView, user_id: u128, id: u128, archive: bool)
    requires
        flags_spec(store, user_id, id, true, archive) is Ok,
    ensures
        ({
            let after = flags_spec(store, user_id, id, true, archive)->Ok_0;
            let at = first_index(store.conversations, conversation_has_id(id))->0;
            &&& after.conversations[at].unread_count == 0
            &&& after.conversations[at].is_read
            &&& after.messages.len() == store.messages.len()
            &&& forall|i: int|
                0 <= i < after.messages.len() && (#[trigger] after.messages[i]).conversation_id
                    == id ==> after.messages[i].is_read
        }),
{
    lemma_first_index_sound(store.conversations, conversation_has_id(id));
}

/// Sets the read and archive flags of the conversation `id` of `user_id`.
pub fn update_conversation_flags(
    store: &mut MailStore,
    user_id: u128,
    id: u128,
    mark_read: bool,
    archive: bool,
) -> (r: Result<(), Refusal>)
    ensures
        match r {
            Ok(()) => flags_spec(old(store).deep_view(), user_id, id, mark_read, archive) == Ok::<
                MailStoreView,
                Refusal,
            >(final(store).deep_view()),
            Err(e) => flags_spec(old(store).deep_view(), user_id, id, mark_read, archive) == Err::<
                MailStoreView,
                Refusal,
            >(e) && final(store).deep_view() == old(store).deep_view(),
        },
        old(store).wf() ==> final(store).wf(),
{
    let ghost before = store.deep_view();
    let at = match store.find_conversation(id) {
        Some(at) => at,
        None => return Err(Refusal::NotFound),
    };
    if store.conversations[at].user_id != user_id {
        return Err(Refusal::Forbidden);
    }
    store.conversations[at].unread_count = if mark_read {
        0
    } else {
        1
    };
    store.conversations[at].is_read = mark_read;
    store.conversations[at].is_archived = archive;
    assert(store.deep_view().conversations =~= flags_spec(
        before,
        user_id,
        id,
        mark_read,
        archive,
    )->Ok_0.conversations);
    if mark_read {
        let mut i: usize = 0;
        while i < store.messages.len()
            invariant
                i <= store.messages.len(),
                store.messages.len() == before.messages.len(),
                store.deep_view().conversations == flags_spec(
                    before,
                    user_id,
                    id,
                    mark_read,
                    archive,
                )->Ok_0.conversations,
                store.deep_view().credentials == before.credentials,
                store.deep_view().contacts == before.contacts,
                store.deep_view().attachments == before.attachments,
                forall|j: int|
                    0 <= j < i ==> #[trigger] store.deep_view().messages[j] == read_all(
                        before.messages,
                        id,
                    )[j],
                forall|j: int|
                    i <= j < store.messages.len() ==> #[trigger] store.deep_view().messages[j]
                        == before.messages[j],
            decreases store.messages.len() - i,
        {
            let ghost prev = store.deep_view().messages;
            let ghost raw = store.messages@;
            assert(prev[i as int] == before.messages[i as int]);
            if store.messages[i].conversation_id == id {
                store.messages[i].is_read = true;
            }
            assert(forall|j: int|
                0 <= j < raw.len() && j != i ==> #[trigger] store.messages@[j] == raw[j]);
            assert(forall|j: int|
                0 <= j < raw.len() && j != i ==> #[trigger] store.deep_view().messages[j]
                    == prev[j]);
            assert(store.deep_view().messages[i as int] == read_all(before.messages, id)[i as int]);
            i += 1;
        }
        assert(store.deep_view().messages =~= read_all(before.messages, id));
    }
    proof {
        if before.wf() {
            lemma_flags_keep_invariant(before, user_id, id, mark_read, archive);
        }
    }
    Ok(())
}

/// Whether a user may read what a conversation holds: its owner may, and
/// so may an administrator; anyone else is refused.
pub open spec fn reader_spec(owner_id: u128, user_id: u128, is_admin: bool) -> Result<
    (),
    Refusal,
> {
    if owner_id == user_id || is_admin {
        Ok(())
    } else {
        Err(Refusal::Forbidden)
    }
}

/// Decides whether the user `user_id` may read what the conversation of
/// `owner_id` holds.
pub fn check_reader(owner_id: u128, user_id: u128, is_admin: bool) -> (r: Result<(), Refusal>)
    ensures
        r == reader_spec(owner_id, user_id, is_admin),
{
    if owner_id != user_id && !is_admin {
        Err(Refusal::Forbidden)
    } else {
        Ok(())
    }
}

/// Whether an attachment is handed out under a conversation: only where its
/// message is one of the conversation; under any other it is not found.
pub open spec fn attachment_place_spec(message_conversation_id: u128, conversation_id: u128) -> Result<
    (),
    Refusal,
> {
    if message_conversation_id == conversation_id {
        Ok(())
    } else {
        Err(Refusal::NotFound)
    }
}

/// Decides whether an attachment whose message belongs to the conversation
/// `message_conversation_id` is handed out under `conversation_id`.
pub fn check_attachment_place(message_conversation_id: u128, conversation_id: u128) -> (r: Result<
    (),
    Refusal,
>)
    ensures
        r == attachment_place_spec(message_conversation_id, conversation_id),
{
    if message_conversation_id != conversation_id {
        Err(Refusal::NotFound)
    } else {
        Ok(())
    }
}

/// Marks a conversation read, and not archived.
pub fn mark_conversation_read(store: &mut MailStore, user_id: u128, id: u128) -> (r: Result<
    (),
    Refusal,
>)
    ensures
        match r {
            Ok(()) => flags_spec(old(store).deep_view(), user_id, id, true, false) == Ok::<
                MailStoreView,
                Refusal,
            >(final(store).deep_view()),
            Err(e) => flags_spec(old(store).deep_view(), user_id, id, true, false) == Err::<
                MailStoreView,
                Refusal,
            >(e) && final(store).deep_view() == old(store).deep_view(),
        },
        old(store).wf() ==> final(store).wf(),
{
    update_conversation_flags(store, user_id, id, true, false)
}

/// Marks a conversation unread, and not archived.
pub fn mark_conversation_unread(store: &mut MailStore, user_id: u128, id: u128) -> (r: Result<
    (),
    Refusal,
>)
    ensures
        match r {
            Ok(()) => flags_spec(old(store).deep_view(), user_id, id, false, false) == Ok::<
                MailStoreView,
                Refusal,
            >(final(store).deep_view()),
            Err(e) => flags_spec(old(store).deep_view(), user_id, id, false, false) == Err::<
                MailStoreView,
                Refusal,
            >(e) && final(store).deep_view() == old(store).deep_view(),
        },
        old(store).wf() ==> final(store).wf(),
{
    update_conversation_flags(store, user_id, id, false, false)
}

/// Archives a conversation, and marks it read.
pub fn archive_conversation(store: &mut MailStore, user_id: u128, id: u128) -> (r: Result<
    (),
    Refusal,
>)
    ensures
        match r {
            Ok(()) => flags_spec(old(store).deep_view(), user_id, id, true, true) == Ok::<
                MailStoreView,
                Refusal,
            >(final(store).deep_view()),
            Err(e) => flags_spec(old(store).deep_view(), user_id, id, true, true) == Err::<
                MailStoreView,
                Refusal,
            >(e) && final(store).deep_view() == old(store).deep_view(),
        },
        old(store).wf() ==> final(store).wf(),
{
    update_conversation_flags(store, user_id, id, true, true)
}

/// Takes a conversation out of the archive, and marks it read.
pub fn unarchive_conversation(store: &mut MailStore, user_id: u128, id: u128) -> (r: Result<
    (),
    Refusal,
>)
    ensures
        match r {
            Ok(()) => flags_spec(old(store).deep_view(), user_id, id, true, false) == Ok::<
                MailStoreView,
                Refusal,
            >(final(store).deep_view()),
            Err(e) => flags_spec(old(store).deep_view(), user_id, id, true, false) == Err::<
                MailStoreView,
                Refusal,
            >(e) && final(store).deep_view() == old(store).deep_view(),
        },
        old(store).wf() ==> final(store).wf(),
{
    update_conversation_flags(store, user_id, id, true, false)
}

/// An attachment of a sent message as it is stored.
pub open spec fn as_part(a: OutgoingAttachmentView) -> AttachmentPartView {
    AttachmentPartView {
        file_name: a.file_name,
        content_type: a.content_type,
        size_bytes: size_spec(a.data.len()),
        is_inline: a.is_inline,
        content_id: a.content_id,
        data: a.data,
    }
}

/// The attachments of a sent message as they are stored, in order.
pub open spec fn as_parts(list: Seq<OutgoingAttachmentView>) -> Seq<AttachmentPartView> {
    Seq::new(list.len(), |i: int| as_part(list[i]))
}

/// The preview of a sent message: of its plain body, else of its HTML body.
pub open spec fn sent_snippet(text: Option<Seq<char>>, html: Option<Seq<char>>) -> Option<
    Seq<char>,
> {
    match text {
        Some(body) => Some(preview_spec(body)),
        None => match html {
            Some(body) => Some(preview_spec(body)),
            None => None,
        },
    }
}

/// The record of a message that the account sent in the conversation `c`.
pub open spec fn sent_record(
    c: conversation::ModelView,
    id: u128,
    sender_email: Seq<char>,
    to: Seq<Seq<char>>,
    cc: Seq<Seq<char>>,
    bcc: Seq<Seq<char>>,
    text: Option<Seq<char>>,
    html: Option<Seq<char>>,
    attachments: nat,
    now: i64,
) -> message::ModelView {
    message::ModelView {
        id,
        conversation_id: c.id,
        user_id: c.user_id,
        sender_name: None,
        sender_email,
        subject: c.subject,
        body_text: text,
        body_html: html,
        direction: Direction::Sent,
        to_emails: Seq::new(to.len(), |i: int| ParsedAddressView { email: to[i], name: None }),
        cc_emails: Seq::new(cc.len(), |i: int| ParsedAddressView { email: cc[i], name: None }),
        bcc_emails: Seq::new(bcc.len(), |i: int| ParsedAddressView { email: bcc[i], name: None }),
        sent_at: now,
        delivered_at: now,
        read_at: Some(now),
        is_read: true,
        is_from_me: true,
        imap_uid: None,
        message_id_header: None,
        in_reply_to: c.thread_id,
        references: None,
        snippet: sent_snippet(text, html),
        has_attachments: attachments > 0,
        attachment_count: count_spec(attachments),
        created_at: now,
    }
}

/// The aggregate of a conversation after the account sent one more
/// message: brought up to date as for any message, nothing more unread, and
/// read.
pub open spec fn sent_conversation(
    c: conversation::ModelView,
    snippet: Option<Seq<char>>,
    has_attachments: bool,
    now: i64,
) -> conversation::ModelView {
    conversation::ModelView {
        is_read: true,
        ..bump_conversation(c, now, snippet, has_attachments, false, now)
    }
}

/// What storing a sent message in the conversation `conversation_id` under
/// fresh identifiers does to a store.
pub open spec fn outgoing_spec(
    store: MailStoreView,
    conversation_id: u128,
    sender_email: Seq<char>,
    to: Seq<Seq<char>>,
    cc: Seq<Seq<char>>,
    bcc: Seq<Seq<char>>,
    text: Option<Seq<char>>,
    html: Option<Seq<char>>,
    attachments: Seq<OutgoingAttachmentView>,
    ids: NewIdsView,
    now: i64,
) -> Result<MailStoreView, StoreError> {
    match first_index(store.conversations, conversation_has_id(conversation_id)) {
        None => Err(StoreError::ConversationMissing),
        Some(at) => {
            let c = store.conversations[at];
            if ids.attachments.len() < attachments.len() {
                Err(StoreError::MissingIds)
            } else if any(store.messages, message_has_id(ids.message)) {
                Err(StoreError::DuplicateKey)
            } else if !attachment_ids_fresh(
                store.attachments,
                ids.attachments.take(attachments.len() as int),
            ) {
                Err(StoreError::DuplicateKey)
            } else if counters_full(c, false) {
                Err(StoreError::CounterOverflow)
            } else {
                Ok(
                    MailStoreView {
                        conversations: store.conversations.update(
                            at,
                            sent_conversation(
                                c,
                                sent_snippet(text, html),
                                attachments.len() > 0,
                                now,
                            ),
                        ),
                        messages: store.messages.push(
                            sent_record(
                                c,
                                ids.message,
                                sender_email,
                                to,
                                cc,
                                bcc,
                                text,
                                html,
                                attachments.len(),
                                now,
                            ),
                        ),
                        attachments: store.attachments + attachment_records(
                            as_parts(attachments),
                            ids.attachments,
                            ids.message,
                            now,
                        ),
                        ..store
                    },
                )
            }
        },
    }
}

/// Storing a sent message keeps the invariant of the store.
pub proof fn lemma_outgoing_keeps_invariant(
    store: MailStoreView,
    conversation_id: u128,
    sender_email: Seq<char>,
    to: Seq<Seq<char>>,
    cc: Seq<Seq<char>>,
    bcc: Seq<Seq<char>>,
    text: Option<Seq<char>>,
    html: Option<Seq<char>>,
    attachments: Seq<OutgoingAttachmentView>,
    ids: NewIdsView,
    now: i64,
)
    requires
        store.wf(),
        outgoing_spec(
            store,
            conversation_id,
            sender_email,
            to,
            cc,
            bcc,
            text,
            html,
            attachments,
            ids,
            now,
        ) is Ok,
    ensures
        outgoing_spec(
            store,
            conversation_id,
            sender_email,
            to,
            cc,
            bcc,
            text,
            html,
            attachments,
            ids,
            now,
        )->Ok_0.wf(),
{
    let after = outgoing_spec(
        store,
        conversation_id,
        sender_email,
        to,
        cc,
        bcc,
        text,
        html,
        attachments,
        ids,
        now,
    )->Ok_0;
    lemma_first_index_sound(store.conversations, conversation_has_id(conversation_id));
    let at = first_index(store.conversations, conversation_has_id(conversation_id))->0;
    let fresh = ids.attachments.take(attachments.len() as int);
    assert forall|i: int, j: int|
        #![trigger after.attachments[i], after.attachments[j]]
        0 <= i < j < after.attachments.len() implies after.attachments[i].id
        != after.attachments[j].id by {
        let n = store.attachments.len() as int;
        if j < n {
            assert(after.attachments[i] == store.attachments[i]);
            assert(after.attachments[j] == store.attachments[j]);
        } else if i < n {
            assert(after.attachments[i] == store.attachments[i]);
            assert(after.attachments[j].id == fresh[j - n]);
            assert(!any(store.attachments, attachment_has_id(fresh[j - n])));
            assert(!attachment_has_id(fresh[j - n])(store.attachments[i]));
        } else {
            assert(after.attachments[i].id == fresh[i - n]);
            assert(after.attachments[j].id == fresh[j - n]);
        }
    }
    assert forall|i: int, j: int|
        #![trigger after.messages[i], after.messages[j]]
        0 <= i < j < after.messages.len() implies after.messages[i].id != after.messages[j].id && (
    after.messages[i].message_id_header is Some ==> after.messages[i].message_id_header
        != after.messages[j].message_id_header) by {
        let n = store.messages.len() as int;
        if j < n {
            assert(after.messages[i] == store.messages[i]);
            assert(after.messages[j] == store.messages[j]);
        } else {
            assert(after.messages[i] == store.messages[i]);
            assert(!message_has_id(ids.message)(store.messages[i]));
        }
    }
    assert forall|i: int, j: int|
        #![trigger after.conversations[i], after.conversations[j]]
        0 <= i < j < after.conversations.len() implies after.conversations[i].id
        != after.conversations[j].id && (after.conversations[i].thread_id is Some
        && after.conversations[i].user_id == after.conversations[j].user_id
        ==> after.conversations[i].thread_id != after.conversations[j].thread_id) by {
        assert(after.conversations[i].id == store.conversations[i].id);
        assert(after.conversations[j].id == store.conversations[j].id);
        assert(after.conversations[i].thread_id == store.conversations[i].thread_id);
        assert(after.conversations[j].thread_id == store.conversations[j].thread_id);
        assert(after.conversations[i].user_id == store.conversations[i].user_id);
        assert(after.conversations[j].user_id == store.conversations[j].user_id);
    }
    assert forall|i: int| 0 <= i < after.conversations.len() implies (
    #[trigger] after.conversations[i]).message_count >= 0 && after.conversations[i].unread_count
        >= 0 by {
        if i != at {
            assert(after.conversations[i] == store.conversations[i]);
        } else {
            assert(store.conversations[at].message_count >= 0);
        }
    }
}

/// Stores a message that the account sent in the conversation
/// `conversation_id`, with its attachments, and brings the conversation up
/// to date. Where the store refuses, nothing is stored.
pub fn persist_outgoing_message(
    store: &mut MailStore,
    conversation_id: u128,
    sender_email: &str,
    to: &Vec<String>,
    cc: &Vec<String>,
    bcc: &Vec<String>,
    body_text: Option<String>,
    body_html: Option<String>,
    attachments: &Vec<OutgoingAttachment>,
    ids: &NewIds,
    now: i64,
) -> (r: Result<(), StoreError>)
    ensures
        match r {
            Ok(()) => outgoing_spec(
                old(store).deep_view(),
                conversation_id,
                sender_email@,
                to.deep_view(),
                cc.deep_view(),
                bcc.deep_view(),
                body_text.deep_view(),
                body_html.deep_view(),
                attachments.deep_view(),
                ids.deep_view(),
                now,
            ) == Ok::<MailStoreView, StoreError>(final(store).deep_view()),
            Err(e) => outgoing_spec(
                old(store).deep_view(),
                conversation_id,
                sender_email@,
                to.deep_view(),
                cc.deep_view(),
                bcc.deep_view(),
                body_text.deep_view(),
                body_html.deep_view(),
                attachments.deep_view(),
                ids.deep_view(),
                now,
            ) == Err::<MailStoreView, StoreError>(e) && final(store).deep_view() == old(
                store,
            ).deep_view(),
        },
        old(store).wf() ==> final(store).wf(),
{
    let ghost before = store.deep_view();
    let ghost text = body_text.deep_view();
    let ghost html = body_html.deep_view();
    let ghost list = attachments.deep_view();
    let at = match store.find_conversation(conversation_id) {
        Some(at) => at,
        None => return Err(StoreError::ConversationMissing),
    };
    let count = attachments.len();
    if ids.attachments.len() < count {
        return Err(StoreError::MissingIds);
    }
    if store.has_message_id(ids.message) {
        return Err(StoreError::DuplicateKey);
    }
    if !store.attachment_ids_are_fresh(&ids.attachments, count) {
        return Err(StoreError::DuplicateKey);
    }
    if store.conversations[at].message_count == i32::MAX {
        return Err(StoreError::CounterOverflow);
    }
    let ghost expected = outgoing_spec(
        before,
        conversation_id,
        sender_email@,
        to.deep_view(),
        cc.deep_view(),
        bcc.deep_view(),
        text,
        html,
        list,
        ids.deep_view(),
        now,
    )->Ok_0;
    let snippet = match &body_text {
        Some(body) => Some(truncate(body.as_str())),
        None => match &body_html {
            Some(body) => Some(truncate(body.as_str())),
            None => None,
        },
    };
    let has_attachments = count > 0;
    let length: u64 = count as u64;
    let attachment_count: i32 = if length > 0x7fff_ffff {
        0x7fff_ffff
    } else {
        length as i32
    };
    let record = message::Model {
        id: ids.message,
        conversation_id: store.conversations[at].id,
        user_id: store.conversations[at].user_id,
        sender_name: None,
        sender_email: sender_email.to_string(),
        subject: store.conversations[at].subject.clone(),
        body_text,
        body_html,
        direction: Direction::Sent,
        to_emails: addresses_to_json(to),
        cc_emails: addresses_to_json(cc),
        bcc_emails: addresses_to_json(bcc),
        sent_at: now,
        delivered_at: now,
        read_at: Some(now),
        is_read: true,
        is_from_me: true,
        imap_uid: None,
        message_id_header: None,
        in_reply_to: store.conversations[at].thread_id.clone(),
        references: None,
        snippet: snippet.clone(),
        has_attachments,
        attachment_count,
        created_at: now,
    };
    assert(record.to_emails.deep_view() =~= expected.messages.last().to_emails);
    assert(record.cc_emails.deep_view() =~= expected.messages.last().cc_emails);
    assert(record.bcc_emails.deep_view() =~= expected.messages.last().bcc_emails);
    assert(record.deep_view() == expected.messages.last());
    store.messages.push(record);
    assert(store.deep_view().messages =~= expected.messages);
    let next_count: i32 = store.conversations[at].message_count + 1;
    let flag: bool = has_attachments || store.conversations[at].has_attachments;
    if store.conversations[at].latest_message_at < now {
        store.conversations[at].latest_message_at = now;
    }
    store.conversations[at].updated_at = now;
    store.conversations[at].snippet = snippet;
    store.conversations[at].has_attachments = flag;
    store.conversations[at].message_count = next_count;
    store.conversations[at].is_read = true;
    assert(store.deep_view().conversations =~= expected.conversations);
    let ghost records = attachment_records(as_parts(list), ids.attachments@, ids.message, now);
    let mut i: usize = 0;
    assert(store.deep_view().attachments =~= before.attachments + records.take(0));
    while i < count
        invariant
            i <= count,
            count == attachments.len(),
            count <= ids.attachments.len(),
            list == attachments.deep_view(),
            records == attachment_records(as_parts(list), ids.attachments@, ids.message, now),
            store.deep_view().attachments == before.attachments + records.take(i as int),
            store.deep_view().conversations == expected.conversations,
            store.deep_view().messages == expected.messages,
            store.deep_view().credentials == before.credentials,
            store.deep_view().contacts == before.contacts,
        decreases count - i,
    {
        let ghost here = store.deep_view().attachments;
        let part = &attachments[i];
        let data = part.data.clone();
        let size: u64 = data.len() as u64;
        let size_bytes: i64 = if size > 0x7fff_ffff_ffff_ffff {
            0x7fff_ffff_ffff_ffff
        } else {
            size as i64
        };
        let record = email_attachment::Model {
            id: ids.attachments[i],
            message_id: ids.message,
            file_name: part.file_name.clone(),
            content_type: part.content_type.clone(),
            size_bytes,
            is_inline: part.is_inline,
            content_id: part.content_id.clone(),
            data,
            created_at: now,
        };
        assert(list[i as int] == attachments@[i as int].deep_view());
        assert(record.deep_view() == records[i as int]);
        store.attachments.push(record);
        assert(store.deep_view().attachments =~= here.push(records[i as int]));
        assert(records.take(i + 1) =~= records.take(i as int).push(records[i as int]));
        i += 1;
    }
    assert(records.take(count as int) == records);
    assert(store.deep_view() == expected);
    proof {
        if before.wf() {
            lemma_outgoing_keeps_invariant(
                before,
                conversation_id,
                sender_email@,
                to.deep_view(),
                cc.deep_view(),
                bcc.deep_view(),
                text,
                html,
                list,
                ids.deep_view(),
                now,
            );
        }
    }
    Ok(())
}

/// The attachments that uploads hold, or nothing where the bytes of one are
/// not base64.
pub open spec fn uploads_spec(uploads: Seq<AttachmentUpload>) -> Option<
    Seq<OutgoingAttachmentView>,
>
    decreases uploads.len(),
{
    if uploads.len() == 0 {
        Some(Seq::empty())
    } else {
        match uploads_spec(uploads.drop_last()) {
            None => None,
            Some(rest) => match upload_spec(uploads.last()) {
                None => None,
                Some(a) => Some(rest.push(a)),
            },
        }
    }
}

proof fn lemma_uploads_failure_is_final(uploads: Seq<AttachmentUpload>, k: int)
    requires
        0 <= k <= uploads.len(),
        uploads_spec(uploads.take(k)) is None,
    ensures
        uploads_spec(uploads) is None,
    decreases uploads.len() - k,
{
    if k == uploads.len() {
        assert(uploads.take(k) == uploads);
    } else {
        assert(uploads.drop_last().take(k) == uploads.take(k));
        lemma_uploads_failure_is_final(uploads.drop_last(), k);
    }
}

/// Decodes the attachments uploaded with a request.
pub fn decode_uploads(uploads: &Vec<AttachmentUpload>) -> (r: Result<
    Vec<OutgoingAttachment>,
    Refusal,
>)
    ensures
        match r {
            Ok(list) => uploads_spec(uploads@) == Some(list.deep_view()),
            Err(e) => e == Refusal::BadRequest && uploads_spec(uploads@) is None,
        },
{
    let mut out: Vec<OutgoingAttachment> = Vec::new();
    let mut i: usize = 0;
    assert(uploads@.take(0) == Seq::<AttachmentUpload>::empty());
    assert(out.deep_view() =~= Seq::<OutgoingAttachmentView>::empty());
    while i < uploads.len()
        invariant
            i <= uploads.len(),
            uploads_spec(uploads@.take(i as int)) == Some(out.deep_view()),
        decreases uploads.len() - i,
    {
        let ghost here = out.deep_view();
        assert(uploads@.take(i + 1).drop_last() == uploads@.take(i as int));
        assert(uploads@.take(i + 1).last() == uploads@[i as int]);
        match to_outgoing_attachment(&uploads[i]) {
            Ok(a) => {
                out.push(a);
                assert(out.deep_view() =~= here.push(a.deep_view()));
            },
            Err(e) => {
                proof {
                    lemma_uploads_failure_is_final(uploads@, i + 1);
                }
                return Err(e);
            },
        }
        i += 1;
    }
    assert(uploads@.take(uploads.len() as int) == uploads@);
    Ok(out)
}

/// A reply or forward that is ready for delivery: the message, and what is
/// stored of it once it is delivered.
pub struct SendPlan {
    pub email: OutgoingEmail,
    pub to: Vec<String>,
    pub attachments: Vec<OutgoingAttachment>,
}

/// The reply or forward that is ready for delivery for a request: its
/// recipients, its attachments and the message; or the refusal.
///
/// The request is refused as not found where there is no such conversation,
/// as forbidden where it belongs to someone else, and as a bad request where
/// the user has no mail account, where nobody is left to write to, where an
/// upload is not base64, or where the dispatcher cannot compose the message.
pub open spec fn send_spec(
    key: Seq<u8>,
    store: MailStoreView,
    user_id: u128,
    conversation_id: u128,
    payload: SendReplyRequest,
    kind: ReplyKind,
) -> Result<(Seq<Seq<char>>, Seq<OutgoingAttachmentView>, OutgoingEmailView), Refusal> {
    match first_index(store.conversations, conversation_has_id(conversation_id)) {
        None => Err(Refusal::NotFound),
        Some(at) => {
            let c = store.conversations[at];
            if c.user_id != user_id {
                Err(Refusal::Forbidden)
            } else {
                match first_index(store.credentials, credential_of_user(user_id)) {
                    None => Err(Refusal::BadRequest),
                    Some(k) => {
                        let to = recipients_spec(
                            c.participants,
                            store.credentials[k].email,
                            payload.to.deep_view(),
                            kind,
                        );
                        if to.len() == 0 {
                            Err(Refusal::BadRequest)
                        } else {
                            match uploads_spec(payload.attachments@) {
                                None => Err(Refusal::BadRequest),
                                Some(attachments) => match compose_spec(
                                    key,
                                    store.credentials,
                                    user_id,
                                    to,
                                    payload.cc.deep_view(),
                                    payload.bcc.deep_view(),
                                    c.subject,
                                    payload.body_text.deep_view(),
                                    payload.body_html.deep_view(),
                                    attachments,
                                ) {
                                    Err(_) => Err(Refusal::BadRequest),
                                    Ok(email) => Ok((to, attachments, email)),
                                },
                            }
                        }
                    },
                }
            }
        },
    }
}

/// Prepares a reply or a forward in the conversation `conversation_id` for
/// delivery.
pub fn send_message(
    smtp: &SmtpService,
    store: &MailStore,
    user_id: u128,
    conversation_id: u128,
    payload: &SendReplyRequest,
    kind: &ReplyKind,
) -> (r: Result<SendPlan, Refusal>)
    ensures
        match r {
            Ok(plan) => send_spec(
                smtp.encryption_service.key_bytes(),
                store.deep_view(),
                user_id,
                conversation_id,
                *payload,
                *kind,
            ) == Ok::<
                (Seq<Seq<char>>, Seq<OutgoingAttachmentView>, OutgoingEmailView),
                Refusal,
            >((plan.to.deep_view(), plan.attachments.deep_view(), plan.email.deep_view())),
            Err(e) => send_spec(
                smtp.encryption_service.key_bytes(),
                store.deep_view(),
                user_id,
                conversation_id,
                *payload,
                *kind,
            ) == Err::<
                (Seq<Seq<char>>, Seq<OutgoingAttachmentView>, OutgoingEmailView),
                Refusal,
            >(e),
        },
{
    let at = match store.find_conversation(conversation_id) {
        Some(at) => at,
        None => return Err(Refusal::NotFound),
    };
    let conversation = &store.conversations[at];
    if conversation.user_id != user_id {
        return Err(Refusal::Forbidden);
    }
    let k = match store.find_credential(user_id) {
        Some(k) => k,
        None => return Err(Refusal::BadRequest),
    };
    let to = determine_recipients(
        conversation,
        store.credentials[k].email.as_str(),
        &payload.to,
        kind,
    );
    if to.len() == 0 {
        return Err(Refusal::BadRequest);
    }
    let attachments = match decode_uploads(&payload.attachments) {
        Ok(list) => list,
        Err(e) => return Err(e),
    };
    let email = match smtp.send_email(
        store,
        user_id,
        &to,
        &payload.cc,
        &payload.bcc,
        conversation.subject.as_str(),
        match &payload.body_text {
            Some(t) => Some(t.as_str()),
            None => None,
        },
        match &payload.body_html {
            Some(t) => Some(t.as_str()),
            None => None,
        },
        &attachments,
    ) {
        Ok(email) => email,
        Err(_) => return Err(Refusal::BadRequest),
    };
    Ok(SendPlan { email, to, attachments })
}

/// What a listing of conversations is narrowed by.
#[derive(Debug)]
pub struct ConversationListQuery {
    pub show_all: Option<bool>,
    pub startup_id: Option<u128>,
    pub unread_only: Option<bool>,
    pub has_attachments: Option<bool>,
    pub search: Option<String>,
    pub participant: Option<String>,
    pub page: Option<u64>,
    pub page_size: Option<u64>,
    pub archived: Option<bool>,
}

/// One row of a listing: a conversation with the name and address of its
/// owner.
#[derive(Debug)]
pub struct ConversationSummary {
    pub conversation: conversation::Model,
    pub owner_name: Option<String>,
    pub owner_email: Option<String>,
}

/// The mathematical value of a [`ConversationSummary`].
pub struct ConversationSummaryView {
    pub conversation: conversation::ModelView,
    pub owner_name: Option<Seq<char>>,
    pub owner_email: Option<Seq<char>>,
}

impl DeepView for ConversationSummary {
    type V = ConversationSummaryView;

    open spec fn deep_view(&self) -> ConversationSummaryView {
        ConversationSummaryView {
            conversation: self.conversation.deep_view(),
            owner_name: self.owner_name.deep_view(),
            owner_email: self.owner_email.deep_view(),
        }
    }
}

/// Whether the address of some participant holds `needle`.
pub open spec fn participant_holds(participants: Seq<ParticipantView>, needle: Seq<char>) -> bool {
    exists|i: int|
        0 <= i < participants.len() && contains_spec((#[trigger] participants[i]).email, needle)
}

/// Whether a conversation passes the participant and search filters: an
/// address of a participant holds the participant filter, and the subject
/// or the snippet holds the search text, letter case ignored.
pub open spec fn row_matches(
    c: conversation::ModelView,
    participant: Option<Seq<char>>,
    search: Option<Seq<char>>,
) -> bool {
    &&& participant matches Some(p) ==> participant_holds(c.participants, p)
    &&& search matches Some(s) ==> contains_spec(lower_spec(c.subject), lower_spec(s)) || (
    c.snippet matches Some(snippet) && contains_spec(lower_spec(snippet), lower_spec(s)))
}

/// The search ignores the case of ASCII letters: an ASCII search text finds
/// the conversation whose subject is that text in whatever letter case.
pub proof fn lemma_search_ignores_case(c: conversation::ModelView, search: Seq<char>)
    requires
        is_ascii_text(search),
        eq_ignore_ascii_case_spec(c.subject, search),
    ensures
        row_matches(c, None, Some(search)),
{
    assert(is_ascii_text(c.subject)) by {
        assert forall|i: int| 0 <= i < c.subject.len() implies (#[trigger] c.subject[i]) as u32
            <= 0x7F by {
            assert(ascii_fold(c.subject[i]) == ascii_fold(search[i]));
        }
    }
    lemma_lower_ignores_ascii_case(c.subject, search);
    assert(lower_spec(c.subject).skip(0) == lower_spec(c.subject));
}

/// The row of a conversation and its owner.
pub open spec fn summary_of(row: (conversation::Model, Option<user::Model>)) -> ConversationSummaryView {
    ConversationSummaryView {
        conversation: row.0.deep_view(),
        owner_name: match row.1 {
            Some(owner) => owner.name.deep_view(),
            None => None,
        },
        owner_email: match row.1 {
            Some(owner) => Some(owner.email@),
            None => None,
        },
    }
}

/// The rows that pass the filters, in order.
pub open spec fn kept_rows(
    rows: Seq<(conversation::Model, Option<user::Model>)>,
    participant: Option<Seq<char>>,
    search: Option<Seq<char>>,
) -> Seq<ConversationSummaryView>
    decreases rows.len(),
{
    if rows.len() == 0 {
        Seq::empty()
    } else {
        let rest = kept_rows(rows.drop_last(), participant, search);
        if row_matches(rows.last().0.deep_view(), participant, search) {
            rest.push(summary_of(rows.last()))
        } else {
            rest
        }
    }
}

/// The window of `all` that starts at `start` and holds up to `size` rows.
pub open spec fn window<T>(all: Seq<T>, start: int, size: int) -> Seq<T> {
    if start >= all.len() {
        Seq::empty()
    } else if start + size >= all.len() {
        all.subrange(start, all.len() as int)
    } else {
        all.subrange(start, start + size)
    }
}

/// The page number that a query asks for: the first where it names none or
/// names zero.
pub open spec fn page_number(page: Option<u64>) -> int {
    match page {
        Some(p) => if p < 1 {
            1
        } else {
            p as int
        },
        None => 1,
    }
}

/// The page size that a query asks for: 25 where it names none, and at
/// least one.
pub open spec fn page_length(page_size: Option<u64>) -> int {
    match page_size {
        Some(n) => if n < 1 {
            1
        } else {
            n as int
        },
        None => 25,
    }
}

/// The page of a listing that a query asks for.
pub open spec fn listing_spec(
    rows: Seq<(conversation::Model, Option<user::Model>)>,
    params: ConversationListQuery,
) -> Seq<ConversationSummaryView> {
    window(
        kept_rows(rows, params.participant.deep_view(), params.search.deep_view()),
        (page_number(params.page) - 1) * page_length(params.page_size),
        page_length(params.page_size),
    )
}

fn any_participant_holds(list: &Vec<Participant>, needle: &str) -> (r: bool)
    ensures
        r == participant_holds(list.deep_view(), needle@),
{
    let mut i: usize = 0;
    while i < list.len()
        invariant
            i <= list.len(),
            forall|j: int|
                0 <= j < i ==> !contains_spec((#[trigger] list.deep_view()[j]).email, needle@),
        decreases list.len() - i,
    {
        if contains(list[i].email.as_str(), needle) {
            assert(contains_spec(list.deep_view()[i as int].email, needle@));
            return true;
        }
        i += 1;
    }
    false
}

fn matches_row(c: &conversation::Model, params: &ConversationListQuery) -> (r: bool)
    ensures
        r == row_matches(c.deep_view(), params.participant.deep_view(), params.search.deep_view()),
{
    if let Some(participant) = &params.participant {
        if !any_participant_holds(&c.participants, participant.as_str()) {
            return false;
        }
    }
    if let Some(search) = &params.search {
        let wanted = lower(search.as_str());
        let subject = lower(c.subject.as_str());
        let subject_match = contains(subject.as_str(), wanted.as_str());
        let snippet_match = match &c.snippet {
            Some(snippet) => {
                let lowered = lower(snippet.as_str());
                contains(lowered.as_str(), wanted.as_str())
            },
            None => false,
        };
        if !subject_match && !snippet_match {
            return false;
        }
    }
    true
}

/// Narrows the rows of a listing by participant and search text and cuts
/// out the page that the query asks for.
pub fn in_memory_filter(
    items: Vec<(conversation::Model, Option<user::Model>)>,
    params: &ConversationListQuery,
) -> (r: Vec<ConversationSummary>)
    ensures
        r.deep_view() == listing_spec(items@, *params),
{
    let page: u64 = match params.page {
        Some(p) => if p < 1 {
            1
        } else {
            p
        },
        None => 1,
    };
    let size: u64 = match params.page_size {
        Some(n) => if n < 1 {
            1
        } else {
            n
        },
        None => 25,
    };
    let ghost participant = params.participant.deep_view();
    let ghost search = params.search.deep_view();
    let ghost start_int: int = (page - 1) * size;
    let ghost all = kept_rows(items@, participant, search);
    assert(start_int >= 0) by (nonlinear_arith)
        requires
            start_int == (page - 1) * size,
            page >= 1,
            size >= 1,
    ;
    let start: u64 = match (page - 1).checked_mul(size) {
        Some(start) => start,
        None => {
            // More rows are skipped than any listing holds.
            let out: Vec<ConversationSummary> = Vec::new();
            proof {
                lemma_kept_is_short(items@, participant, search);
                assert(start_int > u64::MAX);
                assert(items@.len() <= usize::MAX);
                assert(all.len() <= u64::MAX);
                assert(out.deep_view() =~= Seq::<ConversationSummaryView>::empty());
                assert(window(all, start_int, size as int) =~= Seq::<
                    ConversationSummaryView,
                >::empty());
            }
            return out;
        },
    };
    let mut out: Vec<ConversationSummary> = Vec::new();
    let mut seen: u64 = 0;
    let mut i: usize = 0;
    assert(items@.take(0) == Seq::<(conversation::Model, Option<user::Model>)>::empty());
    assert(out.deep_view() =~= window(
        kept_rows(items@.take(0), participant, search),
        start as int,
        size as int,
    ));
    while i < items.len()
        invariant
            i <= items.len(),
            participant == params.participant.deep_view(),
            search == params.search.deep_view(),
            seen == kept_rows(items@.take(i as int), participant, search).len(),
            seen <= i,
            size >= 1,
            out.deep_view() == window(
                kept_rows(items@.take(i as int), participant, search),
                start as int,
                size as int,
            ),
        decreases items.len() - i,
    {
        let ghost before = kept_rows(items@.take(i as int), participant, search);
        let ghost here = out.deep_view();
        assert(items@.take(i + 1).drop_last() == items@.take(i as int));
        assert(items@.take(i + 1).last() == items@[i as int]);
        if matches_row(&items[i].0, params) {
            let ghost after = before.push(summary_of(items@[i as int]));
            if seen >= start && seen - start < size {
                let summary = ConversationSummary {
                    conversation: items[i].0.duplicate(),
                    owner_name: match &items[i].1 {
                        Some(owner) => owner.name.clone(),
                        None => None,
                    },
                    owner_email: match &items[i].1 {
                        Some(owner) => Some(owner.email.clone()),
                        None => None,
                    },
                };
                assert(summary.deep_view() == summary_of(items@[i as int]));
                out.push(summary);
                assert(out.deep_view() =~= here.push(summary_of(items@[i as int])));
                assert(out.deep_view() =~= window(after, start as int, size as int));
            } else {
                assert(here =~= window(after, start as int, size as int));
            }
            seen = seen + 1;
        }
        i += 1;
    }
    assert(items@.take(items.len() as int) == items@);
    out
}

/// No more rows pass the filters than there are.
pub proof fn lemma_kept_is_short(
    rows: Seq<(conversation::Model, Option<user::Model>)>,
    participant: Option<Seq<char>>,
    search: Option<Seq<char>>,
)
    ensures
        kept_rows(rows, participant, search).len() <= rows.len(),
    decreases rows.len(),
{
    if rows.len() > 0 {
        lemma_kept_is_short(rows.drop_last(), participant, search);
    }
}

/// Characters that are `c`.
pub open spec fn is_char(c: char) -> spec_fn(char) -> bool {
    |x: char| x == c
}

/// The domain of an address: what stands between its first `@` and its
/// second, or its end. An address without `@` has none.
pub open spec fn email_domain_spec(email: Seq<char>) -> Option<Seq<char>> {
    match first_index(email, is_char('@')) {
        None => None,
        Some(at) => {
            let rest = email.skip(at + 1);
            match first_index(rest, is_char('@')) {
                None => Some(rest),
                Some(end) => Some(rest.take(end)),
            }
        },
    }
}

fn position_of(chars: &Vec<char>, from: usize, c: char) -> (r: Option<usize>)
    requires
        from <= chars.len(),
    ensures
        match r {
            Some(i) => first_index(chars@.skip(from as int), is_char(c)) == Some(i - from)
                && from <= i < chars.len(),
            None => first_index(chars@.skip(from as int), is_char(c)) is None,
        },
{
    let ghost s = chars@.skip(from as int);
    let ghost p = is_char(c);
    let mut i: usize = from;
    while i < chars.len()
        invariant
            from <= i <= chars.len(),
            s == chars@.skip(from as int),
            p == is_char(c),
            forall|j: int| 0 <= j < i - from ==> !p(#[trigger] s[j]),
        decreases chars.len() - i,
    {
        if chars[i] == c {
            proof {
                assert(s[i - from] == chars@[i as int]);
                crate::services::store::lemma_first_index_found(s, p, i - from);
            }
            return Some(i);
        }
        assert(s[i - from] == chars@[i as int]);
        i += 1;
    }
    proof {
        crate::services::store::lemma_first_index_none(s, p);
    }
    None
}

/// The domain of an address, by which the settings of its provider are
/// found.
pub fn email_domain(email: &str) -> (r: Option<String>)
    ensures
        r.deep_view() == email_domain_spec(email@),
{
    let chars = to_chars(email);
    assert(chars@.skip(0) == chars@);
    let at = match position_of(&chars, 0, '@') {
        Some(at) => at,
        None => return None,
    };
    let end = match position_of(&chars, at + 1, '@') {
        Some(end) => end,
        None => chars.len(),
    };
    let domain = crate::text::subvec(&chars, at + 1, end);
    proof {
        let rest = chars@.skip(at + 1);
        assert(chars@.subrange(at + 1, end as int) =~= rest.take(end - at - 1));
        assert(rest.take(rest.len() as int) == rest);
    }
    Some(from_chars(&domain))
}

/// The inbound and outbound ports that are offered where neither an
/// account nor a provider gives any.
pub fn default_ports() -> (r: (i32, i32))
    ensures
        r == (993i32, 587i32),
{
    (993, 587)
}

/// The mail account that a user asks to save.
#[derive(Debug)]
pub struct EmailConfig {
    pub email: String,
    pub password: String,
    pub imap_host: String,
    pub imap_port: i32,
    pub smtp_host: String,
    pub smtp_port: i32,
    pub provider_settings_id: Option<u128>,
}

/// The account `before` with the settings of `config` saved and the secret
/// sealed anew as `sealed` under `nonce`: where to fetch and send changes,
/// and the account counts as connected; what was synchronised so far stays.
pub open spec fn account_updated(
    before: email_credential::ModelView,
    config: EmailConfig,
    sealed: Seq<char>,
    nonce: Seq<char>,
    now: i64,
) -> email_credential::ModelView {
    email_credential::ModelView {
        email: config.email@,
        imap_host: config.imap_host@,
        imap_port: config.imap_port,
        smtp_host: config.smtp_host@,
        smtp_port: config.smtp_port,
        provider_settings_id: config.provider_settings_id,
        encrypted_password: sealed,
        nonce,
        sync_status: SyncStatus::Connected,
        updated_at: now,
        ..before
    }
}

/// The first account of `user_id`, with the settings of `config` and the
/// secret sealed as `sealed` under `nonce`: connected, enabled, and never
/// synchronised.
pub open spec fn account_created(
    user_id: u128,
    new_id: u128,
    config: EmailConfig,
    sealed: Seq<char>,
    nonce: Seq<char>,
    now: i64,
) -> email_credential::ModelView {
    email_credential::ModelView {
        id: new_id,
        user_id,
        email: config.email@,
        imap_host: config.imap_host@,
        imap_port: config.imap_port,
        smtp_host: config.smtp_host@,
        smtp_port: config.smtp_port,
        encrypted_password: sealed,
        nonce,
        provider_settings_id: config.provider_settings_id,
        sync_status: SyncStatus::Connected,
        sync_enabled: true,
        last_synced_at: None,
        last_sync_attempt_at: Some(now),
        last_sync_error: None,
        sync_cursor: None,
        created_at: now,
        updated_at: now,
    }
}

/// What saving the settings of `config` for `user_id` does to a store, with
/// the secret sealed as `sealed` under `nonce`: the account of the user is
/// updated, or created under `new_id` where the user has none. Nothing else
/// changes.
pub open spec fn config_saved(
    store: MailStoreView,
    user_id: u128,
    config: EmailConfig,
    sealed: Seq<char>,
    nonce: Seq<char>,
    new_id: u128,
    now: i64,
) -> MailStoreView {
    match first_index(store.credentials, credential_of_user(user_id)) {
        Some(at) => MailStoreView {
            credentials: store.credentials.update(
                at,
                account_updated(store.credentials[at], config, sealed, nonce, now),
            ),
            ..store
        },
        None => MailStoreView {
            credentials: store.credentials.push(
                account_created(user_id, new_id, config, sealed, nonce, now),
            ),
            ..store
        },
    }
}

/// Saving settings keeps the invariant of the store: a user never has two
/// accounts, however often settings are saved.
pub proof fn lemma_saved_config_keeps_invariant(
    store: MailStoreView,
    user_id: u128,
    config: EmailConfig,
    sealed: Seq<char>,
    nonce: Seq<char>,
    new_id: u128,
    now: i64,
)
    requires
        store.wf(),
    ensures
        config_saved(store, user_id, config, sealed, nonce, new_id, now).wf(),
        first_index(
            config_saved(store, user_id, config, sealed, nonce, new_id, now).credentials,
            credential_of_user(user_id),
        ) is Some,
{
    let after = config_saved(store, user_id, config, sealed, nonce, new_id, now);
    let who = credential_of_user(user_id);
    lemma_first_index_sound(store.credentials, who);
    match first_index(store.credentials, who) {
        Some(at) => {
            assert forall|i: int, j: int|
                #![trigger after.credentials[i], after.credentials[j]]
                0 <= i < j < after.credentials.len() implies after.credentials[i].user_id
                != after.credentials[j].user_id by {
                assert(after.credentials[i].user_id == store.credentials[i].user_id);
                assert(after.credentials[j].user_id == store.credentials[j].user_id);
            }
            assert(who(after.credentials[at]));
        },
        None => {
            assert forall|i: int, j: int|
                #![trigger after.credentials[i], after.credentials[j]]
                0 <= i < j < after.credentials.len() implies after.credentials[i].user_id
                != after.credentials[j].user_id by {
                if j < store.credentials.len() {
                    assert(after.credentials[i] == store.credentials[i]);
                    assert(after.credentials[j] == store.credentials[j]);
                } else {
                    assert(after.credentials[i] == store.credentials[i]);
                    assert(!who(store.credentials[i]));
                }
            }
            assert(who(after.credentials[store.credentials.len() as int]));
        },
    }
    lemma_first_index_sound(after.credentials, who);
}

/// Stores the settings of `config` for `user_id` with the secret as it was
/// sealed, `encrypted_password` under `nonce`: updates the account of the
/// user, or creates it under `new_id` where the user has none. The secret
/// of `config` itself is not stored.
pub fn store_email_config(
    store: &mut MailStore,
    user_id: u128,
    config: EmailConfig,
    encrypted_password: String,
    nonce: String,
    new_id: u128,
    now: i64,
)
    ensures
        final(store).deep_view() == config_saved(
            old(store).deep_view(),
            user_id,
            config,
            encrypted_password@,
            nonce@,
            new_id,
            now,
        ),
        old(store).wf() ==> final(store).wf(),
{
    let ghost before = store.deep_view();
    let ghost expected = config_saved(
        before,
        user_id,
        config,
        encrypted_password@,
        nonce@,
        new_id,
        now,
    );
    proof {
        lemma_first_index_sound(before.credentials, credential_of_user(user_id));
        if before.wf() {
            lemma_saved_config_keeps_invariant(
                before,
                user_id,
                config,
                encrypted_password@,
                nonce@,
                new_id,
                now,
            );
        }
    }
    match store.find_credential(user_id) {
        Some(at) => {
            store.credentials[at].email = config.email;
            store.credentials[at].imap_host = config.imap_host;
            store.credentials[at].imap_port = config.imap_port;
            store.credentials[at].smtp_host = config.smtp_host;
            store.credentials[at].smtp_port = config.smtp_port;
            store.credentials[at].provider_settings_id = config.provider_settings_id;
            store.credentials[at].encrypted_password = encrypted_password;
            store.credentials[at].nonce = nonce;
            store.credentials[at].sync_status = SyncStatus::Connected;
            store.credentials[at].updated_at = now;
            assert(store.deep_view().credentials =~= expected.credentials);
        },
        None => {
            store.credentials.push(
                email_credential::Model {
                    id: new_id,
                    user_id,
                    email: config.email,
                    imap_host: config.imap_host,
                    imap_port: config.imap_port,
                    smtp_host: config.smtp_host,
                    smtp_port: config.smtp_port,
                    encrypted_password,
                    nonce,
                    provider_settings_id: config.provider_settings_id,
                    sync_status: SyncStatus::Connected,
                    sync_enabled: true,
                    last_synced_at: None,
                    last_sync_attempt_at: Some(now),
                    last_sync_error: None,
                    sync_cursor: None,
                    created_at: now,
                    updated_at: now,
                },
            );
            assert(store.deep_view().credentials =~= expected.credentials);
        },
    }
    assert(store.deep_view() == expected);
}

/// Saves the mail account of `user_id` once its settings have been tried
/// out: seals the secret under a fresh nonce and stores the settings with
/// what was sealed, as [`store_email_config`] does. Where the vault cannot
/// seal, nothing is stored. Whatever nonce was drawn, the stored pair opens
/// to the secret of `config`.
pub fn save_email_config(
    store: &mut MailStore,
    vault: &EncryptionService,
    user_id: u128,
    config: EmailConfig,
    new_id: u128,
    now: i64,
) -> (r: Result<(), VaultError>)
    ensures
        match r {
            Err(e) => (e == VaultError::RandomUnavailable || (e == VaultError::EncryptionFailed
                && exists|nonce: Seq<u8>|
                #[trigger] sealing_fails(vault.key_bytes(), config.password@, nonce)))
                && final(store).deep_view() == old(store).deep_view(),
            Ok(()) => exists|nonce: Seq<u8>, sealed: (Seq<char>, Seq<char>)|
                {
                    &&& #[trigger] sealed_by(vault.key_bytes(), config.password@, nonce, sealed)
                    &&& decrypt_spec(vault.key_bytes(), sealed.0, sealed.1) == Ok::<
                        Seq<char>,
                        VaultError,
                    >(config.password@)
                    &&& final(store).deep_view() == config_saved(
                        old(store).deep_view(),
                        user_id,
                        config,
                        sealed.0,
                        sealed.1,
                        new_id,
                        now,
                    )
                },
        },
        old(store).wf() ==> final(store).wf(),
{
    let (encrypted_password, nonce) = match vault.encrypt(config.password.as_str()) {
        Ok(pair) => pair,
        Err(e) => return Err(e),
    };
    let ghost sealed = (encrypted_password@, nonce@);
    let ghost drawn = choose|drawn: Seq<u8>|
        #[trigger] sealed_by(vault.key_bytes(), config.password@, drawn, sealed);
    store_email_config(store, user_id, config, encrypted_password, nonce, new_id, now);
    assert(sealed_by(vault.key_bytes(), config.password@, drawn, sealed));
    Ok(())
}

} // verus!
