//! How a prepared message is stored: it finds or opens its conversation,
//! its records are added, and the aggregate of the conversation follows.

use crate::entities::conversation::{Participant, ParticipantView};
use crate::entities::message::Direction;
use crate::entities::{conversation, email_attachment, message};
use crate::services::imap_service::ImapService;
use crate::services::mime::{AttachmentPartView, MimePart};
use crate::services::preparation::{
    fresh_id, prepared_spec, PreparedMessage, PreparedMessageView,
};
use crate::services::store::{
    any, attachment_has_id, attachment_ids_fresh, conversation_has_id, conversation_in_thread,
    first_index, lemma_first_index_agrees, lemma_first_index_found, lemma_first_index_sound,
    message_has_header, message_has_id, MailStoreView, StoreError,
};
use vstd::prelude::*;

verus! {

/// The fresh identifiers for the records of one message: for the message,
/// for a conversation should one be opened, and one for each attachment.
pub struct NewIds {
    pub message: u128,
    pub conversation: u128,
    pub attachments: Vec<u128>,
}

/// The mathematical value of [`NewIds`].
pub struct NewIdsView {
    pub message: u128,
    pub conversation: u128,
    pub attachments: Seq<u128>,
}

impl DeepView for NewIds {
    type V = NewIdsView;

    open spec fn deep_view(&self) -> NewIdsView {
        NewIdsView {
            message: self.message,
            conversation: self.conversation,
            attachments: self.attachments@,
        }
    }
}

/// Whether a conversation cannot count one more message, or one more unread
/// message where `increment_unread` asks for it.
pub open spec fn counters_full(c: conversation::ModelView, increment_unread: bool) -> bool {
    c.message_count == i32::MAX || (increment_unread && c.unread_count == i32::MAX)
}

/// The later of two instants.
pub open spec fn later_of(a: i64, b: i64) -> i64 {
    if a < b {
        b
    } else {
        a
    }
}

/// The aggregate of a conversation after one more message: the latest
/// instant only ever advances, to that of the message where it is the later
/// one; the snippet is that of the message, the message is counted, it is
/// counted as unread where `increment_unread` says so, the attachment flag
/// only ever rises, and the conversation is read exactly while nothing in it
/// is unread.
pub open spec fn bump_conversation(
    c: conversation::ModelView,
    latest_at: i64,
    snippet: Option<Seq<char>>,
    has_attachments: bool,
    increment_unread: bool,
    now: i64,
) -> conversation::ModelView {
    let unread: int = if increment_unread {
        c.unread_count + 1
    } else {
        c.unread_count as int
    };
    conversation::ModelView {
        latest_message_at: later_of(c.latest_message_at, latest_at),
        updated_at: now,
        snippet,
        has_attachments: has_attachments || c.has_attachments,
        message_count: (c.message_count + 1) as i32,
        unread_count: unread as i32,
        is_read: unread == 0,
        ..c
    }
}

/// The latest instant of a conversation never moves back: after one more
/// message it is the later of what it was and the instant of the message.
pub proof fn lemma_latest_instant_only_advances(
    c: conversation::ModelView,
    latest_at: i64,
    snippet: Option<Seq<char>>,
    has_attachments: bool,
    increment_unread: bool,
    now: i64,
)
    ensures
        ({
            let after = bump_conversation(
                c,
                latest_at,
                snippet,
                has_attachments,
                increment_unread,
                now,
            ).latest_message_at;
            &&& after >= c.latest_message_at
            &&& after >= latest_at
            &&& after == c.latest_message_at || after == latest_at
        }),
{
}

/// A conversation as it is opened: empty, read, not archived.
pub open spec fn new_conversation(
    id: u128,
    user_id: u128,
    subject: Seq<char>,
    participants: Seq<ParticipantView>,
    sent_at: i64,
    startup_id: Option<u128>,
    thread: Seq<char>,
    now: i64,
) -> conversation::ModelView {
    conversation::ModelView {
        id,
        user_id,
        subject,
        snippet: None,
        thread_id: Some(thread),
        startup_id,
        latest_message_at: sent_at,
        has_attachments: false,
        is_read: true,
        is_archived: false,
        message_count: 0,
        unread_count: 0,
        participants,
        created_at: now,
        updated_at: now,
    }
}

/// A count of records as a signed 32-bit number, capped at the largest.
pub open spec fn count_spec(len: nat) -> i32 {
    if len > i32::MAX {
        i32::MAX
    } else {
        len as i32
    }
}

/// The message record of a prepared message.
pub open spec fn message_record(
    p: PreparedMessageView,
    id: u128,
    conversation_id: u128,
    now: i64,
) -> message::ModelView {
    message::ModelView {
        id,
        conversation_id,
        user_id: p.user_id,
        sender_name: p.sender_name,
        sender_email: p.sender_email,
        subject: p.subject,
        body_text: p.body_text,
        body_html: p.body_html,
        direction: p.direction,
        to_emails: p.to_emails,
        cc_emails: p.cc_emails,
        bcc_emails: p.bcc_emails,
        sent_at: p.sent_at,
        delivered_at: p.sent_at,
        read_at: if p.is_read {
            Some(now)
        } else {
            None
        },
        is_read: p.is_read,
        is_from_me: p.direction == Direction::Sent,
        imap_uid: Some(p.uid),
        message_id_header: p.message_id,
        in_reply_to: p.in_reply_to,
        references: p.references,
        snippet: p.snippet,
        has_attachments: p.attachments.len() > 0,
        attachment_count: count_spec(p.attachments.len()),
        created_at: now,
    }
}

/// The attachment record of one attachment of a message.
pub open spec fn attachment_record(
    part: AttachmentPartView,
    id: u128,
    message_id: u128,
    now: i64,
) -> email_attachment::ModelView {
    email_attachment::ModelView {
        id,
        message_id,
        file_name: part.file_name,
        content_type: part.content_type,
        size_bytes: part.size_bytes,
        is_inline: part.is_inline,
        content_id: part.content_id,
        data: part.data,
        created_at: now,
    }
}

/// The attachment records of a message, in the order of its attachments,
/// each under the identifier at its position.
pub open spec fn attachment_records(
    parts: Seq<AttachmentPartView>,
    ids: Seq<u128>,
    message_id: u128,
    now: i64,
) -> Seq<email_attachment::ModelView> {
    Seq::new(parts.len(), |i: int| attachment_record(parts[i], ids[i], message_id, now))
}

/// Whether a message that was received and not yet seen.
pub open spec fn counts_as_unread(p: PreparedMessageView) -> bool {
    p.direction == Direction::Received && !p.is_read
}

/// The store with the records of one message added and its conversation
/// brought up to date.
pub open spec fn with_message(
    store: MailStoreView,
    conversations: Seq<conversation::ModelView>,
    conversation_id: u128,
    p: PreparedMessageView,
    ids: NewIdsView,
    now: i64,
) -> MailStoreView {
    MailStoreView {
        conversations,
        messages: store.messages.push(message_record(p, ids.message, conversation_id, now)),
        attachments: store.attachments + attachment_records(
            p.attachments,
            ids.attachments,
            ids.message,
            now,
        ),
        ..store
    }
}

/// What storing a prepared message under fresh identifiers does to a store.
///
/// The message joins the conversation of its user and thread; where there is
/// none yet, one is opened under `ids.conversation`. The store refuses, and
/// stays as it was, where an identifier is taken, where a stored message
/// carries the same protocol message id, or where a counter is full.
pub open spec fn persist_spec(
    store: MailStoreView,
    p: PreparedMessageView,
    ids: NewIdsView,
    now: i64,
) -> Result<MailStoreView, StoreError> {
    let found = first_index(
        store.conversations,
        conversation_in_thread(p.user_id, p.thread_identifier),
    );
    let unread = counts_as_unread(p);
    if ids.attachments.len() < p.attachments.len() {
        Err(StoreError::MissingIds)
    } else if any(store.messages, message_has_id(ids.message)) {
        Err(StoreError::DuplicateKey)
    } else if p.message_id is Some && any(store.messages, message_has_header(p.message_id->0)) {
        Err(StoreError::DuplicateMessageId)
    } else if !attachment_ids_fresh(
        store.attachments,
        ids.attachments.take(p.attachments.len() as int),
    ) {
        Err(StoreError::DuplicateKey)
    } else {
        match found {
            Some(i) => {
                let c = store.conversations[i];
                if counters_full(c, unread) {
                    Err(StoreError::CounterOverflow)
                } else {
                    Ok(
                        with_message(
                            store,
                            store.conversations.update(
                                i,
                                bump_conversation(
                                    c,
                                    p.sent_at,
                                    p.snippet,
                                    p.attachments.len() > 0,
                                    unread,
                                    now,
                                ),
                            ),
                            c.id,
                            p,
                            ids,
                            now,
                        ),
                    )
                }
            },
            None => {
                if any(store.conversations, conversation_has_id(ids.conversation)) {
                    Err(StoreError::DuplicateKey)
                } else {
                    let c = new_conversation(
                        ids.conversation,
                        p.user_id,
                        p.clean_subject,
                        p.participants,
                        p.sent_at,
                        p.startup_id,
                        p.thread_identifier,
                        now,
                    );
                    Ok(
                        with_message(
                            store,
                            store.conversations.push(
                                bump_conversation(
                                    c,
                                    p.sent_at,
                                    p.snippet,
                                    p.attachments.len() > 0,
                                    unread,
                                    now,
                                ),
                            ),
                            ids.conversation,
                            p,
                            ids,
                            now,
                        ),
                    )
                }
            },
        }
    }
}

/// Storing a message keeps the invariant of the store: afterwards, as
/// before, no protocol message id names two messages, no thread of a user
/// has two conversations, and no counter is negative.
pub proof fn lemma_persist_keeps_invariant(
    store: MailStoreView,
    p: PreparedMessageView,
    ids: NewIdsView,
    now: i64,
)
    requires
        store.wf(),
        persist_spec(store, p, ids, now) is Ok,
    ensures
        persist_spec(store, p, ids, now)->Ok_0.wf(),
{
    let after = persist_spec(store, p, ids, now)->Ok_0;
    let pred = conversation_in_thread(p.user_id, p.thread_identifier);
    let found = first_index(store.conversations, pred);
    lemma_first_index_sound(store.conversations, pred);
    let k = p.attachments.len() as int;
    let fresh = ids.attachments.take(k);
    let records = attachment_records(p.attachments, ids.attachments, ids.message, now);
    assert(after.attachments == store.attachments + records);
    assert forall|i: int, j: int|
        #![trigger after.attachments[i], after.attachments[j]]
        0 <= i < j < after.attachments.len() implies after.attachments[i].id
        != after.attachments[j].id by {
        let n = store.attachments.len() as int;
        if j < n {
            assert(after.attachments[i] == store.attachments[i]);
            assert(after.attachments[j] == store.attachments[j]);
        } else if i < n {
            assert(after.attachments[i] == store.attachments[i]);
            assert(after.attachments[j].id == fresh[j - n]);
            assert(!any(store.attachments, attachment_has_id(fresh[j - n])));
            assert(!attachment_has_id(fresh[j - n])(store.attachments[i]));
        } else {
            assert(after.attachments[i].id == fresh[i - n]);
            assert(after.attachments[j].id == fresh[j - n]);
        }
    }
    assert forall|i: int, j: int|
        #![trigger after.messages[i], after.messages[j]]
        0 <= i < j < after.messages.len() implies after.messages[i].id
        != after.messages[j].id by {
        let n = store.messages.len() as int;
        if j < n {
            assert(after.messages[i] == store.messages[i]);
            assert(after.messages[j] == store.messages[j]);
        } else {
            assert(after.messages[i] == store.messages[i]);
            assert(!message_has_id(ids.message)(store.messages[i]));
        }
    }
    assert forall|i: int, j: int|
        #![trigger after.messages[i], after.messages[j]]
        0 <= i < j < after.messages.len()
            && after.messages[i].message_id_header is Some implies after.messages[i].message_id_header
        != after.messages[j].message_id_header by {
        let n = store.messages.len() as int;
        if j < n {
            assert(after.messages[i] == store.messages[i]);
            assert(after.messages[j] == store.messages[j]);
        } else {
            assert(after.messages[i] == store.messages[i]);
            assert(after.messages[j].message_id_header == p.message_id);
            if p.message_id is Some {
                assert(!message_has_header(p.message_id->0)(store.messages[i]));
            }
        }
    }
    match found {
        Some(at) => {
            assert forall|i: int, j: int|
                #![trigger after.conversations[i], after.conversations[j]]
                0 <= i < j < after.conversations.len() implies after.conversations[i].id
                != after.conversations[j].id && (after.conversations[i].thread_id is Some
                && after.conversations[i].user_id == after.conversations[j].user_id
                ==> after.conversations[i].thread_id != after.conversations[j].thread_id) by {
                assert(after.conversations[i].id == store.conversations[i].id);
                assert(after.conversations[j].id == store.conversations[j].id);
                assert(after.conversations[i].thread_id == store.conversations[i].thread_id);
                assert(after.conversations[j].thread_id == store.conversations[j].thread_id);
                assert(after.conversations[i].user_id == store.conversations[i].user_id);
                assert(after.conversations[j].user_id == store.conversations[j].user_id);
            }
            assert forall|i: int| 0 <= i < after.conversations.len() implies (
            #[trigger] after.conversations[i]).message_count >= 0
                && after.conversations[i].unread_count >= 0 by {
                if i != at {
                    assert(after.conversations[i] == store.conversations[i]);
                } else {
                    assert(store.conversations[at].message_count >= 0);
                }
            }
        },
        None => {
            let n = store.conversations.len() as int;
            assert forall|i: int, j: int|
                #![trigger after.conversations[i], after.conversations[j]]
                0 <= i < j < after.conversations.len() implies after.conversations[i].id
                != after.conversations[j].id && (after.conversations[i].thread_id is Some
                && after.conversations[i].user_id == after.conversations[j].user_id
                ==> after.conversations[i].thread_id != after.conversations[j].thread_id) by {
                if j < n {
                    assert(after.conversations[i] == store.conversations[i]);
                    assert(after.conversations[j] == store.conversations[j]);
                } else {
                    assert(after.conversations[i] == store.conversations[i]);
                    assert(!conversation_has_id(ids.conversation)(store.conversations[i]));
                    assert(!pred(store.conversations[i]));
                }
            }
            assert forall|i: int| 0 <= i < after.conversations.len() implies (
            #[trigger] after.conversations[i]).message_count >= 0
                && after.conversations[i].unread_count >= 0 by {
                if i < n {
                    assert(after.conversations[i] == store.conversations[i]);
                }
            }
        },
    }
}

/// What bringing the conversation `conversation_id` up to date with one more
/// message does to a store.
pub open spec fn update_conversation_state_spec(
    store: MailStoreView,
    conversation_id: u128,
    latest_at: i64,
    snippet: Option<Seq<char>>,
    has_attachments: bool,
    increment_unread: bool,
    now: i64,
) -> Result<MailStoreView, StoreError> {
    match first_index(store.conversations, conversation_has_id(conversation_id)) {
        None => Err(StoreError::ConversationMissing),
        Some(i) => {
            let c = store.conversations[i];
            if counters_full(c, increment_unread) {
                Err(StoreError::CounterOverflow)
            } else {
                Ok(
                    MailStoreView {
                        conversations: store.conversations.update(
                            i,
                            bump_conversation(
                                c,
                                latest_at,
                                snippet,
                                has_attachments,
                                increment_unread,
                                now,
                            ),
                        ),
                        ..store
                    },
                )
            }
        },
    }
}

/// What finding the conversation of a user and thread, or opening one under
/// `new_id`, does to a store, and the identifier of that conversation.
pub open spec fn ensure_conversation_spec(
    store: MailStoreView,
    new_id: u128,
    user_id: u128,
    subject: Seq<char>,
    participants: Seq<ParticipantView>,
    sent_at: i64,
    startup_id: Option<u128>,
    thread: Seq<char>,
    now: i64,
) -> Result<(MailStoreView, u128), StoreError> {
    match first_index(store.conversations, conversation_in_thread(user_id, thread)) {
        Some(i) => Ok((store, store.conversations[i].id)),
        None => if any(store.conversations, conversation_has_id(new_id)) {
            Err(StoreError::DuplicateKey)
        } else {
            Ok(
                (
                    MailStoreView {
                        conversations: store.conversations.push(
                            new_conversation(
                                new_id,
                                user_id,
                                subject,
                                participants,
                                sent_at,
                                startup_id,
                                thread,
                                now,
                            ),
                        ),
                        ..store
                    },
                    new_id,
                ),
            )
        },
    }
}

/// A conversation that keeps its identifier, its user and its thread, and
/// whose counters are not negative, can take the place of the one it
/// replaces.
pub proof fn lemma_replaced_conversation_keeps_invariant(
    store: MailStoreView,
    at: int,
    c: conversation::ModelView,
)
    requires
        store.wf(),
        0 <= at < store.conversations.len(),
        c.id == store.conversations[at].id,
        c.user_id == store.conversations[at].user_id,
        c.thread_id == store.conversations[at].thread_id,
        c.message_count >= 0,
        c.unread_count >= 0,
    ensures
        (MailStoreView { conversations: store.conversations.update(at, c), ..store }).wf(),
{
    let after = MailStoreView { conversations: store.conversations.update(at, c), ..store };
    assert forall|i: int, j: int|
        #![trigger after.conversations[i], after.conversations[j]]
        0 <= i < j < after.conversations.len() implies after.conversations[i].id
        != after.conversations[j].id && (after.conversations[i].thread_id is Some
        && after.conversations[i].user_id == after.conversations[j].user_id
        ==> after.conversations[i].thread_id != after.conversations[j].thread_id) by {
        assert(after.conversations[i].id == store.conversations[i].id);
        assert(after.conversations[j].id == store.conversations[j].id);
        assert(after.conversations[i].thread_id == store.conversations[i].thread_id);
        assert(after.conversations[j].thread_id == store.conversations[j].thread_id);
        assert(after.conversations[i].user_id == store.conversations[i].user_id);
        assert(after.conversations[j].user_id == store.conversations[j].user_id);
    }
    assert forall|i: int| 0 <= i < after.conversations.len() implies (
    #[trigger] after.conversations[i]).message_count >= 0 && after.conversations[i].unread_count
        >= 0 by {
        if i != at {
            assert(after.conversations[i] == store.conversations[i]);
        }
    }
}

/// A conversation whose identifier is not taken, whose thread has no
/// conversation of its user yet, and whose counters are not negative, can be
/// added.
pub proof fn lemma_opened_conversation_keeps_invariant(
    store: MailStoreView,
    c: conversation::ModelView,
)
    requires
        store.wf(),
        !any(store.conversations, conversation_has_id(c.id)),
        c.thread_id matches Some(thread) && !any(
            store.conversations,
            conversation_in_thread(c.user_id, thread),
        ),
        c.message_count >= 0,
        c.unread_count >= 0,
    ensures
        (MailStoreView { conversations: store.conversations.push(c), ..store }).wf(),
{
    let after = MailStoreView { conversations: store.conversations.push(c), ..store };
    let n = store.conversations.len() as int;
    assert forall|i: int, j: int|
        #![trigger after.conversations[i], after.conversations[j]]
        0 <= i < j < after.conversations.len() implies after.conversations[i].id
        != after.conversations[j].id && (after.conversations[i].thread_id is Some
        && after.conversations[i].user_id == after.conversations[j].user_id
        ==> after.conversations[i].thread_id != after.conversations[j].thread_id) by {
        if j < n {
            assert(after.conversations[i] == store.conversations[i]);
            assert(after.conversations[j] == store.conversations[j]);
        } else {
            assert(after.conversations[i] == store.conversations[i]);
            assert(!conversation_has_id(c.id)(store.conversations[i]));
            assert(!conversation_in_thread(c.user_id, c.thread_id->0)(store.conversations[i]));
        }
    }
    assert forall|i: int| 0 <= i < after.conversations.len() implies (
    #[trigger] after.conversations[i]).message_count >= 0 && after.conversations[i].unread_count
        >= 0 by {
        if i < n {
            assert(after.conversations[i] == store.conversations[i]);
        }
    }
}

/// What storing a prepared message does to a store once identifiers were
/// asked for: where none could be drawn nothing is stored, and under the
/// identifiers that were drawn the store changes as [`persist_spec`] says.
pub open spec fn persist_drawn_spec(
    store: MailStoreView,
    p: PreparedMessageView,
    ids: Option<NewIdsView>,
    now: i64,
) -> Result<MailStoreView, StoreError> {
    match ids {
        None => Err(StoreError::IdentifiersUnavailable),
        Some(drawn) => persist_spec(store, p, drawn, now),
    }
}

/// The end of a write as [`persist_spec`] names it, for the result of the
/// write and the store it left.
pub open spec fn stored_outcome(r: Result<(), StoreError>, store: MailStoreView) -> Result<
    MailStoreView,
    StoreError,
> {
    match r {
        Ok(()) => Ok(store),
        Err(e) => Err(e),
    }
}

/// Draws fresh random identifiers for a message with `count` attachments,
/// or none where the system hands out no random bytes. Nothing is known of
/// the identifiers but their number.
pub fn fresh_ids(count: usize) -> (r: Option<NewIds>)
    ensures
        r matches Some(ids) ==> ids.attachments@.len() == count,
{
    let mut attachments: Vec<u128> = Vec::new();
    let mut i: usize = 0;
    while i < count
        invariant
            i <= count,
            attachments@.len() == i,
        decreases count - i,
    {
        match fresh_id() {
            Some(id) => attachments.push(id),
            None => return None,
        }
        i += 1;
    }
    let message = match fresh_id() {
        Some(id) => id,
        None => return None,
    };
    let conversation = match fresh_id() {
        Some(id) => id,
        None => return None,
    };
    Some(NewIds { message, conversation, attachments })
}

pub(crate) fn copy_participants(list: &Vec<Participant>) -> (r: Vec<Participant>)
    ensures
        r.deep_view() == list.deep_view(),
{
    let mut out: Vec<Participant> = Vec::new();
    let mut i: usize = 0;
    while i < list.len()
        invariant
            i <= list.len(),
            out.deep_view() == list.deep_view().take(i as int),
        decreases list.len() - i,
    {
        let ghost here = out.deep_view();
        out.push(
            Participant {
                email: list[i].email.clone(),
                role: list[i].role.clone(),
                name: list[i].name.clone(),
            },
        );
        assert(out.deep_view() =~= here.push(list.deep_view()[i as int]));
        assert(list.deep_view().take(i + 1) =~= list.deep_view().take(i as int).push(
            list.deep_view()[i as int],
        ));
        i += 1;
    }
    assert(list.deep_view().take(list.len() as int) == list.deep_view());
    out
}

impl ImapService {
    fn bump_at(
        &mut self,
        at: usize,
        latest_at: i64,
        snippet: Option<String>,
        has_attachments: bool,
        increment_unread: bool,
        now: i64,
    )
        requires
            at < old(self).db.conversations.len(),
            !counters_full(old(self).db.deep_view().conversations[at as int], increment_unread),
        ensures
            final(self).db.deep_view() == (MailStoreView {
                conversations: old(self).db.deep_view().conversations.update(
                    at as int,
                    bump_conversation(
                        old(self).db.deep_view().conversations[at as int],
                        latest_at,
                        snippet.deep_view(),
                        has_attachments,
                        increment_unread,
                        now,
                    ),
                ),
                ..old(self).db.deep_view()
            }),
            final(self).encryption_service == old(self).encryption_service,
    {
        let ghost before = self.db.deep_view();
        let unread: i32 = if increment_unread {
            self.db.conversations[at].unread_count + 1
        } else {
            self.db.conversations[at].unread_count
        };
        let count: i32 = self.db.conversations[at].message_count + 1;
        let flag: bool = has_attachments || self.db.conversations[at].has_attachments;
        if self.db.conversations[at].latest_message_at < latest_at {
            self.db.conversations[at].latest_message_at = latest_at;
        }
        self.db.conversations[at].updated_at = now;
        self.db.conversations[at].snippet = snippet;
        self.db.conversations[at].has_attachments = flag;
        self.db.conversations[at].message_count = count;
        self.db.conversations[at].unread_count = unread;
        self.db.conversations[at].is_read = unread == 0;
        assert(self.db.deep_view().conversations =~= before.conversations.update(
            at as int,
            bump_conversation(
                before.conversations[at as int],
                latest_at,
                snippet.deep_view(),
                has_attachments,
                increment_unread,
                now,
            ),
        ));
    }

    /// Brings the conversation `conversation_id` up to date with one more
    /// message. This is the one place where the aggregate of a conversation
    /// is advanced, for inbound and outbound messages alike.
    pub fn update_conversation_state(
        &mut self,
        conversation_id: u128,
        latest_at: i64,
        snippet: Option<String>,
        has_attachments: bool,
        increment_unread: bool,
        now: i64,
    ) -> (r: Result<(), StoreError>)
        ensures
            match r {
                Ok(()) => update_conversation_state_spec(
                    old(self).db.deep_view(),
                    conversation_id,
                    latest_at,
                    snippet.deep_view(),
                    has_attachments,
                    increment_unread,
                    now,
                ) == Ok::<MailStoreView, StoreError>(final(self).db.deep_view()),
                Err(e) => update_conversation_state_spec(
                    old(self).db.deep_view(),
                    conversation_id,
                    latest_at,
                    snippet.deep_view(),
                    has_attachments,
                    increment_unread,
                    now,
                ) == Err::<MailStoreView, StoreError>(e) && final(self).db.deep_view() == old(
                    self,
                ).db.deep_view(),
            },
            old(self).db.wf() ==> final(self).db.wf(),
            final(self).encryption_service == old(self).encryption_service,
    {
        let ghost before = self.db.deep_view();
        let at = match self.db.find_conversation(conversation_id) {
            Some(at) => at,
            None => return Err(StoreError::ConversationMissing),
        };
        if self.db.conversations[at].message_count == i32::MAX || (increment_unread
            && self.db.conversations[at].unread_count == i32::MAX) {
            return Err(StoreError::CounterOverflow);
        }
        self.bump_at(at, latest_at, snippet, has_attachments, increment_unread, now);
        proof {
            if before.wf() {
                lemma_replaced_conversation_keeps_invariant(
                    before,
                    at as int,
                    self.db.deep_view().conversations[at as int],
                );
            }
        }
        Ok(())
    }

    /// Finds the conversation of `user_id` for the thread `thread_id`, or
    /// opens one under `new_id`, and hands out its identifier.
    pub fn ensure_conversation(
        &mut self,
        new_id: u128,
        user_id: u128,
        subject: &str,
        participants: &Vec<Participant>,
        sent_at: i64,
        startup_id: Option<u128>,
        thread_id: &str,
        now: i64,
    ) -> (r: Result<u128, StoreError>)
        ensures
            match r {
                Ok(id) => ensure_conversation_spec(
                    old(self).db.deep_view(),
                    new_id,
                    user_id,
                    subject@,
                    participants.deep_view(),
                    sent_at,
                    startup_id,
                    thread_id@,
                    now,
                ) == Ok::<(MailStoreView, u128), StoreError>((final(self).db.deep_view(), id)),
                Err(e) => ensure_conversation_spec(
                    old(self).db.deep_view(),
                    new_id,
                    user_id,
                    subject@,
                    participants.deep_view(),
                    sent_at,
                    startup_id,
                    thread_id@,
                    now,
                ) == Err::<(MailStoreView, u128), StoreError>(e) && final(self).db.deep_view()
                    == old(self).db.deep_view(),
            },
            old(self).db.wf() ==> final(self).db.wf(),
            final(self).encryption_service == old(self).encryption_service,
    {
        let ghost before = self.db.deep_view();
        if let Some(at) = self.db.find_thread(user_id, thread_id) {
            return Ok(self.db.conversations[at].id);
        }
        proof {
            lemma_first_index_sound(before.conversations, conversation_has_id(new_id));
        }
        if self.db.find_conversation(new_id).is_some() {
            return Err(StoreError::DuplicateKey);
        }
        let record = conversation::Model {
            id: new_id,
            user_id,
            subject: subject.to_string(),
            snippet: None,
            thread_id: Some(thread_id.to_string()),
            startup_id,
            latest_message_at: sent_at,
            has_attachments: false,
            is_read: true,
            is_archived: false,
            message_count: 0,
            unread_count: 0,
            participants: copy_participants(participants),
            created_at: now,
            updated_at: now,
        };
        self.db.conversations.push(record);
        assert(self.db.deep_view().conversations =~= before.conversations.push(
            new_conversation(
                new_id,
                user_id,
                subject@,
                participants.deep_view(),
                sent_at,
                startup_id,
                thread_id@,
                now,
            ),
        ));
        proof {
            if before.wf() {
                lemma_first_index_sound(
                    before.conversations,
                    conversation_in_thread(user_id, thread_id@),
                );
                lemma_opened_conversation_keeps_invariant(
                    before,
                    self.db.deep_view().conversations.last(),
                );
            }
        }
        Ok(new_id)
    }

    /// Stores a prepared message under the given fresh identifiers: finds or
    /// opens its conversation, stores the message and its attachments, and
    /// brings the conversation up to date. Where the store refuses, nothing
    /// is stored.
    pub fn persist_prepared(&mut self, prepared: PreparedMessage, ids: &NewIds, now: i64) -> (r:
        Result<(), StoreError>)
        ensures
            match r {
                Ok(()) => persist_spec(
                    old(self).db.deep_view(),
                    prepared.deep_view(),
                    ids.deep_view(),
                    now,
                ) == Ok::<MailStoreView, StoreError>(final(self).db.deep_view()),
                Err(e) => persist_spec(
                    old(self).db.deep_view(),
                    prepared.deep_view(),
                    ids.deep_view(),
                    now,
                ) == Err::<MailStoreView, StoreError>(e) && final(self).db.deep_view() == old(
                    self,
                ).db.deep_view(),
            },
            old(self).db.wf() ==> final(self).db.wf(),
            final(self).encryption_service == old(self).encryption_service,
    {
        let ghost before = self.db.deep_view();
        let ghost p = prepared.deep_view();
        let count = prepared.attachments.len();
        if ids.attachments.len() < count {
            return Err(StoreError::MissingIds);
        }
        if self.db.has_message_id(ids.message) {
            return Err(StoreError::DuplicateKey);
        }
        let known = match &prepared.message_id {
            Some(header) => self.db.has_message_header(header.as_str()),
            None => false,
        };
        if known {
            return Err(StoreError::DuplicateMessageId);
        }
        if !self.db.attachment_ids_are_fresh(&ids.attachments, count) {
            return Err(StoreError::DuplicateKey);
        }
        let unread = prepared.direction == Direction::Received && !prepared.is_read;
        let has_attachments = count > 0;
        let found = self.db.find_thread(prepared.user_id, prepared.thread_identifier.as_str());
        let conversation_id = match found {
            Some(at) => {
                if self.db.conversations[at].message_count == i32::MAX || (unread
                    && self.db.conversations[at].unread_count == i32::MAX) {
                    return Err(StoreError::CounterOverflow);
                }
                let id = self.db.conversations[at].id;
                self.bump_at(
                    at,
                    prepared.sent_at,
                    prepared.snippet.clone(),
                    has_attachments,
                    unread,
                    now,
                );
                id
            },
            None => {
                proof {
                    lemma_first_index_sound(
                        before.conversations,
                        conversation_has_id(ids.conversation),
                    );
                }
                if self.db.find_conversation(ids.conversation).is_some() {
                    return Err(StoreError::DuplicateKey);
                }
                let record = conversation::Model {
                    id: ids.conversation,
                    user_id: prepared.user_id,
                    subject: prepared.clean_subject.clone(),
                    snippet: prepared.snippet.clone(),
                    thread_id: Some(prepared.thread_identifier.clone()),
                    startup_id: prepared.startup_id,
                    latest_message_at: prepared.sent_at,
                    has_attachments,
                    is_read: !unread,
                    is_archived: false,
                    message_count: 1,
                    unread_count: if unread {
                        1
                    } else {
                        0
                    },
                    participants: copy_participants(&prepared.participants),
                    created_at: now,
                    updated_at: now,
                };
                self.db.conversations.push(record);
                assert(self.db.deep_view().conversations =~= before.conversations.push(
                    bump_conversation(
                        new_conversation(
                            ids.conversation,
                            p.user_id,
                            p.clean_subject,
                            p.participants,
                            p.sent_at,
                            p.startup_id,
                            p.thread_identifier,
                            now,
                        ),
                        p.sent_at,
                        p.snippet,
                        p.attachments.len() > 0,
                        counts_as_unread(p),
                        now,
                    ),
                ));
                ids.conversation
            },
        };
        let ghost expected = persist_spec(before, p, ids.deep_view(), now)->Ok_0;
        assert(self.db.deep_view().conversations == expected.conversations);
        let length: u64 = count as u64;
        let attachment_count: i32 = if length > 0x7fff_ffff {
            0x7fff_ffff
        } else {
            length as i32
        };
        let mut i: usize = 0;
        let ghost old_attachments = self.db.deep_view().attachments;
        assert(old_attachments == before.attachments);
        let ghost records = attachment_records(
            p.attachments,
            ids.attachments@,
            ids.message,
            now,
        );
        assert(self.db.deep_view().attachments =~= old_attachments + records.take(0));
        while i < count
            invariant
                i <= count,
                count == prepared.attachments.len(),
                count <= ids.attachments.len(),
                p == prepared.deep_view(),
                records == attachment_records(p.attachments, ids.attachments@, ids.message, now),
                self.db.deep_view().attachments == old_attachments + records.take(i as int),
                self.db.deep_view().conversations == expected.conversations,
                self.db.deep_view().messages == before.messages,
                self.db.deep_view().credentials == before.credentials,
                self.db.deep_view().contacts == before.contacts,
                self.encryption_service == old(self).encryption_service,
            decreases count - i,
        {
            let ghost here = self.db.deep_view().attachments;
            let part = &prepared.attachments[i];
            let record = email_attachment::Model {
                id: ids.attachments[i],
                message_id: ids.message,
                file_name: part.file_name.clone(),
                content_type: part.content_type.clone(),
                size_bytes: part.size_bytes,
                is_inline: part.is_inline,
                content_id: part.content_id.clone(),
                data: part.data.clone(),
                created_at: now,
            };
            assert(p.attachments[i as int] == prepared.attachments@[i as int].deep_view());
            assert(record.deep_view() == records[i as int]);
            self.db.attachments.push(record);
            assert(self.db.deep_view().attachments =~= here.push(records[i as int]));
            assert(records.take(i + 1) =~= records.take(i as int).push(records[i as int]));
            i += 1;
        }
        assert(records.take(count as int) == records);
        let record = message::Model {
            id: ids.message,
            conversation_id,
            user_id: prepared.user_id,
            sender_name: prepared.sender_name,
            sender_email: prepared.sender_email,
            subject: prepared.subject,
            body_text: prepared.body_text,
            body_html: prepared.body_html,
            direction: prepared.direction,
            to_emails: prepared.to_emails,
            cc_emails: prepared.cc_emails,
            bcc_emails: prepared.bcc_emails,
            sent_at: prepared.sent_at,
            delivered_at: prepared.sent_at,
            read_at: if prepared.is_read {
                Some(now)
            } else {
                None
            },
            is_read: prepared.is_read,
            is_from_me: prepared.direction == Direction::Sent,
            imap_uid: Some(prepared.uid),
            message_id_header: prepared.message_id,
            in_reply_to: prepared.in_reply_to,
            references: prepared.references,
            snippet: prepared.snippet,
            has_attachments,
            attachment_count,
            created_at: now,
        };
        assert(record.deep_view() == message_record(p, ids.message, conversation_id, now));
        self.db.messages.push(record);
        assert(self.db.deep_view().messages =~= before.messages.push(
            message_record(p, ids.message, conversation_id, now),
        ));
        assert(self.db.deep_view() == expected);
        proof {
            if before.wf() {
                lemma_persist_keeps_invariant(before, p, ids.deep_view(), now);
            }
        }
        Ok(())
    }

    /// Stores one parsed message of the account `account_email` of `user_id`
    /// under freshly drawn identifiers. Whatever came of the draw, the store
    /// changes as [`persist_drawn_spec`] says for the prepared message, or
    /// refuses and stays as it was.
    pub fn persist_message(
        &mut self,
        user_id: u128,
        account_email: &str,
        parsed: &Vec<MimePart>,
        uid: u32,
        seen: bool,
        now: i64,
    ) -> (r: Result<(), StoreError>)
        ensures
            exists|ids: Option<NewIdsView>|
                #[trigger] persist_drawn_spec(
                    old(self).db.deep_view(),
                    prepared_spec(
                        old(self).db.deep_view().contacts,
                        user_id,
                        account_email@,
                        parsed@,
                        uid,
                        seen,
                        now,
                    ),
                    ids,
                    now,
                ) == stored_outcome(r, final(self).db.deep_view()),
            r is Err ==> final(self).db.deep_view() == old(self).db.deep_view(),
            old(self).db.wf() ==> final(self).db.wf(),
            final(self).encryption_service == old(self).encryption_service,
    {
        let prepared = self.prepare_message(user_id, account_email, parsed, uid, seen, now);
        let ghost p = prepared.deep_view();
        let ghost before = self.db.deep_view();
        let ids = match fresh_ids(prepared.attachments.len()) {
            Some(ids) => ids,
            None => {
                let r = Err(StoreError::IdentifiersUnavailable);
                assert(persist_drawn_spec(before, p, None, now) == stored_outcome(r, before));
                return r;
            },
        };
        let r = self.persist_prepared(prepared, &ids, now);
        assert(persist_drawn_spec(before, p, Some(ids.deep_view()), now) == stored_outcome(
            r,
            self.db.deep_view(),
        ));
        r
    }
}

/// The message count and the unread count of the conversation of a thread
/// of a user; both are zero where the thread has no conversation yet.
pub open spec fn thread_counts(store: MailStoreView, user_id: u128, thread: Seq<char>) -> (
    int,
    int,
) {
    match first_index(store.conversations, conversation_in_thread(user_id, thread)) {
        Some(at) => (
            store.conversations[at].message_count as int,
            store.conversations[at].unread_count as int,
        ),
        None => (0, 0),
    }
}

/// Whether the thread of a user has a conversation that is read exactly
/// while nothing in it is unread.
pub open spec fn thread_is_settled(store: MailStoreView, user_id: u128, thread: Seq<char>) -> bool {
    first_index(store.conversations, conversation_in_thread(user_id, thread)) matches Some(at)
        && store.conversations[at].is_read == (store.conversations[at].unread_count == 0)
}

/// A stored message is counted once in the conversation of its thread, and
/// once more as unread where it was received and is not read. After it the
/// thread has a conversation, which is read exactly while nothing in it is
/// unread.
pub proof fn lemma_persist_counts(
    store: MailStoreView,
    p: PreparedMessageView,
    ids: NewIdsView,
    now: i64,
)
    requires
        persist_spec(store, p, ids, now) is Ok,
    ensures
        ({
            let after = persist_spec(store, p, ids, now)->Ok_0;
            let before = thread_counts(store, p.user_id, p.thread_identifier);
            let unread: int = if counts_as_unread(p) {
                1
            } else {
                0
            };
            &&& thread_counts(after, p.user_id, p.thread_identifier) == (
                before.0 + 1,
                before.1 + unread,
            )
            &&& thread_is_settled(after, p.user_id, p.thread_identifier)
        }),
{
    let after = persist_spec(store, p, ids, now)->Ok_0;
    let of_thread = conversation_in_thread(p.user_id, p.thread_identifier);
    lemma_first_index_sound(store.conversations, of_thread);
    match first_index(store.conversations, of_thread) {
        Some(at) => {
            assert forall|i: int| 0 <= i < store.conversations.len() implies of_thread(
                #[trigger] store.conversations[i],
            ) == of_thread(after.conversations[i]) by {}
            lemma_first_index_agrees(store.conversations, after.conversations, of_thread);
        },
        None => {
            let n = store.conversations.len() as int;
            assert(of_thread(after.conversations[n]));
            assert forall|j: int| 0 <= j < n implies !of_thread(
                #[trigger] after.conversations[j],
            ) by {
                assert(after.conversations[j] == store.conversations[j]);
            }
            lemma_first_index_found(after.conversations, of_thread, n);
        },
    }
}

/// What one message means for the aggregate of its conversation.
pub struct MessageEvent {
    pub sent_at: i64,
    pub snippet: Option<Seq<char>>,
    pub has_attachments: bool,
    /// Whether the message was received and is not read.
    pub unread: bool,
    pub now: i64,
}

/// The aggregate of a conversation after a run of messages.
pub open spec fn after_messages(
    c: conversation::ModelView,
    events: Seq<MessageEvent>,
) -> conversation::ModelView
    decreases events.len(),
{
    if events.len() == 0 {
        c
    } else {
        let e = events.last();
        bump_conversation(
            after_messages(c, events.drop_last()),
            e.sent_at,
            e.snippet,
            e.has_attachments,
            e.unread,
            e.now,
        )
    }
}

/// How many of the messages were received and are not read.
pub open spec fn count_unread(events: Seq<MessageEvent>) -> nat
    decreases events.len(),
{
    if events.len() == 0 {
        0
    } else {
        count_unread(events.drop_last()) + if events.last().unread {
            1nat
        } else {
            0nat
        }
    }
}

/// In a conversation that started empty, the unread count is the number of
/// messages that were received and not read, the message count is the number
/// of all its messages, and the conversation is read exactly when that
/// number of unread messages is zero.
pub proof fn lemma_unread_count_counts_unread(c: conversation::ModelView, events: Seq<MessageEvent>)
    requires
        c.unread_count == 0,
        c.message_count == 0,
        events.len() <= i32::MAX,
    ensures
        after_messages(c, events).unread_count == count_unread(events),
        after_messages(c, events).message_count == events.len(),
        events.len() > 0 ==> after_messages(c, events).is_read == (count_unread(events) == 0),
        count_unread(events) <= events.len(),
        after_messages(c, events).id == c.id,
        after_messages(c, events).user_id == c.user_id,
        after_messages(c, events).thread_id == c.thread_id,
    decreases events.len(),
{
    if events.len() > 0 {
        lemma_unread_count_counts_unread(c, events.drop_last());
    }
}

} // verus!
