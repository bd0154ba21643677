//! The mail store: the records of every account, held in memory.
//!
//! The store keeps what a relational store would enforce: identifiers are
//! keys, a user has one mail account, a thread of a user has one
//! conversation, and a protocol message id names one message.

use crate::entities::{contact, conversation, email_attachment, email_credential, message};
use crate::text::str_eq;
use vstd::prelude::*;

verus! {

/// Why the store refused a write.
#[derive(Debug, Clone, Copy, PartialEq, Eq, Structural)]
pub enum StoreError {
    /// A record with this identifier is already stored.
    DuplicateKey,
    /// A message with this protocol message id is already stored.
    DuplicateMessageId,
    /// No conversation has the identifier that was asked for.
    ConversationMissing,
    /// A counter of the conversation is at the largest value it can hold.
    CounterOverflow,
    /// Fewer fresh identifiers were handed over than records are to be stored.
    MissingIds,
    /// The system handed out no random bytes to make identifiers of.
    IdentifiersUnavailable,
}

impl StoreError {
    /// The report of each error in words.
    pub open spec fn message_spec(&self) -> Seq<char> {
        match self {
            StoreError::DuplicateKey => "Duplicate record identifier"@,
            StoreError::DuplicateMessageId => "Duplicate message id"@,
            StoreError::ConversationMissing => "Conversation missing"@,
            StoreError::CounterOverflow => "Conversation counter overflow"@,
            StoreError::MissingIds => "Too few record identifiers"@,
            StoreError::IdentifiersUnavailable => "No random identifiers available"@,
        }
    }

    /// The report of the error in words.
    pub fn message(&self) -> (r: &'static str)
        ensures
            r@ == self.message_spec(),
    {
        match self {
            StoreError::DuplicateKey => "Duplicate record identifier",
            StoreError::DuplicateMessageId => "Duplicate message id",
            StoreError::ConversationMissing => "Conversation missing",
            StoreError::CounterOverflow => "Conversation counter overflow",
            StoreError::MissingIds => "Too few record identifiers",
            StoreError::IdentifiersUnavailable => "No random identifiers available",
        }
    }
}

/// The records of the mail engine.
pub struct MailStore {
    pub credentials: Vec<email_credential::Model>,
    pub contacts: Vec<contact::Model>,
    pub conversations: Vec<conversation::Model>,
    pub messages: Vec<message::Model>,
    pub attachments: Vec<email_attachment::Model>,
}

/// The mathematical value of a store: its records in the order they were
/// stored.
pub struct MailStoreView {
    pub credentials: Seq<email_credential::ModelView>,
    pub contacts: Seq<contact::ModelView>,
    pub conversations: Seq<conversation::ModelView>,
    pub messages: Seq<message::ModelView>,
    pub attachments: Seq<email_attachment::ModelView>,
}

impl DeepView for MailStore {
    type V = MailStoreView;

    open spec fn deep_view(&self) -> MailStoreView {
        MailStoreView {
            credentials: self.credentials.deep_view(),
            contacts: self.contacts.deep_view(),
            conversations: self.conversations.deep_view(),
            messages: self.messages.deep_view(),
            attachments: self.attachments.deep_view(),
        }
    }
}

/// Whether `i` is the first position of `s` whose element satisfies `p`.
pub open spec fn is_first<T>(s: Seq<T>, p: spec_fn(T) -> bool, i: int) -> bool {
    &&& 0 <= i < s.len()
    &&& p(s[i])
    &&& forall|j: int| 0 <= j < i ==> !p(#[trigger] s[j])
}

/// The first position of `s` whose element satisfies `p`, if there is one.
pub open spec fn first_index<T>(s: Seq<T>, p: spec_fn(T) -> bool) -> Option<int> {
    if exists|i: int| is_first(s, p, i) {
        Some(choose|i: int| is_first(s, p, i))
    } else {
        None
    }
}

/// Whether some element of `s` satisfies `p`.
pub open spec fn any<T>(s: Seq<T>, p: spec_fn(T) -> bool) -> bool {
    exists|i: int| 0 <= i < s.len() && p(#[trigger] s[i])
}

/// A first position, once found, is the one [`first_index`] names.
pub proof fn lemma_first_index_found<T>(s: Seq<T>, p: spec_fn(T) -> bool, i: int)
    requires
        is_first(s, p, i),
    ensures
        first_index(s, p) == Some(i),
        any(s, p),
{
    let k = choose|k: int| is_first(s, p, k);
    assert(is_first(s, p, k));
    if k < i {
        assert(!p(s[k]));
    }
    if i < k {
        assert(!p(s[i]));
    }
}

/// Where no element satisfies `p`, [`first_index`] names none.
pub proof fn lemma_first_index_none<T>(s: Seq<T>, p: spec_fn(T) -> bool)
    requires
        forall|j: int| 0 <= j < s.len() ==> !p(#[trigger] s[j]),
    ensures
        first_index(s, p) is None,
        !any(s, p),
{
}

/// Two sequences whose elements satisfy `p` at the same positions have the
/// same first such position.
pub proof fn lemma_first_index_agrees<T>(s: Seq<T>, t: Seq<T>, p: spec_fn(T) -> bool)
    requires
        s.len() == t.len(),
        forall|i: int| 0 <= i < s.len() ==> p(#[trigger] s[i]) == p(t[i]),
    ensures
        first_index(s, p) == first_index(t, p),
{
    lemma_first_index_sound(s, p);
    match first_index(s, p) {
        Some(i) => {
            assert(p(s[i]));
            assert forall|j: int| 0 <= j < i implies !p(#[trigger] t[j]) by {
                assert(!p(s[j]));
            }
            lemma_first_index_found(t, p, i);
        },
        None => {
            assert forall|j: int| 0 <= j < t.len() implies !p(#[trigger] t[j]) by {
                assert(!p(s[j]));
            }
            lemma_first_index_none(t, p);
        },
    }
}

/// What [`first_index`] names is a first position, and it names none only
/// where no element satisfies `p`.
pub proof fn lemma_first_index_sound<T>(s: Seq<T>, p: spec_fn(T) -> bool)
    ensures
        first_index(s, p) matches Some(i) ==> is_first(s, p, i),
        first_index(s, p) is None ==> forall|j: int| 0 <= j < s.len() ==> !p(#[trigger] s[j]),
        first_index(s, p) is Some <==> any(s, p),
{
    if first_index(s, p) is None {
        assert forall|j: int| 0 <= j < s.len() implies !p(#[trigger] s[j]) by {
            if p(s[j]) {
                lemma_some_first(s, p, j);
            }
        }
    } else {
        let i = first_index(s, p)->0;
        assert(is_first(s, p, i));
        assert(p(s[i]));
    }
}

proof fn lemma_some_first<T>(s: Seq<T>, p: spec_fn(T) -> bool, j: int)
    requires
        0 <= j < s.len(),
        p(s[j]),
    ensures
        exists|i: int| is_first(s, p, i),
    decreases j,
{
    if forall|k: int| 0 <= k < j ==> !p(#[trigger] s[k]) {
        assert(is_first(s, p, j));
    } else {
        let k = choose|k: int| 0 <= k < j && p(#[trigger] s[k]);
        lemma_some_first(s, p, k);
    }
}

/// Conversations with the identifier `id`.
pub open spec fn conversation_has_id(id: u128) -> spec_fn(conversation::ModelView) -> bool {
    |c: conversation::ModelView| c.id == id
}

/// Conversations of `user` for the thread `thread`.
pub open spec fn conversation_in_thread(user: u128, thread: Seq<char>) -> spec_fn(
    conversation::ModelView,
) -> bool {
    |c: conversation::ModelView| c.user_id == user && c.thread_id == Some(thread)
}

/// Messages with the identifier `id`.
pub open spec fn message_has_id(id: u128) -> spec_fn(message::ModelView) -> bool {
    |m: message::ModelView| m.id == id
}

/// Messages with the protocol message id `header`.
pub open spec fn message_has_header(header: Seq<char>) -> spec_fn(message::ModelView) -> bool {
    |m: message::ModelView| m.message_id_header == Some(header)
}

/// Attachments with the identifier `id`.
pub open spec fn attachment_has_id(id: u128) -> spec_fn(email_attachment::ModelView) -> bool {
    |a: email_attachment::ModelView| a.id == id
}

/// Mail accounts of `user`.
pub open spec fn credential_of_user(user: u128) -> spec_fn(email_credential::ModelView) -> bool {
    |c: email_credential::ModelView| c.user_id == user
}

/// Contacts with exactly the address `email`.
pub open spec fn contact_has_email(email: Seq<char>) -> spec_fn(contact::ModelView) -> bool {
    |c: contact::ModelView| c.email == Some(email)
}

/// Whether the identifiers are all different and none names a stored
/// attachment.
pub open spec fn attachment_ids_fresh(
    existing: Seq<email_attachment::ModelView>,
    ids: Seq<u128>,
) -> bool {
    &&& forall|i: int| 0 <= i < ids.len() ==> !any(existing, attachment_has_id(#[trigger] ids[i]))
    &&& forall|i: int, j: int| 0 <= i < j < ids.len() ==> #[trigger] ids[i] != #[trigger] ids[j]
}

impl MailStoreView {
    /// No two conversations share an identifier.
    pub open spec fn conversation_ids_distinct(self) -> bool {
        forall|i: int, j: int|
            #![trigger self.conversations[i], self.conversations[j]]
            0 <= i < j < self.conversations.len() ==> self.conversations[i].id
                != self.conversations[j].id
    }

    /// No two messages share an identifier.
    pub open spec fn message_ids_distinct(self) -> bool {
        forall|i: int, j: int|
            #![trigger self.messages[i], self.messages[j]]
            0 <= i < j < self.messages.len() ==> self.messages[i].id != self.messages[j].id
    }

    /// No two attachments share an identifier.
    pub open spec fn attachment_ids_distinct(self) -> bool {
        forall|i: int, j: int|
            #![trigger self.attachments[i], self.attachments[j]]
            0 <= i < j < self.attachments.len() ==> self.attachments[i].id
                != self.attachments[j].id
    }

    /// A thread of a user has at most one conversation.
    pub open spec fn threads_distinct(self) -> bool {
        forall|i: int, j: int|
            #![trigger self.conversations[i], self.conversations[j]]
            0 <= i < j < self.conversations.len() && self.conversations[i].thread_id is Some
                && self.conversations[i].user_id == self.conversations[j].user_id
                ==> self.conversations[i].thread_id != self.conversations[j].thread_id
    }

    /// A protocol message id names at most one message.
    pub open spec fn message_headers_distinct(self) -> bool {
        forall|i: int, j: int|
            #![trigger self.messages[i], self.messages[j]]
            0 <= i < j < self.messages.len() && self.messages[i].message_id_header is Some
                ==> self.messages[i].message_id_header != self.messages[j].message_id_header
    }

    /// No counter of a conversation is negative.
    pub open spec fn counters_natural(self) -> bool {
        forall|i: int|
            0 <= i < self.conversations.len() ==> (#[trigger] self.conversations[i]).message_count
                >= 0 && self.conversations[i].unread_count >= 0
    }

    /// A user has at most one mail account.
    pub open spec fn one_account_per_user(self) -> bool {
        forall|i: int, j: int|
            #![trigger self.credentials[i], self.credentials[j]]
            0 <= i < j < self.credentials.len() ==> self.credentials[i].user_id
                != self.credentials[j].user_id
    }

    /// The invariant of the store.
    pub open spec fn wf(self) -> bool {
        &&& self.conversation_ids_distinct()
        &&& self.message_ids_distinct()
        &&& self.attachment_ids_distinct()
        &&& self.threads_distinct()
        &&& self.message_headers_distinct()
        &&& self.counters_natural()
        &&& self.one_account_per_user()
    }

    /// How many messages carry the protocol message id `header`.
    pub open spec fn count_with_header(self, header: Seq<char>) -> nat {
        count_headers(self.messages, header)
    }
}

/// How many of `messages` carry the protocol message id `header`.
pub open spec fn count_headers(messages: Seq<message::ModelView>, header: Seq<char>) -> nat
    decreases messages.len(),
{
    if messages.len() == 0 {
        0
    } else {
        count_headers(messages.drop_last(), header) + if messages.last().message_id_header
            == Some(header) {
            1nat
        } else {
            0nat
        }
    }
}

proof fn lemma_count_zero(messages: Seq<message::ModelView>, header: Seq<char>)
    requires
        forall|i: int|
            0 <= i < messages.len() ==> (#[trigger] messages[i]).message_id_header != Some(header),
    ensures
        count_headers(messages, header) == 0,
    decreases messages.len(),
{
    if messages.len() > 0 {
        assert(messages.last() == messages[messages.len() - 1]);
        assert forall|i: int| 0 <= i < messages.drop_last().len() implies (
        #[trigger] messages.drop_last()[i]).message_id_header != Some(header) by {
            assert(messages.drop_last()[i] == messages[i]);
        }
        lemma_count_zero(messages.drop_last(), header);
    }
}

proof fn lemma_count_at_most_one(messages: Seq<message::ModelView>, header: Seq<char>)
    requires
        forall|i: int, j: int|
            #![trigger messages[i], messages[j]]
            0 <= i < j < messages.len() && messages[i].message_id_header is Some
                ==> messages[i].message_id_header != messages[j].message_id_header,
    ensures
        count_headers(messages, header) <= 1,
    decreases messages.len(),
{
    if messages.len() > 0 {
        let rest = messages.drop_last();
        assert forall|i: int, j: int|
            #![trigger rest[i], rest[j]]
            0 <= i < j < rest.len() && rest[i].message_id_header is Some implies rest[i].message_id_header
            != rest[j].message_id_header by {
            assert(rest[i] == messages[i]);
            assert(rest[j] == messages[j]);
        }
        if messages.last().message_id_header == Some(header) {
            assert forall|i: int| 0 <= i < rest.len() implies (#[trigger] rest[i]).message_id_header
                != Some(header) by {
                assert(rest[i] == messages[i]);
                assert(messages.last() == messages[messages.len() - 1]);
            }
            lemma_count_zero(rest, header);
        } else {
            lemma_count_at_most_one(rest, header);
        }
    }
}

/// However the store came to its state, a protocol message id names at most
/// one of its messages.
pub proof fn lemma_one_record_per_message_id(store: MailStoreView, header: Seq<char>)
    requires
        store.wf(),
    ensures
        store.count_with_header(header) <= 1,
{
    lemma_count_at_most_one(store.messages, header);
}

impl MailStore {
    /// The invariant of the store, on its value.
    pub open spec fn wf(&self) -> bool {
        self.deep_view().wf()
    }

    /// A store without records.
    pub fn new() -> (r: MailStore)
        ensures
            r.wf(),
            r.deep_view().credentials.len() == 0,
            r.deep_view().contacts.len() == 0,
            r.deep_view().conversations.len() == 0,
            r.deep_view().messages.len() == 0,
            r.deep_view().attachments.len() == 0,
    {
        MailStore {
            credentials: Vec::new(),
            contacts: Vec::new(),
            conversations: Vec::new(),
            messages: Vec::new(),
            attachments: Vec::new(),
        }
    }

    /// The position of the conversation with the identifier `id`.
    pub fn find_conversation(&self, id: u128) -> (r: Option<usize>)
        ensures
            match r {
                Some(i) => first_index(self.deep_view().conversations, conversation_has_id(id))
                    == Some(i as int) && i < self.conversations.len(),
                None => first_index(self.deep_view().conversations, conversation_has_id(id))
                    is None,
            },
    {
        let ghost s = self.deep_view().conversations;
        let ghost p = conversation_has_id(id);
        let mut i: usize = 0;
        while i < self.conversations.len()
            invariant
                i <= self.conversations.len(),
                s == self.deep_view().conversations,
                p == conversation_has_id(id),
                forall|j: int| 0 <= j < i ==> !p(#[trigger] s[j]),
            decreases self.conversations.len() - i,
        {
            if self.conversations[i].id == id {
                proof {
                    lemma_first_index_found(s, p, i as int);
                }
                return Some(i);
            }
            i += 1;
        }
        proof {
            lemma_first_index_none(s, p);
        }
        None
    }

    /// The position of the conversation of `user` for the thread `thread`.
    pub fn find_thread(&self, user: u128, thread: &str) -> (r: Option<usize>)
        ensures
            match r {
                Some(i) => first_index(
                    self.deep_view().conversations,
                    conversation_in_thread(user, thread@),
                ) == Some(i as int) && i < self.conversations.len(),
                None => first_index(
                    self.deep_view().conversations,
                    conversation_in_thread(user, thread@),
                ) is None,
            },
    {
        let ghost s = self.deep_view().conversations;
        let ghost p = conversation_in_thread(user, thread@);
        let mut i: usize = 0;
        while i < self.conversations.len()
            invariant
                i <= self.conversations.len(),
                s == self.deep_view().conversations,
                p == conversation_in_thread(user, thread@),
                forall|j: int| 0 <= j < i ==> !p(#[trigger] s[j]),
            decreases self.conversations.len() - i,
        {
            let hit = match &self.conversations[i].thread_id {
                Some(t) => self.conversations[i].user_id == user && str_eq(t.as_str(), thread),
                None => false,
            };
            if hit {
                proof {
                    lemma_first_index_found(s, p, i as int);
                }
                return Some(i);
            }
            i += 1;
        }
        proof {
            lemma_first_index_none(s, p);
        }
        None
    }

    /// Whether a message with the identifier `id` is stored.
    pub fn has_message_id(&self, id: u128) -> (r: bool)
        ensures
            r == any(self.deep_view().messages, message_has_id(id)),
    {
        let ghost s = self.deep_view().messages;
        let ghost p = message_has_id(id);
        let mut i: usize = 0;
        while i < self.messages.len()
            invariant
                i <= self.messages.len(),
                s == self.deep_view().messages,
                p == message_has_id(id),
                forall|j: int| 0 <= j < i ==> !p(#[trigger] s[j]),
            decreases self.messages.len() - i,
        {
            if self.messages[i].id == id {
                assert(p(s[i as int]));
                return true;
            }
            i += 1;
        }
        false
    }

    /// Whether a message with the protocol message id `header` is stored.
    pub fn has_message_header(&self, header: &str) -> (r: bool)
        ensures
            r == any(self.deep_view().messages, message_has_header(header@)),
    {
        let ghost s = self.deep_view().messages;
        let ghost p = message_has_header(header@);
        let mut i: usize = 0;
        while i < self.messages.len()
            invariant
                i <= self.messages.len(),
                s == self.deep_view().messages,
                p == message_has_header(header@),
                forall|j: int| 0 <= j < i ==> !p(#[trigger] s[j]),
            decreases self.messages.len() - i,
        {
            let hit = match &self.messages[i].message_id_header {
                Some(h) => str_eq(h.as_str(), header),
                None => false,
            };
            if hit {
                assert(p(s[i as int]));
                return true;
            }
            i += 1;
        }
        false
    }

    /// Whether an attachment with the identifier `id` is stored.
    pub fn has_attachment_id(&self, id: u128) -> (r: bool)
        ensures
            r == any(self.deep_view().attachments, attachment_has_id(id)),
    {
        let ghost s = self.deep_view().attachments;
        let ghost p = attachment_has_id(id);
        let mut i: usize = 0;
        while i < self.attachments.len()
            invariant
                i <= self.attachments.len(),
                s == self.deep_view().attachments,
                p == attachment_has_id(id),
                forall|j: int| 0 <= j < i ==> !p(#[trigger] s[j]),
            decreases self.attachments.len() - i,
        {
            if self.attachments[i].id == id {
                assert(p(s[i as int]));
                return true;
            }
            i += 1;
        }
        false
    }

    /// The position of the mail account of `user`.
    pub fn find_credential(&self, user: u128) -> (r: Option<usize>)
        ensures
            match r {
                Some(i) => first_index(self.deep_view().credentials, credential_of_user(user))
                    == Some(i as int) && i < self.credentials.len(),
                None => first_index(self.deep_view().credentials, credential_of_user(user))
                    is None,
            },
    {
        let ghost s = self.deep_view().credentials;
        let ghost p = credential_of_user(user);
        let mut i: usize = 0;
        while i < self.credentials.len()
            invariant
                i <= self.credentials.len(),
                s == self.deep_view().credentials,
                p == credential_of_user(user),
                forall|j: int| 0 <= j < i ==> !p(#[trigger] s[j]),
            decreases self.credentials.len() - i,
        {
            if self.credentials[i].user_id == user {
                proof {
                    lemma_first_index_found(s, p, i as int);
                }
                return Some(i);
            }
            i += 1;
        }
        proof {
            lemma_first_index_none(s, p);
        }
        None
    }

    /// The position of the first contact with exactly the address `email`.
    pub fn find_contact_by_email(&self, email: &str) -> (r: Option<usize>)
        ensures
            match r {
                Some(i) => first_index(self.deep_view().contacts, contact_has_email(email@))
                    == Some(i as int) && i < self.contacts.len(),
                None => first_index(self.deep_view().contacts, contact_has_email(email@))
                    is None,
            },
    {
        let ghost s = self.deep_view().contacts;
        let ghost p = contact_has_email(email@);
        let mut i: usize = 0;
        while i < self.contacts.len()
            invariant
                i <= self.contacts.len(),
                s == self.deep_view().contacts,
                p == contact_has_email(email@),
                forall|j: int| 0 <= j < i ==> !p(#[trigger] s[j]),
            decreases self.contacts.len() - i,
        {
            let hit = match &self.contacts[i].email {
                Some(e) => str_eq(e.as_str(), email),
                None => false,
            };
            if hit {
                proof {
                    lemma_first_index_found(s, p, i as int);
                }
                return Some(i);
            }
            i += 1;
        }
        proof {
            lemma_first_index_none(s, p);
        }
        None
    }

    /// Whether the first `count` of `ids` are all different and none names a
    /// stored attachment.
    pub fn attachment_ids_are_fresh(&self, ids: &Vec<u128>, count: usize) -> (r: bool)
        requires
            count <= ids.len(),
        ensures
            r == attachment_ids_fresh(self.deep_view().attachments, ids@.take(count as int)),
    {
        let ghost existing = self.deep_view().attachments;
        let ghost t = ids@.take(count as int);
        let mut i: usize = 0;
        while i < count
            invariant
                i <= count <= ids.len(),
                existing == self.deep_view().attachments,
                t == ids@.take(count as int),
                forall|a: int| 0 <= a < i ==> !any(existing, attachment_has_id(#[trigger] t[a])),
                forall|a: int, b: int| 0 <= a < b < i ==> #[trigger] t[a] != #[trigger] t[b],
            decreases count - i,
        {
            assert(t[i as int] == ids@[i as int]);
            if self.has_attachment_id(ids[i]) {
                return false;
            }
            let mut j: usize = 0;
            while j < i
                invariant
                    j <= i < count <= ids.len(),
                    t == ids@.take(count as int),
                    forall|a: int| 0 <= a < j ==> #[trigger] t[a] != t[i as int],
                decreases i - j,
            {
                assert(t[j as int] == ids@[j as int]);
                assert(t[i as int] == ids@[i as int]);
                if ids[j] == ids[i] {
                    return false;
                }
                j += 1;
            }
            i += 1;
        }
        true
    }

    fn conversations_are_well_formed(&self) -> (r: bool)
        ensures
            r == (self.deep_view().conversation_ids_distinct() && self.deep_view().threads_distinct()
                && self.deep_view().counters_natural()),
    {
        let ghost s = self.deep_view().conversations;
        let mut j: usize = 0;
        while j < self.conversations.len()
            invariant
                j <= self.conversations.len(),
                s == self.deep_view().conversations,
                forall|a: int, b: int|
                    #![trigger s[a], s[b]]
                    0 <= a < b < j ==> s[a].id != s[b].id && (s[a].thread_id is Some
                        && s[a].user_id == s[b].user_id ==> s[a].thread_id != s[b].thread_id),
                forall|a: int|
                    0 <= a < j ==> (#[trigger] s[a]).message_count >= 0 && s[a].unread_count >= 0,
            decreases self.conversations.len() - j,
        {
            if self.conversations[j].message_count < 0 || self.conversations[j].unread_count < 0 {
                assert(s[j as int].message_count < 0 || s[j as int].unread_count < 0);
                return false;
            }
            let mut i: usize = 0;
            while i < j
                invariant
                    i <= j < self.conversations.len(),
                    s == self.deep_view().conversations,
                    forall|a: int|
                        0 <= a < i ==> (#[trigger] s[a]).id != s[j as int].id && (s[a].thread_id
                            is Some && s[a].user_id == s[j as int].user_id ==> s[a].thread_id
                            != s[j as int].thread_id),
                decreases j - i,
            {
                let same_thread = match &self.conversations[i].thread_id {
                    Some(thread) => self.conversations[i].user_id == self.conversations[j].user_id
                        && match &self.conversations[j].thread_id {
                        Some(other) => str_eq(thread.as_str(), other.as_str()),
                        None => false,
                    },
                    None => false,
                };
                if self.conversations[i].id == self.conversations[j].id || same_thread {
                    assert(s[i as int].id == s[j as int].id || (s[i as int].thread_id is Some
                        && s[i as int].user_id == s[j as int].user_id && s[i as int].thread_id
                        == s[j as int].thread_id));
                    return false;
                }
                i += 1;
            }
            j += 1;
        }
        true
    }

    fn messages_are_well_formed(&self) -> (r: bool)
        ensures
            r == (self.deep_view().message_ids_distinct()
                && self.deep_view().message_headers_distinct()),
    {
        let ghost s = self.deep_view().messages;
        let mut j: usize = 0;
        while j < self.messages.len()
            invariant
                j <= self.messages.len(),
                s == self.deep_view().messages,
                forall|a: int, b: int|
                    #![trigger s[a], s[b]]
                    0 <= a < b < j ==> s[a].id != s[b].id && (s[a].message_id_header is Some
                        ==> s[a].message_id_header != s[b].message_id_header),
            decreases self.messages.len() - j,
        {
            let mut i: usize = 0;
            while i < j
                invariant
                    i <= j < self.messages.len(),
                    s == self.deep_view().messages,
                    forall|a: int|
                        0 <= a < i ==> (#[trigger] s[a]).id != s[j as int].id && (
                        s[a].message_id_header is Some ==> s[a].message_id_header
                            != s[j as int].message_id_header),
                decreases j - i,
            {
                let same_header = match &self.messages[i].message_id_header {
                    Some(header) => match &self.messages[j].message_id_header {
                        Some(other) => str_eq(header.as_str(), other.as_str()),
                        None => false,
                    },
                    None => false,
                };
                if self.messages[i].id == self.messages[j].id || same_header {
                    assert(s[i as int].id == s[j as int].id || (s[i as int].message_id_header
                        is Some && s[i as int].message_id_header
                        == s[j as int].message_id_header));
                    return false;
                }
                i += 1;
            }
            j += 1;
        }
        true
    }

    fn attachments_are_well_formed(&self) -> (r: bool)
        ensures
            r == self.deep_view().attachment_ids_distinct(),
    {
        let ghost s = self.deep_view().attachments;
        let mut j: usize = 0;
        while j < self.attachments.len()
            invariant
                j <= self.attachments.len(),
                s == self.deep_view().attachments,
                forall|a: int, b: int| #![trigger s[a], s[b]] 0 <= a < b < j ==> s[a].id != s[b].id,
            decreases self.attachments.len() - j,
        {
            let mut i: usize = 0;
            while i < j
                invariant
                    i <= j < self.attachments.len(),
                    s == self.deep_view().attachments,
                    forall|a: int| 0 <= a < i ==> (#[trigger] s[a]).id != s[j as int].id,
                decreases j - i,
            {
                if self.attachments[i].id == self.attachments[j].id {
                    assert(s[i as int].id == s[j as int].id);
                    return false;
                }
                i += 1;
            }
            j += 1;
        }
        true
    }

    fn accounts_are_well_formed(&self) -> (r: bool)
        ensures
            r == self.deep_view().one_account_per_user(),
    {
        let ghost s = self.deep_view().credentials;
        let mut j: usize = 0;
        while j < self.credentials.len()
            invariant
                j <= self.credentials.len(),
                s == self.deep_view().credentials,
                forall|a: int, b: int|
                    #![trigger s[a], s[b]]
                    0 <= a < b < j ==> s[a].user_id != s[b].user_id,
            decreases self.credentials.len() - j,
        {
            let mut i: usize = 0;
            while i < j
                invariant
                    i <= j < self.credentials.len(),
                    s == self.deep_view().credentials,
                    forall|a: int| 0 <= a < i ==> (#[trigger] s[a]).user_id != s[j as int].user_id,
                decreases j - i,
            {
                if self.credentials[i].user_id == self.credentials[j].user_id {
                    assert(s[i as int].user_id == s[j as int].user_id);
                    return false;
                }
                i += 1;
            }
            j += 1;
        }
        true
    }

    /// Whether the store keeps its invariant: whether identifiers are keys, a
    /// user has one account, a thread of a user has one conversation, a
    /// protocol message id names one message, and no counter is negative.
    pub fn is_well_formed(&self) -> (r: bool)
        ensures
            r == self.wf(),
    {
        self.conversations_are_well_formed() && self.messages_are_well_formed()
            && self.attachments_are_well_formed() && self.accounts_are_well_formed()
    }
}

} // verus!
