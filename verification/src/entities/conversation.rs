//! The aggregate of one message thread of one user.

use vstd::prelude::*;

verus! {

/// One party of a conversation: an address, the header it stood in, and a
/// display name if the message gave one.
#[derive(Debug)]
pub struct Participant {
    pub email: String,
    pub role: String,
    pub name: Option<String>,
}

/// The mathematical value of a participant.
pub struct ParticipantView {
    pub email: Seq<char>,
    pub role: Seq<char>,
    pub name: Option<Seq<char>>,
}

impl DeepView for Participant {
    type V = ParticipantView;

    open spec fn deep_view(&self) -> ParticipantView {
        ParticipantView { email: self.email@, role: self.role@, name: self.name.deep_view() }
    }
}

/// One conversation. `(user_id, thread_id)` is unique in a store, and the
/// two counters are never negative.
#[derive(Debug)]
pub struct Model {
    pub id: u128,
    pub user_id: u128,
    pub subject: String,
    pub snippet: Option<String>,
    pub thread_id: Option<String>,
    pub startup_id: Option<u128>,
    pub latest_message_at: i64,
    pub has_attachments: bool,
    pub is_read: bool,
    pub is_archived: bool,
    pub message_count: i32,
    pub unread_count: i32,
    pub participants: Vec<Participant>,
    pub created_at: i64,
    pub updated_at: i64,
}

/// The mathematical value of a conversation.
pub struct ModelView {
    pub id: u128,
    pub user_id: u128,
    pub subject: Seq<char>,
    pub snippet: Option<Seq<char>>,
    pub thread_id: Option<Seq<char>>,
    pub startup_id: Option<u128>,
    pub latest_message_at: i64,
    pub has_attachments: bool,
    pub is_read: bool,
    pub is_archived: bool,
    pub message_count: i32,
    pub unread_count: i32,
    pub participants: Seq<ParticipantView>,
    pub created_at: i64,
    pub updated_at: i64,
}

impl DeepView for Model {
    type V = ModelView;

    open spec fn deep_view(&self) -> ModelView {
        ModelView {
            id: self.id,
            user_id: self.user_id,
            subject: self.subject@,
            snippet: self.snippet.deep_view(),
            thread_id: self.thread_id.deep_view(),
            startup_id: self.startup_id,
            latest_message_at: self.latest_message_at,
            has_attachments: self.has_attachments,
            is_read: self.is_read,
            is_archived: self.is_archived,
            message_count: self.message_count,
            unread_count: self.unread_count,
            participants: self.participants.deep_view(),
            created_at: self.created_at,
            updated_at: self.updated_at,
        }
    }
}

impl Participant {
    /// A copy of the participant.
    pub fn duplicate(&self) -> (r: Participant)
        ensures
            r.deep_view() == self.deep_view(),
    {
        Participant {
            email: self.email.clone(),
            role: self.role.clone(),
            name: self.name.clone(),
        }
    }
}

impl Model {
    /// A copy of the conversation.
    pub fn duplicate(&self) -> (r: Model)
        ensures
            r.deep_view() == self.deep_view(),
    {
        let mut participants: Vec<Participant> = Vec::new();
        let mut i: usize = 0;
        while i < self.participants.len()
            invariant
                i <= self.participants.len(),
                participants.deep_view() == self.participants.deep_view().take(i as int),
            decreases self.participants.len() - i,
        {
            let ghost here = participants.deep_view();
            participants.push(self.participants[i].duplicate());
            assert(participants.deep_view() =~= here.push(
                self.participants.deep_view()[i as int],
            ));
            assert(self.participants.deep_view().take(i + 1) =~= self.participants.deep_view().take(
                i as int,
            ).push(self.participants.deep_view()[i as int]));
            i += 1;
        }
        assert(self.participants.deep_view().take(self.participants.len() as int)
            == self.participants.deep_view());
        Model {
            id: self.id,
            user_id: self.user_id,
            subject: self.subject.clone(),
            snippet: self.snippet.clone(),
            thread_id: self.thread_id.clone(),
            startup_id: self.startup_id,
            latest_message_at: self.latest_message_at,
            has_attachments: self.has_attachments,
            is_read: self.is_read,
            is_archived: self.is_archived,
            message_count: self.message_count,
            unread_count: self.unread_count,
            participants,
            created_at: self.created_at,
            updated_at: self.updated_at,
        }
    }
}

} // verus!
