//! The mail account of a user.

use vstd::prelude::*;

verus! {

/// How the last synchronisation of an account ended.
#[derive(Debug, Clone, Copy, PartialEq, Eq, Structural)]
pub enum SyncStatus {
    Connected,
    Error,
    NeverSynced,
}

impl SyncStatus {
    /// The name under which the status is stored.
    pub fn as_str(&self) -> (r: &'static str)
        ensures
            r@ == self.name_spec(),
    {
        match self {
            SyncStatus::Connected => {
                proof {
                    reveal_strlit("connected");
                    assert("connected"@ =~= SyncStatus::Connected.name_spec());
                }
                "connected"
            },
            SyncStatus::Error => {
                proof {
                    reveal_strlit("error");
                    assert("error"@ =~= SyncStatus::Error.name_spec());
                }
                "error"
            },
            SyncStatus::NeverSynced => {
                proof {
                    reveal_strlit("never-synced");
                    assert("never-synced"@ =~= SyncStatus::NeverSynced.name_spec());
                }
                "never-synced"
            },
        }
    }

    /// The stored name of each status.
    pub open spec fn name_spec(&self) -> Seq<char> {
        match self {
            SyncStatus::Connected => seq!['c', 'o', 'n', 'n', 'e', 'c', 't', 'e', 'd'],
            SyncStatus::Error => seq!['e', 'r', 'r', 'o', 'r'],
            SyncStatus::NeverSynced => seq![
                'n',
                'e',
                'v',
                'e',
                'r',
                '-',
                's',
                'y',
                'n',
                'c',
                'e',
                'd',
            ],
        }
    }
}

/// The mail account of one user: where to fetch and send, the sealed secret,
/// and the state of synchronisation.
#[derive(Debug)]
pub struct Model {
    pub id: u128,
    pub user_id: u128,
    pub email: String,
    pub imap_host: String,
    pub imap_port: i32,
    pub smtp_host: String,
    pub smtp_port: i32,
    /// The sealed secret, base64.
    pub encrypted_password: String,
    /// The nonce the secret was sealed under, base64.
    pub nonce: String,
    pub provider_settings_id: Option<u128>,
    pub sync_status: SyncStatus,
    pub sync_enabled: bool,
    pub last_synced_at: Option<i64>,
    pub last_sync_attempt_at: Option<i64>,
    pub last_sync_error: Option<String>,
    /// The highest message sequence number processed so far.
    pub sync_cursor: Option<u32>,
    pub created_at: i64,
    pub updated_at: i64,
}

/// The mathematical value of a mail account.
pub struct ModelView {
    pub id: u128,
    pub user_id: u128,
    pub email: Seq<char>,
    pub imap_host: Seq<char>,
    pub imap_port: i32,
    pub smtp_host: Seq<char>,
    pub smtp_port: i32,
    pub encrypted_password: Seq<char>,
    pub nonce: Seq<char>,
    pub provider_settings_id: Option<u128>,
    pub sync_status: SyncStatus,
    pub sync_enabled: bool,
    pub last_synced_at: Option<i64>,
    pub last_sync_attempt_at: Option<i64>,
    pub last_sync_error: Option<Seq<char>>,
    pub sync_cursor: Option<u32>,
    pub created_at: i64,
    pub updated_at: i64,
}

impl DeepView for Model {
    type V = ModelView;

    open spec fn deep_view(&self) -> ModelView {
        ModelView {
            id: self.id,
            user_id: self.user_id,
            email: self.email@,
            imap_host: self.imap_host@,
            imap_port: self.imap_port,
            smtp_host: self.smtp_host@,
            smtp_port: self.smtp_port,
            encrypted_password: self.encrypted_password@,
            nonce: self.nonce@,
            provider_settings_id: self.provider_settings_id,
            sync_status: self.sync_status,
            sync_enabled: self.sync_enabled,
            last_synced_at: self.last_synced_at,
            last_sync_attempt_at: self.last_sync_attempt_at,
            last_sync_error: self.last_sync_error.deep_view(),
            sync_cursor: self.sync_cursor,
            created_at: self.created_at,
            updated_at: self.updated_at,
        }
    }
}

} // verus!
