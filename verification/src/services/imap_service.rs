//! The inbox synchronisation engine: what is fetched from a mailbox becomes
//! messages, conversations and attachments of the store, once each.

use crate::entities::contact;
use crate::entities::email_credential::{self, SyncStatus};
use crate::services::encryption_service::{decrypt_spec, EncryptionService};
use crate::services::error::{MailError, MailErrorView};
use crate::services::persistence::{
    counts_as_unread, fresh_ids, lemma_persist_counts, lemma_persist_keeps_invariant,
    persist_drawn_spec, persist_spec, thread_counts, thread_is_settled, NewIdsView,
};
use crate::services::preparation::{
    message_known, parse_mail, parsed_mail, prepared_spec, PreparedMessageView,
};
use crate::services::store::{
    any, conversation_in_thread, credential_of_user, first_index, lemma_first_index_agrees,
    lemma_first_index_sound, message_has_header, MailStore, MailStoreView, StoreError,
};
use crate::text::{decimal_spec, join, to_decimal};
use vstd::prelude::*;

verus! {

/// What one synchronisation processed.
#[derive(Debug, Clone, Copy, PartialEq, Eq, Structural)]
pub struct SyncResult {
    /// How many messages were stored.
    pub processed_count: usize,
    /// The highest sequence number that was processed, if any message
    /// beyond the cursor of the account was.
    pub last_uid: Option<u32>,
}

impl Default for SyncResult {
    fn default() -> (r: SyncResult)
        ensures
            r.processed_count == 0,
            r.last_uid is None,
    {
        SyncResult { processed_count: 0, last_uid: None }
    }
}

/// The inbox synchronisation engine over its store and its vault.
pub struct ImapService {
    pub db: MailStore,
    pub encryption_service: EncryptionService,
}

impl ImapService {
    /// The engine over a store and a vault.
    pub fn new(db: MailStore, encryption_service: EncryptionService) -> (r: ImapService)
        ensures
            r.db == db,
            r.encryption_service == encryption_service,
    {
        ImapService { db, encryption_service }
    }
}

/// One message as the mailbox handed it over.
pub struct FetchedMessage {
    /// The sequence number of the message, where the mailbox gave one.
    pub uid: Option<u32>,
    /// The bytes of the message, where the mailbox gave them.
    pub body: Option<Vec<u8>>,
    /// Whether the mailbox flags the message as seen.
    pub seen: bool,
}

/// One item of a fetch: a message, or the words of the failure that ended
/// the fetch.
pub enum FetchItem {
    Message(FetchedMessage),
    Failure(String),
}

/// How one session with the mailbox of an account ended.
pub enum SessionOutcome {
    /// The session failed before anything was fetched.
    Failed(MailError),
    /// The fetch ran; the log-out may have failed afterwards.
    Fetched { items: Vec<FetchItem>, logout_error: Option<String> },
}

/// What a run over fetched items has counted so far.
pub struct SyncTally {
    pub processed: nat,
    pub last_uid: Option<u32>,
}

/// The tally that a [`SyncResult`] reports.
pub open spec fn tally_of(result: SyncResult) -> SyncTally {
    SyncTally { processed: result.processed_count as nat, last_uid: result.last_uid }
}

/// The higher of a sequence number and the highest seen before.
pub open spec fn raise_uid(seen: Option<u32>, uid: u32) -> u32 {
    match seen {
        Some(other) => if other > uid {
            other
        } else {
            uid
        },
        None => uid,
    }
}

/// Whether a sequence number lies beyond a cursor: above it, or anywhere
/// where there is no cursor yet.
pub open spec fn is_beyond(cursor: Option<u32>, uid: u32) -> bool {
    match cursor {
        Some(c) => uid > c,
        None => true,
    }
}

/// The highest sequence number among the items that lie beyond the cursor,
/// if there is any such item.
pub open spec fn highest_new_uid(items: Seq<FetchItem>, cursor: Option<u32>) -> Option<u32>
    decreases items.len(),
{
    if items.len() == 0 {
        None
    } else {
        let rest = highest_new_uid(items.drop_last(), cursor);
        match items.last() {
            FetchItem::Message(m) => match m.uid {
                Some(uid) => if is_beyond(cursor, uid) {
                    Some(raise_uid(rest, uid))
                } else {
                    rest
                },
                None => rest,
            },
            FetchItem::Failure(_) => rest,
        }
    }
}

/// The cursor after a synchronisation that ended well: it only ever
/// advances, to the highest sequence number that was processed where that
/// lies beyond it.
pub open spec fn advance_cursor(cursor: Option<u32>, last_uid: Option<u32>) -> Option<u32> {
    match last_uid {
        Some(uid) => Some(raise_uid(cursor, uid)),
        None => cursor,
    }
}

/// What a message beyond the cursor does to the store and the tally, where
/// `uid` is its sequence number.
///
/// A message without bytes, or with bytes that do not parse, ends the run.
/// One that the store holds already is passed over, its sequence number
/// noted. Any other is stored under the identifiers `ids` and counted;
/// where none could be drawn, or the store refuses, the run ends.
pub open spec fn message_step(
    store: MailStoreView,
    tally: SyncTally,
    user_id: u128,
    account_email: Seq<char>,
    uid: u32,
    m: FetchedMessage,
    ids: Option<NewIdsView>,
    now: i64,
) -> Result<(MailStoreView, SyncTally), MailErrorView> {
    match m.body {
        None => Err(MailErrorView::Protocol("Missing message body"@)),
        Some(body) => match parsed_mail(body@) {
            Err(text) => Err(MailErrorView::Parse(text)),
            Ok(root) => {
                let last = Some(raise_uid(tally.last_uid, uid));
                if message_known(store, root) {
                    Ok((store, SyncTally { last_uid: last, ..tally }))
                } else {
                    match persist_drawn_spec(
                        store,
                        prepared_spec(
                            store.contacts,
                            user_id,
                            account_email,
                            root,
                            uid,
                            m.seen,
                            now,
                        ),
                        ids,
                        now,
                    ) {
                        Err(e) => Err(MailErrorView::Persistence(e)),
                        Ok(next) => Ok(
                            (next, SyncTally { processed: tally.processed + 1, last_uid: last }),
                        ),
                    }
                }
            },
        },
    }
}

/// What one fetched item does to the store and the tally of an account
/// whose cursor is `cursor`.
///
/// A failure item and a message without sequence number each end the run.
/// A message whose sequence number does not lie beyond the cursor was
/// processed before: it is passed over, and nothing changes. Any other
/// message does what [`message_step`] says.
pub open spec fn item_step(
    store: MailStoreView,
    tally: SyncTally,
    user_id: u128,
    account_email: Seq<char>,
    cursor: Option<u32>,
    item: FetchItem,
    ids: Option<NewIdsView>,
    now: i64,
) -> Result<(MailStoreView, SyncTally), MailErrorView> {
    match item {
        FetchItem::Failure(text) => Err(MailErrorView::Protocol(text@)),
        FetchItem::Message(m) => match m.uid {
            None => Err(MailErrorView::Protocol("Missing UID on message"@)),
            Some(uid) => if is_beyond(cursor, uid) {
                message_step(store, tally, user_id, account_email, uid, m, ids, now)
            } else {
                Ok((store, tally))
            },
        },
    }
}

/// What a run over fetched items does: the store it leaves, and the tally,
/// or the failure that ended the run. The store keeps what was stored
/// before the failure.
pub open spec fn run_items(
    store: MailStoreView,
    user_id: u128,
    account_email: Seq<char>,
    cursor: Option<u32>,
    items: Seq<FetchItem>,
    ids: Seq<Option<NewIdsView>>,
    now: i64,
) -> (MailStoreView, Result<SyncTally, MailErrorView>)
    decreases items.len(),
{
    if items.len() == 0 {
        (store, Ok(SyncTally { processed: 0, last_uid: None }))
    } else {
        let (reached, outcome) = run_items(
            store,
            user_id,
            account_email,
            cursor,
            items.drop_last(),
            ids.drop_last(),
            now,
        );
        match outcome {
            Err(e) => (reached, Err(e)),
            Ok(tally) => match item_step(
                reached,
                tally,
                user_id,
                account_email,
                cursor,
                items.last(),
                ids.last(),
                now,
            ) {
                Err(e) => (reached, Err(e)),
                Ok((next, counted)) => (next, Ok(counted)),
            },
        }
    }
}

/// A run that has failed on its first `k` items has failed for good: the
/// items after them are never looked at.
pub proof fn lemma_run_failure_is_final(
    store: MailStoreView,
    user_id: u128,
    account_email: Seq<char>,
    cursor: Option<u32>,
    items: Seq<FetchItem>,
    ids: Seq<Option<NewIdsView>>,
    k: int,
    now: i64,
)
    requires
        0 <= k <= items.len(),
        ids.len() == items.len(),
        run_items(store, user_id, account_email, cursor, items.take(k), ids.take(k), now).1 is Err,
    ensures
        run_items(store, user_id, account_email, cursor, items, ids, now) == run_items(
            store,
            user_id,
            account_email,
            cursor,
            items.take(k),
            ids.take(k),
            now,
        ),
    decreases items.len() - k,
{
    if k == items.len() {
        assert(items.take(k) == items);
        assert(ids.take(k) == ids);
    } else {
        assert(items.drop_last().take(k) == items.take(k));
        assert(ids.drop_last().take(k) == ids.take(k));
        lemma_run_failure_is_final(
            store,
            user_id,
            account_email,
            cursor,
            items.drop_last(),
            ids.drop_last(),
            k,
            now,
        );
    }
}

/// A run keeps the invariant of the store, whether it ends well or not.
pub proof fn lemma_run_keeps_invariant(
    store: MailStoreView,
    user_id: u128,
    account_email: Seq<char>,
    cursor: Option<u32>,
    items: Seq<FetchItem>,
    ids: Seq<Option<NewIdsView>>,
    now: i64,
)
    requires
        store.wf(),
    ensures
        run_items(store, user_id, account_email, cursor, items, ids, now).0.wf(),
        run_items(store, user_id, account_email, cursor, items, ids, now).0.credentials
            == store.credentials,
        run_items(
            store,
            user_id,
            account_email,
            cursor,
            items,
            ids,
            now,
        ).0.contacts == store.contacts,
    decreases items.len(),
{
    if items.len() > 0 {
        lemma_run_keeps_invariant(
            store,
            user_id,
            account_email,
            cursor,
            items.drop_last(),
            ids.drop_last(),
            now,
        );
        let (reached, outcome) = run_items(
            store,
            user_id,
            account_email,
            cursor,
            items.drop_last(),
            ids.drop_last(),
            now,
        );
        if let Ok(tally) = outcome {
            if let FetchItem::Message(m) = items.last() {
                if m.uid is Some && is_beyond(cursor, m.uid->0) && m.body is Some {
                    if let Ok(root) = parsed_mail(m.body->0@) {
                        if !message_known(reached, root) {
                            let p = prepared_spec(
                                reached.contacts,
                                user_id,
                                account_email,
                                root,
                                m.uid->0,
                                m.seen,
                                now,
                            );
                            if let Some(drawn) = ids.last() {
                                if persist_spec(reached, p, drawn, now) is Ok {
                                    lemma_persist_keeps_invariant(reached, p, drawn, now);
                                }
                            }
                        }
                    }
                }
            }
        }
    }
}

/// A run that ends well has seen every item, and its tally holds the
/// highest sequence number among those beyond the cursor.
pub proof fn lemma_run_tally(
    store: MailStoreView,
    user_id: u128,
    account_email: Seq<char>,
    cursor: Option<u32>,
    items: Seq<FetchItem>,
    ids: Seq<Option<NewIdsView>>,
    now: i64,
)
    requires
        run_items(store, user_id, account_email, cursor, items, ids, now).1 is Ok,
    ensures
        run_items(
            store,
            user_id,
            account_email,
            cursor,
            items,
            ids,
            now,
        ).1->Ok_0.last_uid == highest_new_uid(
            items,
            cursor,
        ),
        run_items(store, user_id, account_email, cursor, items, ids, now).1->Ok_0.processed
            <= items.len(),
        run_items(store, user_id, account_email, cursor, items, ids, now).0.messages.len()
            == store.messages.len() + run_items(
            store,
            user_id,
            account_email,
            cursor,
            items,
            ids,
            now,
        ).1->Ok_0.processed,
    decreases items.len(),
{
    if items.len() > 0 {
        lemma_run_tally(
            store,
            user_id,
            account_email,
            cursor,
            items.drop_last(),
            ids.drop_last(),
            now,
        );
    }
}

/// The step that an item took, as [`item_step`] names it, for the result of
/// [`ImapService::process_item`] and the store it left.
pub open spec fn step_outcome(r: Result<SyncResult, MailError>, store: MailStoreView) -> Result<
    (MailStoreView, SyncTally),
    MailErrorView,
> {
    match r {
        Ok(counted) => Ok((store, tally_of(counted))),
        Err(e) => Err(e.deep_view()),
    }
}

/// The end of a run, as [`run_items`] names it, for the result of
/// [`ImapService::perform_sync`].
pub open spec fn run_outcome(r: Result<SyncResult, MailError>) -> Result<SyncTally, MailErrorView> {
    match r {
        Ok(result) => Ok(tally_of(result)),
        Err(e) => Err(e.deep_view()),
    }
}

/// The account after a synchronisation that failed: the failure and the
/// instant of the attempt are recorded; the cursor stays where it was.
pub open spec fn mark_failed(
    c: email_credential::ModelView,
    message: Seq<char>,
    now: i64,
) -> email_credential::ModelView {
    email_credential::ModelView {
        last_sync_attempt_at: Some(now),
        last_sync_error: Some(message),
        sync_status: SyncStatus::Error,
        ..c
    }
}

/// The account after a synchronisation that ended well: connected, without
/// error, and with the cursor advanced to the highest sequence number that
/// was processed, where that lies beyond it. The cursor never moves back.
pub open spec fn mark_synced(
    c: email_credential::ModelView,
    last_uid: Option<u32>,
    now: i64,
) -> email_credential::ModelView {
    email_credential::ModelView {
        last_synced_at: Some(now),
        last_sync_attempt_at: Some(now),
        last_sync_error: None,
        sync_status: SyncStatus::Connected,
        sync_cursor: advance_cursor(c.sync_cursor, last_uid),
        ..c
    }
}

/// The first sequence number to fetch after a cursor: the one after it,
/// and the first of all where there is no cursor.
pub open spec fn start_uid_spec(cursor: Option<u32>) -> u32 {
    match cursor {
        Some(c) => if c == u32::MAX {
            u32::MAX
        } else {
            (c + 1) as u32
        },
        None => 1,
    }
}

/// The range to fetch after a cursor: from the first new sequence number
/// on, without upper bound.
pub open spec fn fetch_range_spec(cursor: Option<u32>) -> Seq<char> {
    if start_uid_spec(cursor) <= 1 {
        "1:*"@
    } else {
        decimal_spec(start_uid_spec(cursor) as nat) + ":*"@
    }
}

/// The range of sequence numbers to fetch for an account whose cursor is
/// `cursor`: everything new.
pub fn fetch_range(cursor: Option<u32>) -> (r: String)
    ensures
        r@ == fetch_range_spec(cursor),
{
    let start: u32 = match cursor {
        Some(c) => if c == u32::MAX {
            u32::MAX
        } else {
            c + 1
        },
        None => 1,
    };
    if start <= 1 {
        "1:*".to_string()
    } else {
        let number = to_decimal(start);
        join(number.as_str(), ":*")
    }
}

/// What a session with the mailbox of an account needs: where to connect,
/// as whom, and what to fetch.
pub struct SyncPlan {
    pub user_id: u128,
    pub email: String,
    pub password: String,
    pub imap_host: String,
    pub imap_port: i32,
    pub fetch_range: String,
}

/// Whether `plan` is the plan for the account `c` with the secret `password`.
pub open spec fn plan_matches(
    plan: SyncPlan,
    c: email_credential::ModelView,
    password: Seq<char>,
) -> bool {
    &&& plan.user_id == c.user_id
    &&& plan.email@ == c.email
    &&& plan.password@ == password
    &&& plan.imap_host@ == c.imap_host
    &&& plan.imap_port == c.imap_port
    &&& plan.fetch_range@ == fetch_range_spec(c.sync_cursor)
}

/// Whether `r` is the plan for the session of `user_id`, or the reason why
/// there is none: the user has no account, or the vault does not open the
/// secret of the account.
pub open spec fn is_plan_for(
    r: Result<SyncPlan, MailError>,
    key: Seq<u8>,
    accounts: Seq<email_credential::ModelView>,
    user_id: u128,
) -> bool {
    match first_index(accounts, credential_of_user(user_id)) {
        None => r matches Err(e) && e.deep_view() == MailErrorView::MissingCredentials,
        Some(i) => {
            let c = accounts[i];
            match decrypt_spec(key, c.encrypted_password, c.nonce) {
                Err(cause) => r matches Err(e) && e.deep_view() == MailErrorView::Decryption(
                    cause,
                ),
                Ok(password) => r matches Ok(plan) && plan_matches(plan, c, password),
            }
        },
    }
}

impl ImapService {
    /// Plans the session for the account of `user_id`: opens its secret and
    /// names the range to fetch.
    pub fn plan_sync(&self, user_id: u128) -> (r: Result<SyncPlan, MailError>)
        ensures
            is_plan_for(
                r,
                self.encryption_service.key_bytes(),
                self.db.deep_view().credentials,
                user_id,
            ),
    {
        let at = match self.db.find_credential(user_id) {
            Some(at) => at,
            None => return Err(MailError::MissingCredentials),
        };
        let creds = &self.db.credentials[at];
        let password = match self.encryption_service.decrypt(
            creds.encrypted_password.as_str(),
            creds.nonce.as_str(),
        ) {
            Ok(password) => password,
            Err(cause) => return Err(MailError::Decryption(cause)),
        };
        Ok(
            SyncPlan {
                user_id: creds.user_id,
                email: creds.email.clone(),
                password,
                imap_host: creds.imap_host.clone(),
                imap_port: creds.imap_port,
                fetch_range: fetch_range(creds.sync_cursor),
            },
        )
    }

    /// Takes one fetched item of an account whose cursor is `cursor`: passes
    /// over a message that does not lie beyond the cursor, stores any other
    /// under freshly drawn identifiers unless the store holds it already, and
    /// notes its sequence number. Whatever identifiers were drawn, the store
    /// and the tally are what [`item_step`] names; where the item fails, the
    /// store stays as it was.
    pub fn process_item(
        &mut self,
        user_id: u128,
        account_email: &str,
        cursor: Option<u32>,
        item: &FetchItem,
        tally: SyncResult,
        now: i64,
    ) -> (r: Result<SyncResult, MailError>)
        requires
            tally.processed_count < usize::MAX,
        ensures
            exists|ids: Option<NewIdsView>|
                #[trigger] item_step(
                    old(self).db.deep_view(),
                    tally_of(tally),
                    user_id,
                    account_email@,
                    cursor,
                    *item,
                    ids,
                    now,
                ) == step_outcome(r, final(self).db.deep_view()),
            r is Err ==> final(self).db.deep_view() == old(self).db.deep_view(),
            final(self).encryption_service == old(self).encryption_service,
    {
        let ghost here = self.db.deep_view();
        let ghost email = account_email@;
        let ghost filler = None::<NewIdsView>;
        let m = match item {
            FetchItem::Failure(text) => {
                let e = MailError::Protocol(text.clone());
                assert(item_step(here, tally_of(tally), user_id, email, cursor, *item, filler, now)
                    == Err::<(MailStoreView, SyncTally), MailErrorView>(e.deep_view()));
                return Err(e);
            },
            FetchItem::Message(m) => m,
        };
        let uid = match m.uid {
            None => {
                let e = MailError::Protocol("Missing UID on message".to_string());
                assert(item_step(here, tally_of(tally), user_id, email, cursor, *item, filler, now)
                    == Err::<(MailStoreView, SyncTally), MailErrorView>(e.deep_view()));
                return Err(e);
            },
            Some(uid) => uid,
        };
        if let Some(c) = cursor {
            if uid <= c {
                assert(item_step(here, tally_of(tally), user_id, email, cursor, *item, filler, now)
                    == Ok::<(MailStoreView, SyncTally), MailErrorView>((here, tally_of(tally))));
                return Ok(tally);
            }
        }
        let body = match &m.body {
            None => {
                let e = MailError::Protocol("Missing message body".to_string());
                assert(item_step(here, tally_of(tally), user_id, email, cursor, *item, filler, now)
                    == Err::<(MailStoreView, SyncTally), MailErrorView>(e.deep_view()));
                return Err(e);
            },
            Some(body) => body,
        };
        let root = match parse_mail(body.as_slice()) {
            Err(text) => {
                let e = MailError::Parse(text);
                assert(item_step(here, tally_of(tally), user_id, email, cursor, *item, filler, now)
                    == Err::<(MailStoreView, SyncTally), MailErrorView>(e.deep_view()));
                return Err(e);
            },
            Ok(root) => root,
        };
        let last: u32 = match tally.last_uid {
            Some(other) => if other > uid {
                other
            } else {
                uid
            },
            None => uid,
        };
        if self.message_exists(&root) {
            let counted = SyncResult {
                processed_count: tally.processed_count,
                last_uid: Some(last),
            };
            assert(item_step(
                here,
                tally_of(tally),
                user_id,
                email,
                cursor,
                *item,
                filler,
                now,
            ) == Ok::<
                (MailStoreView, SyncTally),
                MailErrorView,
            >((here, tally_of(counted))));
            return Ok(counted);
        }
        let prepared = self.prepare_message(user_id, account_email, &root, uid, m.seen, now);
        let ids = match fresh_ids(prepared.attachments.len()) {
            Some(ids) => ids,
            None => {
                let e = MailError::Persistence(StoreError::IdentifiersUnavailable);
                assert(item_step(here, tally_of(tally), user_id, email, cursor, *item, filler, now)
                    == Err::<(MailStoreView, SyncTally), MailErrorView>(e.deep_view()));
                return Err(e);
            },
        };
        match self.persist_prepared(prepared, &ids, now) {
            Ok(()) => {
                let counted = SyncResult {
                    processed_count: tally.processed_count + 1,
                    last_uid: Some(last),
                };
                assert(item_step(
                    here,
                    tally_of(tally),
                    user_id,
                    email,
                    cursor,
                    *item,
                    Some(ids.deep_view()),
                    now,
                ) == Ok::<(MailStoreView, SyncTally), MailErrorView>(
                    (self.db.deep_view(), tally_of(counted)),
                ));
                Ok(counted)
            },
            Err(cause) => {
                let e = MailError::Persistence(cause);
                assert(item_step(
                    here,
                    tally_of(tally),
                    user_id,
                    email,
                    cursor,
                    *item,
                    Some(ids.deep_view()),
                    now,
                ) == Err::<(MailStoreView, SyncTally), MailErrorView>(e.deep_view()));
                Err(e)
            },
        }
    }

    /// Runs over the items of one fetch for the account `account_email` of
    /// `user_id`, whose cursor is `cursor`: stores each message beyond the
    /// cursor that is not stored yet, under freshly drawn identifiers, and
    /// stops at the first failure. Whatever
    /// identifiers were drawn, the store and the result are what
    /// [`run_items`] names.
    pub fn perform_sync(
        &mut self,
        user_id: u128,
        account_email: &str,
        cursor: Option<u32>,
        items: &Vec<FetchItem>,
        now: i64,
    ) -> (r: Result<SyncResult, MailError>)
        ensures
            exists|ids: Seq<Option<NewIdsView>>|
                ids.len() == items.len() && #[trigger] run_items(
                    old(self).db.deep_view(),
                    user_id,
                    account_email@,
                    cursor,
                    items@,
                    ids,
                    now,
                ) == (final(self).db.deep_view(), run_outcome(r)),
            r matches Ok(result) ==> result.last_uid == highest_new_uid(items@, cursor)
                && final(self).db.deep_view().messages.len() == old(
                self,
            ).db.deep_view().messages.len() + result.processed_count,
            old(self).db.wf() ==> final(self).db.wf(),
            final(self).db.deep_view().credentials == old(self).db.deep_view().credentials,
            final(self).db.deep_view().contacts == old(self).db.deep_view().contacts,
            final(self).encryption_service == old(self).encryption_service,
    {
        let ghost start = self.db.deep_view();
        let ghost email = account_email@;
        let ghost mut drawn: Seq<Option<NewIdsView>> = Seq::empty();
        let ghost filler = None::<NewIdsView>;
        let mut result = SyncResult { processed_count: 0, last_uid: None };
        let mut i: usize = 0;
        assert(items@.take(0) == Seq::<FetchItem>::empty());
        while i < items.len()
            invariant
                i <= items.len(),
                email == account_email@,
                start == old(self).db.deep_view(),
                filler is None,
                drawn.len() == i,
                result.processed_count <= i,
                run_items(start, user_id, email, cursor, items@.take(i as int), drawn, now) == (
                    self.db.deep_view(),
                    Ok::<SyncTally, MailErrorView>(tally_of(result)),
                ),
                self.encryption_service == old(self).encryption_service,
            decreases items.len() - i,
        {
            let ghost here = self.db.deep_view();
            let ghost tally = tally_of(result);
            let ghost next_items = items@.take(i + 1);
            let ghost so_far = drawn;
            assert(next_items.drop_last() == items@.take(i as int));
            assert(next_items.last() == items@[i as int]);
            let step = self.process_item(user_id, account_email, cursor, &items[i], result, now);
            proof {
                let expected = step_outcome(step, self.db.deep_view());
                let w = choose|w: Option<NewIdsView>|
                    #[trigger] item_step(
                        here,
                        tally,
                        user_id,
                        email,
                        cursor,
                        items@[i as int],
                        w,
                        now,
                    )
                        == expected;
                drawn = so_far.push(w);
                assert(drawn.drop_last() == so_far);
                assert(drawn.last() == w);
            }
            match step {
                Err(e) => {
                    proof {
                        let full = drawn + Seq::new(
                            (items.len() - i - 1) as nat,
                            |j: int| filler,
                        );
                        assert(full.len() == items.len());
                        assert(full.take(i + 1) == drawn);
                        assert(self.db.deep_view() == here);
                        assert(run_items(start, user_id, email, cursor, next_items, drawn, now) == (
                            here,
                            Err::<SyncTally, MailErrorView>(e.deep_view()),
                        ));
                        lemma_run_failure_is_final(
                            start,
                            user_id,
                            email,
                            cursor,
                            items@,
                            full,
                            i + 1,
                            now,
                        );
                        if start.wf() {
                            lemma_run_keeps_invariant(
                                start,
                                user_id,
                                email,
                                cursor,
                                items@,
                                full,
                                now,
                            );
                        }
                        lemma_run_unchanged_parts(start, user_id, email, cursor, items@, full, now);
                    }
                    return Err(e);
                },
                Ok(counted) => {
                    proof {
                        lemma_run_tally(
                            start,
                            user_id,
                            email,
                            cursor,
                            items@.take(i as int),
                            so_far,
                            now,
                        );
                    }
                    result = counted;
                    assert(run_items(start, user_id, email, cursor, next_items, drawn, now) == (
                        self.db.deep_view(),
                        Ok::<SyncTally, MailErrorView>(tally_of(result)),
                    ));
                    proof {
                        lemma_run_tally(start, user_id, email, cursor, next_items, drawn, now);
                    }
                },
            }
            i += 1;
        }
        proof {
            assert(items@.take(items.len() as int) == items@);
            lemma_run_tally(start, user_id, email, cursor, items@, drawn, now);
            if start.wf() {
                lemma_run_keeps_invariant(start, user_id, email, cursor, items@, drawn, now);
            }
            lemma_run_unchanged_parts(start, user_id, email, cursor, items@, drawn, now);
        }
        Ok(result)
    }
}

/// A run touches neither the accounts nor the contacts.
pub proof fn lemma_run_unchanged_parts(
    store: MailStoreView,
    user_id: u128,
    account_email: Seq<char>,
    cursor: Option<u32>,
    items: Seq<FetchItem>,
    ids: Seq<Option<NewIdsView>>,
    now: i64,
)
    ensures
        run_items(store, user_id, account_email, cursor, items, ids, now).0.credentials
            == store.credentials,
        run_items(
            store,
            user_id,
            account_email,
            cursor,
            items,
            ids,
            now,
        ).0.contacts == store.contacts,
    decreases items.len(),
{
    if items.len() > 0 {
        lemma_run_unchanged_parts(
            store,
            user_id,
            account_email,
            cursor,
            items.drop_last(),
            ids.drop_last(),
            now,
        );
    }
}

/// How a synchronisation ends, given how its run over the fetched items
/// ended and whether the log-out failed: a run that ended well still fails
/// where the log-out did.
pub open spec fn sync_outcome_spec(
    run: Result<SyncTally, MailErrorView>,
    logout_error: Option<Seq<char>>,
) -> Result<SyncTally, MailErrorView> {
    match run {
        Err(e) => Err(e),
        Ok(tally) => match logout_error {
            Some(text) => Err(MailErrorView::Protocol(text)),
            None => Ok(tally),
        },
    }
}

/// The account after a synchronisation that ended as `outcome` says.
pub open spec fn account_after(
    c: email_credential::ModelView,
    outcome: Result<SyncTally, MailErrorView>,
    now: i64,
) -> email_credential::ModelView {
    match outcome {
        Ok(tally) => mark_synced(c, tally.last_uid, now),
        Err(e) => mark_failed(c, e.message_spec(), now),
    }
}

/// What applying the outcome of one session for `user_id` does to a store,
/// and how the synchronisation ends, for the identifiers `ids` under which
/// new messages are stored.
///
/// Without an account nothing changes. Otherwise the fetched items are run
/// over, and the account records the end: after success the cursor stands at
/// the highest sequence number that was fetched beyond it, and stays where
/// nothing was; after any failure the cursor stays.
pub open spec fn sync_spec(
    store: MailStoreView,
    user_id: u128,
    outcome: SessionOutcome,
    ids: Seq<Option<NewIdsView>>,
    now: i64,
) -> (MailStoreView, Result<SyncTally, MailErrorView>) {
    match first_index(store.credentials, credential_of_user(user_id)) {
        None => (store, Err(MailErrorView::MissingCredentials)),
        Some(at) => {
            let c = store.credentials[at];
            match outcome {
                SessionOutcome::Failed(e) => (
                    MailStoreView {
                        credentials: store.credentials.update(
                            at,
                            mark_failed(c, e.deep_view().message_spec(), now),
                        ),
                        ..store
                    },
                    Err(e.deep_view()),
                ),
                SessionOutcome::Fetched { items, logout_error } => {
                    let (reached, run) = run_items(
                        store,
                        user_id,
                        c.email,
                        c.sync_cursor,
                        items@,
                        ids,
                        now,
                    );
                    let end = sync_outcome_spec(run, logout_error.deep_view());
                    (
                        MailStoreView {
                            credentials: store.credentials.update(at, account_after(c, end, now)),
                            ..reached
                        },
                        end,
                    )
                },
            }
        },
    }
}

/// The items of an outcome: none where the session failed.
pub open spec fn fetched_items(outcome: SessionOutcome) -> Seq<FetchItem> {
    match outcome {
        SessionOutcome::Failed(_) => Seq::empty(),
        SessionOutcome::Fetched { items, .. } => items@,
    }
}

/// The cursor of the account of a user, where the user has one with a cursor.
pub open spec fn cursor_of(store: MailStoreView, user_id: u128) -> Option<u32> {
    match first_index(store.credentials, credential_of_user(user_id)) {
        Some(at) => store.credentials[at].sync_cursor,
        None => None,
    }
}

/// Whether a cursor stands at `old` or beyond it: it has not moved back.
pub open spec fn not_before(old: Option<u32>, new: Option<u32>) -> bool {
    match old {
        Some(was) => new matches Some(is) && is >= was,
        None => true,
    }
}

/// The highest sequence number beyond a cursor lies beyond it.
pub proof fn lemma_highest_is_beyond(items: Seq<FetchItem>, cursor: Option<u32>)
    ensures
        highest_new_uid(items, cursor) matches Some(uid) ==> is_beyond(cursor, uid),
    decreases items.len(),
{
    if items.len() > 0 {
        lemma_highest_is_beyond(items.drop_last(), cursor);
    }
}

/// Applying the outcome of a session keeps the invariant of the store and
/// leaves the contacts alone. After success the cursor of the account is
/// the highest sequence number that was fetched beyond it, and where none
/// was it has not moved; after failure it has not moved. It never moves
/// back.
pub proof fn lemma_sync_properties(
    store: MailStoreView,
    user_id: u128,
    outcome: SessionOutcome,
    ids: Seq<Option<NewIdsView>>,
    now: i64,
)
    ensures
        store.wf() ==> sync_spec(store, user_id, outcome, ids, now).0.wf(),
        sync_spec(store, user_id, outcome, ids, now).0.contacts == store.contacts,
        sync_spec(store, user_id, outcome, ids, now).0.credentials.len()
            == store.credentials.len(),
        not_before(
            cursor_of(store, user_id),
            cursor_of(sync_spec(store, user_id, outcome, ids, now).0, user_id),
        ),
        first_index(store.credentials, credential_of_user(user_id)) matches Some(at) ==> {
            let before = store.credentials[at].sync_cursor;
            let after = sync_spec(store, user_id, outcome, ids, now).0.credentials[at];
            let highest = highest_new_uid(fetched_items(outcome), before);
            &&& not_before(before, after.sync_cursor)
            &&& match sync_spec(store, user_id, outcome, ids, now).1 {
                Ok(tally) => tally.last_uid == highest && after.sync_cursor == match highest {
                    Some(uid) => Some(uid),
                    None => before,
                } && after.sync_status == SyncStatus::Connected && after.last_sync_error is None,
                Err(e) => after.sync_cursor == before && after.sync_status == SyncStatus::Error
                    && after.last_sync_error == Some(e.message_spec()),
            }
        },
{
    let found = first_index(store.credentials, credential_of_user(user_id));
    lemma_first_index_sound(store.credentials, credential_of_user(user_id));
    if let Some(at) = found {
        let c = store.credentials[at];
        let cursor = c.sync_cursor;
        let after = sync_spec(store, user_id, outcome, ids, now).0;
        assert forall|i: int| 0 <= i < store.credentials.len() implies credential_of_user(
            user_id,
        )(#[trigger] store.credentials[i]) == credential_of_user(user_id)(
            after.credentials[i],
        ) by {
            assert(after.credentials[i].user_id == store.credentials[i].user_id);
        }
        lemma_first_index_agrees(
            store.credentials,
            after.credentials,
            credential_of_user(user_id),
        );
        match outcome {
            SessionOutcome::Failed(_) => {},
            SessionOutcome::Fetched { items, logout_error } => {
                lemma_run_unchanged_parts(store, user_id, c.email, cursor, items@, ids, now);
                let (reached, run) = run_items(store, user_id, c.email, cursor, items@, ids, now);
                if store.wf() {
                    lemma_run_keeps_invariant(store, user_id, c.email, cursor, items@, ids, now);
                }
                if run is Ok {
                    lemma_run_tally(store, user_id, c.email, cursor, items@, ids, now);
                }
                lemma_highest_is_beyond(items@, cursor);
            },
        }
        assert forall|i: int, j: int|
            #![trigger after.credentials[i], after.credentials[j]]
            store.wf() && 0 <= i < j < after.credentials.len() implies after.credentials[i].user_id
            != after.credentials[j].user_id by {
            assert(after.credentials[i].user_id == store.credentials[i].user_id);
            assert(after.credentials[j].user_id == store.credentials[j].user_id);
        }
    }
}

/// The session of one account in a sweep.
pub struct UserSession {
    pub user_id: u128,
    pub outcome: SessionOutcome,
}

/// How the synchronisation of one account in a sweep ended.
pub struct SyncReport {
    pub user_id: u128,
    pub result: Result<SyncResult, MailError>,
}

/// The plan for one account in a sweep, or why there is none.
pub struct SweepEntry {
    pub user_id: u128,
    pub plan: Result<SyncPlan, MailError>,
}

/// How each synchronisation of a sweep ended, in order.
pub open spec fn report_outcomes(reports: Seq<SyncReport>) -> Seq<Result<SyncTally, MailErrorView>> {
    Seq::new(reports.len(), |i: int| run_outcome(reports[i].result))
}

/// What a sweep does: the sessions are applied one after the other, each
/// to the store that the ones before it left, and each ends on its own. A
/// failure changes the account it concerns and nothing after it.
pub open spec fn sweep_spec(
    store: MailStoreView,
    sessions: Seq<UserSession>,
    ids: Seq<Seq<Option<NewIdsView>>>,
    now: i64,
) -> (MailStoreView, Seq<Result<SyncTally, MailErrorView>>)
    decreases sessions.len(),
{
    if sessions.len() == 0 {
        (store, Seq::empty())
    } else {
        let (reached, ends) = sweep_spec(store, sessions.drop_last(), ids.drop_last(), now);
        let (next, end) = sync_spec(
            reached,
            sessions.last().user_id,
            sessions.last().outcome,
            ids.last(),
            now,
        );
        (next, ends.push(end))
    }
}

/// The users whose accounts are enabled for synchronisation, in the order
/// of the store.
pub open spec fn enabled_users(accounts: Seq<email_credential::ModelView>) -> Seq<u128>
    decreases accounts.len(),
{
    if accounts.len() == 0 {
        Seq::empty()
    } else if accounts.last().sync_enabled {
        enabled_users(accounts.drop_last()).push(accounts.last().user_id)
    } else {
        enabled_users(accounts.drop_last())
    }
}

/// The users of the entries of a sweep, in order.
pub open spec fn entry_users(entries: Seq<SweepEntry>) -> Seq<u128> {
    Seq::new(entries.len(), |i: int| entries[i].user_id)
}

impl ImapService {
    fn record_failure(&mut self, at: usize, error: &MailError, now: i64)
        requires
            at < old(self).db.credentials.len(),
        ensures
            final(self).db.deep_view() == (MailStoreView {
                credentials: old(self).db.deep_view().credentials.update(
                    at as int,
                    mark_failed(
                        old(self).db.deep_view().credentials[at as int],
                        error.deep_view().message_spec(),
                        now,
                    ),
                ),
                ..old(self).db.deep_view()
            }),
            final(self).encryption_service == old(self).encryption_service,
    {
        let ghost before = self.db.deep_view();
        self.db.credentials[at].last_sync_attempt_at = Some(now);
        self.db.credentials[at].last_sync_error = Some(error.message());
        self.db.credentials[at].sync_status = SyncStatus::Error;
        assert(self.db.deep_view().credentials =~= before.credentials.update(
            at as int,
            mark_failed(before.credentials[at as int], error.deep_view().message_spec(), now),
        ));
    }

    fn record_success(&mut self, at: usize, last_uid: Option<u32>, now: i64)
        requires
            at < old(self).db.credentials.len(),
        ensures
            final(self).db.deep_view() == (MailStoreView {
                credentials: old(self).db.deep_view().credentials.update(
                    at as int,
                    mark_synced(old(self).db.deep_view().credentials[at as int], last_uid, now),
                ),
                ..old(self).db.deep_view()
            }),
            final(self).encryption_service == old(self).encryption_service,
    {
        let ghost before = self.db.deep_view();
        self.db.credentials[at].last_synced_at = Some(now);
        self.db.credentials[at].last_sync_attempt_at = Some(now);
        self.db.credentials[at].last_sync_error = None;
        self.db.credentials[at].sync_status = SyncStatus::Connected;
        if let Some(uid) = last_uid {
            let moved: bool = match self.db.credentials[at].sync_cursor {
                Some(was) => was < uid,
                None => true,
            };
            if moved {
                self.db.credentials[at].sync_cursor = Some(uid);
            }
        }
        assert(self.db.deep_view().credentials =~= before.credentials.update(
            at as int,
            mark_synced(before.credentials[at as int], last_uid, now),
        ));
    }

    /// Applies the outcome of one session with the mailbox of `user_id`:
    /// stores the fetched messages that are new, and records on the account
    /// how the synchronisation ended. After success the cursor of the account
    /// stands at the highest sequence number that was fetched beyond it;
    /// after a failure it has not moved, and the failure is recorded.
    /// Whatever identifiers were drawn for the new records, the store and
    /// the result are what [`sync_spec`] names.
    pub fn sync_user_emails(&mut self, user_id: u128, outcome: &SessionOutcome, now: i64) -> (r:
        Result<SyncResult, MailError>)
        ensures
            exists|ids: Seq<Option<NewIdsView>>|
                ids.len() == fetched_items(*outcome).len() && #[trigger] sync_spec(
                    old(self).db.deep_view(),
                    user_id,
                    *outcome,
                    ids,
                    now,
                ) == (final(self).db.deep_view(), run_outcome(r)),
            old(self).db.wf() ==> final(self).db.wf(),
            final(self).db.deep_view().contacts == old(self).db.deep_view().contacts,
            r matches Ok(result) ==> result.last_uid == highest_new_uid(
                fetched_items(*outcome),
                cursor_of(old(self).db.deep_view(), user_id),
            ),
            not_before(
                cursor_of(old(self).db.deep_view(), user_id),
                cursor_of(final(self).db.deep_view(), user_id),
            ),
            outcome is Failed ==> r is Err,
            final(self).encryption_service == old(self).encryption_service,
    {
        let ghost before = self.db.deep_view();
        let at = match self.db.find_credential(user_id) {
            Some(at) => at,
            None => {
                let e = MailError::MissingCredentials;
                proof {
                    let none = Seq::new(
                        fetched_items(*outcome).len(),
                        |j: int| None::<NewIdsView>,
                    );
                    assert(sync_spec(before, user_id, *outcome, none, now) == (
                        before,
                        Err::<SyncTally, MailErrorView>(MailErrorView::MissingCredentials),
                    ));
                }
                return Err(e);
            },
        };
        match outcome {
            SessionOutcome::Failed(e) => {
                self.record_failure(at, e, now);
                let error = e.duplicate();
                proof {
                    let none = Seq::<Option<NewIdsView>>::empty();
                    assert(sync_spec(before, user_id, *outcome, none, now) == (
                        self.db.deep_view(),
                        Err::<SyncTally, MailErrorView>(e.deep_view()),
                    ));
                    lemma_sync_properties(before, user_id, *outcome, none, now);
                }
                Err(error)
            },
            SessionOutcome::Fetched { items, logout_error } => {
                let email = self.db.credentials[at].email.clone();
                let cursor = self.db.credentials[at].sync_cursor;
                let run = self.perform_sync(user_id, email.as_str(), cursor, items, now);
                let ghost reached = self.db.deep_view();
                let ghost ids = choose|ids: Seq<Option<NewIdsView>>|
                    ids.len() == items.len() && #[trigger] run_items(
                        before,
                        user_id,
                        email@,
                        cursor,
                        items@,
                        ids,
                        now,
                    ) == (reached, run_outcome(run));
                let r = match run {
                    Err(e) => Err(e),
                    Ok(result) => match logout_error {
                        Some(text) => Err(MailError::Protocol(text.clone())),
                        None => Ok(result),
                    },
                };
                assert(run_outcome(r) == sync_outcome_spec(
                    run_outcome(run),
                    logout_error.deep_view(),
                ));
                match &r {
                    Ok(result) => {
                        self.record_success(at, result.last_uid, now);
                    },
                    Err(e) => {
                        self.record_failure(at, e, now);
                    },
                }
                proof {
                    assert(before.credentials[at as int].email == email@);
                    assert(reached.credentials == before.credentials);
                    assert(sync_spec(before, user_id, *outcome, ids, now) == (
                        self.db.deep_view(),
                        run_outcome(r),
                    ));
                    lemma_sync_properties(before, user_id, *outcome, ids, now);
                }
                r
            },
        }
    }

    /// Applies the outcomes of the sessions of a sweep, one account after
    /// the other. The failure of one account is recorded on that account
    /// and reported; it never keeps the accounts after it from being
    /// synchronised. Whatever identifiers were drawn for the new records, the
    /// store and the reports are what [`sweep_spec`] names.
    pub fn sync_all_users(&mut self, sessions: &Vec<UserSession>, now: i64) -> (r: Vec<SyncReport>)
        ensures
            exists|ids: Seq<Seq<Option<NewIdsView>>>|
                ids.len() == sessions.len() && #[trigger] sweep_spec(
                    old(self).db.deep_view(),
                    sessions@,
                    ids,
                    now,
                ) == (final(self).db.deep_view(), report_outcomes(r@)),
            r.len() == sessions.len(),
            forall|i: int|
                0 <= i < r.len() ==> (#[trigger] r[i]).user_id == sessions[i].user_id && (
                sessions[i].outcome is Failed ==> r[i].result is Err),
            old(self).db.wf() ==> final(self).db.wf(),
            final(self).db.deep_view().contacts == old(self).db.deep_view().contacts,
            final(self).encryption_service == old(self).encryption_service,
    {
        let ghost start = self.db.deep_view();
        let ghost mut drawn: Seq<Seq<Option<NewIdsView>>> = Seq::empty();
        let mut reports: Vec<SyncReport> = Vec::new();
        let mut i: usize = 0;
        assert(sessions@.take(0) == Seq::<UserSession>::empty());
        assert(report_outcomes(reports@) =~= Seq::<Result<SyncTally, MailErrorView>>::empty());
        while i < sessions.len()
            invariant
                i <= sessions.len(),
                reports.len() == i,
                drawn.len() == i,
                start == old(self).db.deep_view(),
                sweep_spec(start, sessions@.take(i as int), drawn, now) == (
                    self.db.deep_view(),
                    report_outcomes(reports@),
                ),
                forall|j: int|
                    0 <= j < i ==> (#[trigger] reports[j]).user_id == sessions[j].user_id && (
                    sessions[j].outcome is Failed ==> reports[j].result is Err),
                old(self).db.wf() ==> self.db.wf(),
                self.db.deep_view().contacts == old(self).db.deep_view().contacts,
                self.encryption_service == old(self).encryption_service,
            decreases sessions.len() - i,
        {
            let ghost here = self.db.deep_view();
            let ghost so_far = drawn;
            let ghost before = report_outcomes(reports@);
            assert(sessions@.take(i + 1).drop_last() == sessions@.take(i as int));
            assert(sessions@.take(i + 1).last() == sessions@[i as int]);
            let result = self.sync_user_emails(sessions[i].user_id, &sessions[i].outcome, now);
            proof {
                let outcome = run_outcome(result);
                let after = self.db.deep_view();
                let w = choose|w: Seq<Option<NewIdsView>>|
                    w.len() == fetched_items(sessions@[i as int].outcome).len()
                        && #[trigger] sync_spec(
                        here,
                        sessions@[i as int].user_id,
                        sessions@[i as int].outcome,
                        w,
                        now,
                    ) == (after, outcome);
                drawn = so_far.push(w);
                assert(drawn.drop_last() == so_far);
                assert(drawn.last() == w);
            }
            reports.push(SyncReport { user_id: sessions[i].user_id, result });
            assert(report_outcomes(reports@) =~= before.push(run_outcome(result)));
            i += 1;
        }
        assert(sessions@.take(sessions.len() as int) == sessions@);
        reports
    }

    /// Plans the sessions of a sweep: one entry for each account that is
    /// enabled for synchronisation, in the order of the store, with its plan
    /// or the reason why it has none.
    pub fn plan_sweep(&self) -> (r: Vec<SweepEntry>)
        ensures
            entry_users(r@) == enabled_users(self.db.deep_view().credentials),
            forall|i: int|
                0 <= i < r.len() ==> is_plan_for(
                    (#[trigger] r[i]).plan,
                    self.encryption_service.key_bytes(),
                    self.db.deep_view().credentials,
                    r[i].user_id,
                ),
    {
        let ghost accounts = self.db.deep_view().credentials;
        let mut entries: Vec<SweepEntry> = Vec::new();
        let mut i: usize = 0;
        assert(accounts.take(0) == Seq::<email_credential::ModelView>::empty());
        assert(entry_users(entries@) =~= enabled_users(accounts.take(0)));
        while i < self.db.credentials.len()
            invariant
                i <= self.db.credentials.len(),
                accounts == self.db.deep_view().credentials,
                entry_users(entries@) == enabled_users(accounts.take(i as int)),
                forall|j: int|
                    0 <= j < entries.len() ==> is_plan_for(
                        (#[trigger] entries[j]).plan,
                        self.encryption_service.key_bytes(),
                        accounts,
                        entries[j].user_id,
                    ),
            decreases self.db.credentials.len() - i,
        {
            let ghost so_far = entry_users(entries@);
            assert(accounts.take(i + 1).drop_last() == accounts.take(i as int));
            assert(accounts.take(i + 1).last() == accounts[i as int]);
            if self.db.credentials[i].sync_enabled {
                let user_id = self.db.credentials[i].user_id;
                let plan = self.plan_sync(user_id);
                entries.push(SweepEntry { user_id, plan });
                assert(entry_users(entries@) =~= so_far.push(user_id));
            }
            i += 1;
        }
        assert(accounts.take(self.db.credentials.len() as int) == accounts);
        entries
    }
}

/// The message that a readable item prepares for the account
/// `account_email` of `user_id`.
pub open spec fn prepared_of(
    contacts: Seq<contact::ModelView>,
    user_id: u128,
    account_email: Seq<char>,
    item: FetchItem,
    now: i64,
) -> PreparedMessageView {
    let m = item->Message_0;
    prepared_spec(
        contacts,
        user_id,
        account_email,
        parsed_mail(m.body->0@)->Ok_0,
        m.uid->0,
        m.seen,
        now,
    )
}

/// Whether an item is a readable message of the thread `thread` beyond the
/// cursor: it has a sequence number beyond the cursor and bytes that parse,
/// and its headers resolve to the thread.
pub open spec fn is_of_thread(
    contacts: Seq<contact::ModelView>,
    user_id: u128,
    account_email: Seq<char>,
    cursor: Option<u32>,
    item: FetchItem,
    thread: Seq<char>,
    now: i64,
) -> bool {
    &&& item is Message
    &&& item->Message_0.uid is Some
    &&& is_beyond(cursor, item->Message_0.uid->0)
    &&& item->Message_0.body is Some
    &&& parsed_mail(item->Message_0.body->0@) is Ok
    &&& prepared_of(contacts, user_id, account_email, item, now).thread_identifier == thread
}

/// How many of the items prepare a message that counts as unread: one that
/// was received from another sender and does not carry the seen flag.
pub open spec fn unread_among(
    contacts: Seq<contact::ModelView>,
    user_id: u128,
    account_email: Seq<char>,
    items: Seq<FetchItem>,
    now: i64,
) -> nat
    decreases items.len(),
{
    if items.len() == 0 {
        0
    } else {
        unread_among(contacts, user_id, account_email, items.drop_last(), now) + if counts_as_unread(
            prepared_of(contacts, user_id, account_email, items.last(), now),
        ) {
            1nat
        } else {
            0nat
        }
    }
}

/// A run that stores every one of its items, all of one thread, counts them
/// in the conversation of the thread: the message count rises by the number
/// of items, and the unread count by the number of those that count as
/// unread. The conversation is read exactly while nothing in it is unread.
/// So a thread without conversation gets one whose message count is the
/// number of the items and whose unread count is the number of the unread
/// ones among them.
pub proof fn lemma_run_counts_thread(
    store: MailStoreView,
    user_id: u128,
    account_email: Seq<char>,
    cursor: Option<u32>,
    items: Seq<FetchItem>,
    ids: Seq<Option<NewIdsView>>,
    thread: Seq<char>,
    now: i64,
)
    requires
        forall|i: int|
            0 <= i < items.len() ==> is_of_thread(
                store.contacts,
                user_id,
                account_email,
                cursor,
                #[trigger] items[i],
                thread,
                now,
            ),
        run_items(store, user_id, account_email, cursor, items, ids, now).1 matches Ok(tally)
            && tally.processed == items.len(),
    ensures
        ({
            let after = run_items(store, user_id, account_email, cursor, items, ids, now).0;
            let before = thread_counts(store, user_id, thread);
            &&& thread_counts(after, user_id, thread) == (
                before.0 + items.len(),
                before.1 + unread_among(store.contacts, user_id, account_email, items, now),
            )
            &&& items.len() > 0 ==> thread_is_settled(after, user_id, thread)
            &&& unread_among(store.contacts, user_id, account_email, items, now) <= items.len()
        }),
    decreases items.len(),
{
    if items.len() > 0 {
        let earlier = items.drop_last();
        let (reached, outcome) = run_items(
            store,
            user_id,
            account_email,
            cursor,
            earlier,
            ids.drop_last(),
            now,
        );
        let item = items.last();
        assert(is_of_thread(
            store.contacts,
            user_id,
            account_email,
            cursor,
            items[items.len() - 1],
            thread,
            now,
        ));
        assert(outcome is Ok);
        lemma_run_tally(store, user_id, account_email, cursor, earlier, ids.drop_last(), now);
        lemma_run_unchanged_parts(
            store,
            user_id,
            account_email,
            cursor,
            earlier,
            ids.drop_last(),
            now,
        );
        let p = prepared_of(store.contacts, user_id, account_email, item, now);
        assert(!message_known(reached, parsed_mail(item->Message_0.body->0@)->Ok_0));
        assert(ids.last() is Some);
        assert forall|i: int| 0 <= i < earlier.len() implies is_of_thread(
            store.contacts,
            user_id,
            account_email,
            cursor,
            #[trigger] earlier[i],
            thread,
            now,
        ) by {
            assert(earlier[i] == items[i]);
        }
        lemma_run_counts_thread(
            store,
            user_id,
            account_email,
            cursor,
            earlier,
            ids.drop_last(),
            thread,
            now,
        );
        lemma_persist_counts(reached, p, ids.last()->0, now);
    }
}

/// Whether one of the items prepares a message that carries the message id
/// `id`.
pub open spec fn is_carried(
    contacts: Seq<contact::ModelView>,
    user_id: u128,
    account_email: Seq<char>,
    items: Seq<FetchItem>,
    id: Seq<char>,
    now: i64,
) -> bool {
    exists|j: int|
        0 <= j < items.len() && (#[trigger] prepared_of(
            contacts,
            user_id,
            account_email,
            items[j],
            now,
        )).message_id == Some(id)
}

/// A message id that a stored message carries after a run was carried by a
/// stored message before it, or by one of the items.
pub proof fn lemma_run_headers(
    store: MailStoreView,
    user_id: u128,
    account_email: Seq<char>,
    cursor: Option<u32>,
    items: Seq<FetchItem>,
    ids: Seq<Option<NewIdsView>>,
    id: Seq<char>,
    now: i64,
)
    requires
        any(
            run_items(store, user_id, account_email, cursor, items, ids, now).0.messages,
            message_has_header(id),
        ),
    ensures
        any(store.messages, message_has_header(id)) || is_carried(
            store.contacts,
            user_id,
            account_email,
            items,
            id,
            now,
        ),
    decreases items.len(),
{
    if items.len() > 0 {
        let earlier = items.drop_last();
        let after = run_items(store, user_id, account_email, cursor, items, ids, now).0;
        let reached = run_items(
            store,
            user_id,
            account_email,
            cursor,
            earlier,
            ids.drop_last(),
            now,
        ).0;
        lemma_run_unchanged_parts(
            store,
            user_id,
            account_email,
            cursor,
            earlier,
            ids.drop_last(),
            now,
        );
        let has = message_has_header(id);
        let k = choose|k: int| 0 <= k < after.messages.len() && has(#[trigger] after.messages[k]);
        if after == reached || k < reached.messages.len() {
            if after != reached {
                assert(after.messages[k] == reached.messages[k]);
            }
            assert(has(reached.messages[k]));
            lemma_run_headers(
                store,
                user_id,
                account_email,
                cursor,
                earlier,
                ids.drop_last(),
                id,
                now,
            );
            if is_carried(store.contacts, user_id, account_email, earlier, id, now) {
                let j = choose|j: int|
                    0 <= j < earlier.len() && (#[trigger] prepared_of(
                        store.contacts,
                        user_id,
                        account_email,
                        earlier[j],
                        now,
                    )).message_id == Some(id);
                assert(earlier[j] == items[j]);
                assert(prepared_of(store.contacts, user_id, account_email, items[j], now).message_id
                    == Some(id));
            }
        } else {
            let j = items.len() - 1;
            assert(prepared_of(store.contacts, user_id, account_email, items[j], now).message_id
                == Some(id));
        }
    }
}

/// Whether the items are readable messages beyond the cursor whose message
/// ids are all different and carried by no stored message.
pub open spec fn all_new(
    store: MailStoreView,
    user_id: u128,
    account_email: Seq<char>,
    cursor: Option<u32>,
    items: Seq<FetchItem>,
    now: i64,
) -> bool {
    &&& forall|i: int|
        0 <= i < items.len() ==> {
            let item = #[trigger] items[i];
            &&& item is Message
            &&& item->Message_0.uid is Some
            &&& is_beyond(cursor, item->Message_0.uid->0)
            &&& item->Message_0.body is Some
            &&& parsed_mail(item->Message_0.body->0@) is Ok
            &&& prepared_of(store.contacts, user_id, account_email, item, now).message_id
                matches Some(id) && !any(store.messages, message_has_header(id))
        }
    &&& forall|i: int, j: int|
        0 <= i < j < items.len() ==> (#[trigger] prepared_of(
            store.contacts,
            user_id,
            account_email,
            items[i],
            now,
        )).message_id != (#[trigger] prepared_of(
            store.contacts,
            user_id,
            account_email,
            items[j],
            now,
        )).message_id
}

/// A run over new messages stores every one of them, unless the store
/// refuses a write or no identifiers can be drawn: it fails in no other
/// way, and where it ends well it has counted every item.
pub proof fn lemma_run_stores_new_messages(
    store: MailStoreView,
    user_id: u128,
    account_email: Seq<char>,
    cursor: Option<u32>,
    items: Seq<FetchItem>,
    ids: Seq<Option<NewIdsView>>,
    now: i64,
)
    requires
        all_new(store, user_id, account_email, cursor, items, now),
    ensures
        match run_items(store, user_id, account_email, cursor, items, ids, now).1 {
            Ok(tally) => tally.processed == items.len(),
            Err(e) => e is Persistence,
        },
    decreases items.len(),
{
    if items.len() > 0 {
        let earlier = items.drop_last();
        let n = items.len() - 1;
        assert forall|i: int| 0 <= i < earlier.len() implies #[trigger] earlier[i]
            == items[i] by {}
        assert(all_new(store, user_id, account_email, cursor, earlier, now)) by {
            assert forall|i: int, j: int| 0 <= i < j < earlier.len() implies (
            #[trigger] prepared_of(
                store.contacts,
                user_id,
                account_email,
                earlier[i],
                now,
            )).message_id != (#[trigger] prepared_of(
                store.contacts,
                user_id,
                account_email,
                earlier[j],
                now,
            )).message_id by {
                assert(earlier[i] == items[i]);
                assert(earlier[j] == items[j]);
            }
        }
        lemma_run_stores_new_messages(
            store,
            user_id,
            account_email,
            cursor,
            earlier,
            ids.drop_last(),
            now,
        );
        let (reached, outcome) = run_items(
            store,
            user_id,
            account_email,
            cursor,
            earlier,
            ids.drop_last(),
            now,
        );
        lemma_run_unchanged_parts(
            store,
            user_id,
            account_email,
            cursor,
            earlier,
            ids.drop_last(),
            now,
        );
        if outcome is Ok {
            let item = items[n];
            let p = prepared_of(store.contacts, user_id, account_email, item, now);
            let id = p.message_id->0;
            if any(reached.messages, message_has_header(id)) {
                lemma_run_headers(
                    store,
                    user_id,
                    account_email,
                    cursor,
                    earlier,
                    ids.drop_last(),
                    id,
                    now,
                );
                let j = choose|j: int|
                    0 <= j < earlier.len() && (#[trigger] prepared_of(
                        store.contacts,
                        user_id,
                        account_email,
                        earlier[j],
                        now,
                    )).message_id == Some(id);
                assert(earlier[j] == items[j]);
                assert(prepared_of(store.contacts, user_id, account_email, items[j], now).message_id
                    != prepared_of(store.contacts, user_id, account_email, items[n], now).message_id);
            }
            assert(!message_known(reached, parsed_mail(item->Message_0.body->0@)->Ok_0));
        }
    }
}

/// A run over new messages of one thread that has no conversation yet, where
/// the run ends well: every message is stored, the thread gets a
/// conversation, its message count is the number of the messages, its unread
/// count the number of those that were received from another sender without
/// the seen flag, and it is read exactly where there is none of these.
pub proof fn lemma_new_thread_counts(
    store: MailStoreView,
    user_id: u128,
    account_email: Seq<char>,
    cursor: Option<u32>,
    items: Seq<FetchItem>,
    ids: Seq<Option<NewIdsView>>,
    thread: Seq<char>,
    now: i64,
)
    requires
        items.len() > 0,
        all_new(store, user_id, account_email, cursor, items, now),
        forall|i: int|
            0 <= i < items.len() ==> (#[trigger] prepared_of(
                store.contacts,
                user_id,
                account_email,
                items[i],
                now,
            )).thread_identifier == thread,
        first_index(store.conversations, conversation_in_thread(user_id, thread)) is None,
        run_items(store, user_id, account_email, cursor, items, ids, now).1 is Ok,
    ensures
        ({
            let (after, outcome) = run_items(
                store,
                user_id,
                account_email,
                cursor,
                items,
                ids,
                now,
            );
            let unread = unread_among(store.contacts, user_id, account_email, items, now);
            &&& outcome->Ok_0.processed == items.len()
            &&& first_index(after.conversations, conversation_in_thread(user_id, thread))
                matches Some(at) && after.conversations[at].message_count == items.len()
                && after.conversations[at].unread_count == unread
                && after.conversations[at].is_read == (unread == 0)
        }),
{
    lemma_run_stores_new_messages(store, user_id, account_email, cursor, items, ids, now);
    assert forall|i: int| 0 <= i < items.len() implies is_of_thread(
        store.contacts,
        user_id,
        account_email,
        cursor,
        #[trigger] items[i],
        thread,
        now,
    ) by {
        assert(prepared_of(store.contacts, user_id, account_email, items[i], now).thread_identifier
            == thread);
    }
    lemma_run_counts_thread(store, user_id, account_email, cursor, items, ids, thread, now);
}

/// Whether an item was processed before for an account whose cursor is
/// `cursor`: it is a message whose sequence number does not lie beyond the
/// cursor.
pub open spec fn is_replayed(cursor: Option<u32>, item: FetchItem) -> bool {
    match item {
        FetchItem::Message(m) => m.uid is Some && !is_beyond(cursor, m.uid->0),
        FetchItem::Failure(_) => false,
    }
}

/// Whether an item brings nothing new to a store for an account whose
/// cursor is `cursor`: it was processed before, or it is a message that the
/// store holds already.
pub open spec fn is_known(store: MailStoreView, cursor: Option<u32>, item: FetchItem) -> bool {
    match item {
        FetchItem::Message(m) => m.uid is Some && (!is_beyond(cursor, m.uid->0) || (m.body
            is Some && parsed_mail(m.body->0@) is Ok && message_known(
            store,
            parsed_mail(m.body->0@)->Ok_0,
        ))),
        FetchItem::Failure(_) => false,
    }
}

/// Whether no item brings anything new to a store for an account whose
/// cursor is `cursor`.
pub open spec fn nothing_new(
    store: MailStoreView,
    cursor: Option<u32>,
    items: Seq<FetchItem>,
) -> bool {
    forall|i: int| 0 <= i < items.len() ==> is_known(store, cursor, #[trigger] items[i])
}

/// Whether every item was processed before: none has a sequence number
/// beyond the cursor.
pub open spec fn none_beyond(cursor: Option<u32>, items: Seq<FetchItem>) -> bool {
    forall|i: int| 0 <= i < items.len() ==> is_replayed(cursor, #[trigger] items[i])
}

/// A run over items that bring nothing new stores nothing and changes
/// nothing: synchronising again is harmless. Where every item was processed
/// before, no sequence number is noted either.
pub proof fn lemma_known_items_change_nothing(
    store: MailStoreView,
    user_id: u128,
    account_email: Seq<char>,
    cursor: Option<u32>,
    items: Seq<FetchItem>,
    ids: Seq<Option<NewIdsView>>,
    now: i64,
)
    requires
        nothing_new(store, cursor, items),
    ensures
        run_items(store, user_id, account_email, cursor, items, ids, now).0 == store,
        run_items(store, user_id, account_email, cursor, items, ids, now).1 matches Ok(tally)
            && tally.processed == 0 && tally.last_uid == highest_new_uid(items, cursor),
        none_beyond(cursor, items) ==> highest_new_uid(items, cursor) is None,
    decreases items.len(),
{
    if items.len() > 0 {
        let earlier = items.drop_last();
        assert forall|i: int| 0 <= i < earlier.len() implies is_known(
            store,
            cursor,
            #[trigger] earlier[i],
        ) by {
            assert(earlier[i] == items[i]);
        }
        if none_beyond(cursor, items) {
            assert forall|i: int| 0 <= i < earlier.len() implies is_replayed(
                cursor,
                #[trigger] earlier[i],
            ) by {
                assert(earlier[i] == items[i]);
            }
        }
        lemma_known_items_change_nothing(
            store,
            user_id,
            account_email,
            cursor,
            earlier,
            ids.drop_last(),
            now,
        );
        assert(items.last() == items[items.len() - 1]);
    }
}

/// Items that were all processed before bring nothing new, whatever the
/// store holds.
pub proof fn lemma_none_beyond_is_nothing_new(
    store: MailStoreView,
    cursor: Option<u32>,
    items: Seq<FetchItem>,
)
    requires
        none_beyond(cursor, items),
    ensures
        nothing_new(store, cursor, items),
{
    assert forall|i: int| 0 <= i < items.len() implies is_known(
        store,
        cursor,
        #[trigger] items[i],
    ) by {
        assert(is_replayed(cursor, items[i]));
    }
}

/// A synchronisation that finds no new mail leaves the conversations, the
/// messages and the attachments as they were, and with them every count:
/// only the instants and the status of the account change. The cursor does
/// not move back, and where no item lies beyond it, it does not move.
pub proof fn lemma_sync_without_new_mail(
    store: MailStoreView,
    user_id: u128,
    outcome: SessionOutcome,
    ids: Seq<Option<NewIdsView>>,
    now: i64,
)
    requires
        outcome matches SessionOutcome::Fetched { logout_error, .. } && logout_error is None,
        first_index(store.credentials, credential_of_user(user_id)) is Some,
        nothing_new(store, cursor_of(store, user_id), fetched_items(outcome)),
    ensures
        ({
            let after = sync_spec(store, user_id, outcome, ids, now).0;
            let at = first_index(store.credentials, credential_of_user(user_id))->0;
            &&& sync_spec(store, user_id, outcome, ids, now).1 matches Ok(tally)
                && tally.processed == 0
            &&& after.conversations == store.conversations
            &&& after.messages == store.messages
            &&& after.attachments == store.attachments
            &&& after.contacts == store.contacts
            &&& after.credentials == store.credentials.update(
                at,
                mark_synced(
                    store.credentials[at],
                    highest_new_uid(fetched_items(outcome), cursor_of(store, user_id)),
                    now,
                ),
            )
            &&& not_before(store.credentials[at].sync_cursor, after.credentials[at].sync_cursor)
            &&& none_beyond(cursor_of(store, user_id), fetched_items(outcome))
                ==> after.credentials[at].sync_cursor == store.credentials[at].sync_cursor
        }),
{
    lemma_first_index_sound(store.credentials, credential_of_user(user_id));
    let at = first_index(store.credentials, credential_of_user(user_id))->0;
    lemma_known_items_change_nothing(
        store,
        user_id,
        store.credentials[at].email,
        store.credentials[at].sync_cursor,
        fetched_items(outcome),
        ids,
        now,
    );
    lemma_highest_is_beyond(fetched_items(outcome), store.credentials[at].sync_cursor);
}

/// Whether the session of an account brings no new mail to a store: the
/// fetch and the log-out went well, and no fetched item lies beyond the
/// cursor of the account.
pub open spec fn brings_nothing(store: MailStoreView, session: UserSession) -> bool {
    session.outcome matches SessionOutcome::Fetched { items, logout_error } && logout_error
        is None && none_beyond(cursor_of(store, session.user_id), items@)
}

/// Whether two lists of accounts hold the same users with the same cursors,
/// position by position.
pub open spec fn same_cursors(
    a: Seq<email_credential::ModelView>,
    b: Seq<email_credential::ModelView>,
) -> bool {
    a.len() == b.len() && forall|i: int|
        0 <= i < a.len() ==> (#[trigger] a[i]).user_id == b[i].user_id && a[i].sync_cursor
            == b[i].sync_cursor
}

/// A sweep over any number of accounts that finds no new mail leaves every
/// conversation, message and attachment as it was, and with them every
/// message count and unread count; no conversation is opened, and the
/// cursor of every account stays where it was. So does a second such sweep
/// after it.
pub proof fn lemma_sweep_without_new_mail(
    store: MailStoreView,
    sessions: Seq<UserSession>,
    ids: Seq<Seq<Option<NewIdsView>>>,
    now: i64,
)
    requires
        forall|k: int| 0 <= k < sessions.len() ==> brings_nothing(store, #[trigger] sessions[k]),
    ensures
        ({
            let after = sweep_spec(store, sessions, ids, now).0;
            &&& after.conversations == store.conversations
            &&& after.messages == store.messages
            &&& after.attachments == store.attachments
            &&& after.contacts == store.contacts
            &&& same_cursors(store.credentials, after.credentials)
            &&& forall|k: int|
                0 <= k < sessions.len() ==> brings_nothing(after, #[trigger] sessions[k])
        }),
    decreases sessions.len(),
{
    if sessions.len() > 0 {
        let earlier = sessions.drop_last();
        assert forall|k: int| 0 <= k < earlier.len() implies brings_nothing(
            store,
            #[trigger] earlier[k],
        ) by {
            assert(earlier[k] == sessions[k]);
        }
        lemma_sweep_without_new_mail(store, earlier, ids.drop_last(), now);
        let reached = sweep_spec(store, earlier, ids.drop_last(), now).0;
        let session = sessions.last();
        assert(brings_nothing(store, sessions[sessions.len() - 1]));
        let who = credential_of_user(session.user_id);
        lemma_first_index_agrees(store.credentials, reached.credentials, who);
        lemma_first_index_sound(reached.credentials, who);
        let after = sync_spec(reached, session.user_id, session.outcome, ids.last(), now).0;
        if let Some(at) = first_index(reached.credentials, who) {
            let cursor = reached.credentials[at].sync_cursor;
            assert(cursor == store.credentials[at].sync_cursor);
            lemma_none_beyond_is_nothing_new(reached, cursor, fetched_items(session.outcome));
            lemma_sync_without_new_mail(
                reached,
                session.user_id,
                session.outcome,
                ids.last(),
                now,
            );
        }
        assert(same_cursors(store.credentials, after.credentials));
        assert forall|k: int| 0 <= k < sessions.len() implies brings_nothing(
            after,
            #[trigger] sessions[k],
        ) by {
            assert(brings_nothing(store, sessions[k]));
            lemma_first_index_agrees(
                store.credentials,
                after.credentials,
                credential_of_user(sessions[k].user_id),
            );
            lemma_first_index_sound(
                store.credentials,
                credential_of_user(sessions[k].user_id),
            );
        }
    }
}

} // verus!
