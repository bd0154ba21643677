use mail_engine::conversations_controller::{
    addresses_to_json, archive_conversation, check_attachment_place, check_reader,
    default_provider, default_security, determine_recipients, email_domain, in_memory_filter, mark_conversation_read,
    mark_conversation_unread, persist_outgoing_message, send_message, to_outgoing_attachment,
    truncate, unarchive_conversation, update_conversation_flags, AttachmentUpload,
    ConversationListQuery, Refusal, ReplyKind, SendReplyRequest,
};
use mail_engine::entities::conversation::{self, Participant};
use mail_engine::entities::email_credential::{self, SyncStatus};
use mail_engine::entities::message::Direction;
use mail_engine::entities::user;
use mail_engine::services::encryption_service::EncryptionService;
use mail_engine::services::imap_service::{FetchItem, FetchedMessage, ImapService, SessionOutcome};
use mail_engine::services::persistence::NewIds;
use mail_engine::services::smtp_service::{OutgoingAttachment, SmtpService};
use mail_engine::services::store::{MailStore, StoreError};

const KEY: &str = "000102030405060708090a0b0c0d0e0f101112131415161718191a1b1c1d1e1f";
const USER: u128 = 1;
const NOW: i64 = 1_700_000_000_000;

fn participant(role: &str, email: &str) -> Participant {
    Participant { email: email.to_string(), role: role.to_string(), name: None }
}

fn conversation(id: u128, user_id: u128, participants: Vec<Participant>) -> conversation::Model {
    conversation::Model {
        id,
        user_id,
        subject: "Plans".to_string(),
        snippet: Some("earlier".to_string()),
        thread_id: Some(format!("<t{}@x>", id)),
        startup_id: None,
        latest_message_at: 5,
        has_attachments: false,
        is_read: false,
        is_archived: false,
        message_count: 2,
        unread_count: 2,
        participants,
        created_at: 1,
        updated_at: 1,
    }
}

fn account(vault: &EncryptionService) -> email_credential::Model {
    let (encrypted_password, nonce) = vault.encrypt("secret").unwrap();
    email_credential::Model {
        id: 10,
        user_id: USER,
        email: "me@example.com".to_string(),
        imap_host: "imap.example.com".to_string(),
        imap_port: 993,
        smtp_host: "smtp.example.com".to_string(),
        smtp_port: 465,
        encrypted_password,
        nonce,
        provider_settings_id: None,
        sync_status: SyncStatus::Connected,
        sync_enabled: true,
        last_synced_at: None,
        last_sync_attempt_at: None,
        last_sync_error: None,
        sync_cursor: None,
        created_at: 0,
        updated_at: 0,
    }
}

fn thread() -> Vec<Participant> {
    vec![
        participant("from", "ann@corp.com"),
        participant("to", "ME@example.com"),
        participant("to", "bob@corp.com"),
        participant("cc", "carol@corp.com"),
        participant("from", "ann@corp.com"),
        participant("from", "dan@corp.com"),
    ]
}

fn strings(list: &[&str]) -> Vec<String> {
    list.iter().map(|s| s.to_string()).collect()
}

#[test]
fn a_reply_goes_to_the_senders_once_each() {
    let c = conversation(1, USER, thread());
    let to = determine_recipients(&c, "me@example.com", &vec![], &ReplyKind::Reply);
    assert_eq!(to, strings(&["ann@corp.com", "dan@corp.com"]));
}

#[test]
fn a_forward_goes_to_everyone_but_the_account() {
    let c = conversation(1, USER, thread());
    let to = determine_recipients(&c, "me@example.com", &vec![], &ReplyKind::Forward);
    assert_eq!(to, strings(&["ann@corp.com", "bob@corp.com", "carol@corp.com", "dan@corp.com"]));
}

#[test]
fn named_recipients_are_taken_as_they_are() {
    let c = conversation(1, USER, thread());
    let named = strings(&["x@y.zz", "me@example.com", "x@y.zz"]);
    assert_eq!(determine_recipients(&c, "me@example.com", &named, &ReplyKind::Reply), named);
}

#[test]
fn a_conversation_with_nobody_else_gives_no_recipient() {
    let c = conversation(1, USER, vec![participant("from", "me@example.com")]);
    assert!(determine_recipients(&c, "me@example.com", &vec![], &ReplyKind::Reply).is_empty());
    assert!(determine_recipients(&c, "me@example.com", &vec![], &ReplyKind::Forward).is_empty());
}

fn synced_store() -> MailStore {
    let vault = EncryptionService::new(KEY).unwrap();
    let mut db = MailStore::new();
    db.credentials.push(account(&vault));
    let mut s = ImapService::new(db, vault);
    let raw = |id: &str, reply: &str| {
        format!(
            "Message-ID: {}\r\nIn-Reply-To: {}\r\nFrom: ann@corp.com\r\nTo: me@example.com\r\nSubject: Thread\r\n\r\nbody",
            id, reply
        )
    };
    let items = vec![
        FetchItem::Message(FetchedMessage { uid: Some(1), body: Some(raw("<a@x>", "<root@x>").into_bytes()), seen: false }),
        FetchItem::Message(FetchedMessage { uid: Some(2), body: Some(raw("<b@x>", "<root@x>").into_bytes()), seen: false }),
        FetchItem::Message(FetchedMessage { uid: Some(3), body: Some(raw("<c@x>", "<other@x>").into_bytes()), seen: false }),
    ];
    s.sync_user_emails(USER, &SessionOutcome::Fetched { items, logout_error: None }, NOW).unwrap();
    s.db
}

#[test]
fn marking_read_clears_the_count_and_reads_every_message_of_the_conversation() {
    let mut db = synced_store();
    let id = db.conversations[0].id;
    let other = db.conversations[1].id;
    assert_eq!(db.conversations[0].unread_count, 2);
    assert_eq!(mark_conversation_read(&mut db, USER, id), Ok(()));
    assert_eq!(db.conversations[0].unread_count, 0);
    assert!(db.conversations[0].is_read);
    assert!(!db.conversations[0].is_archived);
    for m in &db.messages {
        assert_eq!(m.is_read, m.conversation_id == id);
    }
    // The other conversation is untouched.
    assert_eq!(db.conversations[1].id, other);
    assert_eq!(db.conversations[1].unread_count, 1);
    assert!(!db.conversations[1].is_read);
}

#[test]
fn marking_unread_sets_the_count_to_one_and_leaves_the_messages() {
    let mut db = synced_store();
    let id = db.conversations[0].id;
    mark_conversation_read(&mut db, USER, id).unwrap();
    assert_eq!(mark_conversation_unread(&mut db, USER, id), Ok(()));
    assert_eq!(db.conversations[0].unread_count, 1);
    assert!(!db.conversations[0].is_read);
    assert!(db.messages.iter().filter(|m| m.conversation_id == id).all(|m| m.is_read));
}

#[test]
fn archiving_marks_read_and_unarchiving_keeps_read() {
    let mut db = synced_store();
    let id = db.conversations[0].id;
    assert_eq!(archive_conversation(&mut db, USER, id), Ok(()));
    assert!(db.conversations[0].is_archived);
    assert!(db.conversations[0].is_read);
    assert_eq!(db.conversations[0].unread_count, 0);
    assert_eq!(unarchive_conversation(&mut db, USER, id), Ok(()));
    assert!(!db.conversations[0].is_archived);
    assert!(db.conversations[0].is_read);
}

#[test]
fn flags_of_a_missing_or_foreign_conversation_are_refused() {
    let mut db = synced_store();
    let id = db.conversations[0].id;
    assert_eq!(update_conversation_flags(&mut db, USER, id.wrapping_add(12345), true, false), Err(Refusal::NotFound));
    assert_eq!(update_conversation_flags(&mut db, 2, id, true, false), Err(Refusal::Forbidden));
    assert_eq!(db.conversations[0].unread_count, 2);
}

fn ids(message: u128, attachments: &[u128]) -> NewIds {
    NewIds { message, conversation: 0, attachments: attachments.to_vec() }
}

#[test]
fn a_sent_message_is_stored_and_brings_the_conversation_up_to_date() {
    let mut db = synced_store();
    let id = db.conversations[0].id;
    let count = db.conversations[0].message_count;
    let attachments = vec![OutgoingAttachment {
        file_name: "a.pdf".to_string(),
        content_type: "application/pdf".to_string(),
        data: vec![9; 40],
        is_inline: false,
        content_id: None,
    }];
    let long = format!("   {}   ", "z".repeat(300));
    let r = persist_outgoing_message(
        &mut db,
        id,
        "me@example.com",
        &strings(&["ann@corp.com"]),
        &strings(&["carol@corp.com"]),
        &vec![],
        None,
        Some(long.clone()),
        &attachments,
        &ids(7001, &[7002]),
        NOW + 5,
    );
    assert_eq!(r, Ok(()));
    let m = db.messages.last().unwrap();
    assert_eq!(m.id, 7001);
    assert_eq!(m.conversation_id, id);
    assert_eq!(m.user_id, USER);
    assert_eq!(m.direction, Direction::Sent);
    assert!(m.is_from_me);
    assert!(m.is_read);
    assert_eq!(m.read_at, Some(NOW + 5));
    assert_eq!(m.sender_email, "me@example.com");
    assert_eq!(m.sender_name, None);
    assert_eq!(m.subject, "Thread");
    assert_eq!(m.body_text, None);
    assert_eq!(m.body_html.as_deref(), Some(long.as_str()));
    assert_eq!(m.snippet.as_deref(), Some("z".repeat(200).as_str()));
    assert_eq!(m.in_reply_to.as_deref(), Some("<root@x>"));
    assert_eq!(m.message_id_header, None);
    assert_eq!(m.imap_uid, None);
    assert_eq!(m.to_emails[0].email, "ann@corp.com");
    assert_eq!(m.cc_emails[0].email, "carol@corp.com");
    assert!(m.has_attachments);
    assert_eq!(m.attachment_count, 1);
    let a = db.attachments.last().unwrap();
    assert_eq!(a.id, 7002);
    assert_eq!(a.message_id, 7001);
    assert_eq!(a.size_bytes, 40);
    assert_eq!(a.file_name, "a.pdf");
    let c = &db.conversations[0];
    assert_eq!(c.message_count, count + 1);
    assert_eq!(c.unread_count, 2);
    assert!(c.is_read);
    assert!(c.has_attachments);
    assert_eq!(c.latest_message_at, NOW + 5);
    assert_eq!(c.snippet.as_deref(), Some("z".repeat(200).as_str()));
}

#[test]
fn the_store_refuses_taken_identifiers_and_stays_as_it_was() {
    let mut db = synced_store();
    let id = db.conversations[0].id;
    let taken = db.messages[0].id;
    let messages = db.messages.len();
    let no_attachments: Vec<OutgoingAttachment> = vec![];
    let r = persist_outgoing_message(&mut db, id, "me@example.com", &vec![], &vec![], &vec![], Some("t".to_string()), None, &no_attachments, &ids(taken, &[]), NOW);
    assert_eq!(r, Err(StoreError::DuplicateKey));
    let r = persist_outgoing_message(&mut db, id.wrapping_add(999), "me@example.com", &vec![], &vec![], &vec![], Some("t".to_string()), None, &no_attachments, &ids(1, &[]), NOW);
    assert_eq!(r, Err(StoreError::ConversationMissing));
    let two = vec![
        OutgoingAttachment { file_name: "a".to_string(), content_type: "text/plain".to_string(), data: vec![], is_inline: false, content_id: None },
        OutgoingAttachment { file_name: "b".to_string(), content_type: "text/plain".to_string(), data: vec![], is_inline: false, content_id: None },
    ];
    let r = persist_outgoing_message(&mut db, id, "me@example.com", &vec![], &vec![], &vec![], None, None, &two, &ids(2, &[5]), NOW);
    assert_eq!(r, Err(StoreError::MissingIds));
    let r = persist_outgoing_message(&mut db, id, "me@example.com", &vec![], &vec![], &vec![], None, None, &two, &ids(2, &[5, 5]), NOW);
    assert_eq!(r, Err(StoreError::DuplicateKey));
    db.conversations[0].message_count = i32::MAX;
    let r = persist_outgoing_message(&mut db, id, "me@example.com", &vec![], &vec![], &vec![], None, None, &no_attachments, &ids(3, &[]), NOW);
    assert_eq!(r, Err(StoreError::CounterOverflow));
    assert_eq!(db.messages.len(), messages);
    assert!(db.attachments.is_empty());
}

#[test]
fn uploads_are_decoded_from_base64() {
    let upload = AttachmentUpload {
        file_name: "hello.txt".to_string(),
        content_type: "text/plain".to_string(),
        data_base64: "aGVsbG8gd29ybGQ=".to_string(),
        is_inline: true,
        content_id: Some("c1".to_string()),
    };
    let a = to_outgoing_attachment(&upload).unwrap();
    assert_eq!(a.data, b"hello world".to_vec());
    assert_eq!(a.file_name, "hello.txt");
    assert_eq!(a.content_type, "text/plain");
    assert!(a.is_inline);
    assert_eq!(a.content_id.as_deref(), Some("c1"));
    let bad = AttachmentUpload { data_base64: "%%%".to_string(), ..upload };
    assert_eq!(to_outgoing_attachment(&bad).err(), Some(Refusal::BadRequest));
}

fn request(to: &[&str], attachments: Vec<AttachmentUpload>) -> SendReplyRequest {
    SendReplyRequest {
        body_text: Some("my answer".to_string()),
        body_html: None,
        to: strings(to),
        cc: vec![],
        bcc: vec![],
        attachments,
    }
}

#[test]
fn a_reply_is_prepared_for_the_senders_of_the_conversation() {
    let db = synced_store();
    let smtp = SmtpService::new(EncryptionService::new(KEY).unwrap());
    let id = db.conversations[0].id;
    let plan = send_message(&smtp, &db, USER, id, &request(&[], vec![]), &ReplyKind::Reply).unwrap();
    assert_eq!(plan.to, strings(&["ann@corp.com"]));
    assert_eq!(plan.email.to[0].email, "ann@corp.com");
    assert_eq!(plan.email.subject, "Thread");
    assert_eq!(plan.email.password, "secret");
    assert_eq!(plan.email.body.alternative[0].body, "my answer");
}

#[test]
fn each_reason_to_refuse_a_reply_is_reported() {
    let mut db = synced_store();
    let smtp = SmtpService::new(EncryptionService::new(KEY).unwrap());
    let id = db.conversations[0].id;
    let reply = ReplyKind::Reply;
    let r = send_message(&smtp, &db, USER, id.wrapping_add(777), &request(&[], vec![]), &reply);
    assert_eq!(r.err(), Some(Refusal::NotFound));
    let r = send_message(&smtp, &db, 2, id, &request(&[], vec![]), &reply);
    assert_eq!(r.err(), Some(Refusal::Forbidden));
    let r = send_message(&smtp, &db, USER, id, &request(&["no address"], vec![]), &reply);
    assert_eq!(r.err(), Some(Refusal::BadRequest));
    let bad_upload = AttachmentUpload {
        file_name: "x".to_string(),
        content_type: "text/plain".to_string(),
        data_base64: "***".to_string(),
        is_inline: false,
        content_id: None,
    };
    let r = send_message(&smtp, &db, USER, id, &request(&[], vec![bad_upload]), &reply);
    assert_eq!(r.err(), Some(Refusal::BadRequest));
    // Nobody but the account itself in the conversation.
    db.conversations[0].participants = vec![participant("from", "me@example.com")];
    let r = send_message(&smtp, &db, USER, id, &request(&[], vec![]), &reply);
    assert_eq!(r.err(), Some(Refusal::BadRequest));
    // Without an account.
    db.credentials.clear();
    let r = send_message(&smtp, &db, USER, id, &request(&["ann@corp.com"], vec![]), &reply);
    assert_eq!(r.err(), Some(Refusal::BadRequest));
}

fn rows(n: u128) -> Vec<(conversation::Model, Option<user::Model>)> {
    (1..=n)
        .map(|i| {
            let mut c = conversation(i, USER, vec![participant("from", &format!("member{}@corp.com", i))]);
            c.subject = format!("Subject {}", i);
            c.snippet = if i % 2 == 0 { Some(format!("Even Snippet {}", i)) } else { None };
            let owner = if i % 3 == 0 {
                None
            } else {
                Some(user::Model {
                    id: USER,
                    email: "me@example.com".to_string(),
                    password_hash: "h".to_string(),
                    name: Some("Me".to_string()),
                    role: "user".to_string(),
                    is_active: true,
                    email_verified: true,
                    created_at: 0,
                    updated_at: 0,
                })
            };
            (c, owner)
        })
        .collect()
}

fn query() -> ConversationListQuery {
    ConversationListQuery {
        show_all: None,
        startup_id: None,
        unread_only: None,
        has_attachments: None,
        search: None,
        participant: None,
        page: None,
        page_size: None,
        archived: None,
    }
}

fn listed(n: u128, q: ConversationListQuery) -> Vec<u128> {
    in_memory_filter(rows(n), &q).iter().map(|s| s.conversation.id).collect()
}

#[test]
fn a_listing_has_pages_of_25_by_default() {
    assert_eq!(listed(60, query()), (1..=25).collect::<Vec<u128>>());
    assert_eq!(listed(60, ConversationListQuery { page: Some(2), ..query() }), (26..=50).collect::<Vec<u128>>());
    assert_eq!(listed(60, ConversationListQuery { page: Some(3), ..query() }), (51..=60).collect::<Vec<u128>>());
    assert!(listed(60, ConversationListQuery { page: Some(4), ..query() }).is_empty());
    assert_eq!(listed(3, query()), vec![1, 2, 3]);
    assert!(listed(0, query()).is_empty());
}

#[test]
fn page_and_size_are_at_least_one() {
    let q = ConversationListQuery { page: Some(0), page_size: Some(0), ..query() };
    assert_eq!(listed(5, q), vec![1]);
    let q = ConversationListQuery { page: Some(2), page_size: Some(2), ..query() };
    assert_eq!(listed(5, q), vec![3, 4]);
    let q = ConversationListQuery { page: Some(3), page_size: Some(2), ..query() };
    assert_eq!(listed(5, q), vec![5]);
    let q = ConversationListQuery { page: Some(u64::MAX), page_size: Some(u64::MAX), ..query() };
    assert!(listed(5, q).is_empty());
    let q = ConversationListQuery { page: Some(1), page_size: Some(u64::MAX), ..query() };
    assert_eq!(listed(5, q), vec![1, 2, 3, 4, 5]);
}

#[test]
fn a_listing_is_narrowed_by_participant_and_search() {
    let q = ConversationListQuery { participant: Some("member1".to_string()), ..query() };
    assert_eq!(listed(12, q), vec![1, 10, 11, 12]);
    let q = ConversationListQuery { search: Some("SUBJECT 1".to_string()), ..query() };
    assert_eq!(listed(12, q), vec![1, 10, 11, 12]);
    let q = ConversationListQuery { search: Some("even snippet".to_string()), ..query() };
    assert_eq!(listed(7, q), vec![2, 4, 6]);
    let q = ConversationListQuery {
        search: Some("snippet".to_string()),
        participant: Some("member4@".to_string()),
        ..query()
    };
    assert_eq!(listed(7, q), vec![4]);
    let q = ConversationListQuery { search: Some("nothing like it".to_string()), ..query() };
    assert!(listed(7, q).is_empty());
    // Pages are cut after the filters.
    let q = ConversationListQuery {
        search: Some("even".to_string()),
        page: Some(2),
        page_size: Some(2),
        ..query()
    };
    assert_eq!(listed(12, q), vec![6, 8]);
}

#[test]
fn a_row_carries_the_owner() {
    let out = in_memory_filter(rows(3), &query());
    assert_eq!(out[0].owner_name.as_deref(), Some("Me"));
    assert_eq!(out[0].owner_email.as_deref(), Some("me@example.com"));
    assert_eq!(out[2].owner_name, None);
    assert_eq!(out[2].owner_email, None);
    assert_eq!(out[1].conversation.subject, "Subject 2");
    assert_eq!(out[1].conversation.participants[0].email, "member2@corp.com");
}

#[test]
fn small_helpers_give_their_fixed_answers() {
    assert_eq!(default_security(), "ssl");
    assert_eq!(default_provider(), "custom");
    assert_eq!(truncate("  abc  "), "abc");
    assert_eq!(truncate(&"q".repeat(250)), "q".repeat(200));
    let list = addresses_to_json(&strings(&["a@b.co", "c@d.co"]));
    assert_eq!(list.len(), 2);
    assert_eq!(list[1].email, "c@d.co");
    assert_eq!(list[1].name, None);
}

#[test]
fn the_domain_of_an_address_follows_its_first_at_sign() {
    assert_eq!(email_domain("me@example.com").as_deref(), Some("example.com"));
    assert_eq!(email_domain("me@"), Some(String::new()));
    assert_eq!(email_domain("@x").as_deref(), Some("x"));
    assert_eq!(email_domain("a@b@c").as_deref(), Some("b"));
    assert_eq!(email_domain("no at sign"), None);
    assert_eq!(email_domain(""), None);
}

#[test]
fn an_attachment_is_handed_out_to_the_owner_or_an_administrator() {
    assert_eq!(check_reader(7, 7, false), Ok(()));
    assert_eq!(check_reader(7, 7, true), Ok(()));
    assert_eq!(check_reader(7, 8, true), Ok(()));
    assert_eq!(check_reader(7, 8, false), Err(Refusal::Forbidden));
}

#[test]
fn an_attachment_of_another_conversation_is_not_found() {
    assert_eq!(check_attachment_place(3, 3), Ok(()));
    assert_eq!(check_attachment_place(3, 4), Err(Refusal::NotFound));
    assert_eq!(check_attachment_place(u128::MAX, 0), Err(Refusal::NotFound));
}
