use mail_engine::entities::contact;
use mail_engine::entities::email_credential::{self, SyncStatus};
use mail_engine::entities::message::Direction;
use mail_engine::services::encryption_service::{EncryptionService, VaultError};
use mail_engine::services::error::MailError;
use mail_engine::services::imap_service::{fetch_range, FetchItem, FetchedMessage, ImapService, SessionOutcome, SyncResult, UserSession};
use mail_engine::services::store::MailStore;

const KEY: &str = "000102030405060708090a0b0c0d0e0f101112131415161718191a1b1c1d1e1f";
const USER: u128 = 1;
const OTHER: u128 = 2;
const NOW: i64 = 1_700_000_000_000;

fn account(user_id: u128, email: &str, vault: &EncryptionService) -> email_credential::Model {
    let (encrypted_password, nonce) = vault.encrypt("mail-secret").unwrap();
    email_credential::Model {
        id: 100 + user_id,
        user_id,
        email: email.to_string(),
        imap_host: "imap.example.com".to_string(),
        imap_port: 993,
        smtp_host: "smtp.example.com".to_string(),
        smtp_port: 465,
        encrypted_password,
        nonce,
        provider_settings_id: None,
        sync_status: SyncStatus::NeverSynced,
        sync_enabled: true,
        last_synced_at: None,
        last_sync_attempt_at: None,
        last_sync_error: None,
        sync_cursor: None,
        created_at: 0,
        updated_at: 0,
    }
}

fn service() -> ImapService {
    let vault = EncryptionService::new(KEY).unwrap();
    let mut db = MailStore::new();
    db.credentials.push(account(USER, "me@example.com", &vault));
    ImapService::new(db, vault)
}

fn item(uid: u32, raw: &str, seen: bool) -> FetchItem {
    FetchItem::Message(FetchedMessage {
        uid: Some(uid),
        body: Some(raw.as_bytes().to_vec()),
        seen,
    })
}

fn fetched(items: Vec<FetchItem>) -> SessionOutcome {
    SessionOutcome::Fetched { items, logout_error: None }
}

fn mail(headers: &[(&str, &str)], body: &str) -> String {
    let mut raw = String::new();
    for (k, v) in headers {
        raw.push_str(k);
        raw.push_str(": ");
        raw.push_str(v);
        raw.push_str("\r\n");
    }
    raw.push_str("\r\n");
    raw.push_str(body);
    raw
}

fn plain(message_id: &str, from: &str, subject: &str, body: &str) -> String {
    mail(
        &[
            ("Message-ID", message_id),
            ("From", from),
            ("To", "me@example.com"),
            ("Subject", subject),
            ("Date", "Tue, 14 Nov 2023 22:13:20 +0000"),
        ],
        body,
    )
}

#[test]
fn a_first_sync_stores_every_message_and_moves_the_cursor() {
    let mut s = service();
    let outcome = fetched(vec![
        item(1, &plain("<a@x>", "Ann <ann@corp.com>", "Hello", "Hi there"), false),
        item(2, &plain("<b@x>", "bob@corp.com", "Other", "Second"), true),
    ]);
    let r = s.sync_user_emails(USER, &outcome, NOW).unwrap();
    assert_eq!(r, SyncResult { processed_count: 2, last_uid: Some(2) });
    assert_eq!(s.db.messages.len(), 2);
    assert_eq!(s.db.conversations.len(), 2);
    let c = &s.db.credentials[0];
    assert_eq!(c.sync_cursor, Some(2));
    assert_eq!(c.sync_status, SyncStatus::Connected);
    assert_eq!(c.last_sync_error, None);
    assert_eq!(c.last_synced_at, Some(NOW));
    assert_eq!(c.last_sync_attempt_at, Some(NOW));
}

#[test]
fn the_fields_of_a_stored_message_come_from_its_headers() {
    let mut s = service();
    let outcome = fetched(vec![item(
        7,
        &mail(
            &[
                ("Message-ID", "<m1@x>"),
                ("From", "Ann Lee <Ann@Corp.com>"),
                ("To", "me@example.com, Bob <bob@corp.com>"),
                ("Cc", "carol@corp.com"),
                ("Subject", "  Re: Quarterly numbers "),
                ("Date", "Tue, 14 Nov 2023 22:13:20 +0000"),
                ("References", "<r0@x>"),
            ],
            "  The body of the message.  \r\n",
        ),
        false,
    )]);
    s.sync_user_emails(USER, &outcome, NOW).unwrap();
    let m = &s.db.messages[0];
    assert_eq!(m.user_id, USER);
    // The stored subject is the header value; only the conversation's is cleaned.
    assert_eq!(m.subject, "Re: Quarterly numbers ");
    assert_eq!(m.sender_name.as_deref(), Some("Ann Lee"));
    assert_eq!(m.sender_email, "ann@corp.com");
    assert_eq!(m.direction, Direction::Received);
    assert!(!m.is_from_me);
    assert!(!m.is_read);
    assert_eq!(m.read_at, None);
    assert_eq!(m.imap_uid, Some(7));
    assert_eq!(m.message_id_header.as_deref(), Some("<m1@x>"));
    assert_eq!(m.in_reply_to, None);
    assert_eq!(m.references.as_deref(), Some("<r0@x>"));
    assert_eq!(m.sent_at, 1_700_000_000_000);
    assert_eq!(m.delivered_at, 1_700_000_000_000);
    assert_eq!(m.created_at, NOW);
    assert_eq!(m.to_emails.len(), 2);
    assert_eq!(m.to_emails[0].email, "me@example.com");
    assert_eq!(m.to_emails[1].email, "bob@corp.com");
    assert_eq!(m.to_emails[1].name.as_deref(), Some("Bob"));
    assert_eq!(m.cc_emails.len(), 1);
    assert_eq!(m.bcc_emails.len(), 0);
    assert_eq!(m.body_text.as_deref(), Some("  The body of the message.  \r\n"));
    assert_eq!(m.body_html, None);
    assert_eq!(m.snippet.as_deref(), Some("The body of the message."));
    assert!(!m.has_attachments);
    assert_eq!(m.attachment_count, 0);

    let c = &s.db.conversations[0];
    assert_eq!(m.conversation_id, c.id);
    assert_eq!(c.user_id, USER);
    assert_eq!(c.subject, "Quarterly numbers");
    assert_eq!(c.thread_id.as_deref(), Some("<m1@x>"));
    assert_eq!(c.message_count, 1);
    assert_eq!(c.unread_count, 1);
    assert!(!c.is_read);
    assert!(!c.is_archived);
    assert_eq!(c.latest_message_at, 1_700_000_000_000);
    assert_eq!(c.snippet.as_deref(), Some("The body of the message."));
    let roles: Vec<(&str, &str)> =
        c.participants.iter().map(|p| (p.role.as_str(), p.email.as_str())).collect();
    assert_eq!(
        roles,
        vec![
            ("from", "ann@corp.com"),
            ("to", "me@example.com"),
            ("to", "bob@corp.com"),
            ("cc", "carol@corp.com"),
        ]
    );
}

#[test]
fn a_message_without_date_or_subject_gets_defaults() {
    let mut s = service();
    let outcome = fetched(vec![item(1, &mail(&[("From", "ann@corp.com")], "x"), false)]);
    s.sync_user_emails(USER, &outcome, NOW).unwrap();
    let m = &s.db.messages[0];
    assert_eq!(m.subject, "(no subject)");
    assert_eq!(m.sent_at, NOW);
    assert_eq!(m.message_id_header, None);
    assert_eq!(s.db.conversations[0].thread_id.as_deref(), Some("subject:(no subject)"));
}

#[test]
fn a_message_from_the_account_is_sent_and_never_unread() {
    let mut s = service();
    let outcome = fetched(vec![item(
        1,
        &plain("<s@x>", "Me <ME@Example.com>", "Outbound", "text"),
        false,
    )]);
    s.sync_user_emails(USER, &outcome, NOW).unwrap();
    assert_eq!(s.db.messages[0].direction, Direction::Sent);
    assert!(s.db.messages[0].is_from_me);
    assert_eq!(s.db.conversations[0].unread_count, 0);
    assert!(s.db.conversations[0].is_read);
}

#[test]
fn syncing_again_stores_nothing_twice() {
    let mut s = service();
    let items = || {
        fetched(vec![
            item(1, &plain("<a@x>", "ann@corp.com", "Hello", "one"), false),
            item(2, &plain("<b@x>", "ann@corp.com", "Re: Hello", "two"), false),
        ])
    };
    let first = s.sync_user_emails(USER, &items(), NOW).unwrap();
    assert_eq!(first.processed_count, 2);
    for _ in 0..3 {
        let again = s.sync_user_emails(USER, &items(), NOW + 1).unwrap();
        assert_eq!(again, SyncResult { processed_count: 0, last_uid: None });
        assert_eq!(s.db.credentials[0].sync_cursor, Some(2));
    }
    assert_eq!(s.db.messages.len(), 2);
    let with_a =
        s.db.messages.iter().filter(|m| m.message_id_header.as_deref() == Some("<a@x>")).count();
    assert_eq!(with_a, 1);
}

#[test]
fn two_sweeps_without_new_mail_change_nothing_that_counts() {
    let mut s = service();
    // A mailbox answers a range that starts after its last message with that
    // last message.
    let last = plain("<b@x>", "ann@corp.com", "Hello", "two");
    let first = fetched(vec![
        item(1, &plain("<a@x>", "ann@corp.com", "Hello", "one"), false),
        item(2, &last, false),
    ]);
    s.sync_user_emails(USER, &first, NOW).unwrap();
    let cursor = s.db.credentials[0].sync_cursor;
    let messages = s.db.messages.len();
    let unread: Vec<i32> = s.db.conversations.iter().map(|c| c.unread_count).collect();
    let counts: Vec<i32> = s.db.conversations.iter().map(|c| c.message_count).collect();
    for round in 0..2 {
        let sessions = vec![UserSession {
            user_id: USER,
            outcome: fetched(vec![item(2, &last, false)]),
        }];
        let reports = s.sync_all_users(&sessions, NOW + 10 + round);
        assert_eq!(reports.len(), 1);
        assert_eq!(reports[0].result.as_ref().unwrap().processed_count, 0);
        assert_eq!(s.db.credentials[0].sync_cursor, cursor);
        assert_eq!(s.db.messages.len(), messages);
        let unread_now: Vec<i32> = s.db.conversations.iter().map(|c| c.unread_count).collect();
        let counts_now: Vec<i32> = s.db.conversations.iter().map(|c| c.message_count).collect();
        assert_eq!(unread_now, unread);
        assert_eq!(counts_now, counts);
    }
}

#[test]
fn an_empty_fetch_keeps_the_cursor() {
    let mut s = service();
    s.db.credentials[0].sync_cursor = Some(41);
    let r = s.sync_user_emails(USER, &fetched(vec![]), NOW).unwrap();
    assert_eq!(r, SyncResult { processed_count: 0, last_uid: None });
    assert_eq!(s.db.credentials[0].sync_cursor, Some(41));
    assert_eq!(s.db.credentials[0].sync_status, SyncStatus::Connected);
}

#[test]
fn the_cursor_is_the_highest_sequence_number_even_out_of_order() {
    let mut s = service();
    let outcome = fetched(vec![
        item(9, &plain("<a@x>", "ann@corp.com", "A", "one"), false),
        item(4, &plain("<b@x>", "ann@corp.com", "B", "two"), false),
        item(6, &plain("<c@x>", "ann@corp.com", "C", "three"), false),
    ]);
    let r = s.sync_user_emails(USER, &outcome, NOW).unwrap();
    assert_eq!(r.last_uid, Some(9));
    assert_eq!(s.db.credentials[0].sync_cursor, Some(9));
}

#[test]
fn a_reply_that_arrives_before_its_parent_shares_the_conversation() {
    let mut s = service();
    let reply = mail(
        &[
            ("Message-ID", "<b@x>"),
            ("In-Reply-To", "<a@x>"),
            ("From", "ann@corp.com"),
            ("Subject", "Re: Plans"),
        ],
        "the reply",
    );
    let parent = mail(
        &[("Message-ID", "<a@x>"), ("From", "bob@corp.com"), ("Subject", "Plans")],
        "the parent",
    );
    let outcome = fetched(vec![item(1, &reply, false), item(2, &parent, false)]);
    let r = s.sync_user_emails(USER, &outcome, NOW).unwrap();
    assert_eq!(r.processed_count, 2);
    assert_eq!(s.db.conversations.len(), 1);
    assert_eq!(s.db.conversations[0].thread_id.as_deref(), Some("<a@x>"));
    assert_eq!(s.db.conversations[0].message_count, 2);
    assert_eq!(s.db.messages[0].conversation_id, s.db.messages[1].conversation_id);
}

#[test]
fn unread_count_counts_received_unread_messages() {
    let mut s = service();
    let mut items = Vec::new();
    let mut uid = 0;
    // Three received and unread, two received and read, one sent.
    for (n, seen, from) in [
        (0, false, "ann@corp.com"),
        (1, true, "ann@corp.com"),
        (2, false, "ann@corp.com"),
        (3, true, "ann@corp.com"),
        (4, false, "ann@corp.com"),
        (5, false, "me@example.com"),
    ] {
        uid += 1;
        let raw = mail(
            &[
                ("Message-ID", &format!("<m{}@x>", n)),
                ("In-Reply-To", "<root@x>"),
                ("From", from),
                ("Subject", "Thread"),
            ],
            "body",
        );
        items.push(item(uid, &raw, seen));
    }
    s.sync_user_emails(USER, &fetched(items), NOW).unwrap();
    assert_eq!(s.db.conversations.len(), 1);
    let c = &s.db.conversations[0];
    assert_eq!(c.unread_count, 3);
    assert_eq!(c.message_count, 6);
    assert!(!c.is_read);
}

#[test]
fn a_failed_session_is_recorded_and_keeps_the_cursor() {
    let mut s = service();
    s.db.credentials[0].sync_cursor = Some(5);
    s.db.credentials[0].last_synced_at = Some(77);
    let outcome =
        SessionOutcome::Failed(MailError::Connection("TCP connect error: refused".to_string()));
    let r = s.sync_user_emails(USER, &outcome, NOW);
    match r {
        Err(MailError::Connection(text)) => assert_eq!(text, "TCP connect error: refused"),
        other => panic!("unexpected {:?}", other),
    }
    let c = &s.db.credentials[0];
    assert_eq!(c.sync_cursor, Some(5));
    assert_eq!(c.sync_status, SyncStatus::Error);
    assert_eq!(c.last_sync_error.as_deref(), Some("TCP connect error: refused"));
    assert_eq!(c.last_sync_attempt_at, Some(NOW));
    assert_eq!(c.last_synced_at, Some(77));
}

#[test]
fn a_failure_in_the_middle_keeps_what_was_stored_but_not_the_cursor() {
    let mut s = service();
    let outcome = fetched(vec![
        item(1, &plain("<a@x>", "ann@corp.com", "A", "one"), false),
        FetchItem::Message(FetchedMessage { uid: None, body: None, seen: false }),
        item(3, &plain("<c@x>", "ann@corp.com", "C", "three"), false),
    ]);
    let r = s.sync_user_emails(USER, &outcome, NOW);
    match r {
        Err(MailError::Protocol(text)) => assert_eq!(text, "Missing UID on message"),
        other => panic!("unexpected {:?}", other),
    }
    assert_eq!(s.db.messages.len(), 1);
    assert_eq!(s.db.credentials[0].sync_cursor, None);
    assert_eq!(s.db.credentials[0].sync_status, SyncStatus::Error);
    assert_eq!(s.db.credentials[0].last_sync_error.as_deref(), Some("Missing UID on message"));
}

#[test]
fn each_kind_of_bad_item_ends_the_run_with_its_error() {
    let mut s = service();
    let no_body = fetched(vec![FetchItem::Message(FetchedMessage {
        uid: Some(1),
        body: None,
        seen: false,
    })]);
    match s.sync_user_emails(USER, &no_body, NOW) {
        Err(MailError::Protocol(text)) => assert_eq!(text, "Missing message body"),
        other => panic!("unexpected {:?}", other),
    }
    let failure = fetched(vec![FetchItem::Failure("connection reset".to_string())]);
    match s.sync_user_emails(USER, &failure, NOW) {
        Err(MailError::Protocol(text)) => assert_eq!(text, "connection reset"),
        other => panic!("unexpected {:?}", other),
    }
    // A header block that ends in a lone carriage return does not parse.
    let unparseable = fetched(vec![FetchItem::Message(FetchedMessage {
        uid: Some(1),
        body: Some(b"Subject: x\r\n\rbroken".to_vec()),
        seen: false,
    })]);
    match s.sync_user_emails(USER, &unparseable, NOW) {
        Err(MailError::Parse(_)) => {}
        other => panic!("unexpected {:?}", other),
    }
    assert_eq!(s.db.messages.len(), 0);
}

#[test]
fn a_failed_logout_fails_the_sync_after_the_messages_are_stored() {
    let mut s = service();
    let outcome = SessionOutcome::Fetched {
        items: vec![item(1, &plain("<a@x>", "ann@corp.com", "A", "one"), false)],
        logout_error: Some("Logout error: bye".to_string()),
    };
    match s.sync_user_emails(USER, &outcome, NOW) {
        Err(MailError::Protocol(text)) => assert_eq!(text, "Logout error: bye"),
        other => panic!("unexpected {:?}", other),
    }
    assert_eq!(s.db.messages.len(), 1);
    assert_eq!(s.db.credentials[0].sync_cursor, None);
    assert_eq!(s.db.credentials[0].sync_status, SyncStatus::Error);
}

#[test]
fn a_user_without_account_cannot_sync() {
    let mut s = service();
    let r = s.sync_user_emails(OTHER, &fetched(vec![]), NOW);
    assert!(matches!(r, Err(MailError::MissingCredentials)));
    assert!(matches!(s.plan_sync(OTHER), Err(MailError::MissingCredentials)));
    assert_eq!(s.db.credentials[0].sync_status, SyncStatus::NeverSynced);
}

#[test]
fn one_failing_account_does_not_stop_the_sweep() {
    let vault = EncryptionService::new(KEY).unwrap();
    let mut db = MailStore::new();
    db.credentials.push(account(USER, "me@example.com", &vault));
    db.credentials.push(account(OTHER, "you@example.com", &vault));
    db.credentials.push(account(3, "third@example.com", &vault));
    let mut s = ImapService::new(db, vault);
    let sessions = vec![
        UserSession {
            user_id: USER,
            outcome: fetched(vec![item(1, &plain("<a@x>", "ann@corp.com", "A", "one"), false)]),
        },
        UserSession {
            user_id: OTHER,
            outcome: SessionOutcome::Failed(MailError::Authentication(
                "IMAP login error: no".to_string(),
            )),
        },
        UserSession {
            user_id: 3,
            outcome: fetched(vec![item(5, &plain("<c@x>", "ann@corp.com", "C", "three"), false)]),
        },
    ];
    let reports = s.sync_all_users(&sessions, NOW);
    assert_eq!(reports.len(), 3);
    assert_eq!(reports[0].user_id, USER);
    assert!(reports[0].result.is_ok());
    assert_eq!(reports[1].user_id, OTHER);
    assert!(matches!(reports[1].result, Err(MailError::Authentication(_))));
    assert_eq!(reports[2].user_id, 3);
    assert_eq!(reports[2].result.as_ref().unwrap().last_uid, Some(5));
    assert_eq!(s.db.credentials[0].sync_status, SyncStatus::Connected);
    assert_eq!(s.db.credentials[1].sync_status, SyncStatus::Error);
    assert_eq!(s.db.credentials[2].sync_status, SyncStatus::Connected);
    assert_eq!(s.db.credentials[2].sync_cursor, Some(5));
    assert_eq!(s.db.messages.len(), 2);
}

#[test]
fn the_sweep_plans_only_enabled_accounts() {
    let vault = EncryptionService::new(KEY).unwrap();
    let mut db = MailStore::new();
    db.credentials.push(account(USER, "me@example.com", &vault));
    let mut disabled = account(OTHER, "you@example.com", &vault);
    disabled.sync_enabled = false;
    db.credentials.push(disabled);
    let mut broken = account(3, "third@example.com", &vault);
    broken.nonce = "AAAA".to_string();
    db.credentials.push(broken);
    let s = ImapService::new(db, vault);
    let plan = s.plan_sweep();
    assert_eq!(plan.len(), 2);
    assert_eq!(plan[0].user_id, USER);
    assert!(plan[0].plan.is_ok());
    assert_eq!(plan[1].user_id, 3);
    assert!(matches!(plan[1].plan, Err(MailError::Decryption(VaultError::InvalidNonce))));
}

#[test]
fn the_plan_opens_the_secret_and_names_the_range() {
    let mut s = service();
    let plan = s.plan_sync(USER).unwrap();
    assert_eq!(plan.email, "me@example.com");
    assert_eq!(plan.password, "mail-secret");
    assert_eq!(plan.imap_host, "imap.example.com");
    assert_eq!(plan.imap_port, 993);
    assert_eq!(plan.fetch_range, "1:*");
    s.db.credentials[0].sync_cursor = Some(5);
    assert_eq!(s.plan_sync(USER).unwrap().fetch_range, "6:*");
}

#[test]
fn the_range_starts_after_the_cursor() {
    assert_eq!(fetch_range(None), "1:*");
    assert_eq!(fetch_range(Some(0)), "1:*");
    assert_eq!(fetch_range(Some(1)), "2:*");
    assert_eq!(fetch_range(Some(9)), "10:*");
    assert_eq!(fetch_range(Some(1234567)), "1234568:*");
    assert_eq!(fetch_range(Some(u32::MAX - 1)), "4294967295:*");
    assert_eq!(fetch_range(Some(u32::MAX)), "4294967295:*");
}

#[test]
fn a_known_contact_links_the_conversation_to_its_startup() {
    let mut s = service();
    s.db.contacts.push(contact::Model {
        id: 50,
        startup_id: 900,
        name: "Bob".to_string(),
        role: "CTO".to_string(),
        email: Some("bob@corp.com".to_string()),
        phone: None,
        linkedin_url: None,
        is_primary: true,
        notes: None,
        is_trashed: false,
        owner_id: None,
    });
    let raw = mail(
        &[
            ("Message-ID", "<a@x>"),
            ("From", "me@example.com"),
            ("To", "stranger@else.com, Bob <BOB@corp.com>"),
            ("Subject", "Intro"),
        ],
        "hello",
    );
    s.sync_user_emails(USER, &fetched(vec![item(1, &raw, true)]), NOW).unwrap();
    assert_eq!(s.db.conversations[0].startup_id, Some(900));
    let raw = mail(&[("Message-ID", "<b@x>"), ("From", "nobody@else.com"), ("Subject", "Cold")], "x");
    s.sync_user_emails(USER, &fetched(vec![item(2, &raw, true)]), NOW).unwrap();
    assert_eq!(s.db.conversations[1].startup_id, None);
}

#[test]
fn group_addresses_are_flattened() {
    let mut s = service();
    let raw = mail(
        &[
            ("Message-ID", "<g@x>"),
            ("From", "ann@corp.com"),
            ("To", "dave@corp.com, Team: bob@corp.com, Carol <carol@corp.com>;"),
            ("Subject", "Group"),
        ],
        "x",
    );
    s.sync_user_emails(USER, &fetched(vec![item(1, &raw, true)]), NOW).unwrap();
    let to: Vec<&str> = s.db.messages[0].to_emails.iter().map(|a| a.email.as_str()).collect();
    assert_eq!(to, vec!["dave@corp.com", "bob@corp.com", "carol@corp.com"]);
}

#[test]
fn an_address_header_that_does_not_parse_gives_no_address() {
    let mut s = service();
    let raw = mail(
        &[("Message-ID", "<g@x>"), ("From", "\"unterminated <ann@corp.com"), ("Subject", "Odd")],
        "x",
    );
    s.sync_user_emails(USER, &fetched(vec![item(1, &raw, true)]), NOW).unwrap();
    assert_eq!(s.db.messages[0].sender_email, "");
    assert_eq!(s.db.messages[0].sender_name, None);
}

#[test]
fn the_store_stays_well_formed_through_syncs() {
    let mut s = service();
    let outcome = fetched(vec![
        item(1, &plain("<a@x>", "ann@corp.com", "A", "one"), false),
        item(2, &plain("<a@x>", "ann@corp.com", "A", "one again"), false),
        item(3, &plain("<b@x>", "ann@corp.com", "B", "two"), false),
    ]);
    let r = s.sync_user_emails(USER, &outcome, NOW).unwrap();
    // The second item repeats the message id of the first and is passed over.
    assert_eq!(r.processed_count, 2);
    let mut ids: Vec<u128> = s.db.messages.iter().map(|m| m.id).collect();
    ids.sort();
    ids.dedup();
    assert_eq!(ids.len(), s.db.messages.len());
    let mut headers: Vec<&str> =
        s.db.messages.iter().filter_map(|m| m.message_id_header.as_deref()).collect();
    headers.sort();
    headers.dedup();
    assert_eq!(headers.len(), 2);
    assert!(s.db.is_well_formed());
}

#[test]
fn a_store_that_breaks_its_invariant_is_found_out() {
    let mut s = service();
    assert!(s.db.is_well_formed());
    let outcome = fetched(vec![
        item(1, &plain("<a@x>", "ann@corp.com", "A", "one"), false),
        item(2, &plain("<b@x>", "ann@corp.com", "B", "two"), false),
    ]);
    s.sync_user_emails(USER, &outcome, NOW).unwrap();
    assert!(s.db.is_well_formed());

    // Two messages under one message id.
    let header = s.db.messages[0].message_id_header.clone();
    let kept = std::mem::replace(&mut s.db.messages[1].message_id_header, header);
    assert!(!s.db.is_well_formed());
    s.db.messages[1].message_id_header = kept;
    assert!(s.db.is_well_formed());

    // Two messages under one identifier.
    let id = s.db.messages[1].id;
    s.db.messages[1].id = s.db.messages[0].id;
    assert!(!s.db.is_well_formed());
    s.db.messages[1].id = id;

    // Two conversations of one user for one thread.
    let thread = s.db.conversations[0].thread_id.clone();
    let kept = std::mem::replace(&mut s.db.conversations[1].thread_id, thread);
    assert!(!s.db.is_well_formed());
    s.db.conversations[1].user_id = OTHER;
    assert!(s.db.is_well_formed());
    s.db.conversations[1].user_id = USER;
    s.db.conversations[1].thread_id = kept;

    // A negative counter.
    s.db.conversations[0].unread_count = -1;
    assert!(!s.db.is_well_formed());
    s.db.conversations[0].unread_count = 0;

    // Two accounts of one user.
    let vault = EncryptionService::new(KEY).unwrap();
    s.db.credentials.push(account(USER, "again@example.com", &vault));
    assert!(!s.db.is_well_formed());
    s.db.credentials.pop();
    assert!(s.db.is_well_formed());
}

#[test]
fn a_replayed_message_without_message_id_is_not_stored_again() {
    let mut s = service();
    let bare = mail(&[("From", "ann@corp.com"), ("Subject", "Hello")], "no id here");
    let first = s.sync_user_emails(USER, &fetched(vec![item(5, &bare, false)]), NOW).unwrap();
    assert_eq!(first, SyncResult { processed_count: 1, last_uid: Some(5) });
    assert_eq!(s.db.credentials[0].sync_cursor, Some(5));
    // The mailbox answers the range after the cursor with its last message.
    for round in 0..3 {
        let again = s.sync_user_emails(USER, &fetched(vec![item(5, &bare, false)]), NOW + round).unwrap();
        assert_eq!(again, SyncResult { processed_count: 0, last_uid: None });
        assert_eq!(s.db.messages.len(), 1);
        assert_eq!(s.db.conversations.len(), 1);
        assert_eq!(s.db.conversations[0].message_count, 1);
        assert_eq!(s.db.conversations[0].unread_count, 1);
        assert_eq!(s.db.credentials[0].sync_cursor, Some(5));
    }
}

#[test]
fn the_cursor_never_moves_back() {
    let mut s = service();
    s.db.credentials[0].sync_cursor = Some(41);
    let outcome = fetched(vec![
        item(3, &plain("<old@x>", "ann@corp.com", "Old", "one"), false),
        item(41, &plain("<last@x>", "ann@corp.com", "Last", "two"), false),
    ]);
    let r = s.sync_user_emails(USER, &outcome, NOW).unwrap();
    assert_eq!(r, SyncResult { processed_count: 0, last_uid: None });
    assert_eq!(s.db.credentials[0].sync_cursor, Some(41));
    assert_eq!(s.db.messages.len(), 0);

    let outcome = fetched(vec![
        item(40, &plain("<older@x>", "ann@corp.com", "Older", "one"), false),
        item(42, &plain("<new@x>", "ann@corp.com", "New", "two"), false),
    ]);
    let r = s.sync_user_emails(USER, &outcome, NOW).unwrap();
    assert_eq!(r, SyncResult { processed_count: 1, last_uid: Some(42) });
    assert_eq!(s.db.credentials[0].sync_cursor, Some(42));
    assert_eq!(s.db.messages.len(), 1);
    assert_eq!(s.db.messages[0].message_id_header.as_deref(), Some("<new@x>"));
}

#[test]
fn a_sweep_of_several_accounts_without_new_mail_changes_no_count() {
    let mut s = service();
    let vault = EncryptionService::new(KEY).unwrap();
    s.db.credentials.push(account(OTHER, "you@example.com", &vault));
    let mine = mail(&[("From", "ann@corp.com"), ("Subject", "Mine")], "one");
    let yours = mail(&[("From", "bob@corp.com"), ("Subject", "Yours")], "two");
    let opening = vec![
        UserSession { user_id: USER, outcome: fetched(vec![item(3, &mine, false)]) },
        UserSession { user_id: OTHER, outcome: fetched(vec![item(8, &yours, true)]) },
    ];
    s.sync_all_users(&opening, NOW);
    assert_eq!(s.db.messages.len(), 2);
    assert_eq!(s.db.conversations.len(), 2);
    let cursors: Vec<Option<u32>> = s.db.credentials.iter().map(|c| c.sync_cursor).collect();
    assert_eq!(cursors, vec![Some(3), Some(8)]);
    let counts: Vec<(i32, i32, bool)> =
        s.db.conversations.iter().map(|c| (c.message_count, c.unread_count, c.is_read)).collect();
    assert_eq!(counts, vec![(1, 1, false), (1, 0, true)]);
    for round in 0..2 {
        let replay = vec![
            UserSession { user_id: USER, outcome: fetched(vec![item(3, &mine, false)]) },
            UserSession { user_id: OTHER, outcome: fetched(vec![item(8, &yours, true)]) },
        ];
        let reports = s.sync_all_users(&replay, NOW + 1 + round);
        assert_eq!(reports.len(), 2);
        for report in &reports {
            assert_eq!(
                *report.result.as_ref().unwrap(),
                SyncResult { processed_count: 0, last_uid: None }
            );
        }
        assert_eq!(s.db.messages.len(), 2);
        assert_eq!(s.db.conversations.len(), 2);
        let cursors_now: Vec<Option<u32>> = s.db.credentials.iter().map(|c| c.sync_cursor).collect();
        assert_eq!(cursors_now, cursors);
        let counts_now: Vec<(i32, i32, bool)> =
            s.db.conversations.iter().map(|c| (c.message_count, c.unread_count, c.is_read)).collect();
        assert_eq!(counts_now, counts);
    }
}

#[test]
fn an_older_message_does_not_move_the_latest_instant_back() {
    let mut s = service();
    let newer = mail(
        &[("Message-ID", "<n@x>"), ("From", "ann@corp.com"), ("Subject", "Hello"), ("Date", "Tue, 14 Nov 2023 22:13:20 +0000")],
        "newer",
    );
    let older = mail(
        &[("Message-ID", "<o@x>"), ("In-Reply-To", "<n@x>"), ("From", "ann@corp.com"), ("Subject", "Re: Hello"), ("Date", "Mon, 13 Nov 2023 22:13:20 +0000")],
        "older",
    );
    s.sync_user_emails(USER, &fetched(vec![item(1, &newer, false), item(2, &older, false)]), NOW).unwrap();
    assert_eq!(s.db.conversations.len(), 1);
    assert_eq!(s.db.conversations[0].message_count, 2);
    assert_eq!(s.db.conversations[0].latest_message_at, 1_700_000_000_000);
}

#[test]
fn subjects_without_ids_meet_in_one_conversation_whatever_their_case_and_markers() {
    let mut s = service();
    let subjects = ["Hello", "Re: Hello", "RE: HELLO", "Re: Fwd: Re: Hello", "  fwd:re:hello  "];
    let mut items = vec![];
    for (k, subject) in subjects.iter().enumerate() {
        let raw = mail(&[("From", "ann@corp.com"), ("Subject", subject)], "text");
        items.push(item(k as u32 + 1, &raw, false));
    }
    let r = s.sync_user_emails(USER, &fetched(items), NOW).unwrap();
    assert_eq!(r.processed_count, 5);
    assert_eq!(s.db.conversations.len(), 1);
    assert_eq!(s.db.conversations[0].thread_id.as_deref(), Some("subject:hello"));
    assert_eq!(s.db.conversations[0].message_count, 5);
}
