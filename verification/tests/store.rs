use mail_engine::conversations_controller::{save_email_config, store_email_config, EmailConfig};
use mail_engine::email_service::{event_to_status, DeliveryEvent};
use mail_engine::entities::conversation::Participant;
use mail_engine::entities::email_credential::SyncStatus;
use mail_engine::entities::message::Direction;
use mail_engine::services::encryption_service::EncryptionService;
use mail_engine::services::error::MailError;
use mail_engine::services::imap_service::{FetchItem, FetchedMessage, ImapService, SyncResult};
use mail_engine::services::persistence::{fresh_ids, NewIds};
use mail_engine::services::preparation::{parse_addresses, parse_message, participants_json};
use mail_engine::services::store::{MailStore, StoreError};

const KEY: &str = "000102030405060708090a0b0c0d0e0f101112131415161718191a1b1c1d1e1f";
const NOW: i64 = 1_700_000_000_000;

fn service() -> ImapService {
    ImapService::new(MailStore::new(), EncryptionService::new(KEY).unwrap())
}

fn config(email: &str, password: &str) -> EmailConfig {
    EmailConfig {
        email: email.to_string(),
        password: password.to_string(),
        imap_host: "imap.example.com".to_string(),
        imap_port: 993,
        smtp_host: "smtp.example.com".to_string(),
        smtp_port: 587,
        provider_settings_id: Some(4),
    }
}

#[test]
fn saving_settings_creates_one_account_and_then_updates_it() {
    let vault = EncryptionService::new(KEY).unwrap();
    let mut db = MailStore::new();
    assert_eq!(save_email_config(&mut db, &vault, 1, config("me@example.com", "first"), 50, NOW), Ok(()));
    assert_eq!(db.credentials.len(), 1);
    let c = &db.credentials[0];
    assert_eq!((c.id, c.user_id), (50, 1));
    assert_eq!(c.email, "me@example.com");
    assert_eq!(c.sync_status, SyncStatus::Connected);
    assert!(c.sync_enabled);
    assert_eq!(c.sync_cursor, None);
    assert_eq!(c.last_synced_at, None);
    assert_eq!(c.last_sync_attempt_at, Some(NOW));
    assert_eq!(c.provider_settings_id, Some(4));
    assert_eq!((c.created_at, c.updated_at), (NOW, NOW));
    assert_ne!(c.encrypted_password, "first");
    assert_eq!(vault.decrypt(&c.encrypted_password, &c.nonce), Ok("first".to_string()));

    db.credentials[0].sync_cursor = Some(9);
    db.credentials[0].sync_status = SyncStatus::Error;
    db.credentials[0].last_sync_error = Some("boom".to_string());
    assert_eq!(save_email_config(&mut db, &vault, 1, config("new@example.com", "second"), 51, NOW + 1), Ok(()));
    assert_eq!(db.credentials.len(), 1);
    let c = &db.credentials[0];
    assert_eq!(c.id, 50);
    assert_eq!(c.email, "new@example.com");
    assert_eq!(c.sync_status, SyncStatus::Connected);
    assert_eq!(c.sync_cursor, Some(9));
    assert_eq!(c.last_sync_error.as_deref(), Some("boom"));
    assert_eq!((c.created_at, c.updated_at), (NOW, NOW + 1));
    assert_eq!(vault.decrypt(&c.encrypted_password, &c.nonce), Ok("second".to_string()));

    assert_eq!(save_email_config(&mut db, &vault, 2, config("you@example.com", "third"), 52, NOW), Ok(()));
    assert_eq!(db.credentials.len(), 2);
    assert_eq!(db.credentials[1].user_id, 2);
}

#[test]
fn each_delivery_event_has_its_status() {
    let all = [
        (DeliveryEvent::Bounced, "bounced"),
        (DeliveryEvent::Canceled, "canceled"),
        (DeliveryEvent::Clicked, "clicked"),
        (DeliveryEvent::Complained, "complained"),
        (DeliveryEvent::Delivered, "delivered"),
        (DeliveryEvent::DeliveryDelayed, "delivery-delayed"),
        (DeliveryEvent::Failed, "failed"),
        (DeliveryEvent::Opened, "opened"),
        (DeliveryEvent::Queued, "queued"),
        (DeliveryEvent::Scheduled, "scheduled"),
        (DeliveryEvent::Sent, "sent"),
    ];
    for (event, status) in all {
        assert_eq!(event_to_status(event), status);
    }
}

#[test]
fn stored_names_of_states_are_fixed() {
    assert_eq!(SyncStatus::Connected.as_str(), "connected");
    assert_eq!(SyncStatus::Error.as_str(), "error");
    assert_eq!(SyncStatus::NeverSynced.as_str(), "never-synced");
    assert_eq!(Direction::Sent.as_str(), "sent");
    assert_eq!(Direction::Received.as_str(), "received");
    assert_eq!(MailError::MissingCredentials.message(), "No email credentials found");
    assert_eq!(MailError::Persistence(StoreError::ConversationMissing).message(), "Conversation missing");
    assert_eq!(
        MailError::Persistence(StoreError::IdentifiersUnavailable).message(),
        "No random identifiers available"
    );
    assert_eq!(MailError::Parse("bad".to_string()).message(), "bad");
    assert_eq!(SyncResult::default(), SyncResult { processed_count: 0, last_uid: None });
}

#[test]
fn a_conversation_is_opened_once_for_a_thread() {
    let mut s = service();
    let nobody: Vec<Participant> = vec![];
    let first = s.ensure_conversation(10, 1, "Plans", &nobody, 5, Some(77), "<t@x>", NOW);
    assert_eq!(first, Ok(10));
    let again = s.ensure_conversation(11, 1, "Other subject", &nobody, 6, None, "<t@x>", NOW);
    assert_eq!(again, Ok(10));
    assert_eq!(s.db.conversations.len(), 1);
    // Another user has another conversation for the same thread.
    assert_eq!(s.ensure_conversation(11, 2, "Plans", &nobody, 5, None, "<t@x>", NOW), Ok(11));
    // A taken identifier is refused.
    assert_eq!(
        s.ensure_conversation(10, 1, "New", &nobody, 5, None, "<u@x>", NOW),
        Err(StoreError::DuplicateKey)
    );
    assert_eq!(s.db.conversations.len(), 2);
    let c = &s.db.conversations[0];
    assert_eq!(c.subject, "Plans");
    assert_eq!(c.thread_id.as_deref(), Some("<t@x>"));
    assert_eq!(c.startup_id, Some(77));
    assert_eq!((c.message_count, c.unread_count), (0, 0));
    assert!(c.is_read && !c.is_archived && !c.has_attachments);
    assert_eq!(c.latest_message_at, 5);
    assert_eq!((c.created_at, c.updated_at), (NOW, NOW));
}

#[test]
fn the_aggregate_follows_each_message() {
    let mut s = service();
    let nobody: Vec<Participant> = vec![];
    s.ensure_conversation(10, 1, "Plans", &nobody, 5, None, "<t@x>", NOW).unwrap();
    assert_eq!(s.update_conversation_state(10, 100, Some("one".to_string()), false, true, NOW + 1), Ok(()));
    assert_eq!(s.update_conversation_state(10, 90, None, true, false, NOW + 2), Ok(()));
    assert_eq!(s.db.conversations[0].latest_message_at, 100);
    assert_eq!(s.db.conversations[0].snippet, None);
    assert_eq!(s.update_conversation_state(10, 110, Some("three".to_string()), false, true, NOW + 3), Ok(()));
    let c = &s.db.conversations[0];
    assert_eq!((c.message_count, c.unread_count), (3, 2));
    assert!(!c.is_read);
    assert!(c.has_attachments);
    assert_eq!(c.latest_message_at, 110);
    assert_eq!(c.snippet.as_deref(), Some("three"));
    assert_eq!(c.updated_at, NOW + 3);
    assert_eq!(
        s.update_conversation_state(999, 1, None, false, false, NOW),
        Err(StoreError::ConversationMissing)
    );
    s.db.conversations[0].unread_count = i32::MAX;
    assert_eq!(
        s.update_conversation_state(10, 1, None, false, true, NOW),
        Err(StoreError::CounterOverflow)
    );
    assert_eq!(s.update_conversation_state(10, 1, None, false, false, NOW), Ok(()));
    assert_eq!(s.db.conversations[0].message_count, 4);
    assert!(!s.db.conversations[0].is_read);
}

#[test]
fn a_prepared_message_is_stored_under_the_identifiers_given() {
    let mut s = service();
    let raw = b"Message-ID: <a@x>\r\nFrom: ann@corp.com\r\nSubject: Files\r\nContent-Type: multipart/mixed; boundary=b\r\n\r\n--b\r\nContent-Type: text/plain\r\n\r\nhello\r\n--b\r\nContent-Type: application/pdf\r\nContent-Disposition: attachment; filename=a.pdf\r\n\r\nPDF\r\n--b\r\nContent-Type: image/png\r\nContent-Disposition: inline\r\nContent-ID: <i1>\r\n\r\nPNG\r\n--b--\r\n";
    let parts = parse_message(raw).unwrap();
    let prepared = s.prepare_message(1, "me@example.com", &parts, 3, false, NOW);
    assert_eq!(prepared.attachments.len(), 2);
    assert_eq!(prepared.thread_identifier, "<a@x>");
    let ids = NewIds { message: 500, conversation: 600, attachments: vec![701, 702, 703] };
    assert_eq!(s.persist_prepared(prepared, &ids, NOW), Ok(()));
    assert_eq!(s.db.messages[0].id, 500);
    assert_eq!(s.db.messages[0].conversation_id, 600);
    assert_eq!(s.db.messages[0].attachment_count, 2);
    assert!(s.db.messages[0].has_attachments);
    assert_eq!(s.db.conversations[0].id, 600);
    assert!(s.db.conversations[0].has_attachments);
    let stored: Vec<(u128, u128, &str)> =
        s.db.attachments.iter().map(|a| (a.id, a.message_id, a.file_name.as_str())).collect();
    assert_eq!(stored, vec![(701, 500, "a.pdf"), (702, 500, "attachment")]);
    assert_eq!(s.db.attachments[1].content_id.as_deref(), Some("i1"));
    assert_eq!(s.db.attachments[0].data, b"PDF".to_vec());

    // The same message again is refused by its message id, and nothing changes.
    let again = s.prepare_message(1, "me@example.com", &parts, 3, false, NOW);
    let other = NewIds { message: 501, conversation: 601, attachments: vec![711, 712] };
    assert_eq!(s.persist_prepared(again, &other, NOW), Err(StoreError::DuplicateMessageId));
    assert_eq!((s.db.messages.len(), s.db.attachments.len(), s.db.conversations.len()), (1, 2, 1));
    assert_eq!(s.db.conversations[0].message_count, 1);
}

#[test]
fn identifiers_that_are_taken_or_too_few_are_refused() {
    let mut s = service();
    let first = parse_message(b"Message-ID: <a@x>\r\nSubject: A\r\n\r\none").unwrap();
    let second = parse_message(b"Message-ID: <b@x>\r\nSubject: B\r\nContent-Type: application/zip\r\n\r\nPK").unwrap();
    let p = s.prepare_message(1, "me@example.com", &first, 1, true, NOW);
    let ids = NewIds { message: 1, conversation: 2, attachments: vec![] };
    assert_eq!(s.persist_prepared(p, &ids, NOW), Ok(()));
    let p = s.prepare_message(1, "me@example.com", &second, 2, true, NOW);
    let taken = NewIds { message: 1, conversation: 3, attachments: vec![9] };
    assert_eq!(s.persist_prepared(p, &taken, NOW), Err(StoreError::DuplicateKey));
    let p = s.prepare_message(1, "me@example.com", &second, 2, true, NOW);
    let taken = NewIds { message: 5, conversation: 2, attachments: vec![9] };
    assert_eq!(s.persist_prepared(p, &taken, NOW), Err(StoreError::DuplicateKey));
    let p = s.prepare_message(1, "me@example.com", &second, 2, true, NOW);
    let few = NewIds { message: 5, conversation: 3, attachments: vec![] };
    assert_eq!(s.persist_prepared(p, &few, NOW), Err(StoreError::MissingIds));
    assert_eq!(s.db.messages.len(), 1);
    let p = s.prepare_message(1, "me@example.com", &second, 2, true, NOW);
    let fine = NewIds { message: 5, conversation: 3, attachments: vec![9] };
    assert_eq!(s.persist_prepared(p, &fine, NOW), Ok(()));
    assert_eq!(s.db.messages.len(), 2);
}

#[test]
fn fresh_identifiers_come_in_the_number_asked_for() {
    let ids = fresh_ids(3).unwrap();
    assert_eq!(ids.attachments.len(), 3);
    let other = fresh_ids(0).unwrap();
    assert!(other.attachments.is_empty());
    assert_ne!(ids.message, other.message);
    assert_ne!(ids.message, ids.conversation);
}

#[test]
fn fresh_identifiers_are_random_identifiers_of_version_four() {
    let ids = fresh_ids(2).unwrap();
    let mut all = vec![ids.message, ids.conversation];
    all.extend(ids.attachments.iter().copied());
    for id in &all {
        assert_eq!((id >> 76) & 0xf, 4);
        assert_eq!((id >> 62) & 0x3, 2);
    }
    all.sort();
    all.dedup();
    assert_eq!(all.len(), 4);
}

#[test]
fn one_item_is_taken_at_a_time() {
    let mut s = service();
    let tally = SyncResult { processed_count: 4, last_uid: Some(9) };
    let item = FetchItem::Message(FetchedMessage {
        uid: Some(3),
        body: Some(b"Message-ID: <a@x>\r\nSubject: A\r\n\r\none".to_vec()),
        seen: false,
    });
    let next = s.process_item(1, "me@example.com", Some(2), &item, tally, NOW).unwrap();
    assert_eq!(next, SyncResult { processed_count: 5, last_uid: Some(9) });
    let again = s.process_item(1, "me@example.com", Some(2), &item, next, NOW).unwrap();
    assert_eq!(again, SyncResult { processed_count: 5, last_uid: Some(9) });
    let r = s.persist_message(1, "me@example.com", &parse_message(b"Subject: B\r\n\r\ntwo").unwrap(), 12, true, NOW);
    assert_eq!(r, Ok(()));
    assert_eq!(s.db.messages.len(), 2);
    assert!(s.message_exists(&parse_message(b"Message-ID: <a@x>\r\n\r\n").unwrap()));
    assert!(!s.message_exists(&parse_message(b"Message-ID: <z@x>\r\n\r\n").unwrap()));
    assert!(!s.message_exists(&parse_message(b"Subject: no id\r\n\r\n").unwrap()));
}

#[test]
fn addresses_are_read_lower_cased_under_their_roles() {
    let from = parse_addresses(Some("Ann Lee <Ann.Lee@Corp.COM>".to_string()));
    assert_eq!(from.len(), 1);
    assert_eq!(from[0].email, "ann.lee@corp.com");
    assert_eq!(from[0].name.as_deref(), Some("Ann Lee"));
    assert!(parse_addresses(None).is_empty());
    assert!(parse_addresses(Some(String::new())).is_empty());
    let to = parse_addresses(Some("b@x.co, c@x.co".to_string()));
    let list = participants_json(&from, &to, &Vec::new(), &from);
    let roles: Vec<(&str, &str)> = list.iter().map(|p| (p.role.as_str(), p.email.as_str())).collect();
    assert_eq!(
        roles,
        vec![
            ("from", "ann.lee@corp.com"),
            ("to", "b@x.co"),
            ("to", "c@x.co"),
            ("bcc", "ann.lee@corp.com"),
        ]
    );
    assert_eq!(list[0].name.as_deref(), Some("Ann Lee"));
}

#[test]
fn an_item_that_does_not_lie_beyond_the_cursor_is_passed_over() {
    let mut s = service();
    let tally = SyncResult { processed_count: 0, last_uid: None };
    let item = FetchItem::Message(FetchedMessage {
        uid: Some(7),
        body: Some(b"Subject: no id\r\n\r\nbody".to_vec()),
        seen: false,
    });
    for cursor in [Some(7), Some(8), Some(u32::MAX)] {
        assert_eq!(s.process_item(1, "me@example.com", cursor, &item, tally, NOW).unwrap(), tally);
        assert_eq!(s.db.messages.len(), 0);
    }
    // Such an item is not looked at any further.
    let empty = FetchItem::Message(FetchedMessage { uid: Some(7), body: None, seen: false });
    assert_eq!(s.process_item(1, "me@example.com", Some(7), &empty, tally, NOW).unwrap(), tally);
    match s.process_item(1, "me@example.com", Some(6), &empty, tally, NOW) {
        Err(MailError::Protocol(text)) => assert_eq!(text, "Missing message body"),
        _ => panic!("a message without bytes beyond the cursor ends the run"),
    }
    // Beyond the cursor, or without one, the message is stored and counted.
    let stored = SyncResult { processed_count: 1, last_uid: Some(7) };
    assert_eq!(s.process_item(1, "me@example.com", Some(6), &item, tally, NOW).unwrap(), stored);
    assert_eq!(s.db.messages.len(), 1);
    let twice = SyncResult { processed_count: 2, last_uid: Some(7) };
    assert_eq!(s.process_item(1, "me@example.com", None, &item, stored, NOW).unwrap(), twice);
    assert_eq!(s.db.messages.len(), 2);
}

#[test]
fn settings_are_stored_with_the_sealed_secret_as_given() {
    let mut db = MailStore::new();
    store_email_config(&mut db, 1, config("me@example.com", "secret"), "c2VhbGVk".to_string(), "bm9uY2U=".to_string(), 50, NOW);
    assert_eq!(db.credentials.len(), 1);
    let c = &db.credentials[0];
    assert_eq!((c.id, c.user_id), (50, 1));
    assert_eq!(c.email, "me@example.com");
    assert_eq!((c.imap_host.as_str(), c.imap_port), ("imap.example.com", 993));
    assert_eq!((c.smtp_host.as_str(), c.smtp_port), ("smtp.example.com", 587));
    assert_eq!(c.encrypted_password, "c2VhbGVk");
    assert_eq!(c.nonce, "bm9uY2U=");
    assert_eq!(c.sync_status, SyncStatus::Connected);
    assert!(c.sync_enabled);
    assert_eq!((c.sync_cursor, c.last_synced_at, c.last_sync_attempt_at), (None, None, Some(NOW)));
    assert_eq!(c.last_sync_error, None);

    db.credentials[0].sync_cursor = Some(9);
    db.credentials[0].sync_enabled = false;
    store_email_config(&mut db, 1, config("new@example.com", "other"), "AAAA".to_string(), "BBBB".to_string(), 51, NOW + 5);
    assert_eq!(db.credentials.len(), 1);
    let c = &db.credentials[0];
    assert_eq!((c.id, c.user_id), (50, 1));
    assert_eq!(c.email, "new@example.com");
    assert_eq!((c.encrypted_password.as_str(), c.nonce.as_str()), ("AAAA", "BBBB"));
    assert_eq!(c.sync_cursor, Some(9));
    assert!(!c.sync_enabled);
    assert_eq!((c.created_at, c.updated_at), (NOW, NOW + 5));
    assert!(db.is_well_formed());
}
