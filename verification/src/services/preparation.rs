//! What is derived from a fetched message before anything is stored: its
//! addresses, its participants, its bodies and its thread.

use crate::entities::conversation::{Participant, ParticipantView};
use crate::entities::message::{Direction, ParsedAddress, ParsedAddressView};
use crate::entities::{contact, message};
use crate::services::error::{MailError, MailErrorView};
use crate::services::imap_service::ImapService;
use crate::services::mime::{
    extract_bodies, extract_spec, first_value_spec, header_value, message_headers,
    AttachmentPart, AttachmentPartView, Header, MimePart,
};
use crate::services::store::{
    any, contact_has_email, first_index, message_has_header, MailStoreView,
};
use crate::services::threading::{
    clean_subject, clean_subject_spec, derive_thread_identifier, preview_spec,
    thread_identifier_spec, truncate_preview,
};
use crate::text::{eq_ignore_ascii_case, eq_ignore_ascii_case_spec, lower, lower_spec};
use vstd::prelude::*;

verus! {

/// One mailbox of an address header: a display name and an address.
pub struct AddressInfo {
    pub display_name: Option<String>,
    pub addr: String,
}

/// One entry of an address header: a single mailbox, or a named group of
/// mailboxes.
pub enum MailAddrEntry {
    Single(AddressInfo),
    Group(Vec<AddressInfo>),
}

/// Name for what `parse_mail` of the `mailparse` crate makes of the bytes of
/// a message: the nodes of its tree in the order of `ParsedMail::parts`, each
/// taken as a [`MimePart`]; or, where it rejects the bytes, the words of its
/// error.
pub uninterp spec fn parsed_mail(raw: Seq<u8>) -> Result<Seq<MimePart>, Seq<char>>;

/// Name for what `addrparse` of the `mailparse` crate makes of the value of
/// an address header, or nothing where it rejects the value.
pub uninterp spec fn parsed_address_list(header: Seq<char>) -> Option<Seq<MailAddrEntry>>;

/// Name for the instant that `DateTime::parse_from_rfc2822` of the `chrono`
/// crate reads from a date header, in milliseconds since the Unix epoch, or
/// nothing where it rejects the text.
pub uninterp spec fn rfc2822_millis(text: Seq<char>) -> Option<i64>;

/// Calls `parse_mail` of `mailparse` and walks the tree with
/// `ParsedMail::parts`, which yields each node before the nodes nested in
/// it. Of each node it takes the media type, the text that `get_body`
/// decodes and the bytes that `get_body_raw` decodes (each missing where the
/// call fails), the content disposition with its parameters, the headers by
/// `get_key` and `get_value`, and the number of its subparts. The result is known to contracts only
/// under the name [`parsed_mail`].
#[verifier::external_body]
pub(crate) fn parse_mail(raw: &[u8]) -> (r: Result<Vec<MimePart>, String>)
    ensures
        match r {
            Ok(parts) => parsed_mail(raw@) == Ok::<Seq<MimePart>, Seq<char>>(parts@),
            Err(text) => parsed_mail(raw@) == Err::<Seq<MimePart>, Seq<char>>(text@),
        },
{
    let parsed = mailparse::parse_mail(raw).map_err(|e| e.to_string())?;
    Ok(parsed.parts().map(|part| {
        let disposition = part.get_content_disposition();
        MimePart {
            mimetype: part.ctype.mimetype.clone(),
            body_text: part.get_body().ok(),
            body_raw: part.get_body_raw().ok(),
            is_inline: disposition.disposition == mailparse::DispositionType::Inline,
            disposition_params: disposition.params.into_iter().collect(),
            headers: part.headers.iter().map(|h| Header { key: h.get_key(), value: h.get_value() })
                .collect(),
            children: part.subparts.len(),
        }
    }).collect())
}

/// Calls `addrparse` of `mailparse`. The result is known to contracts only
/// under the name [`parsed_address_list`].
#[verifier::external_body]
fn addrparse(header: &str) -> (r: Option<Vec<MailAddrEntry>>)
    ensures
        match r {
            Some(list) => parsed_address_list(header@) == Some(list@),
            None => parsed_address_list(header@) is None,
        },
{
    let list = mailparse::addrparse(header).ok()?;
    Some(list.iter().map(|entry| match entry {
        mailparse::MailAddr::Single(s) => MailAddrEntry::Single(
            AddressInfo { display_name: s.display_name.clone(), addr: s.addr.clone() },
        ),
        mailparse::MailAddr::Group(g) => MailAddrEntry::Group(
            g.addrs.iter().map(|s| AddressInfo {
                display_name: s.display_name.clone(),
                addr: s.addr.clone(),
            }).collect(),
        ),
    }).collect())
}

/// Calls `DateTime::parse_from_rfc2822` of `chrono` and takes the instant as
/// milliseconds. The result is known to contracts only under the name
/// [`rfc2822_millis`].
#[verifier::external_body]
fn parse_rfc2822(text: &str) -> (r: Option<i64>)
    ensures
        r == rfc2822_millis(text@),
{
    chrono::DateTime::parse_from_rfc2822(text).ok().map(|instant| instant.timestamp_millis())
}

/// Draws sixteen bytes with `SecureRandom::fill` of `ring`, makes them a
/// random identifier of version 4 with `Builder::from_random_bytes` of the
/// `uuid` crate, and takes it as a number with `Uuid::as_u128`. There is no
/// identifier where the system hands out no random bytes. The identifier is
/// random: nothing is known of it.
#[verifier::external_body]
pub(crate) fn fresh_id() -> Option<u128> {
    let mut bytes = [0u8; 16];
    ring::rand::SecureRandom::fill(&ring::rand::SystemRandom::new(), &mut bytes).ok()?;
    Some(uuid::Builder::from_random_bytes(bytes).into_uuid().as_u128())
}

/// Parses the bytes of a message into the nodes of its tree, in document
/// order. The headers of the message are those of the first node.
pub fn parse_message(raw: &[u8]) -> (r: Result<Vec<MimePart>, MailError>)
    ensures
        match r {
            Ok(parts) => parsed_mail(raw@) == Ok::<Seq<MimePart>, Seq<char>>(parts@),
            Err(e) => parsed_mail(raw@) is Err && e.deep_view() == MailErrorView::Parse(
                parsed_mail(raw@)->Err_0,
            ),
        },
{
    match parse_mail(raw) {
        Ok(parts) => Ok(parts),
        Err(text) => Err(MailError::Parse(text)),
    }
}

/// The address of one mailbox: lower-cased, with its display name.
pub open spec fn address_of(info: AddressInfo) -> ParsedAddressView {
    ParsedAddressView { email: lower_spec(info.addr@), name: info.display_name.deep_view() }
}

/// The addresses of the members of a group, in order.
pub open spec fn group_addresses(members: Seq<AddressInfo>) -> Seq<ParsedAddressView> {
    Seq::new(members.len(), |i: int| address_of(members[i]))
}

/// The addresses of one entry of an address header.
pub open spec fn entry_addresses(entry: MailAddrEntry) -> Seq<ParsedAddressView> {
    match entry {
        MailAddrEntry::Single(info) => seq![address_of(info)],
        MailAddrEntry::Group(members) => group_addresses(members@),
    }
}

/// The addresses of all entries, groups flattened, in order.
pub open spec fn flatten_addresses(list: Seq<MailAddrEntry>) -> Seq<ParsedAddressView>
    decreases list.len(),
{
    if list.len() == 0 {
        Seq::empty()
    } else {
        flatten_addresses(list.drop_last()) + entry_addresses(list.last())
    }
}

/// The addresses of an address header: none where the header is missing or
/// does not parse.
pub open spec fn parse_addresses_spec(header: Option<Seq<char>>) -> Seq<ParsedAddressView> {
    match header {
        None => Seq::empty(),
        Some(raw) => match parsed_address_list(raw) {
            None => Seq::empty(),
            Some(list) => flatten_addresses(list),
        },
    }
}

fn convert_address(info: &AddressInfo) -> (r: ParsedAddress)
    ensures
        r.deep_view() == address_of(*info),
{
    ParsedAddress { email: lower(info.addr.as_str()), name: info.display_name.clone() }
}

/// Reads the addresses of an address header, lower-cased, groups flattened.
pub fn parse_addresses(header: Option<String>) -> (r: Vec<ParsedAddress>)
    ensures
        r.deep_view() == parse_addresses_spec(header.deep_view()),
{
    let raw = match header {
        Some(raw) => raw,
        None => {
            let out: Vec<ParsedAddress> = Vec::new();
            assert(out.deep_view() =~= Seq::<ParsedAddressView>::empty());
            return out;
        },
    };
    let list = match addrparse(raw.as_str()) {
        Some(list) => list,
        None => {
            let out: Vec<ParsedAddress> = Vec::new();
            assert(out.deep_view() =~= Seq::<ParsedAddressView>::empty());
            return out;
        },
    };
    let mut out: Vec<ParsedAddress> = Vec::new();
    let mut i: usize = 0;
    assert(list@.take(0) == Seq::<MailAddrEntry>::empty());
    assert(out.deep_view() =~= flatten_addresses(list@.take(0)));
    while i < list.len()
        invariant
            i <= list.len(),
            out.deep_view() == flatten_addresses(list@.take(i as int)),
        decreases list.len() - i,
    {
        let ghost before = out.deep_view();
        match &list[i] {
            MailAddrEntry::Single(info) => {
                out.push(convert_address(info));
                assert(out.deep_view() =~= before + seq![address_of(*info)]);
            },
            MailAddrEntry::Group(members) => {
                let mut j: usize = 0;
                while j < members.len()
                    invariant
                        j <= members.len(),
                        out.deep_view() == before + group_addresses(members@).take(j as int),
                    decreases members.len() - j,
                {
                    let ghost here = out.deep_view();
                    out.push(convert_address(&members[j]));
                    assert(out.deep_view() =~= here.push(address_of(members@[j as int])));
                    assert(group_addresses(members@).take(j + 1) =~= group_addresses(
                        members@,
                    ).take(j as int).push(address_of(members@[j as int])));
                    j += 1;
                }
                assert(group_addresses(members@).take(members.len() as int) == group_addresses(
                    members@,
                ));
            },
        }
        assert(list@.take(i + 1).drop_last() == list@.take(i as int));
        assert(list@.take(i + 1).last() == list@[i as int]);
        i += 1;
    }
    assert(list@.take(list.len() as int) == list@);
    out
}

/// The participants that one header contributes, each under the role of
/// that header.
pub open spec fn with_role(addresses: Seq<ParsedAddressView>, role: Seq<char>) -> Seq<
    ParticipantView,
> {
    Seq::new(
        addresses.len(),
        |i: int| ParticipantView { email: addresses[i].email, role, name: addresses[i].name },
    )
}

/// The participants of a message: its senders, then its recipients, then
/// those in copy, then those in blind copy.
pub open spec fn participants_spec(
    from: Seq<ParsedAddressView>,
    to: Seq<ParsedAddressView>,
    cc: Seq<ParsedAddressView>,
    bcc: Seq<ParsedAddressView>,
) -> Seq<ParticipantView> {
    with_role(from, "from"@) + with_role(to, "to"@) + with_role(cc, "cc"@) + with_role(
        bcc,
        "bcc"@,
    )
}

fn push_with_role(out: &mut Vec<Participant>, addresses: &Vec<ParsedAddress>, role: &str)
    ensures
        final(out).deep_view() == old(out).deep_view() + with_role(addresses.deep_view(), role@),
{
    let ghost start = out.deep_view();
    let ghost all = with_role(addresses.deep_view(), role@);
    let mut i: usize = 0;
    assert(out.deep_view() =~= start + all.take(0));
    while i < addresses.len()
        invariant
            i <= addresses.len(),
            all == with_role(addresses.deep_view(), role@),
            out.deep_view() == start + all.take(i as int),
        decreases addresses.len() - i,
    {
        let ghost here = out.deep_view();
        let entry = Participant {
            email: addresses[i].email.clone(),
            role: role.to_string(),
            name: addresses[i].name.clone(),
        };
        out.push(entry);
        assert(out.deep_view() =~= here.push(all[i as int]));
        assert(all.take(i + 1) =~= all.take(i as int).push(all[i as int]));
        i += 1;
    }
    assert(all.take(addresses.len() as int) == all);
}

/// Lists the participants of a message by the header they stood in.
pub fn participants_json(
    from: &Vec<ParsedAddress>,
    to: &Vec<ParsedAddress>,
    cc: &Vec<ParsedAddress>,
    bcc: &Vec<ParsedAddress>,
) -> (r: Vec<Participant>)
    ensures
        r.deep_view() == participants_spec(
            from.deep_view(),
            to.deep_view(),
            cc.deep_view(),
            bcc.deep_view(),
        ),
{
    let mut out: Vec<Participant> = Vec::new();
    assert(out.deep_view() =~= Seq::<ParticipantView>::empty());
    push_with_role(&mut out, from, "from");
    push_with_role(&mut out, to, "to");
    push_with_role(&mut out, cc, "cc");
    push_with_role(&mut out, bcc, "bcc");
    assert(out.deep_view() =~= participants_spec(
        from.deep_view(),
        to.deep_view(),
        cc.deep_view(),
        bcc.deep_view(),
    ));
    out
}

/// Whether one of the addresses is `email`, ASCII case ignored.
pub open spec fn has_address(addresses: Seq<ParsedAddressView>, email: Seq<char>) -> bool {
    exists|i: int|
        0 <= i < addresses.len() && eq_ignore_ascii_case_spec(
            (#[trigger] addresses[i]).email,
            email,
        )
}

/// Whether one of the addresses is `email`, ASCII case ignored.
pub fn contains_address(addresses: &Vec<ParsedAddress>, email: &str) -> (r: bool)
    ensures
        r == has_address(addresses.deep_view(), email@),
{
    let mut i: usize = 0;
    while i < addresses.len()
        invariant
            i <= addresses.len(),
            forall|j: int|
                0 <= j < i ==> !eq_ignore_ascii_case_spec(
                    (#[trigger] addresses.deep_view()[j]).email,
                    email@,
                ),
        decreases addresses.len() - i,
    {
        if eq_ignore_ascii_case(addresses[i].email.as_str(), email) {
            assert(eq_ignore_ascii_case_spec(addresses.deep_view()[i as int].email, email@));
            return true;
        }
        i += 1;
    }
    false
}

/// The startup of the first of `candidates` that is not the account itself
/// and is the address of a known contact.
pub open spec fn lookup_startup_spec(
    contacts: Seq<contact::ModelView>,
    candidates: Seq<ParsedAddressView>,
    account_email: Seq<char>,
) -> Option<u128>
    decreases candidates.len(),
{
    if candidates.len() == 0 {
        None
    } else if eq_ignore_ascii_case_spec(candidates[0].email, account_email) {
        lookup_startup_spec(contacts, candidates.drop_first(), account_email)
    } else {
        match first_index(contacts, contact_has_email(candidates[0].email)) {
            Some(i) => Some(contacts[i].startup_id),
            None => lookup_startup_spec(contacts, candidates.drop_first(), account_email),
        }
    }
}

/// Looking through two runs of candidates in turn is looking through their
/// concatenation.
pub proof fn lemma_lookup_startup_concat(
    contacts: Seq<contact::ModelView>,
    a: Seq<ParsedAddressView>,
    b: Seq<ParsedAddressView>,
    account_email: Seq<char>,
)
    ensures
        lookup_startup_spec(contacts, a + b, account_email) == match lookup_startup_spec(
            contacts,
            a,
            account_email,
        ) {
            Some(id) => Some(id),
            None => lookup_startup_spec(contacts, b, account_email),
        },
    decreases a.len(),
{
    if a.len() == 0 {
        assert(a + b == b);
    } else {
        assert((a + b)[0] == a[0]);
        assert((a + b).drop_first() == a.drop_first() + b);
        lemma_lookup_startup_concat(contacts, a.drop_first(), b, account_email);
    }
}

/// Whether the store holds the message already: whether a stored message
/// carries its `Message-ID`.
pub open spec fn message_known(store: MailStoreView, parts: Seq<MimePart>) -> bool {
    match first_value_spec(message_headers(parts), "Message-ID"@) {
        Some(id) => any(store.messages, message_has_header(id)),
        None => false,
    }
}

/// What is derived from one fetched message before anything is stored.
pub struct PreparedMessage {
    pub user_id: u128,
    pub uid: u32,
    pub subject: String,
    pub clean_subject: String,
    pub sent_at: i64,
    pub is_read: bool,
    pub sender_name: Option<String>,
    pub sender_email: String,
    pub to_emails: Vec<ParsedAddress>,
    pub cc_emails: Vec<ParsedAddress>,
    pub bcc_emails: Vec<ParsedAddress>,
    pub direction: Direction,
    pub body_text: Option<String>,
    pub body_html: Option<String>,
    pub attachments: Vec<AttachmentPart>,
    pub snippet: Option<String>,
    pub message_id: Option<String>,
    pub in_reply_to: Option<String>,
    pub references: Option<String>,
    pub thread_identifier: String,
    pub participants: Vec<Participant>,
    pub startup_id: Option<u128>,
}

/// The mathematical value of a [`PreparedMessage`].
pub struct PreparedMessageView {
    pub user_id: u128,
    pub uid: u32,
    pub subject: Seq<char>,
    pub clean_subject: Seq<char>,
    pub sent_at: i64,
    pub is_read: bool,
    pub sender_name: Option<Seq<char>>,
    pub sender_email: Seq<char>,
    pub to_emails: Seq<ParsedAddressView>,
    pub cc_emails: Seq<ParsedAddressView>,
    pub bcc_emails: Seq<ParsedAddressView>,
    pub direction: Direction,
    pub body_text: Option<Seq<char>>,
    pub body_html: Option<Seq<char>>,
    pub attachments: Seq<AttachmentPartView>,
    pub snippet: Option<Seq<char>>,
    pub message_id: Option<Seq<char>>,
    pub in_reply_to: Option<Seq<char>>,
    pub references: Option<Seq<char>>,
    pub thread_identifier: Seq<char>,
    pub participants: Seq<ParticipantView>,
    pub startup_id: Option<u128>,
}

impl DeepView for PreparedMessage {
    type V = PreparedMessageView;

    open spec fn deep_view(&self) -> PreparedMessageView {
        PreparedMessageView {
            user_id: self.user_id,
            uid: self.uid,
            subject: self.subject@,
            clean_subject: self.clean_subject@,
            sent_at: self.sent_at,
            is_read: self.is_read,
            sender_name: self.sender_name.deep_view(),
            sender_email: self.sender_email@,
            to_emails: self.to_emails.deep_view(),
            cc_emails: self.cc_emails.deep_view(),
            bcc_emails: self.bcc_emails.deep_view(),
            direction: self.direction,
            body_text: self.body_text.deep_view(),
            body_html: self.body_html.deep_view(),
            attachments: self.attachments.deep_view(),
            snippet: self.snippet.deep_view(),
            message_id: self.message_id.deep_view(),
            in_reply_to: self.in_reply_to.deep_view(),
            references: self.references.deep_view(),
            thread_identifier: self.thread_identifier@,
            participants: self.participants.deep_view(),
            startup_id: self.startup_id,
        }
    }
}

/// The preview of a message: of its plain body, else of its HTML body.
pub open spec fn snippet_spec(text: Option<Seq<char>>, html: Option<Seq<char>>) -> Option<
    Seq<char>,
> {
    match text {
        Some(body) => Some(preview_spec(body)),
        None => match html {
            Some(body) => Some(preview_spec(body)),
            None => None,
        },
    }
}

/// What is derived from the parsed message `parts` with sequence number
/// `uid`, fetched for the account `account_email` of `user_id`.
///
/// The subject defaults to `(no subject)`; the sending instant is that of
/// the `Date` header and `now` where there is none that reads; the message
/// was sent by the account where one of its senders is the account, and was
/// received otherwise.
pub open spec fn prepared_spec(
    contacts: Seq<contact::ModelView>,
    user_id: u128,
    account_email: Seq<char>,
    parts: Seq<MimePart>,
    uid: u32,
    seen: bool,
    now: i64,
) -> PreparedMessageView {
    let headers = message_headers(parts);
    let subject = match first_value_spec(headers, "Subject"@) {
        Some(s) => s,
        None => "(no subject)"@,
    };
    let clean = clean_subject_spec(subject);
    let sent_at = match first_value_spec(headers, "Date"@) {
        Some(date) => match rfc2822_millis(date) {
            Some(instant) => instant,
            None => now,
        },
        None => now,
    };
    let from = parse_addresses_spec(first_value_spec(headers, "From"@));
    let to = parse_addresses_spec(first_value_spec(headers, "To"@));
    let cc = parse_addresses_spec(first_value_spec(headers, "Cc"@));
    let bcc = parse_addresses_spec(first_value_spec(headers, "Bcc"@));
    let extracted = extract_spec(parts);
    let message_id = first_value_spec(headers, "Message-ID"@);
    let in_reply_to = first_value_spec(headers, "In-Reply-To"@);
    PreparedMessageView {
        user_id,
        uid,
        subject,
        clean_subject: clean,
        sent_at,
        is_read: seen,
        sender_name: if from.len() > 0 {
            from[0].name
        } else {
            None
        },
        sender_email: if from.len() > 0 {
            from[0].email
        } else {
            Seq::empty()
        },
        to_emails: to,
        cc_emails: cc,
        bcc_emails: bcc,
        direction: if has_address(from, account_email) {
            Direction::Sent
        } else {
            Direction::Received
        },
        body_text: extracted.text,
        body_html: extracted.html,
        attachments: extracted.attachments,
        snippet: snippet_spec(extracted.text, extracted.html),
        message_id,
        in_reply_to,
        references: first_value_spec(headers, "References"@),
        thread_identifier: thread_identifier_spec(message_id, in_reply_to, clean),
        participants: participants_spec(from, to, cc, bcc),
        startup_id: lookup_startup_spec(contacts, from + to + cc + bcc, account_email),
    }
}

impl ImapService {
    fn lookup_in(&self, candidates: &Vec<ParsedAddress>, account_email: &str) -> (r: Option<u128>)
        ensures
            r == lookup_startup_spec(
                self.db.deep_view().contacts,
                candidates.deep_view(),
                account_email@,
            ),
    {
        let ghost contacts = self.db.deep_view().contacts;
        let ghost all = candidates.deep_view();
        let mut i: usize = 0;
        assert(all.skip(0) == all);
        while i < candidates.len()
            invariant
                i <= candidates.len(),
                contacts == self.db.deep_view().contacts,
                all == candidates.deep_view(),
                lookup_startup_spec(contacts, all, account_email@) == lookup_startup_spec(
                    contacts,
                    all.skip(i as int),
                    account_email@,
                ),
            decreases candidates.len() - i,
        {
            assert(all.skip(i as int)[0] == all[i as int]);
            assert(all.skip(i as int).drop_first() == all.skip(i + 1));
            if !eq_ignore_ascii_case(candidates[i].email.as_str(), account_email) {
                if let Some(at) = self.db.find_contact_by_email(candidates[i].email.as_str()) {
                    assert(contacts[at as int].startup_id == self.db.contacts@[at as int].startup_id);
                    return Some(self.db.contacts[at].startup_id);
                }
            }
            i += 1;
        }
        None
    }

    /// Finds the startup that a message concerns: that of the first known
    /// contact among its senders, recipients and those in copy, the account
    /// itself left out.
    pub fn lookup_startup_id(
        &self,
        from: &Vec<ParsedAddress>,
        to: &Vec<ParsedAddress>,
        cc: &Vec<ParsedAddress>,
        bcc: &Vec<ParsedAddress>,
        user_email: &str,
    ) -> (r: Option<u128>)
        ensures
            r == lookup_startup_spec(
                self.db.deep_view().contacts,
                from.deep_view() + to.deep_view() + cc.deep_view() + bcc.deep_view(),
                user_email@,
            ),
    {
        let ghost contacts = self.db.deep_view().contacts;
        proof {
            lemma_lookup_startup_concat(
                contacts,
                from.deep_view() + to.deep_view() + cc.deep_view(),
                bcc.deep_view(),
                user_email@,
            );
            lemma_lookup_startup_concat(
                contacts,
                from.deep_view() + to.deep_view(),
                cc.deep_view(),
                user_email@,
            );
            lemma_lookup_startup_concat(contacts, from.deep_view(), to.deep_view(), user_email@);
        }
        if let Some(id) = self.lookup_in(from, user_email) {
            return Some(id);
        }
        if let Some(id) = self.lookup_in(to, user_email) {
            return Some(id);
        }
        if let Some(id) = self.lookup_in(cc, user_email) {
            return Some(id);
        }
        self.lookup_in(bcc, user_email)
    }

    /// Whether the message is stored already: whether a stored message
    /// carries its `Message-ID`.
    pub fn message_exists(&self, parsed: &Vec<MimePart>) -> (r: bool)
        ensures
            r == message_known(self.db.deep_view(), parsed@),
    {
        match header_value(parsed, "Message-ID") {
            Some(id) => self.db.has_message_header(id.as_str()),
            None => false,
        }
    }

    /// Derives from a parsed message all that will be stored of it.
    pub fn prepare_message(
        &self,
        user_id: u128,
        account_email: &str,
        parsed: &Vec<MimePart>,
        uid: u32,
        seen: bool,
        now: i64,
    ) -> (r: PreparedMessage)
        ensures
            r.deep_view() == prepared_spec(
                self.db.deep_view().contacts,
                user_id,
                account_email@,
                parsed@,
                uid,
                seen,
                now,
            ),
    {
        let subject = match header_value(parsed, "Subject") {
            Some(s) => s,
            None => "(no subject)".to_string(),
        };
        let clean = clean_subject(subject.as_str());
        let sent_at = match header_value(parsed, "Date") {
            Some(date) => match parse_rfc2822(date.as_str()) {
                Some(instant) => instant,
                None => now,
            },
            None => now,
        };
        let from_addrs = parse_addresses(header_value(parsed, "From"));
        let to_addrs = parse_addresses(header_value(parsed, "To"));
        let cc_addrs = parse_addresses(header_value(parsed, "Cc"));
        let bcc_addrs = parse_addresses(header_value(parsed, "Bcc"));
        let direction = if contains_address(&from_addrs, account_email) {
            Direction::Sent
        } else {
            Direction::Received
        };
        let (text_body, html_body, attachments) = extract_bodies(parsed);
        let snippet = match &text_body {
            Some(body) => Some(truncate_preview(body.as_str())),
            None => match &html_body {
                Some(body) => Some(truncate_preview(body.as_str())),
                None => None,
            },
        };
        let in_reply_to = header_value(parsed, "In-Reply-To");
        let references = header_value(parsed, "References");
        let message_id = header_value(parsed, "Message-ID");
        let thread_identifier = derive_thread_identifier(
            match &message_id {
                Some(id) => Some(id.as_str()),
                None => None,
            },
            match &in_reply_to {
                Some(id) => Some(id.as_str()),
                None => None,
            },
            clean.as_str(),
        );
        let participants = participants_json(&from_addrs, &to_addrs, &cc_addrs, &bcc_addrs);
        let startup_id = self.lookup_startup_id(
            &from_addrs,
            &to_addrs,
            &cc_addrs,
            &bcc_addrs,
            account_email,
        );
        let (sender_name, sender_email) = if from_addrs.len() > 0 {
            (from_addrs[0].name.clone(), from_addrs[0].email.clone())
        } else {
            (None, String::new())
        };
        PreparedMessage {
            user_id,
            uid,
            subject,
            clean_subject: clean,
            sent_at,
            is_read: seen,
            sender_name,
            sender_email,
            to_emails: to_addrs,
            cc_emails: cc_addrs,
            bcc_emails: bcc_addrs,
            direction,
            body_text: text_body,
            body_html: html_body,
            attachments,
            snippet,
            message_id,
            in_reply_to,
            references,
            thread_identifier,
            participants,
            startup_id,
        }
    }
}

} // verus!
