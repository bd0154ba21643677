//! The MIME extractor: from the part tree of a message to its plain body, its
//! HTML body and its attachments.
//!
//! The tree of a message is held as the list of its nodes in document order,
//! that is depth first and each node before the nodes nested in it, where
//! each node says how many nodes are nested in it directly.

use crate::text::{
    eq_ignore_ascii_case, eq_ignore_ascii_case_spec, from_chars, is_ascii_text,
    lemma_lower_finds_ascii, lower, lower_spec, str_eq, to_chars, trim_matches_chars,
    trim_matches_spec,
};
use vstd::prelude::*;

verus! {

/// One header line of a message or of a part: its name and its decoded value.
pub struct Header {
    pub key: String,
    pub value: String,
}

/// One node of the MIME tree of a message, as plain values.
///
/// A node without children is a leaf and carries content; a node with
/// children is a multipart container.
pub struct MimePart {
    /// The declared media type, such as `text/plain`.
    pub mimetype: String,
    /// The body decoded to text, where the transfer encoding and the charset
    /// could be undone.
    pub body_text: Option<String>,
    /// The body as bytes with the transfer encoding undone, where it could
    /// be undone.
    pub body_raw: Option<Vec<u8>>,
    /// Whether the content disposition is `inline`.
    pub is_inline: bool,
    /// The parameters of the content disposition, by key.
    pub disposition_params: Vec<(String, String)>,
    /// The headers of this part, in the order of the message.
    pub headers: Vec<Header>,
    /// How many parts are nested in this one directly. They, and what is
    /// nested in them, follow this part in the list of the message.
    pub children: usize,
}

/// A leaf of the MIME tree that is kept as an attachment.
pub struct AttachmentPart {
    pub file_name: String,
    pub content_type: String,
    pub size_bytes: i64,
    pub is_inline: bool,
    pub content_id: Option<String>,
    pub data: Vec<u8>,
}

/// The mathematical value of an [`AttachmentPart`].
pub struct AttachmentPartView {
    pub file_name: Seq<char>,
    pub content_type: Seq<char>,
    pub size_bytes: i64,
    pub is_inline: bool,
    pub content_id: Option<Seq<char>>,
    pub data: Seq<u8>,
}

impl DeepView for AttachmentPart {
    type V = AttachmentPartView;

    open spec fn deep_view(&self) -> AttachmentPartView {
        AttachmentPartView {
            file_name: self.file_name@,
            content_type: self.content_type@,
            size_bytes: self.size_bytes,
            is_inline: self.is_inline,
            content_id: self.content_id.deep_view(),
            data: self.data@,
        }
    }
}

/// What has been taken from a message so far: the first plain body, the
/// first HTML body, and the attachments in document order.
pub struct Extracted {
    pub text: Option<Seq<char>>,
    pub html: Option<Seq<char>>,
    pub attachments: Seq<AttachmentPartView>,
}

/// The media type of plain text bodies.
pub open spec fn text_plain() -> Seq<char> {
    seq!['t', 'e', 'x', 't', '/', 'p', 'l', 'a', 'i', 'n']
}

/// The media type of HTML bodies.
pub open spec fn text_html() -> Seq<char> {
    seq!['t', 'e', 'x', 't', '/', 'h', 't', 'm', 'l']
}

/// The disposition parameter that names a file.
pub open spec fn filename_key() -> Seq<char> {
    seq!['f', 'i', 'l', 'e', 'n', 'a', 'm', 'e']
}

/// The file name given to a part that declares none.
pub open spec fn default_file_name() -> Seq<char> {
    seq!['a', 't', 't', 'a', 'c', 'h', 'm', 'e', 'n', 't']
}

/// The header that carries the id by which HTML refers to an inline part.
pub open spec fn content_id_key() -> Seq<char> {
    seq!['C', 'o', 'n', 't', 'e', 'n', 't', '-', 'I', 'D']
}

/// The value of the first header whose name matches `key`, ASCII case
/// ignored.
pub open spec fn first_value_spec(headers: Seq<Header>, key: Seq<char>) -> Option<Seq<char>>
    decreases headers.len(),
{
    if headers.len() == 0 {
        None
    } else if eq_ignore_ascii_case_spec(headers[0].key@, key) {
        Some(headers[0].value@)
    } else {
        first_value_spec(headers.drop_first(), key)
    }
}

/// The value of the first parameter stored under exactly `key`.
pub open spec fn param_spec(params: Seq<(String, String)>, key: Seq<char>) -> Option<Seq<char>>
    decreases params.len(),
{
    if params.len() == 0 {
        None
    } else if params[0].0@ == key {
        Some(params[0].1@)
    } else {
        param_spec(params.drop_first(), key)
    }
}

/// A content id without its angle brackets.
pub open spec fn bare_content_id_spec(raw: Seq<char>) -> Seq<char> {
    trim_matches_spec(trim_matches_spec(raw, '<'), '>')
}

/// A byte count as a signed size, capped at the largest signed value.
pub open spec fn size_spec(len: nat) -> i64 {
    if len > i64::MAX {
        i64::MAX
    } else {
        len as i64
    }
}

/// The payload of a leaf: its bytes, and none where the transfer encoding
/// of the leaf could not be undone.
pub open spec fn payload_of(leaf: MimePart) -> Seq<u8> {
    match leaf.body_raw {
        Some(bytes) => bytes@,
        None => Seq::empty(),
    }
}

/// The attachment record of a leaf. A leaf without file name is named
/// `attachment`; one whose bytes could not be decoded is kept, empty.
pub open spec fn attachment_of(leaf: MimePart) -> AttachmentPartView {
    AttachmentPartView {
        file_name: match param_spec(leaf.disposition_params@, filename_key()) {
            Some(name) => name,
            None => default_file_name(),
        },
        content_type: leaf.mimetype@,
        size_bytes: size_spec(payload_of(leaf).len()),
        is_inline: leaf.is_inline,
        content_id: match first_value_spec(leaf.headers@, content_id_key()) {
            Some(raw) => Some(bare_content_id_spec(raw)),
            None => None,
        },
        data: payload_of(leaf),
    }
}

/// What one leaf adds. The first `text/plain` leaf whose body decodes
/// becomes the plain body and the first such `text/html` leaf the HTML body;
/// a leaf of either type that does not decode while its body is still
/// wanted is passed over; every other leaf is an attachment.
pub open spec fn leaf_step(acc: Extracted, leaf: MimePart) -> Extracted {
    let mime = lower_spec(leaf.mimetype@);
    if mime == text_plain() && acc.text is None {
        match leaf.body_text {
            Some(body) => Extracted { text: Some(body@), ..acc },
            None => acc,
        }
    } else if mime == text_html() && acc.html is None {
        match leaf.body_text {
            Some(body) => Extracted { html: Some(body@), ..acc },
            None => acc,
        }
    } else {
        Extracted { attachments: acc.attachments.push(attachment_of(leaf)), ..acc }
    }
}

/// The media types of the two bodies are recognised in whatever letter
/// case they are written, and an ASCII media type is taken for one of them
/// only where it is that type up to letter case.
pub proof fn lemma_media_type_ignores_case(mimetype: Seq<char>)
    ensures
        eq_ignore_ascii_case_spec(mimetype, text_plain()) ==> lower_spec(mimetype)
            == text_plain(),
        eq_ignore_ascii_case_spec(mimetype, text_html()) ==> lower_spec(mimetype) == text_html(),
        is_ascii_text(mimetype) && lower_spec(mimetype) == text_plain()
            ==> eq_ignore_ascii_case_spec(mimetype, text_plain()),
        is_ascii_text(mimetype) && lower_spec(mimetype) == text_html()
            ==> eq_ignore_ascii_case_spec(mimetype, text_html()),
{
    lemma_lower_finds_ascii(mimetype, text_plain());
    lemma_lower_finds_ascii(mimetype, text_html());
}

/// The first leaf of type `text/plain`, in whatever letter case, whose body
/// decodes becomes the plain body, and nothing else changes; so for
/// `text/html` and the HTML body.
pub proof fn lemma_first_body_is_taken(acc: Extracted, leaf: MimePart)
    requires
        leaf.body_text is Some,
    ensures
        eq_ignore_ascii_case_spec(leaf.mimetype@, text_plain()) && acc.text is None ==> leaf_step(
            acc,
            leaf,
        ) == (Extracted { text: Some(leaf.body_text->0@), ..acc }),
        eq_ignore_ascii_case_spec(leaf.mimetype@, text_html()) && acc.html is None ==> leaf_step(
            acc,
            leaf,
        ) == (Extracted { html: Some(leaf.body_text->0@), ..acc }),
{
    lemma_media_type_ignores_case(leaf.mimetype@);
}

/// The leaves among the nodes of a message, in document order. Containers
/// are never among them.
pub open spec fn leaves(parts: Seq<MimePart>) -> Seq<MimePart>
    decreases parts.len(),
{
    if parts.len() == 0 {
        Seq::empty()
    } else if parts.last().children == 0 {
        leaves(parts.drop_last()).push(parts.last())
    } else {
        leaves(parts.drop_last())
    }
}

/// What a run of leaves adds, taken in order.
pub open spec fn apply_leaves(acc: Extracted, run: Seq<MimePart>) -> Extracted
    decreases run.len(),
{
    if run.len() == 0 {
        acc
    } else {
        leaf_step(apply_leaves(acc, run.drop_last()), run.last())
    }
}

/// Nothing taken yet.
pub open spec fn nothing_extracted() -> Extracted {
    Extracted { text: None, html: None, attachments: Seq::empty() }
}

/// What extraction yields for the nodes of a whole message.
pub open spec fn extract_spec(parts: Seq<MimePart>) -> Extracted {
    apply_leaves(nothing_extracted(), leaves(parts))
}

/// A body, once captured, is never replaced, and attachments are only added
/// at the end: the first match wins.
pub proof fn lemma_first_match_wins(acc: Extracted, run: Seq<MimePart>)
    ensures
        acc.text is Some ==> apply_leaves(acc, run).text == acc.text,
        acc.html is Some ==> apply_leaves(acc, run).html == acc.html,
        acc.attachments.is_prefix_of(apply_leaves(acc, run).attachments),
    decreases run.len(),
{
    if run.len() > 0 {
        lemma_first_match_wins(acc, run.drop_last());
        let before = apply_leaves(acc, run.drop_last());
        let after = apply_leaves(acc, run);
        assert(before.attachments.is_prefix_of(after.attachments));
        assert(acc.attachments =~= after.attachments.subrange(0, acc.attachments.len() as int));
    } else {
        assert(acc.attachments =~= acc.attachments.subrange(0, acc.attachments.len() as int));
    }
}

/// Looks up the first header named `key`, ASCII case ignored.
pub fn get_first_value(headers: &Vec<Header>, key: &str) -> (r: Option<String>)
    ensures
        r.deep_view() == first_value_spec(headers@, key@),
{
    let mut i: usize = 0;
    assert(headers@.skip(0) == headers@);
    while i < headers.len()
        invariant
            i <= headers.len(),
            first_value_spec(headers@, key@) == first_value_spec(headers@.skip(i as int), key@),
        decreases headers.len() - i,
    {
        if eq_ignore_ascii_case(headers[i].key.as_str(), key) {
            assert(headers@.skip(i as int)[0] == headers@[i as int]);
            return Some(headers[i].value.clone());
        }
        assert(headers@.skip(i as int)[0] == headers@[i as int]);
        assert(headers@.skip(i as int).drop_first() == headers@.skip(i + 1));
        i += 1;
    }
    assert(headers@.skip(i as int).len() == 0);
    None
}

/// Looks up the parameter stored under exactly `key`.
pub fn get_param(params: &Vec<(String, String)>, key: &str) -> (r: Option<String>)
    ensures
        r.deep_view() == param_spec(params@, key@),
{
    let mut i: usize = 0;
    assert(params@.skip(0) == params@);
    while i < params.len()
        invariant
            i <= params.len(),
            param_spec(params@, key@) == param_spec(params@.skip(i as int), key@),
        decreases params.len() - i,
    {
        if str_eq(params[i].0.as_str(), key) {
            assert(params@.skip(i as int)[0] == params@[i as int]);
            return Some(params[i].1.clone());
        }
        assert(params@.skip(i as int)[0] == params@[i as int]);
        assert(params@.skip(i as int).drop_first() == params@.skip(i + 1));
        i += 1;
    }
    assert(params@.skip(i as int).len() == 0);
    None
}

/// Removes the angle brackets around a content id.
pub fn bare_content_id(raw: &str) -> (r: String)
    ensures
        r@ == bare_content_id_spec(raw@),
{
    let chars = to_chars(raw);
    let open = trim_matches_chars(&chars, '<');
    let close = trim_matches_chars(&open, '>');
    from_chars(&close)
}

/// Builds the attachment record of a leaf.
pub fn attachment_from_leaf(leaf: &MimePart) -> (r: AttachmentPart)
    ensures
        r.deep_view() == attachment_of(*leaf),
{
    proof {
        reveal_strlit("filename");
        reveal_strlit("attachment");
        reveal_strlit("Content-ID");
        assert("filename"@ =~= filename_key());
        assert("attachment"@ =~= default_file_name());
        assert("Content-ID"@ =~= content_id_key());
    }
    let file_name = match get_param(&leaf.disposition_params, "filename") {
        Some(name) => name,
        None => "attachment".to_string(),
    };
    let content_id = match get_first_value(&leaf.headers, "Content-ID") {
        Some(raw) => Some(bare_content_id(raw.as_str())),
        None => None,
    };
    let data: Vec<u8> = match &leaf.body_raw {
        Some(bytes) => bytes.clone(),
        None => Vec::new(),
    };
    let length: u64 = data.len() as u64;
    let size_bytes: i64 = if length > 0x7fff_ffff_ffff_ffff {
        0x7fff_ffff_ffff_ffff
    } else {
        length as i64
    };
    AttachmentPart {
        file_name,
        content_type: leaf.mimetype.clone(),
        size_bytes,
        is_inline: leaf.is_inline,
        content_id,
        data,
    }
}

/// What the three outputs of the walk hold, as one value.
pub open spec fn extracted_view(
    text_body: Option<String>,
    html_body: Option<String>,
    attachments: Vec<AttachmentPart>,
) -> Extracted {
    Extracted {
        text: text_body.deep_view(),
        html: html_body.deep_view(),
        attachments: attachments.deep_view(),
    }
}

/// Adds what one leaf holds to the three outputs.
fn take_leaf(
    part: &MimePart,
    text_body: &mut Option<String>,
    html_body: &mut Option<String>,
    attachments: &mut Vec<AttachmentPart>,
)
    ensures
        extracted_view(*final(text_body), *final(html_body), *final(attachments)) == leaf_step(
            extracted_view(*old(text_body), *old(html_body), *old(attachments)),
            *part,
        ),
{
    proof {
        reveal_strlit("text/plain");
        reveal_strlit("text/html");
        assert("text/plain"@ =~= text_plain());
        assert("text/html"@ =~= text_html());
    }
    let mime = lower(part.mimetype.as_str());
    if str_eq(mime.as_str(), "text/plain") && text_body.is_none() {
        if let Some(body) = &part.body_text {
            *text_body = Some(body.clone());
        }
    } else if str_eq(mime.as_str(), "text/html") && html_body.is_none() {
        if let Some(body) = &part.body_text {
            *html_body = Some(body.clone());
        }
    } else {
        let attachment = attachment_from_leaf(part);
        let ghost old_list = attachments.deep_view();
        attachments.push(attachment);
        assert(attachments.deep_view() =~= old_list.push(attachment_of(*part)));
    }
}

/// Walks the tree of a message in document order and adds what its leaves
/// hold to the three outputs. Containers are passed over: only what is
/// nested in them counts.
pub fn walk_parts(
    parts: &Vec<MimePart>,
    text_body: &mut Option<String>,
    html_body: &mut Option<String>,
    attachments: &mut Vec<AttachmentPart>,
)
    ensures
        extracted_view(*final(text_body), *final(html_body), *final(attachments)) == apply_leaves(
            extracted_view(*old(text_body), *old(html_body), *old(attachments)),
            leaves(parts@),
        ),
{
    let ghost before = extracted_view(*text_body, *html_body, *attachments);
    let mut i: usize = 0;
    assert(parts@.take(0) == Seq::<MimePart>::empty());
    while i < parts.len()
        invariant
            i <= parts.len(),
            extracted_view(*text_body, *html_body, *attachments) == apply_leaves(
                before,
                leaves(parts@.take(i as int)),
            ),
        decreases parts.len() - i,
    {
        let ghost run = leaves(parts@.take(i as int));
        assert(parts@.take(i + 1).drop_last() == parts@.take(i as int));
        assert(parts@.take(i + 1).last() == parts@[i as int]);
        if parts[i].children == 0 {
            take_leaf(&parts[i], text_body, html_body, attachments);
            assert(run.push(parts@[i as int]).drop_last() == run);
            assert(run.push(parts@[i as int]).last() == parts@[i as int]);
        }
        i += 1;
    }
    assert(parts@.take(parts.len() as int) == parts@);
}

/// Extracts the plain body, the HTML body and the attachments of a message
/// from its nodes.
pub fn extract_bodies(parsed: &Vec<MimePart>) -> (r: (
    Option<String>,
    Option<String>,
    Vec<AttachmentPart>,
))
    ensures
        extracted_view(r.0, r.1, r.2) == extract_spec(parsed@),
{
    let mut text_body: Option<String> = None;
    let mut html_body: Option<String> = None;
    let mut attachments: Vec<AttachmentPart> = Vec::new();
    assert(extracted_view(text_body, html_body, attachments) =~= nothing_extracted()) by {
        assert(attachments.deep_view() =~= Seq::<AttachmentPartView>::empty());
    }
    walk_parts(parsed, &mut text_body, &mut html_body, &mut attachments);
    (text_body, html_body, attachments)
}

/// The headers of a message: those of its first node.
pub open spec fn message_headers(parts: Seq<MimePart>) -> Seq<Header> {
    if parts.len() > 0 {
        parts[0].headers@
    } else {
        Seq::empty()
    }
}

/// Looks up the first header of a message named `key`, ASCII case ignored.
pub fn header_value(parts: &Vec<MimePart>, key: &str) -> (r: Option<String>)
    ensures
        r.deep_view() == first_value_spec(message_headers(parts@), key@),
{
    if parts.len() > 0 {
        get_first_value(&parts[0].headers, key)
    } else {
        None
    }
}

} // verus!
