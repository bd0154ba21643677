use mail_engine::services::preparation::parse_message;
use mail_engine::services::mime::{
    bare_content_id, extract_bodies, get_first_value, header_value, AttachmentPart, Header,
    MimePart,
};

const MULTIPART: &str = "Subject: Report\r\n\
From: ann@corp.com\r\n\
Content-Type: multipart/mixed; boundary=\"outer\"\r\n\
\r\n\
--outer\r\n\
Content-Type: multipart/alternative; boundary=\"inner\"\r\n\
\r\n\
--inner\r\n\
Content-Type: text/plain; charset=utf-8\r\n\
Content-Transfer-Encoding: quoted-printable\r\n\
\r\n\
Plain =E2=82=AC body\r\n\
--inner\r\n\
Content-Type: text/html\r\n\
\r\n\
<p>Html <img src=\"cid:img1\"> body</p>\r\n\
--inner--\r\n\
--outer\r\n\
Content-Type: image/png\r\n\
Content-Disposition: inline; filename=\"logo.png\"\r\n\
Content-ID: <img1>\r\n\
Content-Transfer-Encoding: base64\r\n\
\r\n\
aGVsbG8gd29ybGQ=\r\n\
--outer\r\n\
Content-Type: application/pdf\r\n\
Content-Disposition: attachment; filename=\"report.pdf\"\r\n\
\r\n\
%PDF-1.4 fake\r\n\
--outer\r\n\
Content-Type: text/plain\r\n\
\r\n\
A second plain part\r\n\
--outer\r\n\
Content-Type: application/octet-stream\r\n\
Content-Disposition: attachment\r\n\
\r\n\
raw\r\n\
--outer--\r\n";

fn extracted() -> (Option<String>, Option<String>, Vec<AttachmentPart>) {
    let root = parse_message(MULTIPART.as_bytes()).expect("parses");
    extract_bodies(&root)
}

#[test]
fn the_first_text_and_html_parts_are_the_bodies() {
    let (text, html, _) = extracted();
    assert_eq!(text.as_deref(), Some("Plain \u{20AC} body"));
    assert_eq!(html.as_deref(), Some("<p>Html <img src=\"cid:img1\"> body</p>"));
}

#[test]
fn other_leaves_are_attachments_in_document_order() {
    let (_, _, attachments) = extracted();
    let names: Vec<&str> = attachments.iter().map(|a| a.file_name.as_str()).collect();
    assert_eq!(names, vec!["logo.png", "report.pdf", "attachment", "attachment"]);
    let types: Vec<&str> = attachments.iter().map(|a| a.content_type.as_str()).collect();
    assert_eq!(types, vec!["image/png", "application/pdf", "text/plain", "application/octet-stream"]);
}

#[test]
fn an_inline_image_keeps_its_content_id_and_decoded_bytes() {
    let (_, _, attachments) = extracted();
    let image = &attachments[0];
    assert!(image.is_inline);
    assert_eq!(image.content_id.as_deref(), Some("img1"));
    assert_eq!(image.data, b"hello world".to_vec());
    assert_eq!(image.size_bytes, 11);
}

#[test]
fn a_regular_attachment_is_not_inline_and_has_no_content_id() {
    let (_, _, attachments) = extracted();
    let pdf = &attachments[1];
    assert!(!pdf.is_inline);
    assert_eq!(pdf.content_id, None);
    assert_eq!(pdf.data, b"%PDF-1.4 fake".to_vec());
    assert_eq!(pdf.size_bytes, 13);
}

#[test]
fn a_later_plain_part_does_not_replace_the_body() {
    let (text, _, attachments) = extracted();
    assert_eq!(text.as_deref(), Some("Plain \u{20AC} body"));
    assert_eq!(attachments[2].data, b"A second plain part".to_vec());
}

#[test]
fn containers_are_never_stored() {
    let (_, _, attachments) = extracted();
    assert!(attachments.iter().all(|a| !a.content_type.starts_with("multipart/")));
    assert_eq!(attachments.len(), 4);
}

#[test]
fn a_single_part_message_is_its_own_leaf() {
    let root = parse_message(b"Subject: x\r\n\r\nJust text").unwrap();
    let (text, html, attachments) = extract_bodies(&root);
    assert_eq!(text.as_deref(), Some("Just text"));
    assert_eq!(html, None);
    assert!(attachments.is_empty());

    let root = parse_message(b"Content-Type: text/html\r\n\r\n<b>x</b>").unwrap();
    let (text, html, attachments) = extract_bodies(&root);
    assert_eq!(text, None);
    assert_eq!(html.as_deref(), Some("<b>x</b>"));
    assert!(attachments.is_empty());

    let root = parse_message(b"Content-Type: application/zip\r\n\r\nPK").unwrap();
    let (text, html, attachments) = extract_bodies(&root);
    assert_eq!(text, None);
    assert_eq!(html, None);
    assert_eq!(attachments.len(), 1);
    assert_eq!(attachments[0].file_name, "attachment");
    assert_eq!(attachments[0].content_type, "application/zip");
    // No content disposition means inline.
    assert!(attachments[0].is_inline);
}

fn node(mimetype: &str, body: Option<&str>, children: usize) -> MimePart {
    MimePart {
        mimetype: mimetype.to_string(),
        body_text: body.map(|b| b.to_string()),
        body_raw: Some(body.unwrap_or("").as_bytes().to_vec()),
        is_inline: true,
        disposition_params: Vec::new(),
        headers: Vec::new(),
        children,
    }
}

#[test]
fn the_media_type_is_compared_without_case() {
    let parts = vec![
        node("multipart/mixed", None, 4),
        node("TEXT/PLAIN", None, 0),
        node("Text/Html", Some("<i>h</i>"), 0),
        node("text/plain", Some("second wins because the first did not decode"), 0),
        node("text/html", Some("ignored as body"), 0),
    ];
    let (text, html, attachments) = extract_bodies(&parts);
    assert_eq!(text.as_deref(), Some("second wins because the first did not decode"));
    assert_eq!(html.as_deref(), Some("<i>h</i>"));
    assert_eq!(attachments.len(), 1);
    assert_eq!(attachments[0].content_type, "text/html");
}

#[test]
fn containers_only_pass_on_to_what_is_nested_in_them() {
    // mixed( alternative( plain, html ), related( png ), pdf )
    let parts = vec![
        node("multipart/mixed", Some("preamble"), 3),
        node("multipart/alternative", Some("preamble"), 2),
        node("text/plain", Some("plain"), 0),
        node("text/html", Some("<p>html</p>"), 0),
        node("multipart/related", None, 1),
        node("image/png", Some("png"), 0),
        node("application/pdf", Some("pdf"), 0),
    ];
    let (text, html, attachments) = extract_bodies(&parts);
    assert_eq!(text.as_deref(), Some("plain"));
    assert_eq!(html.as_deref(), Some("<p>html</p>"));
    let types: Vec<&str> = attachments.iter().map(|a| a.content_type.as_str()).collect();
    assert_eq!(types, vec!["image/png", "application/pdf"]);
    assert_eq!(attachments[0].data, b"png".to_vec());
    assert_eq!(attachments[0].size_bytes, 3);
}

#[test]
fn a_message_without_nodes_holds_nothing() {
    let (text, html, attachments) = extract_bodies(&Vec::new());
    assert_eq!((text, html, attachments.len()), (None, None, 0));
}

#[test]
fn nodes_come_in_document_order_with_their_child_counts() {
    let parts = parse_message(MULTIPART.as_bytes()).unwrap();
    let shape: Vec<(&str, usize)> =
        parts.iter().map(|p| (p.mimetype.as_str(), p.children)).collect();
    assert_eq!(
        shape,
        vec![
            ("multipart/mixed", 5),
            ("multipart/alternative", 2),
            ("text/plain", 0),
            ("text/html", 0),
            ("image/png", 0),
            ("application/pdf", 0),
            ("text/plain", 0),
            ("application/octet-stream", 0),
        ]
    );
    assert_eq!(get_first_value(&parts[0].headers, "subject").as_deref(), Some("Report"));
    assert!(!parts[5].is_inline);
    assert_eq!(
        parts[5].disposition_params,
        vec![("filename".to_string(), "report.pdf".to_string())]
    );
}

#[test]
fn headers_are_found_without_case_and_the_first_wins() {
    let headers = vec![
        Header { key: "X-One".to_string(), value: "1".to_string() },
        Header { key: "content-id".to_string(), value: "<a>".to_string() },
        Header { key: "Content-ID".to_string(), value: "<b>".to_string() },
    ];
    assert_eq!(get_first_value(&headers, "Content-ID").as_deref(), Some("<a>"));
    assert_eq!(get_first_value(&headers, "CONTENT-id").as_deref(), Some("<a>"));
    assert_eq!(get_first_value(&headers, "x-one").as_deref(), Some("1"));
    assert_eq!(get_first_value(&headers, "X-Two"), None);
    assert_eq!(get_first_value(&headers, "X-On"), None);
}

#[test]
fn angle_brackets_are_taken_off_content_ids() {
    assert_eq!(bare_content_id("<img1>"), "img1");
    assert_eq!(bare_content_id("img1"), "img1");
    assert_eq!(bare_content_id("<<img1>>"), "img1");
    assert_eq!(bare_content_id("<a<b>c>"), "a<b>c");
    assert_eq!(bare_content_id("<>"), "");
    assert_eq!(bare_content_id(""), "");
}

#[test]
fn encoded_header_words_are_decoded() {
    let root =
        parse_message(b"Subject: =?iso-8859-1?Q?=A1Hola,_se=F1or!?=\r\n\r\nbody").unwrap();
    assert_eq!(
        get_first_value(&root[0].headers, "subject").as_deref(),
        Some("\u{a1}Hola, se\u{f1}or!")
    );
    assert_eq!(header_value(&root, "SUBJECT").as_deref(), Some("\u{a1}Hola, se\u{f1}or!"));
    assert_eq!(header_value(&Vec::new(), "Subject"), None);
}

#[test]
fn bytes_that_do_not_parse_are_a_parse_error() {
    let r = parse_message(b"Subject: x\r\n\rbroken");
    assert!(matches!(r, Err(mail_engine::services::error::MailError::Parse(_))));
}

#[test]
fn a_leaf_whose_bytes_do_not_decode_is_kept_as_an_empty_attachment() {
    let mut leaf = node("application/pdf", None, 0);
    leaf.body_raw = None;
    let (text, html, attachments) = extract_bodies(&vec![leaf]);
    assert_eq!((text, html), (None, None));
    assert_eq!(attachments.len(), 1);
    assert_eq!(attachments[0].content_type, "application/pdf");
    assert_eq!(attachments[0].size_bytes, 0);
    assert!(attachments[0].data.is_empty());

    let raw = b"Content-Type: application/pdf\r\nContent-Transfer-Encoding: base64\r\n\r\n!!!!";
    let root = parse_message(raw).unwrap();
    assert_eq!(root.len(), 1);
    assert_eq!(root[0].body_raw, None);
    let (_, _, attachments) = extract_bodies(&root);
    assert_eq!(attachments.len(), 1);
    assert_eq!(attachments[0].size_bytes, 0);
    assert!(attachments[0].data.is_empty());

    let raw = b"Content-Type: application/pdf\r\nContent-Transfer-Encoding: base64\r\n\r\naGk=";
    let root = parse_message(raw).unwrap();
    assert_eq!(root[0].body_raw.as_deref(), Some(&b"hi"[..]));
    let (_, _, attachments) = extract_bodies(&root);
    assert_eq!(attachments[0].data, b"hi");
    assert_eq!(attachments[0].size_bytes, 2);
}
