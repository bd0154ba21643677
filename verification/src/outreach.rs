//! Outreach mail: what is sent to a contact, and what is logged of it.

use crate::conversations_controller::Refusal;
use crate::email_service::{blank, defaults_spec, is_blank, EmailTemplateKind};
use crate::text::{
    char_is_space, join, from_chars, is_space, prefix_chars, prefix_spec, to_chars, trim_chars,
    trim_spec,
};
use vstd::prelude::*;
use vstd::utf8::encode_utf8;

verus! {

/// The summary of a text for the outreach log: the trimmed text where it
/// takes no more than 240 bytes, else its first 240 characters and an
/// ellipsis.
pub open spec fn log_preview_spec(text: Seq<char>) -> Seq<char> {
    let trimmed = trim_spec(text);
    if encode_utf8(trimmed).len() <= 240 {
        trimmed
    } else {
        prefix_spec(trimmed, 240) + "..."@
    }
}

/// Summarises a text for the outreach log.
pub fn truncate_preview(text: &str) -> (r: String)
    ensures
        r@ == log_preview_spec(text@),
{
    let chars = to_chars(text);
    let trimmed = trim_chars(&chars);
    let whole = from_chars(&trimmed);
    if whole.as_str().as_bytes().len() <= 240 {
        return whole;
    }
    let head = prefix_chars(&trimmed, 240);
    let shortened = from_chars(&head);
    join(shortened.as_str(), "...")
}

/// A text without its markup, and whether its end lies inside a tag: what
/// stands between `<` and `>` is dropped, and each `>` leaves one space
/// unless a space stands before it already.
pub open spec fn strip_tags_spec(input: Seq<char>) -> (Seq<char>, bool)
    decreases input.len(),
{
    if input.len() == 0 {
        (Seq::empty(), false)
    } else {
        let (out, in_tag) = strip_tags_spec(input.drop_last());
        let c = input.last();
        if c == '<' {
            (out, true)
        } else if c == '>' {
            if out.len() > 0 && out.last() == ' ' {
                (out, false)
            } else {
                (out.push(' '), false)
            }
        } else if !in_tag {
            (out.push(c), in_tag)
        } else {
            (out, in_tag)
        }
    }
}

/// A text with leading white space dropped and every run of white space
/// squeezed to one space.
pub open spec fn squeeze_spec(s: Seq<char>) -> Seq<char>
    decreases s.len(),
{
    if s.len() == 0 {
        Seq::empty()
    } else {
        let rest = squeeze_spec(s.drop_last());
        let c = s.last();
        if is_space(c) {
            if rest.len() == 0 || rest.last() == ' ' {
                rest
            } else {
                rest.push(' ')
            }
        } else {
            rest.push(c)
        }
    }
}

/// The words of a text joined by single spaces.
pub open spec fn words_spec(s: Seq<char>) -> Seq<char> {
    let squeezed = squeeze_spec(s);
    if squeezed.len() > 0 && squeezed.last() == ' ' {
        squeezed.drop_last()
    } else {
        squeezed
    }
}

/// The plain text of an HTML body: its words without its markup.
pub open spec fn plain_text_spec(input: Seq<char>) -> Seq<char> {
    words_spec(strip_tags_spec(input).0)
}

/// Derives a plain body from an HTML body by dropping the markup.
pub fn fallback_plain_text(input: &str) -> (r: String)
    ensures
        r@ == plain_text_spec(input@),
{
    let chars = to_chars(input);
    let mut output: Vec<char> = Vec::new();
    let mut in_tag = false;
    let mut i: usize = 0;
    assert(chars@.take(0) == Seq::<char>::empty());
    while i < chars.len()
        invariant
            i <= chars.len(),
            (output@, in_tag) == strip_tags_spec(chars@.take(i as int)),
        decreases chars.len() - i,
    {
        assert(chars@.take(i + 1).drop_last() == chars@.take(i as int));
        assert(chars@.take(i + 1).last() == chars@[i as int]);
        let c = chars[i];
        if c == '<' {
            in_tag = true;
        } else if c == '>' {
            in_tag = false;
            let ends_with_space = output.len() > 0 && output[output.len() - 1] == ' ';
            if !ends_with_space {
                output.push(' ');
            }
        } else if !in_tag {
            output.push(c);
        }
        i += 1;
    }
    assert(chars@.take(chars.len() as int) == chars@);
    let mut words: Vec<char> = Vec::new();
    let mut j: usize = 0;
    assert(output@.take(0) == Seq::<char>::empty());
    while j < output.len()
        invariant
            j <= output.len(),
            words@ == squeeze_spec(output@.take(j as int)),
        decreases output.len() - j,
    {
        assert(output@.take(j + 1).drop_last() == output@.take(j as int));
        assert(output@.take(j + 1).last() == output@[j as int]);
        let c = output[j];
        if char_is_space(c) {
            let skip = words.len() == 0 || words[words.len() - 1] == ' ';
            if !skip {
                words.push(' ');
            }
        } else {
            words.push(c);
        }
        j += 1;
    }
    assert(output@.take(output.len() as int) == output@);
    if words.len() > 0 && words[words.len() - 1] == ' ' {
        words.pop();
    }
    from_chars(&words)
}

/// What is sent to a contact: a subject and two bodies.
#[derive(Debug)]
pub struct ContactMessage {
    pub subject: String,
    pub html_body: String,
    pub text_body: String,
}

/// What is sent to a contact for a request: each text of the request, and
/// the text of the template where the request has none. A blank subject or
/// a blank HTML body is refused; a blank plain body is derived from the
/// HTML body.
pub open spec fn contact_message_spec(
    kind: EmailTemplateKind,
    contact_name: Seq<char>,
    startup_name: Seq<char>,
    subject: Option<Seq<char>>,
    body_html: Option<Seq<char>>,
    body_text: Option<Seq<char>>,
) -> Option<(Seq<char>, Seq<char>, Seq<char>)> {
    let defaults = defaults_spec(kind, contact_name, startup_name);
    let subject = match subject {
        Some(s) => s,
        None => defaults.0,
    };
    let html = match body_html {
        Some(s) => s,
        None => defaults.1,
    };
    let text = match body_text {
        Some(s) => s,
        None => defaults.2,
    };
    if is_blank(subject) || is_blank(html) {
        None
    } else {
        Some(
            (
                subject,
                html,
                if is_blank(text) {
                    plain_text_spec(html)
                } else {
                    text
                },
            ),
        )
    }
}

/// Settles what is sent to a contact for a request.
pub fn contact_message(
    kind: EmailTemplateKind,
    contact_name: &str,
    startup_name: &str,
    subject: Option<String>,
    body_html: Option<String>,
    body_text: Option<String>,
) -> (r: Result<ContactMessage, Refusal>)
    ensures
        match r {
            Ok(m) => contact_message_spec(
                kind,
                contact_name@,
                startup_name@,
                subject.deep_view(),
                body_html.deep_view(),
                body_text.deep_view(),
            ) == Some((m.subject@, m.html_body@, m.text_body@)),
            Err(e) => e == Refusal::BadRequest && contact_message_spec(
                kind,
                contact_name@,
                startup_name@,
                subject.deep_view(),
                body_html.deep_view(),
                body_text.deep_view(),
            ) is None,
        },
{
    let defaults = kind.defaults(contact_name, startup_name);
    let subject = match subject {
        Some(s) => s,
        None => defaults.subject,
    };
    let html_body = match body_html {
        Some(s) => s,
        None => defaults.html_body,
    };
    let mut text_body = match body_text {
        Some(s) => s,
        None => defaults.text_body,
    };
    if blank(subject.as_str()) || blank(html_body.as_str()) {
        return Err(Refusal::BadRequest);
    }
    if blank(text_body.as_str()) {
        text_body = fallback_plain_text(html_body.as_str());
    }
    Ok(ContactMessage { subject, html_body, text_body })
}

/// The outcome that the outreach log records for a sent mail.
pub fn sent_outcome(kind: EmailTemplateKind) -> (r: String)
    ensures
        r@ == kind.display_name_spec() + " email sent"@,
{
    join(kind.display_name(), " email sent")
}

} // verus!
