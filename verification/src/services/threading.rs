//! The thread resolver: from a message's headers to the identifier of the
//! conversation it belongs to.

use crate::text::{
    all_space, ascii_fold, char_is_space, eq_ignore_ascii_case_spec, from_chars,
    has_prefix_ignoring_case_at, is_ascii_text, is_space, join, lemma_fold_keeps_space,
    lemma_lower_ignores_ascii_case, lemma_trim_end_padding, lower, lower_spec, prefix_chars,
    prefix_ignoring_case, prefix_spec, subvec, to_chars, trim_chars, trim_end_spec, trim_spec,
};
use vstd::prelude::*;

verus! {

/// The reply marker that is stripped from the start of a subject, in
/// whatever letter case it is written.
pub open spec fn reply_marker() -> Seq<char> {
    seq!['r', 'e', ':']
}

/// The forward marker that is stripped from the start of a subject, in
/// whatever letter case it is written.
pub open spec fn forward_marker() -> Seq<char> {
    seq!['f', 'w', 'd', ':']
}

/// The tag that keeps subject-derived identifiers apart from message ids.
pub open spec fn subject_tag() -> Seq<char> {
    seq!['s', 'u', 'b', 'j', 'e', 'c', 't', ':']
}

/// How many characters at the start of a subject say nothing of its
/// topic: one where it starts with white space, the length of a reply or
/// forward marker where it starts with one, and none otherwise.
pub open spec fn leading_noise(s: Seq<char>) -> nat {
    if s.len() > 0 && is_space(s[0]) {
        1
    } else if prefix_ignoring_case(s, reply_marker()) {
        3
    } else if prefix_ignoring_case(s, forward_marker()) {
        4
    } else {
        0
    }
}

/// A subject without its leading reply and forward markers, however many
/// there are and in whatever order and letter case, and without the white
/// space before and between them.
pub open spec fn strip_markers_spec(s: Seq<char>) -> Seq<char>
    decreases s.len(),
{
    if leading_noise(s) > 0 {
        strip_markers_spec(s.skip(leading_noise(s) as int))
    } else {
        s
    }
}

/// A subject without its leading markers and without surrounding white
/// space.
pub open spec fn clean_subject_spec(s: Seq<char>) -> Seq<char> {
    trim_end_spec(strip_markers_spec(s))
}

/// The thread identifier: the parent's id for a reply, else the message's own
/// id, else the tagged lower-cased subject.
pub open spec fn thread_identifier_spec(
    message_id: Option<Seq<char>>,
    in_reply_to: Option<Seq<char>>,
    subject: Seq<char>,
) -> Seq<char> {
    match in_reply_to {
        Some(reply) => reply,
        None => match message_id {
            Some(id) => id,
            None => subject_tag() + lower_spec(subject),
        },
    }
}

/// The thread identifier of a message that carries neither id, for its raw
/// subject line.
pub open spec fn subject_thread_spec(raw_subject: Seq<char>) -> Seq<char> {
    thread_identifier_spec(None, None, clean_subject_spec(raw_subject))
}

/// The first 200 characters of the trimmed text.
pub open spec fn preview_spec(text: Seq<char>) -> Seq<char> {
    prefix_spec(trim_spec(text), 200)
}

fn noise_at(v: &Vec<char>, at: usize, re: &Vec<char>, fwd: &Vec<char>) -> (r: usize)
    requires
        at <= v.len(),
        re@ == reply_marker(),
        fwd@ == forward_marker(),
    ensures
        r == leading_noise(v@.skip(at as int)),
        at + r <= v.len(),
{
    if at < v.len() && char_is_space(v[at]) {
        assert(v@.skip(at as int)[0] == v@[at as int]);
        1
    } else {
        assert(at < v.len() ==> v@.skip(at as int)[0] == v@[at as int]);
        if has_prefix_ignoring_case_at(v, at, re) {
            3
        } else if has_prefix_ignoring_case_at(v, at, fwd) {
            4
        } else {
            0
        }
    }
}

/// Strips the leading `Re:` and `Fwd:` markers from a subject line, however
/// many there are and in whatever order and letter case, with the white
/// space around them.
pub fn clean_subject(subject: &str) -> (r: String)
    ensures
        r@ == clean_subject_spec(subject@),
{
    let chars = to_chars(subject);
    let re = to_chars("re:");
    let fwd = to_chars("fwd:");
    proof {
        reveal_strlit("re:");
        reveal_strlit("fwd:");
        assert(re@ =~= reply_marker());
        assert(fwd@ =~= forward_marker());
        assert(chars@.skip(0) == chars@);
    }
    let mut at: usize = 0;
    let mut noise = noise_at(&chars, at, &re, &fwd);
    while noise > 0
        invariant
            at <= chars.len(),
            at + noise <= chars.len(),
            re@ == reply_marker(),
            fwd@ == forward_marker(),
            noise == leading_noise(chars@.skip(at as int)),
            strip_markers_spec(chars@) == strip_markers_spec(chars@.skip(at as int)),
        decreases chars.len() - at,
    {
        assert(chars@.skip(at as int).skip(noise as int) == chars@.skip(at + noise));
        at = at + noise;
        noise = noise_at(&chars, at, &re, &fwd);
    }
    assert(chars@.skip(at as int) == chars@.subrange(at as int, chars.len() as int));
    let rest = subvec(&chars, at, chars.len());
    let mut end: usize = rest.len();
    assert(rest@.take(rest.len() as int) == rest@);
    while end > 0 && char_is_space(rest[end - 1])
        invariant
            end <= rest.len(),
            trim_end_spec(rest@) == trim_end_spec(rest@.take(end as int)),
        decreases end,
    {
        assert(rest@.take(end as int).drop_last() == rest@.take(end - 1));
        end -= 1;
    }
    assert(rest@.take(end as int) == rest@.subrange(0, end as int));
    let out = subvec(&rest, 0, end);
    from_chars(&out)
}

/// Resolves the conversation a message belongs to. A reply joins its
/// parent's thread; a first message anchors a thread to its own id; a
/// message with neither id falls into the bucket of its subject.
pub fn derive_thread_identifier(
    message_id: Option<&str>,
    in_reply_to: Option<&str>,
    subject: &str,
) -> (r: String)
    ensures
        r@ == thread_identifier_spec(message_id.deep_view(), in_reply_to.deep_view(), subject@),
{
    if let Some(reply) = in_reply_to {
        reply.to_string()
    } else if let Some(id) = message_id {
        id.to_string()
    } else {
        let folded = lower(subject);
        proof {
            reveal_strlit("subject:");
            assert("subject:"@ =~= subject_tag());
        }
        join("subject:", folded.as_str())
    }
}

/// The preview of a body: its first 200 characters once trimmed.
pub fn truncate_preview(text: &str) -> (r: String)
    ensures
        r@ == preview_spec(text@),
        r@.len() <= 200,
{
    let chars = to_chars(text);
    let trimmed = trim_chars(&chars);
    let head = prefix_chars(&trimmed, 200);
    from_chars(&head)
}

/// Two messages without ids share a thread exactly when their subjects agree
/// once lower-cased: the identifier depends on nothing else.
pub proof fn lemma_subject_thread_is_function_of_subject(a: Seq<char>, b: Seq<char>)
    ensures
        thread_identifier_spec(None, None, a) == thread_identifier_spec(None, None, b)
            <==> lower_spec(a) == lower_spec(b),
{
    let x = subject_tag() + lower_spec(a);
    let y = subject_tag() + lower_spec(b);
    if x == y {
        assert(x.skip(8) == lower_spec(a));
        assert(y.skip(8) == lower_spec(b));
    }
}

/// A subject-derived identifier is never handed out for a present id: with
/// an `in-reply-to` the identifier is that value, with only a `message-id`
/// it is the id, whatever the subject.
pub proof fn lemma_ids_take_precedence(
    message_id: Option<Seq<char>>,
    in_reply_to: Option<Seq<char>>,
    a: Seq<char>,
    b: Seq<char>,
)
    requires
        message_id is Some || in_reply_to is Some,
    ensures
        thread_identifier_spec(message_id, in_reply_to, a) == thread_identifier_spec(
            message_id,
            in_reply_to,
            b,
        ),
        in_reply_to is Some ==> thread_identifier_spec(message_id, in_reply_to, a)
            == in_reply_to->0,
        in_reply_to is None ==> thread_identifier_spec(message_id, in_reply_to, a)
            == message_id->0,
{
}

/// White space before a subject is stripped with its markers.
pub proof fn lemma_markers_ignore_leading_space(left: Seq<char>, s: Seq<char>)
    requires
        all_space(left),
    ensures
        strip_markers_spec(left + s) == strip_markers_spec(s),
    decreases left.len(),
{
    if left.len() == 0 {
        assert(left + s == s);
    } else {
        assert((left + s)[0] == left[0]);
        assert((left + s).skip(1) == left.drop_first() + s);
        assert forall|i: int| 0 <= i < left.drop_first().len() implies is_space(
            #[trigger] left.drop_first()[i],
        ) by {
            assert(left.drop_first()[i] == left[i + 1]);
        }
        lemma_markers_ignore_leading_space(left.drop_first(), s);
    }
}

/// White space after a subject does not change what is left of it.
pub proof fn lemma_clean_ignores_trailing_space(s: Seq<char>, right: Seq<char>)
    requires
        all_space(right),
    ensures
        clean_subject_spec(s + right) == clean_subject_spec(s),
    decreases s.len(),
{
    let whole = s + right;
    if s.len() == 0 {
        assert(whole == right);
        lemma_markers_ignore_leading_space(right, Seq::<char>::empty());
        assert(right + Seq::<char>::empty() == right);
    } else if leading_noise(s) > 0 {
        let n = leading_noise(s) as int;
        assert(whole[0] == s[0]);
        assert forall|i: int| 0 <= i < s.len() implies #[trigger] whole[i] == s[i] by {}
        assert(leading_noise(whole) == leading_noise(s));
        assert(whole.skip(n) == s.skip(n) + right);
        lemma_clean_ignores_trailing_space(s.skip(n), right);
    } else {
        assert(whole[0] == s[0]);
        assert(!prefix_ignoring_case(whole, reply_marker())) by {
            if prefix_ignoring_case(whole, reply_marker()) {
                if s.len() >= 3 {
                    assert forall|i: int| 0 <= i < 3 implies ascii_fold(#[trigger] s[i])
                        == ascii_fold(reply_marker()[i]) by {
                        assert(whole[i] == s[i]);
                    }
                } else {
                    let i = s.len() as int;
                    assert(whole[i] == right[0]);
                    assert(is_space(right[0]));
                    assert(ascii_fold(whole[i]) == ascii_fold(reply_marker()[i]));
                }
            }
        }
        assert(!prefix_ignoring_case(whole, forward_marker())) by {
            if prefix_ignoring_case(whole, forward_marker()) {
                if s.len() >= 4 {
                    assert forall|i: int| 0 <= i < 4 implies ascii_fold(#[trigger] s[i])
                        == ascii_fold(forward_marker()[i]) by {
                        assert(whole[i] == s[i]);
                    }
                } else {
                    let i = s.len() as int;
                    assert(whole[i] == right[0]);
                    assert(is_space(right[0]));
                    assert(ascii_fold(whole[i]) == ascii_fold(forward_marker()[i]));
                }
            }
        }
        assert(leading_noise(whole) == 0);
        lemma_trim_end_padding(s, right);
    }
}

/// White space around a subject line does not change its thread.
pub proof fn lemma_subject_thread_ignores_padding(
    left: Seq<char>,
    subject: Seq<char>,
    right: Seq<char>,
)
    requires
        all_space(left),
        all_space(right),
    ensures
        clean_subject_spec(left + subject + right) == clean_subject_spec(subject),
        subject_thread_spec(left + subject + right) == subject_thread_spec(subject),
{
    assert(left + subject + right == left + (subject + right));
    lemma_markers_ignore_leading_space(left, subject + right);
    lemma_clean_ignores_trailing_space(subject, right);
}

/// A reply or forward marker before a subject, in whatever letter case,
/// does not change its thread: markers are stripped however many there are
/// and in whatever order.
pub proof fn lemma_marker_is_stripped(marker: Seq<char>, subject: Seq<char>)
    requires
        eq_ignore_ascii_case_spec(marker, reply_marker()) || eq_ignore_ascii_case_spec(
            marker,
            forward_marker(),
        ),
    ensures
        clean_subject_spec(marker + subject) == clean_subject_spec(subject),
        subject_thread_spec(marker + subject) == subject_thread_spec(subject),
{
    let whole = marker + subject;
    assert forall|i: int| 0 <= i < marker.len() implies #[trigger] whole[i] == marker[i] by {}
    if eq_ignore_ascii_case_spec(marker, reply_marker()) {
        assert(ascii_fold(marker[0]) == ascii_fold(reply_marker()[0]));
        assert(whole[0] == marker[0]);
        assert(prefix_ignoring_case(whole, reply_marker()));
        assert(whole.skip(3) == subject);
    } else {
        assert(ascii_fold(marker[0]) == ascii_fold(forward_marker()[0]));
        assert(ascii_fold(marker[1]) == ascii_fold(forward_marker()[1]));
        assert(whole[0] == marker[0]);
        assert(whole[1] == marker[1]);
        assert(prefix_ignoring_case(whole, forward_marker()));
        assert(!prefix_ignoring_case(whole, reply_marker())) by {
            if prefix_ignoring_case(whole, reply_marker()) {
                assert(ascii_fold(whole[0]) == ascii_fold(reply_marker()[0]));
            }
        }
        assert(whole.skip(4) == subject);
    }
}

proof fn lemma_trim_end_is_head(s: Seq<char>)
    ensures
        trim_end_spec(s).len() <= s.len(),
        trim_end_spec(s) == s.take(trim_end_spec(s).len() as int),
        trim_end_spec(s).len() > 0 ==> !is_space(trim_end_spec(s).last()),
        s.len() > 0 && !is_space(s[0]) ==> trim_end_spec(s).len() > 0,
    decreases s.len(),
{
    if s.len() > 0 && is_space(s.last()) {
        let head = s.drop_last();
        lemma_trim_end_is_head(head);
        assert(head.take(trim_end_spec(head).len() as int) == s.take(
            trim_end_spec(head).len() as int,
        ));
    } else {
        assert(s.take(s.len() as int) == s);
    }
}

proof fn lemma_strip_leaves_no_noise(s: Seq<char>)
    ensures
        leading_noise(strip_markers_spec(s)) == 0,
    decreases s.len(),
{
    if leading_noise(s) > 0 {
        lemma_strip_leaves_no_noise(s.skip(leading_noise(s) as int));
    }
}

/// A cleaned subject starts with no marker and no white space, and ends
/// with no white space: every leading marker is gone.
pub proof fn lemma_clean_leaves_no_marker(s: Seq<char>)
    ensures
        leading_noise(clean_subject_spec(s)) == 0,
        clean_subject_spec(s).len() > 0 ==> !is_space(clean_subject_spec(s).last()),
{
    let rest = strip_markers_spec(s);
    let out = trim_end_spec(rest);
    lemma_strip_leaves_no_noise(s);
    lemma_trim_end_is_head(rest);
    if out.len() > 0 {
        assert(out[0] == rest[0]);
    }
    assert forall|i: int| 0 <= i < out.len() implies #[trigger] out[i] == rest[i] by {}
    if prefix_ignoring_case(out, reply_marker()) {
        assert forall|i: int| 0 <= i < 3 implies ascii_fold(#[trigger] rest[i]) == ascii_fold(
            reply_marker()[i],
        ) by {
            assert(out[i] == rest[i]);
        }
    }
    if prefix_ignoring_case(out, forward_marker()) {
        assert forall|i: int| 0 <= i < 4 implies ascii_fold(#[trigger] rest[i]) == ascii_fold(
            forward_marker()[i],
        ) by {
            assert(out[i] == rest[i]);
        }
    }
}

/// Cleaning a cleaned subject changes nothing.
pub proof fn lemma_clean_is_idempotent(s: Seq<char>)
    ensures
        clean_subject_spec(clean_subject_spec(s)) == clean_subject_spec(s),
{
    lemma_clean_leaves_no_marker(s);
}

/// Two subjects that are equal up to the case of their ASCII letters are
/// equal up to that case once they are cleaned.
pub proof fn lemma_clean_keeps_case_equality(a: Seq<char>, b: Seq<char>)
    requires
        eq_ignore_ascii_case_spec(a, b),
    ensures
        eq_ignore_ascii_case_spec(clean_subject_spec(a), clean_subject_spec(b)),
{
    lemma_strip_keeps_case_equality(a, b);
    lemma_trim_end_keeps_case_equality(strip_markers_spec(a), strip_markers_spec(b));
}

proof fn lemma_prefix_keeps_case_equality(a: Seq<char>, b: Seq<char>, p: Seq<char>)
    requires
        eq_ignore_ascii_case_spec(a, b),
    ensures
        prefix_ignoring_case(a, p) == prefix_ignoring_case(b, p),
{
    if p.len() <= a.len() {
        assert forall|i: int| 0 <= i < p.len() implies (ascii_fold(#[trigger] a[i]) == ascii_fold(
            p[i],
        )) == (ascii_fold(b[i]) == ascii_fold(p[i])) by {}
        if prefix_ignoring_case(a, p) {
            assert forall|i: int| 0 <= i < p.len() implies ascii_fold(#[trigger] b[i])
                == ascii_fold(p[i]) by {
                assert(ascii_fold(a[i]) == ascii_fold(b[i]));
            }
        }
        if prefix_ignoring_case(b, p) {
            assert forall|i: int| 0 <= i < p.len() implies ascii_fold(#[trigger] a[i])
                == ascii_fold(p[i]) by {
                assert(ascii_fold(b[i]) == ascii_fold(p[i]));
            }
        }
    }
}

proof fn lemma_strip_keeps_case_equality(a: Seq<char>, b: Seq<char>)
    requires
        eq_ignore_ascii_case_spec(a, b),
    ensures
        eq_ignore_ascii_case_spec(strip_markers_spec(a), strip_markers_spec(b)),
    decreases a.len(),
{
    if a.len() > 0 {
        assert(ascii_fold(a[0]) == ascii_fold(b[0]));
        lemma_fold_keeps_space(a[0], b[0]);
    }
    lemma_prefix_keeps_case_equality(a, b, reply_marker());
    lemma_prefix_keeps_case_equality(a, b, forward_marker());
    assert(leading_noise(a) == leading_noise(b));
    if leading_noise(a) > 0 {
        let n = leading_noise(a) as int;
        assert forall|i: int| 0 <= i < a.skip(n).len() implies ascii_fold(
            #[trigger] a.skip(n)[i],
        ) == ascii_fold(b.skip(n)[i]) by {
            assert(a.skip(n)[i] == a[i + n]);
            assert(b.skip(n)[i] == b[i + n]);
        }
        lemma_strip_keeps_case_equality(a.skip(n), b.skip(n));
    }
}

proof fn lemma_trim_end_keeps_case_equality(a: Seq<char>, b: Seq<char>)
    requires
        eq_ignore_ascii_case_spec(a, b),
    ensures
        eq_ignore_ascii_case_spec(trim_end_spec(a), trim_end_spec(b)),
    decreases a.len(),
{
    if a.len() > 0 {
        assert(ascii_fold(a[a.len() - 1]) == ascii_fold(b[a.len() - 1]));
        lemma_fold_keeps_space(a.last(), b.last());
        if is_space(a.last()) {
            assert forall|i: int| 0 <= i < a.drop_last().len() implies ascii_fold(
                #[trigger] a.drop_last()[i],
            ) == ascii_fold(b.drop_last()[i]) by {
                assert(a.drop_last()[i] == a[i]);
                assert(b.drop_last()[i] == b[i]);
            }
            lemma_trim_end_keeps_case_equality(a.drop_last(), b.drop_last());
        }
    }
}

/// What is left of an ASCII subject once it is cleaned is ASCII text.
pub proof fn lemma_clean_keeps_ascii(s: Seq<char>)
    requires
        is_ascii_text(s),
    ensures
        is_ascii_text(clean_subject_spec(s)),
{
    lemma_strip_keeps_ascii(s);
    lemma_trim_end_keeps_ascii(strip_markers_spec(s));
}

proof fn lemma_strip_keeps_ascii(s: Seq<char>)
    requires
        is_ascii_text(s),
    ensures
        is_ascii_text(strip_markers_spec(s)),
    decreases s.len(),
{
    if leading_noise(s) > 0 {
        let n = leading_noise(s) as int;
        assert forall|i: int| 0 <= i < s.skip(n).len() implies (#[trigger] s.skip(n)[i]) as u32
            <= 0x7F by {
            assert(s.skip(n)[i] == s[i + n]);
        }
        lemma_strip_keeps_ascii(s.skip(n));
    }
}

proof fn lemma_trim_end_keeps_ascii(s: Seq<char>)
    requires
        is_ascii_text(s),
    ensures
        is_ascii_text(trim_end_spec(s)),
    decreases s.len(),
{
    if s.len() > 0 && is_space(s.last()) {
        assert forall|i: int| 0 <= i < s.drop_last().len() implies (
        #[trigger] s.drop_last()[i]) as u32 <= 0x7F by {
            assert(s.drop_last()[i] == s[i]);
        }
        lemma_trim_end_keeps_ascii(s.drop_last());
    }
}

/// Two ASCII subjects that are equal up to the case of their letters fall
/// into the same thread.
pub proof fn lemma_subject_thread_ignores_case(a: Seq<char>, b: Seq<char>)
    requires
        is_ascii_text(a),
        is_ascii_text(b),
        eq_ignore_ascii_case_spec(a, b),
    ensures
        subject_thread_spec(a) == subject_thread_spec(b),
{
    lemma_clean_keeps_case_equality(a, b);
    lemma_clean_keeps_ascii(a);
    lemma_clean_keeps_ascii(b);
    lemma_lower_ignores_ascii_case(clean_subject_spec(a), clean_subject_spec(b));
}

} // verus!
