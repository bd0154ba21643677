use mail_engine::services::threading::{clean_subject, derive_thread_identifier, truncate_preview};

#[test]
fn reply_and_forward_markers_are_stripped() {
    assert_eq!(clean_subject("Re: Hello"), "Hello");
    assert_eq!(clean_subject("Fwd: Hello"), "Hello");
    assert_eq!(clean_subject("  Re: Hello  "), "Hello");
    assert_eq!(clean_subject("Re:Re:Hello"), "Hello");
    assert_eq!(clean_subject("Re:Fwd:Fwd:Hello"), "Hello");
    assert_eq!(clean_subject("Hello"), "Hello");
    assert_eq!(clean_subject(""), "");
    assert_eq!(clean_subject("   "), "");
    assert_eq!(clean_subject("Re:"), "");
}

#[test]
fn markers_are_stripped_in_any_number_order_and_case() {
    assert_eq!(clean_subject("Re: Re: Hello"), "Hello");
    assert_eq!(clean_subject("Re: Fwd: Re: Hello"), "Hello");
    assert_eq!(clean_subject("Fwd:Re:Hello"), "Hello");
    assert_eq!(clean_subject("RE: Hello"), "Hello");
    assert_eq!(clean_subject("re: FWD: rE:\tfWd:  Hello"), "Hello");
    assert_eq!(clean_subject("Fwd: Re:"), "");
}

#[test]
fn markers_are_stripped_only_at_the_start() {
    assert_eq!(clean_subject("Hello Re: there"), "Hello Re: there");
    assert_eq!(clean_subject("Hello Re:"), "Hello Re:");
    assert_eq!(clean_subject("Re Hello"), "Re Hello");
    assert_eq!(clean_subject("Fw: Hello"), "Fw: Hello");
    assert_eq!(clean_subject("Re : Hello"), "Re : Hello");
    assert_eq!(clean_subject("Re: Regards"), "Regards");
    assert_eq!(clean_subject("Re: HELLO  Re: "), "HELLO  Re:");
}

#[test]
fn only_ascii_letters_of_a_marker_are_folded() {
    // Letters outside ASCII never stand for a marker's letters.
    assert_eq!(clean_subject("R\u{c9}: Hello"), "R\u{c9}: Hello");
    assert_eq!(clean_subject("\u{ff32}e: Hello"), "\u{ff32}e: Hello");
}

#[test]
fn a_capitalised_reply_shares_the_thread_of_the_plain_one() {
    let thread = |raw: &str| derive_thread_identifier(None, None, &clean_subject(raw));
    assert_eq!(thread("RE: HELLO"), thread("Re: Hello"));
    assert_eq!(thread("RE: HELLO"), "subject:hello");
    assert_eq!(thread("Re: Fwd: Re: Hello"), "subject:hello");
}

#[test]
fn unicode_white_space_is_trimmed() {
    assert_eq!(clean_subject("\u{a0}\tHello\u{2003}\n"), "Hello");
}

#[test]
fn in_reply_to_wins_over_message_id_and_subject() {
    assert_eq!(derive_thread_identifier(Some("<m@x>"), Some("<p@x>"), "s"), "<p@x>");
    assert_eq!(derive_thread_identifier(None, Some("<p@x>"), "s"), "<p@x>");
}

#[test]
fn message_id_anchors_a_new_thread() {
    assert_eq!(derive_thread_identifier(Some("<m@x>"), None, "s"), "<m@x>");
}

#[test]
fn without_ids_the_subject_names_the_thread() {
    assert_eq!(derive_thread_identifier(None, None, "Quarterly Numbers"), "subject:quarterly numbers");
    assert_eq!(derive_thread_identifier(None, None, ""), "subject:");
    assert_eq!(derive_thread_identifier(None, None, "ÄÖÜ"), "subject:äöü");
    assert_eq!(derive_thread_identifier(None, None, "A-Z [x] @ `{"), "subject:a-z [x] @ `{");
    assert_eq!(derive_thread_identifier(None, None, "Straße ΑΒΓ"), "subject:straße αβγ");
}

#[test]
fn subjects_that_differ_in_case_padding_or_markers_share_a_thread() {
    let thread = |raw: &str| derive_thread_identifier(None, None, &clean_subject(raw));
    let expected = "subject:budget 2024";
    for raw in ["Budget 2024", "budget 2024", "  BUDGET 2024\t", "Re: Budget 2024", "Fwd: budget 2024 ", "Re:Fwd:Budget 2024", "RE: FWD: re: BUDGET 2024"] {
        assert_eq!(thread(raw), expected);
    }
    assert_ne!(thread("Budget 2025"), expected);
}

#[test]
fn the_subject_thread_cannot_be_mistaken_for_a_message_id() {
    let by_subject = derive_thread_identifier(None, None, "<a@x>");
    let by_id = derive_thread_identifier(Some("<a@x>"), None, "whatever");
    assert_eq!(by_subject, "subject:<a@x>");
    assert_ne!(by_subject, by_id);
}

#[test]
fn a_preview_is_the_trimmed_text_up_to_200_characters() {
    assert_eq!(truncate_preview("  short  "), "short");
    assert_eq!(truncate_preview(""), "");
    let exactly: String = "x".repeat(200);
    assert_eq!(truncate_preview(&exactly), exactly);
    let longer: String = "x".repeat(201);
    assert_eq!(truncate_preview(&longer), exactly);
    let padded = format!("   {}   ", "y".repeat(500));
    assert_eq!(truncate_preview(&padded), "y".repeat(200));
}

#[test]
fn a_preview_counts_characters_not_bytes() {
    let text: String = "é".repeat(150);
    assert_eq!(truncate_preview(&text), text);
    let text: String = "é".repeat(250);
    assert_eq!(truncate_preview(&text).chars().count(), 200);
}

#[test]
fn cleaning_a_cleaned_subject_changes_nothing() {
    for raw in ["Re: Fwd: Re: Hello ", "  RE:re:  ", "Hello Re:", "fwd: FWD:x", "plain", "", " \t "] {
        let once = clean_subject(raw);
        assert_eq!(clean_subject(&once), once);
        assert_eq!(once.trim(), once);
        let head = once.to_ascii_lowercase();
        assert!(!head.starts_with("re:") && !head.starts_with("fwd:"));
    }
}
