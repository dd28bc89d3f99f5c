use outbound_manifest::body::outbound_body;
use outbound_manifest::digest::sha256_hex;
use outbound_manifest::email::basic_email_valid;
use outbound_manifest::error::ManifestError;
use outbound_manifest::json::canonical_content_bytes;
use outbound_manifest::manifest::{Attachment, Channel, Manifest};
use outbound_manifest::paths::resolve;
use outbound_manifest::placeholder::{placeholder_hits, unresolved_placeholders};
use outbound_manifest::text::{blank, decimal_string, join};

#[test]
fn channel_names() {
    assert_eq!(Channel::Email.as_str(), "email");
    assert_eq!(Channel::Slack.as_str(), "slack");
    assert_eq!(Channel::Discord.as_str(), "discord");
    assert_eq!(Channel::Social.as_str(), "social");
    assert_eq!(Channel::Form.as_str(), "form");
}

#[test]
fn email_shapes() {
    assert!(basic_email_valid("person@example.com"));
    assert!(basic_email_valid("a.b+c@sub.example.co.jp"));
    assert!(!basic_email_valid(""));
    assert!(!basic_email_valid("person"));
    assert!(!basic_email_valid("@example.com"));
    assert!(!basic_email_valid("person@localhost"));
    assert!(!basic_email_valid("a@b@example.com"));
    assert!(!basic_email_valid("per son@example.com"));
    assert!(!basic_email_valid("person@example.com\u{3000}"));
    assert!(!basic_email_valid("person.name@example"));
    assert!(basic_email_valid("person@.com"));
}

#[test]
fn placeholder_hits_in_search_order() {
    let hits = placeholder_hits("[要確認] {{x}} TBD TODO", &[]);
    assert_eq!(hits, vec!["TODO", "TBD", "{{", "}}", "[要確認]"]);
    let hits = placeholder_hits("TBD and <insert name>", &["TBD".to_string()]);
    assert_eq!(hits, vec!["<insert"]);
    assert!(placeholder_hits("Done. Thanks!", &[]).is_empty());
    assert!(placeholder_hits("todo in lower case", &[]).is_empty());
}

#[test]
fn unresolved_placeholders_merge_body_and_subject() {
    let found = unresolved_placeholders("FIXME", &Some("TODO FIXME".to_string()), &[]);
    assert_eq!(found, vec!["FIXME".to_string(), "TODO".to_string()]);
    let found = unresolved_placeholders("clean", &None, &[]);
    assert!(found.is_empty());
}

#[test]
fn resolve_paths() {
    assert_eq!(resolve("task", "body.md"), "task/body.md");
    assert_eq!(resolve("task/", "body.md"), "task/body.md");
    assert_eq!(resolve("", "body.md"), "body.md");
    assert_eq!(resolve("task", "/abs/body.md"), "/abs/body.md");
    assert_eq!(resolve("task", ""), "task/");
}

#[test]
fn outbound_body_follows_first_separator() {
    assert_eq!(outbound_body("just text\n"), "just text\n");
    assert_eq!(outbound_body("notes\n---\nbody\n"), "body\n");
    assert_eq!(outbound_body("---\nbody"), "body");
    assert_eq!(outbound_body("a\r\n---\r\nbody\r\n"), "body\r\n");
    assert_eq!(outbound_body("a\n---"), "");
    assert_eq!(outbound_body("a\n----\nb\n---\nc"), "c");
    assert_eq!(outbound_body("x ---\nbody"), "x ---\nbody");
    assert_eq!(outbound_body("n\n---\nb\n---\nc"), "b\n---\nc");
    assert_eq!(outbound_body("---\r"), "---\r");
}

#[test]
fn blank_is_unicode_white_space() {
    assert!(blank(""));
    assert!(blank(" \t\n\r\u{0b}\u{0c}"));
    assert!(blank("\u{3000}\u{00a0}\u{2003}\u{85}"));
    assert!(!blank(" x "));
    assert!(!blank("\u{200b}"));
}

#[test]
fn sha256_known_values() {
    assert_eq!(
        sha256_hex(b""),
        "e3b0c44298fc1c149afbf4c8996fb92427ae41e4649b934ca495991b7852b855"
    );
    assert_eq!(
        sha256_hex(b"abc"),
        "ba7816bf8f01cfea414140de5dae2223b00361a396177a9cb410ff61f20015ad"
    );
}

#[test]
fn decimal_and_join() {
    assert_eq!(decimal_string(0), "0");
    assert_eq!(decimal_string(1234567890), "1234567890");
    assert_eq!(decimal_string(u64::MAX), "18446744073709551615");
    assert_eq!(join(&vec![], ", "), "");
    assert_eq!(join(&vec!["a".to_string()], ", "), "a");
    assert_eq!(join(&vec!["a".to_string(), "b".to_string()], ", "), "a, b");
}

fn small_manifest() -> Manifest {
    Manifest {
        schema: 1,
        channel: Channel::Form,
        context: "Form \"x\"\\y\n\u{1}é".to_string(),
        to: vec!["a@b.c".to_string(), "d@e.f".to_string()],
        cc: vec![],
        bcc: vec!["z@y.x".to_string()],
        subject: None,
        body_file: "body.md".to_string(),
        attachments: vec![
            Attachment {
                path: "a.pdf".to_string(),
                sha256: "11".to_string(),
            },
            Attachment {
                path: "b.pdf".to_string(),
                sha256: "22".to_string(),
            },
        ],
        allow_placeholders: vec!["TODO".to_string()],
        approval: None,
    }
}

#[test]
fn canonical_content_is_compact_json_in_field_order() {
    let bytes = canonical_content_bytes(&small_manifest(), "abcd");
    let text = String::from_utf8(bytes).unwrap();
    assert_eq!(
        text,
        "{\"schema\":1,\"channel\":\"form\",\"context\":\"Form \\\"x\\\"\\\\y\\n\\u0001é\",\"to\":[\"a@b.c\",\"d@e.f\"],\"cc\":[],\"bcc\":[\"z@y.x\"],\"subject\":null,\"body_file\":\"body.md\",\"body_sha256\":\"abcd\",\"attachments\":[{\"path\":\"a.pdf\",\"sha256\":\"11\"},{\"path\":\"b.pdf\",\"sha256\":\"22\"}]}"
    );
    let mut m = small_manifest();
    m.subject = Some("Hi".to_string());
    m.attachments.clear();
    let text = String::from_utf8(canonical_content_bytes(&m, "")).unwrap();
    assert!(text.contains("\"subject\":\"Hi\""));
    assert!(text.ends_with("\"body_sha256\":\"\",\"attachments\":[]}"));
}

#[test]
fn error_messages() {
    assert_eq!(
        ManifestError::MissingContext.message(),
        "context must identify the exact thread, channel, account, or form"
    );
    assert_eq!(
        ManifestError::ManifestExists("task/outbound.json".to_string()).message(),
        "task/outbound.json already exists"
    );
    assert_eq!(
        ManifestError::UnresolvedPlaceholders(vec!["TBD".to_string(), "TODO".to_string()]).message(),
        "unresolved placeholder(s): TBD, TODO"
    );
    assert_eq!(ManifestError::InvalidApprovalTime.message(), "--approved-at must be RFC 3339");
    assert_eq!(
        ManifestError::DuplicateAttachment("a.pdf".to_string()).message(),
        "duplicate attachment: a.pdf"
    );
    assert_eq!(ManifestError::EmptyBody.message(), "body file is empty");
    assert_eq!(ManifestError::UnsupportedSchema(42).message(), "unsupported manifest schema 42; expected 1");
}

#[test]
fn placeholder_hits_shrink_as_more_are_allowed() {
    let text = "TODO TBD FIXME {{x}} <insert> [要確認] TODO";
    let all = placeholder_hits(text, &[]);
    assert_eq!(all.len(), 7);
    let some = placeholder_hits(text, &["TBD".to_string(), "}}".to_string()]);
    assert_eq!(some, vec!["TODO", "FIXME", "{{", "<insert", "[要確認]"]);
    let every: Vec<String> = ["TODO", "TBD", "FIXME", "{{", "}}", "<insert", "[要確認]"]
        .iter()
        .map(|p| p.to_string())
        .collect();
    assert!(placeholder_hits(text, &every).is_empty());
}

#[test]
fn sha256_hex_is_sixty_four_lowercase_digits() {
    let h = sha256_hex(b"outbound");
    assert_eq!(h.len(), 64);
    assert!(h.chars().all(|c| c.is_ascii_digit() || ('a'..='f').contains(&c)));
}
