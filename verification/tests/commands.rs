use outbound_manifest::digest::sha256_hex;
use outbound_manifest::error::ManifestError;
use outbound_manifest::manifest::{
    AttachmentFacts, Channel, ContentFacts, FileFacts, LoadedManifest, Manifest,
};
use outbound_manifest::run::{run, Command, CreateRequest, Observed, Output, SealRequest};

const BODY: &str = "Hello,\n\nPlease see the attached file.\n";
const PDF: &[u8] = b"%PDF-1.4 fixture";

fn request() -> CreateRequest {
    CreateRequest {
        manifest: "task/outbound.json".to_string(),
        channel: Channel::Email,
        context: "Gmail sender@example.com / thread".to_string(),
        to: vec!["person@example.com".to_string()],
        cc: vec!["team@example.com".to_string()],
        bcc: vec![],
        subject: Some("Documents".to_string()),
        body_file: "body.md".to_string(),
        attachments: vec!["document.pdf".to_string()],
    }
}

fn facts() -> ContentFacts {
    ContentFacts {
        body: Ok(BODY.to_string()),
        attachments: vec![AttachmentFacts {
            canonical: Ok("/work/task/document.pdf".to_string()),
            metadata: Ok(FileFacts {
                is_file: true,
                len: PDF.len() as u64,
            }),
            contents: Ok(PDF.to_vec()),
        }],
    }
}

fn observed(loaded: Result<LoadedManifest, String>) -> Observed {
    Observed {
        manifest_exists: false,
        directory: Ok(()),
        base: "task".to_string(),
        new_attachments: vec![Ok(PDF.to_vec())],
        loaded,
        facts: facts(),
    }
}

fn text(output: Result<Output, ManifestError>) -> String {
    match output {
        Ok(Output::Text(t)) => t,
        Ok(Output::Report(_)) => panic!("expected text"),
        Err(e) => panic!("{}", e.message()),
    }
}

fn created() -> Manifest {
    let outcome = run(Command::Create(request()), &observed(Err("unused".to_string())));
    outcome.write.expect("create writes the manifest")
}

fn loaded(manifest: Manifest) -> LoadedManifest {
    LoadedManifest {
        path: "task/outbound.json".to_string(),
        base: "task".to_string(),
        manifest,
    }
}

#[test]
fn create_writes_manifest_with_attachment_hashes() {
    let outcome = run(Command::Create(request()), &observed(Err("unused".to_string())));
    let message = text(outcome.result);
    assert!(message.starts_with("created task/outbound.json; review content sha256:"));
    let m = outcome.write.unwrap();
    assert_eq!(m.schema, 1);
    assert_eq!(m.attachments.len(), 1);
    assert_eq!(m.attachments[0].path, "document.pdf");
    assert_eq!(m.attachments[0].sha256, sha256_hex(PDF));
    assert!(m.allow_placeholders.is_empty());
    assert!(m.approval.is_none());
}

#[test]
fn create_refuses_existing_manifest() {
    let mut o = observed(Err("unused".to_string()));
    o.manifest_exists = true;
    let outcome = run(Command::Create(request()), &o);
    assert!(outcome.write.is_none());
    assert_eq!(outcome.result.unwrap_err().message(), "task/outbound.json already exists");
}

#[test]
fn create_reports_unreadable_attachment_and_directory() {
    let mut o = observed(Err("unused".to_string()));
    o.new_attachments = vec![Err("task/document.pdf: No such file or directory (os error 2)".to_string())];
    let outcome = run(Command::Create(request()), &o);
    assert!(outcome.write.is_none());
    assert_eq!(
        outcome.result.unwrap_err().message(),
        "task/document.pdf: No such file or directory (os error 2)"
    );
    let mut o = observed(Err("unused".to_string()));
    o.directory = Err("permission denied".to_string());
    let outcome = run(Command::Create(request()), &o);
    assert!(outcome.write.is_none());
    assert!(outcome.result.is_err());
}

#[test]
fn create_writes_even_when_the_check_fails() {
    let mut o = observed(Err("unused".to_string()));
    o.facts.body = Ok("TBD\n".to_string());
    let outcome = run(Command::Create(request()), &o);
    assert!(outcome.write.is_some());
    assert!(outcome.result.unwrap_err().message().contains("unresolved placeholder"));
}

#[test]
fn check_shows_summary_or_report() {
    let outcome = run(
        Command::Check { manifest: "task/outbound.json".to_string(), json: false },
        &observed(Ok(loaded(created()))),
    );
    assert!(outcome.write.is_none());
    let summary = text(outcome.result);
    assert!(summary.starts_with("email: 2 recipient(s), 1 attachment(s), sealed=false, content sha256:"));
    let outcome = run(
        Command::Check { manifest: "task/outbound.json".to_string(), json: true },
        &observed(Ok(loaded(created()))),
    );
    match outcome.result {
        Ok(Output::Report(report)) => assert_eq!(report.recipients, 2),
        _ => panic!("expected a report"),
    }
}

#[test]
fn unreadable_manifest_is_reported() {
    let outcome = run(
        Command::Verify { manifest: "task/outbound.json".to_string(), json: false },
        &observed(Err("task/outbound.json: expected value at line 1 column 1".to_string())),
    );
    assert_eq!(
        outcome.result.unwrap_err().message(),
        "task/outbound.json: expected value at line 1 column 1"
    );
}

#[test]
fn seal_then_verify_through_commands() {
    let seal_request = SealRequest {
        manifest: "task/outbound.json".to_string(),
        by: "user".to_string(),
        approval_note: "2026-08-28 chat: send it".to_string(),
        approved_at: Some("2026-08-28T12:34:56.5Z".to_string()),
    };
    let outcome = run(Command::Seal(seal_request), &observed(Ok(loaded(created()))));
    let message = text(outcome.result);
    assert!(message.starts_with("sealed task/outbound.json at content sha256:"));
    let sealed = outcome.write.unwrap();
    assert_eq!(sealed.approval.as_ref().unwrap().approved_at, "2026-08-28T12:34:56.500Z");
    let outcome = run(
        Command::Verify { manifest: "task/outbound.json".to_string(), json: false },
        &observed(Ok(loaded(sealed))),
    );
    assert!(text(outcome.result).contains("sealed=true"));
}

#[test]
fn seal_refuses_blank_note_before_reading() {
    let seal_request = SealRequest {
        manifest: "task/outbound.json".to_string(),
        by: "user".to_string(),
        approval_note: "".to_string(),
        approved_at: None,
    };
    let outcome = run(Command::Seal(seal_request), &observed(Err("missing".to_string())));
    assert!(outcome.write.is_none());
    assert_eq!(
        outcome.result.unwrap_err().message(),
        "--by and --approval-note must be non-empty"
    );
}

#[test]
fn review_through_commands() {
    let outcome = run(
        Command::Review { manifest: "task/outbound.json".to_string() },
        &observed(Ok(loaded(created()))),
    );
    let review = text(outcome.result);
    assert!(review.starts_with("# External action review\n\n- Manifest: task/outbound.json\n"));
    assert!(review.contains("- Cc: team@example.com\n"));
}
