use outbound_manifest::check::{check, verify};
use outbound_manifest::digest::sha256_hex;
use outbound_manifest::error::ManifestError;
use outbound_manifest::manifest::{
    Approval, Attachment, AttachmentFacts, Channel, ContentFacts, FileFacts, LoadedManifest,
    Manifest,
};
use outbound_manifest::review::{report_summary, review};
use outbound_manifest::seal::seal;

const BODY: &str = "Hello,\n\nPlease see the attached file.\n";
const PDF: &[u8] = b"%PDF-1.4 fixture";

fn manifest() -> Manifest {
    Manifest {
        schema: 1,
        channel: Channel::Email,
        context: "Gmail sender@example.com thread: onboarding".to_string(),
        to: vec!["person@example.com".to_string()],
        cc: vec![],
        bcc: vec![],
        subject: Some("Onboarding documents".to_string()),
        body_file: "body.md".to_string(),
        attachments: vec![Attachment {
            path: "contract.pdf".to_string(),
            sha256: sha256_hex(PDF),
        }],
        allow_placeholders: vec![],
        approval: None,
    }
}

fn loaded(manifest: Manifest) -> LoadedManifest {
    LoadedManifest {
        path: "task/outbound.json".to_string(),
        base: "task".to_string(),
        manifest,
    }
}

fn attachment_facts(canonical: &str, contents: &[u8]) -> AttachmentFacts {
    AttachmentFacts {
        canonical: Ok(canonical.to_string()),
        metadata: Ok(FileFacts {
            is_file: true,
            len: contents.len() as u64,
        }),
        contents: Ok(contents.to_vec()),
    }
}

fn facts(body: &str, attachment: &[u8]) -> ContentFacts {
    ContentFacts {
        body: Ok(body.to_string()),
        attachments: vec![attachment_facts("/work/task/contract.pdf", attachment)],
    }
}

fn sealed(body: &str) -> LoadedManifest {
    let (manifest, _) = seal(
        loaded(manifest()),
        &facts(body, PDF),
        "user".to_string(),
        "approved in chat".to_string(),
        Some("2026-08-28T09:00:00+09:00".to_string()),
    )
    .unwrap_or_else(|e| panic!("{}", e.message()));
    loaded(manifest)
}

#[test]
fn seal_and_verify_detect_body_changes() {
    let sealed = sealed(BODY);
    assert!(verify(&sealed, &facts(BODY, PDF)).is_ok());
    let error = verify(&sealed, &facts("changed\n", PDF)).unwrap_err();
    assert!(error.message().contains("approved content changed"));
}

#[test]
fn unresolved_placeholder_is_rejected() {
    let error = check(&loaded(manifest()), &facts("Hello TODO\n", PDF)).unwrap_err();
    assert!(error.message().contains("unresolved placeholder"));
}

#[test]
fn changed_attachment_is_rejected_before_sealing() {
    let error = check(&loaded(manifest()), &facts(BODY, b"different")).unwrap_err();
    assert!(error.message().contains("attachment sha256 mismatch"));
}

#[test]
fn check_reports_the_fixture() {
    let report = check(&loaded(manifest()), &facts(BODY, PDF)).unwrap_or_else(|e| panic!("{}", e.message()));
    assert_eq!(report.manifest, "task/outbound.json");
    assert_eq!(report.channel, "email");
    assert_eq!(report.recipients, 1);
    assert_eq!(report.body_bytes, BODY.len() as u64);
    assert_eq!(report.body_sha256, sha256_hex(BODY.as_bytes()));
    assert_eq!(report.attachments.len(), 1);
    assert_eq!(report.attachments[0].bytes, PDF.len() as u64);
    assert_eq!(report.content_sha256.len(), 64);
    assert!(!report.sealed);
    assert_eq!(
        report_summary(&report),
        format!(
            "email: 1 recipient(s), 1 attachment(s), sealed=false, content sha256:{}",
            report.content_sha256
        )
    );
}

#[test]
fn seal_records_the_checked_content_hash_in_utc() {
    let report = check(&loaded(manifest()), &facts(BODY, PDF)).unwrap_or_else(|e| panic!("{}", e.message()));
    let sealed = sealed(BODY);
    let approval = sealed.manifest.approval.as_ref().unwrap();
    assert_eq!(approval.content_sha256, report.content_sha256);
    assert_eq!(approval.approved_at, "2026-08-28T00:00:00Z");
    assert_eq!(approval.by, "user");
    let verified = verify(&sealed, &facts(BODY, PDF)).unwrap_or_else(|e| panic!("{}", e.message()));
    assert!(verified.sealed);
    assert_eq!(verified.content_sha256, report.content_sha256);
}

#[test]
fn seal_without_time_records_some_time() {
    let (manifest, _) = seal(
        loaded(manifest()),
        &facts(BODY, PDF),
        "user".to_string(),
        "ok".to_string(),
        None,
    )
    .unwrap_or_else(|e| panic!("{}", e.message()));
    let at = &manifest.approval.unwrap().approved_at;
    assert!(at.ends_with('Z'));
    let parsed = chrono::DateTime::parse_from_rfc3339(at).unwrap();
    assert_eq!(
        &parsed
            .with_timezone(&chrono::Utc)
            .to_rfc3339_opts(chrono::SecondsFormat::AutoSi, true),
        at
    );
}

#[test]
fn seal_refuses_blank_approver_and_bad_time() {
    let error = seal(loaded(manifest()), &facts(BODY, PDF), " ".to_string(), "ok".to_string(), None)
        .unwrap_err();
    assert!(matches!(error, ManifestError::MissingApprovalFields));
    assert_eq!(error.message(), "--by and --approval-note must be non-empty");
    let error = seal(
        loaded(manifest()),
        &facts(BODY, PDF),
        "user".to_string(),
        "ok".to_string(),
        Some("yesterday".to_string()),
    )
    .unwrap_err();
    assert!(matches!(error, ManifestError::InvalidApprovalTime));
}

#[test]
fn verify_refuses_unsealed_manifest() {
    let error = verify(&loaded(manifest()), &facts(BODY, PDF)).unwrap_err();
    assert!(matches!(error, ManifestError::NotSealed));
    assert_eq!(error.message(), "manifest is not sealed by an explicit user approval");
}

#[test]
fn verify_refuses_other_recorded_hash() {
    let mut m = manifest();
    m.approval = Some(Approval {
        by: "user".to_string(),
        approved_at: "2026-08-28T00:00:00Z".to_string(),
        note: "ok".to_string(),
        content_sha256: "00".to_string(),
    });
    let error = verify(&loaded(m), &facts(BODY, PDF)).unwrap_err();
    assert!(error.message().starts_with("approved content changed: sealed 00, current "));
}

#[test]
fn preamble_edits_after_sealing_still_verify() {
    let first = format!("Context: thread from Monday\n---\n{BODY}");
    let sealed = sealed(&first);
    let edited = format!("Context: thread from Monday\nSource: the signed offer\n---\n{BODY}");
    assert!(verify(&sealed, &facts(&edited, PDF)).is_ok());
    let changed_body = format!("Context: thread from Monday\n---\n{BODY}P.S.\n");
    assert!(verify(&sealed, &facts(&changed_body, PDF)).is_err());
}

#[test]
fn preamble_is_neither_checked_nor_hashed() {
    let with_preamble = format!("TODO: ask legal first\n---\n{BODY}");
    let report = check(&loaded(manifest()), &facts(&with_preamble, PDF)).unwrap_or_else(|e| panic!("{}", e.message()));
    let plain = check(&loaded(manifest()), &facts(BODY, PDF)).unwrap_or_else(|e| panic!("{}", e.message()));
    assert_eq!(report.body_sha256, plain.body_sha256);
    assert_eq!(report.content_sha256, plain.content_sha256);
    assert_eq!(report.body_bytes, BODY.len() as u64);
}

#[test]
fn manifest_field_errors_come_in_order() {
    let mut m = manifest();
    m.schema = 2;
    m.context = " ".to_string();
    let error = check(&loaded(m), &facts(BODY, PDF)).unwrap_err();
    assert_eq!(error.message(), "unsupported manifest schema 2; expected 1");

    let mut m = manifest();
    m.context = " \t".to_string();
    let error = check(&loaded(m), &facts(BODY, PDF)).unwrap_err();
    assert!(matches!(error, ManifestError::MissingContext));

    let mut m = manifest();
    m.to.clear();
    let error = check(&loaded(m), &facts(BODY, PDF)).unwrap_err();
    assert_eq!(error.message(), "email manifest requires at least one recipient in `to`");

    let mut m = manifest();
    m.subject = Some("\u{3000}".to_string());
    let error = check(&loaded(m), &facts(BODY, PDF)).unwrap_err();
    assert!(matches!(error, ManifestError::MissingSubject));

    let mut m = manifest();
    m.subject = None;
    let error = check(&loaded(m), &facts(BODY, PDF)).unwrap_err();
    assert!(matches!(error, ManifestError::MissingSubject));

    let mut m = manifest();
    m.cc = vec!["ok@example.com".to_string(), "broken".to_string()];
    m.bcc = vec!["also broken".to_string()];
    let error = check(&loaded(m), &facts(BODY, PDF)).unwrap_err();
    assert_eq!(error.message(), "invalid email address: broken");
}

#[test]
fn non_email_channels_skip_address_checks() {
    let mut m = manifest();
    m.channel = Channel::Slack;
    m.to.clear();
    m.subject = None;
    let report = check(&loaded(m), &facts(BODY, PDF)).unwrap_or_else(|e| panic!("{}", e.message()));
    assert_eq!(report.channel, "slack");
}

#[test]
fn body_errors() {
    let mut f = facts(BODY, PDF);
    f.body = Err("task/body.md: No such file or directory (os error 2)".to_string());
    let error = check(&loaded(manifest()), &f).unwrap_err();
    assert_eq!(error.message(), "task/body.md: No such file or directory (os error 2)");

    let error = check(&loaded(manifest()), &facts(" \n\n", PDF)).unwrap_err();
    assert_eq!(error.message(), "body file is empty");

    let error = check(&loaded(manifest()), &facts("notes\n---\n  \n", PDF)).unwrap_err();
    assert!(matches!(error, ManifestError::EmptyBody));
}

#[test]
fn placeholders_are_listed_once_in_order() {
    let mut m = manifest();
    m.subject = Some("{{name}} TODO".to_string());
    let error = check(&loaded(m), &facts("FIXME TODO <insert date> [要確認]\n", PDF)).unwrap_err();
    assert_eq!(
        error.message(),
        "unresolved placeholder(s): <insert, FIXME, TODO, [要確認], {{, }}"
    );
}

#[test]
fn allowed_placeholders_pass() {
    let mut m = manifest();
    m.allow_placeholders = vec!["TODO".to_string()];
    assert!(check(&loaded(m), &facts("Hello TODO\n", PDF)).is_ok());
}

#[test]
fn attachment_errors() {
    let mut f = facts(BODY, PDF);
    f.attachments[0].canonical = Err("task/contract.pdf: missing".to_string());
    assert_eq!(check(&loaded(manifest()), &f).unwrap_err().message(), "task/contract.pdf: missing");

    let mut f = facts(BODY, PDF);
    f.attachments[0].metadata = Ok(FileFacts { is_file: true, len: 0 });
    assert_eq!(
        check(&loaded(manifest()), &f).unwrap_err().message(),
        "attachment is not a non-empty file: task/contract.pdf"
    );

    let mut f = facts(BODY, PDF);
    f.attachments[0].metadata = Ok(FileFacts { is_file: false, len: 10 });
    assert!(matches!(check(&loaded(manifest()), &f).unwrap_err(), ManifestError::NotANonEmptyFile(_)));

    let mut f = facts(BODY, PDF);
    f.attachments[0].contents = Err("task/contract.pdf: denied".to_string());
    assert!(matches!(check(&loaded(manifest()), &f).unwrap_err(), ManifestError::Unreadable(_)));

    let error = check(&loaded(manifest()), &facts(BODY, b"different")).unwrap_err();
    assert_eq!(
        error.message(),
        format!(
            "attachment sha256 mismatch for contract.pdf: manifest {}, actual {}",
            sha256_hex(PDF),
            sha256_hex(b"different")
        )
    );
}

#[test]
fn duplicate_attachment_is_rejected() {
    let mut m = manifest();
    let first = m.attachments[0].sha256.clone();
    m.attachments.push(Attachment {
        path: "./contract.pdf".to_string(),
        sha256: first,
    });
    let f = ContentFacts {
        body: Ok(BODY.to_string()),
        attachments: vec![
            attachment_facts("/work/task/contract.pdf", PDF),
            attachment_facts("/work/task/contract.pdf", PDF),
        ],
    };
    let error = check(&loaded(m), &f).unwrap_err();
    assert_eq!(error.message(), "duplicate attachment: ./contract.pdf");
}

#[test]
fn review_shows_recipients_body_and_attachments() {
    let text = review(&loaded(manifest()), &facts(&format!("notes\n---\n{}", "Hi"), PDF))
        .unwrap_or_else(|e| panic!("{}", e.message()));
    let report = check(&loaded(manifest()), &facts("Hi", PDF)).unwrap_or_else(|e| panic!("{}", e.message()));
    let expected = format!(
        "# External action review\n\n- Manifest: task/outbound.json\n- Channel: email\n- Context: Gmail sender@example.com thread: onboarding\n- To: person@example.com\n- Cc: \n- Bcc: \n- Subject: Onboarding documents\n- Content SHA-256: {}\n\n## Body (body.md)\n\nHi\n\n## Attachments\n\n- contract.pdf — 16 bytes — sha256:{}\n",
        report.content_sha256,
        sha256_hex(PDF)
    );
    assert_eq!(text, expected);
}

#[test]
fn review_without_attachments() {
    let mut m = manifest();
    m.attachments.clear();
    let f = ContentFacts {
        body: Ok(BODY.to_string()),
        attachments: vec![],
    };
    let text = review(&loaded(m), &f).unwrap_or_else(|e| panic!("{}", e.message()));
    assert!(text.contains("Please see the attached file.\n\n## Attachments\n\n- (none)\n"));
    assert!(text.ends_with("## Attachments\n\n- (none)\n"));
}

#[test]
fn verify_fails_after_any_protected_change() {
    let sealed = sealed(BODY);

    let mut m = loaded(sealed.manifest.clone_for_test());
    m.manifest.cc.push("extra@example.com".to_string());
    assert!(matches!(verify(&m, &facts(BODY, PDF)).unwrap_err(), ManifestError::ApprovedContentChanged(_, _)));

    let mut m = loaded(sealed.manifest.clone_for_test());
    m.manifest.subject = Some("Other subject".to_string());
    assert!(matches!(verify(&m, &facts(BODY, PDF)).unwrap_err(), ManifestError::ApprovedContentChanged(_, _)));

    let mut m = loaded(sealed.manifest.clone_for_test());
    m.manifest.context = "Slack #general".to_string();
    assert!(matches!(verify(&m, &facts(BODY, PDF)).unwrap_err(), ManifestError::ApprovedContentChanged(_, _)));

    let m = loaded(sealed.manifest.clone_for_test());
    assert!(matches!(verify(&m, &facts(BODY, b"other")).unwrap_err(), ManifestError::AttachmentHashMismatch(_, _, _)));

    let mut m = loaded(sealed.manifest.clone_for_test());
    m.manifest.allow_placeholders.push("TBD".to_string());
    assert!(verify(&m, &facts(BODY, PDF)).is_ok());
}

trait CloneForTest {
    fn clone_for_test(&self) -> Self;
}

impl CloneForTest for Manifest {
    fn clone_for_test(&self) -> Self {
        Manifest {
            schema: self.schema,
            channel: self.channel,
            context: self.context.clone(),
            to: self.to.clone(),
            cc: self.cc.clone(),
            bcc: self.bcc.clone(),
            subject: self.subject.clone(),
            body_file: self.body_file.clone(),
            attachments: self
                .attachments
                .iter()
                .map(|a| Attachment {
                    path: a.path.clone(),
                    sha256: a.sha256.clone(),
                })
                .collect(),
            allow_placeholders: self.allow_placeholders.clone(),
            approval: self.approval.as_ref().map(|a| Approval {
                by: a.by.clone(),
                approved_at: a.approved_at.clone(),
                note: a.note.clone(),
                content_sha256: a.content_sha256.clone(),
            }),
        }
    }
}
