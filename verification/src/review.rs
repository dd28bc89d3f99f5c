//! The texts shown to the user: the review of a message, a report's summary line, and the
//! confirmations of `create` and `seal`.
use vstd::prelude::*;
use crate::check::{check, check_inputs_fit, check_outcome};
use crate::body::{body_section, outbound_body};
use crate::error::{ErrorModel, ManifestError};
use crate::manifest::{
    AttachmentReport,
    AttachmentReportModel,
    CheckReport,
    ContentFacts,
    LoadedManifest,
    ManifestModel,
    ReportModel,
};
use crate::text::{chars_of, decimal, decimal_string, join, joined};

verus! {

/// One line of the attachment list of a review.
pub open spec fn attachment_line(a: AttachmentReportModel) -> Seq<char> {
    "- "@ + a.path + " — "@ + decimal(a.bytes as nat) + " bytes — sha256:"@ + a.sha256 + "\n"@
}

/// The lines of the attachment list of a review, in order.
pub open spec fn attachment_lines(reports: Seq<AttachmentReportModel>) -> Seq<char>
    decreases reports.len(),
{
    if reports.len() == 0 {
        seq![]
    } else {
        attachment_lines(reports.drop_last()) + attachment_line(reports.last())
    }
}

/// The line break that ends the body in a review, unless the body already ends with one.
pub open spec fn body_end(body: Seq<char>) -> Seq<char> {
    if body.len() > 0 && body.last() == '\n' {
        seq![]
    } else {
        "\n"@
    }
}

/// The review of a checked message: recipients, subject, content hash, the outbound body
/// and the attachments with their sizes and hashes, in Markdown.
pub open spec fn review_text(
    path: Seq<char>,
    m: ManifestModel,
    report: ReportModel,
    body: Seq<char>,
) -> Seq<char> {
    "# External action review\n\n- Manifest: "@ + path + "\n- Channel: "@ + m.channel.name()
        + "\n- Context: "@ + m.context + "\n- To: "@ + joined(m.to, ", "@) + "\n- Cc: "@
        + joined(m.cc, ", "@) + "\n- Bcc: "@ + joined(m.bcc, ", "@) + "\n- Subject: "@ + (
    match m.subject {
        Some(s) => s,
        None => seq![],
    }) + "\n- Content SHA-256: "@ + report.content_sha256 + "\n\n## Body ("@ + m.body_file
        + ")\n\n"@ + body + body_end(body) + "\n## Attachments\n\n"@ + (if report.attachments.len()
        == 0 {
        "- (none)\n"@
    } else {
        attachment_lines(report.attachments)
    })
}

/// The outcome of a review: the check's error, or the review text.
pub open spec fn review_outcome(
    l: crate::manifest::LoadedModel,
    facts: crate::manifest::ContentFactsModel,
) -> Result<Seq<char>, ErrorModel> {
    match check_outcome(l, facts) {
        Err(e) => Err(e),
        Ok(report) => Ok(
            review_text(l.path, l.manifest, report, body_section(facts.body->Ok_0)),
        ),
    }
}

fn append_attachment_lines(out: &mut String, reports: &Vec<AttachmentReport>)
    ensures
        final(out)@ == old(out)@ + attachment_lines(reports.deep_view()),
{
    let ghost all = reports.deep_view();
    let mut i: usize = 0;
    while i < reports.len()
        invariant
            all == reports.deep_view(),
            i <= all.len(),
            out@ == old(out)@ + attachment_lines(all.take(i as int)),
        decreases all.len() - i,
    {
        let a = &reports[i];
        out.append("- ");
        out.append(a.path.as_str());
        out.append(" — ");
        let bytes = decimal_string(a.bytes);
        out.append(bytes.as_str());
        out.append(" bytes — sha256:");
        out.append(a.sha256.as_str());
        out.append("\n");
        assert(all.take(i + 1).drop_last() =~= all.take(i as int));
        assert(all.take(i + 1).last() == a.deep_view());
        i = i + 1;
    }
    assert(all.take(i as int) =~= all);
}

/// Checks the manifest and, when it passes, writes the review of its content.
pub fn review(loaded: &LoadedManifest, facts: &ContentFacts) -> (res: Result<String, ManifestError>)
    requires
        check_inputs_fit(loaded.deep_view(), facts.deep_view()),
    ensures
        match res {
            Ok(text) => review_outcome(loaded.deep_view(), facts.deep_view()) == Ok::<
                Seq<char>,
                ErrorModel,
            >(text@),
            Err(e) => review_outcome(loaded.deep_view(), facts.deep_view()) == Err::<
                Seq<char>,
                ErrorModel,
            >(e.deep_view()),
        },
{
    let report = match check(loaded, facts) {
        Err(e) => {
            return Err(e);
        },
        Ok(r) => r,
    };
    let m = &loaded.manifest;
    let text = match &facts.body {
        Ok(t) => t,
        Err(e) => {
            return Err(ManifestError::Unreadable(e.clone()));
        },
    };
    let body = outbound_body(text.as_str());
    let mut out = String::from_str("# External action review\n\n- Manifest: ");
    out.append(loaded.path.as_str());
    out.append("\n- Channel: ");
    out.append(m.channel.as_str());
    out.append("\n- Context: ");
    out.append(m.context.as_str());
    out.append("\n- To: ");
    let to = join(&m.to, ", ");
    out.append(to.as_str());
    out.append("\n- Cc: ");
    let cc = join(&m.cc, ", ");
    out.append(cc.as_str());
    out.append("\n- Bcc: ");
    let bcc = join(&m.bcc, ", ");
    out.append(bcc.as_str());
    out.append("\n- Subject: ");
    match &m.subject {
        Some(s) => out.append(s.as_str()),
        None => {},
    }
    out.append("\n- Content SHA-256: ");
    out.append(report.content_sha256.as_str());
    out.append("\n\n## Body (");
    out.append(m.body_file.as_str());
    out.append(")\n\n");
    out.append(body.as_str());
    let bc = chars_of(body.as_str());
    if !(bc.len() > 0 && bc[bc.len() - 1] == '\n') {
        out.append("\n");
    }
    out.append("\n## Attachments\n\n");
    if report.attachments.len() == 0 {
        out.append("- (none)\n");
    } else {
        append_attachment_lines(&mut out, &report.attachments);
    }
    let ghost md = m.deep_view();
    assert(out@ =~= review_text(loaded.path@, md, report.deep_view(), body@));
    Ok(out)
}

/// The one-line summary of a report.
pub open spec fn summary_text(r: ReportModel) -> Seq<char> {
    r.channel + ": "@ + decimal(r.recipients as nat) + " recipient(s), "@ + decimal(
        r.attachments.len(),
    ) + " attachment(s), sealed="@ + (if r.sealed {
        "true"@
    } else {
        "false"@
    }) + ", content sha256:"@ + r.content_sha256
}

/// The one-line summary of a report.
pub fn report_summary(report: &CheckReport) -> (res: String)
    ensures
        res@ == summary_text(report.deep_view()),
{
    let mut out = report.channel.clone();
    out.append(": ");
    let recipients = decimal_string(report.recipients as u64);
    out.append(recipients.as_str());
    out.append(" recipient(s), ");
    let count = decimal_string(report.attachments.len() as u64);
    out.append(count.as_str());
    out.append(" attachment(s), sealed=");
    if report.sealed {
        out.append("true");
    } else {
        out.append("false");
    }
    out.append(", content sha256:");
    out.append(report.content_sha256.as_str());
    out
}

/// The confirmation that a manifest was created.
pub open spec fn created_text(path: Seq<char>, content_sha256: Seq<char>) -> Seq<char> {
    "created "@ + path + "; review content sha256:"@ + content_sha256
}

/// The confirmation that a manifest was created.
pub fn created_message(path: &str, content_sha256: &str) -> (res: String)
    ensures
        res@ == created_text(path@, content_sha256@),
{
    let mut out = String::from_str("created ");
    out.append(path);
    out.append("; review content sha256:");
    out.append(content_sha256);
    out
}

/// The confirmation that a manifest was sealed.
pub open spec fn sealed_text(path: Seq<char>, content_sha256: Seq<char>) -> Seq<char> {
    "sealed "@ + path + " at content sha256:"@ + content_sha256
}

/// The confirmation that a manifest was sealed.
pub fn sealed_message(path: &str, content_sha256: &str) -> (res: String)
    ensures
        res@ == sealed_text(path@, content_sha256@),
{
    let mut out = String::from_str("sealed ");
    out.append(path);
    out.append(" at content sha256:");
    out.append(content_sha256);
    out
}

} // verus!
