//! Checking a manifest against its files, and verifying an approval.
use vstd::prelude::*;
use vstd::utf8::encode_utf8;
use crate::body::{body_section, outbound_body};
use crate::digest::{sha256_hex, sha256_hex_of};
use crate::email::{basic_email_valid, is_basic_email};
use crate::error::{ErrorModel, ManifestError};
use crate::json::{canonical_content, canonical_content_bytes};
use crate::manifest::{
    AttachmentFactsModel,
    AttachmentReport,
    AttachmentReportModel,
    Channel,
    CheckReport,
    ContentFacts,
    ContentFactsModel,
    LoadedManifest,
    LoadedModel,
    ManifestModel,
    ReportModel,
};
use crate::paths::{resolve, resolved_path};
use crate::placeholder::{sorted_placeholder_patterns, unresolved_in_either, unresolved_placeholders};
use crate::text::{blank, contains_string, is_blank};

verus! {

/// The first address of `addrs` that does not have the shape of an e-mail address.
pub open spec fn first_invalid(addrs: Seq<Seq<char>>) -> Option<Seq<char>>
    decreases addrs.len(),
{
    if addrs.len() == 0 {
        None
    } else if !is_basic_email(addrs[0]) {
        Some(addrs[0])
    } else {
        first_invalid(addrs.drop_first())
    }
}

/// All recipients: `to`, then `cc`, then `bcc`.
pub open spec fn all_recipients(m: ManifestModel) -> Seq<Seq<char>> {
    m.to + m.cc + m.bcc
}

/// What is wrong with the manifest's own fields, checked in this order: the schema, the
/// context, and for e-mail the `to` list, the subject and each address.
pub open spec fn manifest_fault(m: ManifestModel) -> Option<ErrorModel> {
    if m.schema != 1 {
        Some(ErrorModel::UnsupportedSchema(m.schema))
    } else if is_blank(m.context) {
        Some(ErrorModel::MissingContext)
    } else if m.channel == Channel::Email {
        if m.to.len() == 0 {
            Some(ErrorModel::MissingRecipient)
        } else if m.subject is None || is_blank(m.subject->Some_0) {
            Some(ErrorModel::MissingSubject)
        } else if first_invalid(all_recipients(m)) is Some {
            Some(ErrorModel::InvalidEmailAddress(first_invalid(all_recipients(m))->Some_0))
        } else {
            None
        }
    } else {
        None
    }
}

/// What is wrong with attachment `i`, given that the earlier ones passed: its path cannot be
/// made canonical; it names the same file as an earlier attachment; it cannot be examined;
/// it is not a non-empty regular file; it cannot be read; its content does not have the
/// recorded hash.
pub open spec fn attachment_fault(
    m: ManifestModel,
    base: Seq<char>,
    facts: Seq<AttachmentFactsModel>,
    i: int,
) -> Option<ErrorModel> {
    let a = m.attachments[i];
    let f = facts[i];
    match f.canonical {
        Err(e) => Some(ErrorModel::Unreadable(e)),
        Ok(c) => if exists|j: int| 0 <= j < i && #[trigger] facts[j].canonical == Ok::<
            Seq<char>,
            Seq<char>,
        >(c) {
            Some(ErrorModel::DuplicateAttachment(a.path))
        } else {
            match f.metadata {
                Err(e) => Some(ErrorModel::Unreadable(e)),
                Ok(md) => if !md.is_file || md.len == 0 {
                    Some(ErrorModel::NotANonEmptyFile(resolved_path(base, a.path)))
                } else {
                    match f.contents {
                        Err(e) => Some(ErrorModel::Unreadable(e)),
                        Ok(bytes) => if sha256_hex_of(bytes) != a.sha256 {
                            Some(
                                ErrorModel::AttachmentHashMismatch(
                                    a.path,
                                    a.sha256,
                                    sha256_hex_of(bytes),
                                ),
                            )
                        } else {
                            None
                        },
                    }
                },
            }
        },
    }
}

/// The fault of the first failing attachment among the first `n`.
pub open spec fn first_attachment_fault(
    m: ManifestModel,
    base: Seq<char>,
    facts: Seq<AttachmentFactsModel>,
    n: nat,
) -> Option<ErrorModel>
    decreases n,
{
    if n == 0 {
        None
    } else {
        match first_attachment_fault(m, base, facts, (n - 1) as nat) {
            Some(e) => Some(e),
            None => attachment_fault(m, base, facts, n - 1),
        }
    }
}

/// The report on attachment `i`.
pub open spec fn attachment_report(
    m: ManifestModel,
    facts: Seq<AttachmentFactsModel>,
    i: int,
) -> AttachmentReportModel {
    AttachmentReportModel {
        path: m.attachments[i].path,
        bytes: facts[i].metadata->Ok_0.len,
        sha256: sha256_hex_of(facts[i].contents->Ok_0),
    }
}

/// The report on a manifest that passed every check, with `body` its outbound body.
pub open spec fn passing_report(
    l: LoadedModel,
    facts: ContentFactsModel,
    body: Seq<char>,
) -> ReportModel {
    let m = l.manifest;
    let body_sha256 = sha256_hex_of(encode_utf8(body));
    ReportModel {
        manifest: l.path,
        channel: m.channel.name(),
        context: m.context,
        recipients: (m.to.len() + m.cc.len() + m.bcc.len()) as usize,
        body_bytes: encode_utf8(body).len() as u64,
        body_sha256,
        attachments: Seq::new(
            m.attachments.len(),
            |i: int| attachment_report(m, facts.attachments, i),
        ),
        content_sha256: sha256_hex_of(canonical_content(m, body_sha256)),
        sealed: m.approval is Some,
    }
}

/// The outcome of checking a loaded manifest against what was observed of its files: the
/// manifest's own fields first, then the body file (readable; an outbound body that is not
/// blank; no unresolved placeholder in it or in the subject), then each attachment in order.
pub open spec fn check_outcome(l: LoadedModel, facts: ContentFactsModel) -> Result<
    ReportModel,
    ErrorModel,
> {
    let m = l.manifest;
    if manifest_fault(m) is Some {
        Err(manifest_fault(m)->Some_0)
    } else {
        match facts.body {
            Err(e) => Err(ErrorModel::Unreadable(e)),
            Ok(text) => {
                let body = body_section(text);
                let unresolved = unresolved_in_either(
                    sorted_placeholder_patterns(),
                    body,
                    m.subject,
                    m.allow_placeholders,
                );
                if is_blank(body) {
                    Err(ErrorModel::EmptyBody)
                } else if unresolved.len() > 0 {
                    Err(ErrorModel::UnresolvedPlaceholders(unresolved))
                } else if first_attachment_fault(
                    m,
                    l.base,
                    facts.attachments,
                    m.attachments.len(),
                ) is Some {
                    Err(first_attachment_fault(m, l.base, facts.attachments, m.attachments.len())->Some_0)
                } else {
                    Ok(passing_report(l, facts, body))
                }
            },
        }
    }
}

/// The outcome of verifying: the check's, and then the manifest must carry an approval whose
/// recorded hash is the current content hash.
pub open spec fn verify_outcome(l: LoadedModel, facts: ContentFactsModel) -> Result<
    ReportModel,
    ErrorModel,
> {
    match check_outcome(l, facts) {
        Err(e) => Err(e),
        Ok(report) => match l.manifest.approval {
            None => Err(ErrorModel::NotSealed),
            Some(approval) => if approval.content_sha256 != report.content_sha256 {
                Err(ErrorModel::ApprovedContentChanged(approval.content_sha256, report.content_sha256))
            } else {
                Ok(report)
            },
        },
    }
}

/// The model of a check's result.
pub open spec fn report_result(r: Result<CheckReport, ManifestError>) -> Result<
    ReportModel,
    ErrorModel,
> {
    match r {
        Ok(report) => Ok(report.deep_view()),
        Err(e) => Err(e.deep_view()),
    }
}

/// What a check needs of its inputs: one observation per attachment, and a recipient count
/// that fits in a `usize`.
pub open spec fn check_inputs_fit(l: LoadedModel, facts: ContentFactsModel) -> bool {
    &&& facts.attachments.len() == l.manifest.attachments.len()
    &&& l.manifest.to.len() + l.manifest.cc.len() + l.manifest.bcc.len() <= usize::MAX
}

proof fn lemma_first_invalid_concat(a: Seq<Seq<char>>, b: Seq<Seq<char>>)
    ensures
        first_invalid(a + b) == (if first_invalid(a) is Some {
            first_invalid(a)
        } else {
            first_invalid(b)
        }),
    decreases a.len(),
{
    if a.len() > 0 {
        assert((a + b).drop_first() =~= a.drop_first() + b);
        assert((a + b)[0] == a[0]);
        lemma_first_invalid_concat(a.drop_first(), b);
    } else {
        assert(a + b =~= b);
    }
}

proof fn lemma_first_fault_sticks(
    m: ManifestModel,
    base: Seq<char>,
    facts: Seq<AttachmentFactsModel>,
    i: nat,
    k: nat,
)
    requires
        i < k,
        first_attachment_fault(m, base, facts, i) is None,
        attachment_fault(m, base, facts, i as int) is Some,
    ensures
        first_attachment_fault(m, base, facts, k) == attachment_fault(m, base, facts, i as int),
    decreases k,
{
    if k > i + 1 {
        lemma_first_fault_sticks(m, base, facts, i, (k - 1) as nat);
    }
}

fn first_invalid_in(list: &Vec<String>) -> (res: Option<String>)
    ensures
        match res {
            Some(a) => first_invalid(list.deep_view()) == Some(a@),
            None => first_invalid(list.deep_view()) is None,
        },
{
    let ghost l = list.deep_view();
    let mut i: usize = 0;
    assert(l.skip(0) =~= l);
    while i < list.len()
        invariant
            l == list.deep_view(),
            i <= l.len(),
            first_invalid(l) == first_invalid(l.skip(i as int)),
        decreases l.len() - i,
    {
        assert(l.skip(i as int)[0] == list@[i as int]@);
        if !basic_email_valid(list[i].as_str()) {
            return Some(list[i].clone());
        }
        assert(l.skip(i as int).drop_first() =~= l.skip(i + 1));
        i = i + 1;
    }
    assert(l.skip(i as int) =~= Seq::<Seq<char>>::empty());
    None
}

fn first_invalid_recipient(to: &Vec<String>, cc: &Vec<String>, bcc: &Vec<String>) -> (res: Option<
    String,
>)
    ensures
        match res {
            Some(a) => first_invalid(to.deep_view() + cc.deep_view() + bcc.deep_view()) == Some(
                a@,
            ),
            None => first_invalid(to.deep_view() + cc.deep_view() + bcc.deep_view()) is None,
        },
{
    proof {
        lemma_first_invalid_concat(to.deep_view() + cc.deep_view(), bcc.deep_view());
        lemma_first_invalid_concat(to.deep_view(), cc.deep_view());
    }
    match first_invalid_in(to) {
        Some(a) => Some(a),
        None => match first_invalid_in(cc) {
            Some(a) => Some(a),
            None => first_invalid_in(bcc),
        },
    }
}

fn manifest_fault_of(l: &LoadedManifest) -> (res: Option<ManifestError>)
    ensures
        match res {
            Some(e) => manifest_fault(l.deep_view().manifest) == Some(e.deep_view()),
            None => manifest_fault(l.deep_view().manifest) is None,
        },
{
    let m = &l.manifest;
    if m.schema != 1 {
        return Some(ManifestError::UnsupportedSchema(m.schema));
    }
    if blank(m.context.as_str()) {
        return Some(ManifestError::MissingContext);
    }
    if m.channel == Channel::Email {
        if m.to.len() == 0 {
            return Some(ManifestError::MissingRecipient);
        }
        let subject_blank = match &m.subject {
            None => true,
            Some(s) => blank(s.as_str()),
        };
        if subject_blank {
            return Some(ManifestError::MissingSubject);
        }
        match first_invalid_recipient(&m.to, &m.cc, &m.bcc) {
            Some(a) => {
                return Some(ManifestError::InvalidEmailAddress(a));
            },
            None => {},
        }
    }
    None
}

/// Checks a loaded manifest against what was observed of its files. Only the outbound body
/// counts: a preamble above the body file's separator line is not checked or hashed.
#[verifier::loop_isolation(false)]
pub fn check(loaded: &LoadedManifest, facts: &ContentFacts) -> (res: Result<CheckReport, ManifestError>)
    requires
        check_inputs_fit(loaded.deep_view(), facts.deep_view()),
    ensures
        report_result(res) == check_outcome(loaded.deep_view(), facts.deep_view()),
{
    let ghost l = loaded.deep_view();
    let ghost fm = facts.deep_view();
    let m = &loaded.manifest;
    match manifest_fault_of(loaded) {
        Some(e) => {
            return Err(e);
        },
        None => {},
    }
    let text = match &facts.body {
        Err(e) => {
            return Err(ManifestError::Unreadable(e.clone()));
        },
        Ok(t) => t,
    };
    let body = outbound_body(text.as_str());
    if blank(body.as_str()) {
        return Err(ManifestError::EmptyBody);
    }
    let unresolved = unresolved_placeholders(body.as_str(), &m.subject, m.allow_placeholders.as_slice());
    assert(m.subject.deep_view() == match m.subject {
        Some(s) => Some(s@),
        None => None::<Seq<char>>,
    });
    if unresolved.len() > 0 {
        return Err(ManifestError::UnresolvedPlaceholders(unresolved));
    }
    let body_bytes = body.as_str().as_bytes();
    let body_sha256 = sha256_hex(body_bytes);
    let mut seen: Vec<String> = Vec::new();
    let mut reports: Vec<AttachmentReport> = Vec::new();
    let n = m.attachments.len();
    let mut i: usize = 0;
    while i < n
        invariant
            l == loaded.deep_view(),
            fm == facts.deep_view(),
            n == l.manifest.attachments.len(),
            n == m.attachments@.len(),
            n == facts.attachments@.len(),
            fm.attachments.len() == n,
            i <= n,
            first_attachment_fault(l.manifest, l.base, fm.attachments, i as nat) is None,
            seen@.len() == i,
            forall|j: int|
                0 <= j < i ==> fm.attachments[j].canonical == Ok::<Seq<char>, Seq<char>>(
                    #[trigger] seen@[j]@,
                ),
            reports.deep_view() =~= Seq::new(
                i as nat,
                |j: int| attachment_report(l.manifest, fm.attachments, j),
            ),
            forall|j: int|
                0 <= j < i ==> {
                    &&& fm.attachments[j].metadata is Ok
                    &&& fm.attachments[j].contents is Ok
                },
        decreases n - i,
    {
        let a = &m.attachments[i];
        let f = &facts.attachments[i];
        let ghost fi = fm.attachments[i as int];
        assert(fi == f.deep_view());
        let canonical = match &f.canonical {
            Err(e) => {
                proof {
                    lemma_first_fault_sticks(l.manifest, l.base, fm.attachments, i as nat, n as nat);
                }
                return Err(ManifestError::Unreadable(e.clone()));
            },
            Ok(c) => c,
        };
        if contains_string(seen.as_slice(), canonical.as_str()) {
            proof {
                let k = choose|k: int| 0 <= k < seen.deep_view().len() && seen.deep_view()[k] == canonical@;
                assert(fm.attachments[k].canonical == Ok::<Seq<char>, Seq<char>>(canonical@));
            }
            proof {
                    lemma_first_fault_sticks(l.manifest, l.base, fm.attachments, i as nat, n as nat);
                }
                return Err(ManifestError::DuplicateAttachment(a.path.clone()));
        }
        assert(!exists|j: int|
            0 <= j < i && #[trigger] fm.attachments[j].canonical == Ok::<Seq<char>, Seq<char>>(
                canonical@,
            )) by {
            if exists|j: int|
                0 <= j < i && #[trigger] fm.attachments[j].canonical == Ok::<
                    Seq<char>,
                    Seq<char>,
                >(canonical@) {
                let j = choose|j: int|
                    0 <= j < i && #[trigger] fm.attachments[j].canonical == Ok::<
                        Seq<char>,
                        Seq<char>,
                    >(canonical@);
                assert(seen.deep_view()[j] == canonical@);
            }
        }
        let md = match &f.metadata {
            Err(e) => {
                proof {
                    lemma_first_fault_sticks(l.manifest, l.base, fm.attachments, i as nat, n as nat);
                }
                return Err(ManifestError::Unreadable(e.clone()));
            },
            Ok(md) => *md,
        };
        if !md.is_file || md.len == 0 {
            proof {
                    lemma_first_fault_sticks(l.manifest, l.base, fm.attachments, i as nat, n as nat);
                }
                return Err(ManifestError::NotANonEmptyFile(resolve(loaded.base.as_str(), a.path.as_str())));
        }
        let contents = match &f.contents {
            Err(e) => {
                proof {
                    lemma_first_fault_sticks(l.manifest, l.base, fm.attachments, i as nat, n as nat);
                }
                return Err(ManifestError::Unreadable(e.clone()));
            },
            Ok(c) => c,
        };
        let actual = sha256_hex(contents.as_slice());
        if actual != a.sha256 {
            proof {
                    lemma_first_fault_sticks(l.manifest, l.base, fm.attachments, i as nat, n as nat);
                }
                return Err(ManifestError::AttachmentHashMismatch(a.path.clone(), a.sha256.clone(), actual));
        }
        assert(attachment_fault(l.manifest, l.base, fm.attachments, i as int) is None);
        seen.push(canonical.clone());
        let ghost before = reports.deep_view();
        let item = AttachmentReport { path: a.path.clone(), bytes: md.len, sha256: actual };
        assert(item.deep_view() == attachment_report(l.manifest, fm.attachments, i as int));
        reports.push(item);
        assert(reports.deep_view() =~= before.push(item.deep_view()));
        i = i + 1;
    }
    let canonical = canonical_content_bytes(m, body_sha256.as_str());
    let content_sha256 = sha256_hex(canonical.as_slice());
    let report = CheckReport {
        manifest: loaded.path.clone(),
        channel: String::from_str(m.channel.as_str()),
        context: m.context.clone(),
        recipients: m.to.len() + m.cc.len() + m.bcc.len(),
        body_bytes: body_bytes.len() as u64,
        body_sha256,
        attachments: reports,
        content_sha256,
        sealed: m.approval.is_some(),
    };
    assert(report.deep_view() =~= passing_report(l, fm, body@));
    Ok(report)
}

/// Checks the manifest, then requires an approval that records the current content hash.
pub fn verify(loaded: &LoadedManifest, facts: &ContentFacts) -> (res: Result<CheckReport, ManifestError>)
    requires
        check_inputs_fit(loaded.deep_view(), facts.deep_view()),
    ensures
        report_result(res) == verify_outcome(loaded.deep_view(), facts.deep_view()),
{
    let report = match check(loaded, facts) {
        Err(e) => {
            return Err(e);
        },
        Ok(r) => r,
    };
    match &loaded.manifest.approval {
        None => Err(ManifestError::NotSealed),
        Some(approval) => {
            if approval.content_sha256 != report.content_sha256 {
                Err(ManifestError::ApprovedContentChanged(
                    approval.content_sha256.clone(),
                    report.content_sha256.clone(),
                ))
            } else {
                Ok(report)
            }
        },
    }
}

} // verus!
