//! Properties that hold across the library's operations.
use vstd::prelude::*;
use crate::body::{body_section, is_preamble, lemma_preamble_edit_keeps_body, separator_line};
use crate::check::{
    attachment_fault,
    check_outcome,
    first_attachment_fault,
    verify_outcome,
};
use crate::error::ErrorModel;
use crate::manifest::{
    AttachmentFactsModel,
    ApprovalModel,
    ContentFactsModel,
    LoadedModel,
    ManifestModel,
    ReportModel,
};
use crate::seal::seal_outcome;
use crate::digest::{lemma_lower_hex_unique, sha256_hex_of, sha256_of};
use crate::json::canonical_content;
use crate::unique::{lemma_canonical_content_unique, same_covered_content};
use vstd::utf8::{encode_utf8, encode_utf8_decode_utf8};

verus! {

proof fn lemma_attachment_faults_ignore_approval(
    m: ManifestModel,
    approval: Option<ApprovalModel>,
    base: Seq<char>,
    facts: Seq<AttachmentFactsModel>,
    n: nat,
)
    ensures
        first_attachment_fault(ManifestModel { approval, ..m }, base, facts, n)
            == first_attachment_fault(m, base, facts, n),
    decreases n,
{
    if n > 0 {
        lemma_attachment_faults_ignore_approval(m, approval, base, facts, (n - 1) as nat);
        assert(attachment_fault(ManifestModel { approval, ..m }, base, facts, n - 1)
            == attachment_fault(m, base, facts, n - 1));
    }
}

/// A check does not look at the approval, except to report whether there is one: replacing
/// the approval leaves the outcome the same but for the `sealed` flag.
pub proof fn lemma_check_ignores_approval(
    l: LoadedModel,
    facts: ContentFactsModel,
    approval: Option<ApprovalModel>,
)
    ensures
        ({
            let l2 = LoadedModel { manifest: ManifestModel { approval, ..l.manifest }, ..l };
            match check_outcome(l, facts) {
                Ok(r) => check_outcome(l2, facts) == Ok::<ReportModel, ErrorModel>(
                    ReportModel { sealed: approval is Some, ..r },
                ),
                Err(e) => check_outcome(l2, facts) == Err::<ReportModel, ErrorModel>(e),
            }
        }),
{
    let l2 = LoadedModel { manifest: ManifestModel { approval, ..l.manifest }, ..l };
    lemma_attachment_faults_ignore_approval(
        l.manifest,
        approval,
        l.base,
        facts.attachments,
        l.manifest.attachments.len(),
    );
    if let Ok(r) = check_outcome(l, facts) {
        let r2 = check_outcome(l2, facts)->Ok_0;
        assert(r2.attachments =~= r.attachments);
    }
}

/// Sealing records exactly what `verify` asks for: right after a successful seal, with the
/// files unchanged, verification succeeds and reports the same content, now sealed.
pub proof fn lemma_seal_then_verify(
    l: LoadedModel,
    facts: ContentFactsModel,
    by: Seq<char>,
    note: Seq<char>,
    approved_at: Option<Seq<char>>,
)
    requires
        seal_outcome(l, facts, by, note, approved_at) is Ok,
    ensures
        ({
            let (sealed, report) = seal_outcome(l, facts, by, note, approved_at)->Ok_0;
            verify_outcome(LoadedModel { manifest: sealed, ..l }, facts) == Ok::<
                ReportModel,
                ErrorModel,
            >(ReportModel { sealed: true, ..report })
        }),
{
    let (sealed, report) = seal_outcome(l, facts, by, note, approved_at)->Ok_0;
    lemma_check_ignores_approval(l, facts, sealed.approval);
    assert(LoadedModel { manifest: sealed, ..l } == LoadedModel {
        manifest: ManifestModel { approval: sealed.approval, ..l.manifest },
        ..l
    });
}

/// Verification passes only for a manifest whose approval records the current content hash,
/// which is then what it reports.
pub proof fn lemma_verify_requires_recorded_hash(l: LoadedModel, facts: ContentFactsModel)
    requires
        verify_outcome(l, facts) is Ok,
    ensures
        check_outcome(l, facts) == verify_outcome(l, facts),
        l.manifest.approval matches Some(a) && a.content_sha256 == verify_outcome(
            l,
            facts,
        )->Ok_0.content_sha256,
{
}

/// Edits above the body file's separator line do not change what a check or a verification
/// finds: two body files that differ only in their preambles give the same outcome.
pub proof fn lemma_preamble_edit_keeps_outcome(
    l: LoadedModel,
    facts: ContentFactsModel,
    p1: Seq<char>,
    p2: Seq<char>,
    b: Seq<char>,
)
    requires
        is_preamble(p1),
        is_preamble(p2),
    ensures
        check_outcome(l, ContentFactsModel { body: Ok(p1 + separator_line() + b), ..facts })
            == check_outcome(l, ContentFactsModel { body: Ok(p2 + separator_line() + b), ..facts }),
        verify_outcome(l, ContentFactsModel { body: Ok(p1 + separator_line() + b), ..facts })
            == verify_outcome(l, ContentFactsModel { body: Ok(p2 + separator_line() + b), ..facts }),
{
    lemma_preamble_edit_keeps_body(p1, p2, b);
    let f1 = ContentFactsModel { body: Ok(p1 + separator_line() + b), ..facts };
    let f2 = ContentFactsModel { body: Ok(p2 + separator_line() + b), ..facts };
    assert(body_section(p1 + separator_line() + b) == body_section(p2 + separator_line() + b));
    if check_outcome(l, f1) is Ok {
        assert(check_outcome(l, f1)->Ok_0.attachments =~= check_outcome(l, f2)->Ok_0.attachments);
    }
}

/// SHA-256 gives two different inputs the same digest.
pub open spec fn sha256_collides(x: Seq<u8>, y: Seq<u8>) -> bool {
    x != y && sha256_of(x) == sha256_of(y)
}

/// The bytes of the outbound body of the observed body file.
pub open spec fn outbound_bytes(facts: ContentFactsModel) -> Seq<u8> {
    encode_utf8(body_section(facts.body->Ok_0))
}

/// The canonical content of a manifest with the observed outbound body.
pub open spec fn content_bytes(l: LoadedModel, facts: ContentFactsModel) -> Seq<u8> {
    canonical_content(l.manifest, sha256_hex_of(outbound_bytes(facts)))
}

/// The contents of attachment `i` as observed.
pub open spec fn attachment_contents(facts: ContentFactsModel, i: int) -> Seq<u8> {
    facts.attachments[i].contents->Ok_0
}

/// Two states of a message agree on everything an approval protects: the manifest's
/// channel, context, recipients, subject, body file and attachments, the outbound body, and
/// the contents of every attachment.
pub open spec fn same_protected_content(
    l1: LoadedModel,
    f1: ContentFactsModel,
    l2: LoadedModel,
    f2: ContentFactsModel,
) -> bool {
    &&& same_covered_content(l1.manifest, l2.manifest)
    &&& body_section(f1.body->Ok_0) == body_section(f2.body->Ok_0)
    &&& forall|i: int|
        0 <= i < l1.manifest.attachments.len() ==> #[trigger] attachment_contents(f1, i)
            == attachment_contents(f2, i)
}

proof fn lemma_no_fault_each(
    m: ManifestModel,
    base: Seq<char>,
    facts: Seq<AttachmentFactsModel>,
    n: nat,
    i: int,
)
    requires
        first_attachment_fault(m, base, facts, n) is None,
        0 <= i < n,
    ensures
        attachment_fault(m, base, facts, i) is None,
    decreases n,
{
    if i < n - 1 {
        lemma_no_fault_each(m, base, facts, (n - 1) as nat, i);
    }
}

/// A passing check means each attachment's observed contents have the recorded hash.
proof fn lemma_passing_attachments(l: LoadedModel, facts: ContentFactsModel, i: int)
    requires
        check_outcome(l, facts) is Ok,
        0 <= i < l.manifest.attachments.len(),
    ensures
        facts.attachments[i].contents is Ok,
        sha256_hex_of(attachment_contents(facts, i)) == l.manifest.attachments[i].sha256,
{
    lemma_no_fault_each(l.manifest, l.base, facts.attachments, l.manifest.attachments.len(), i);
}

/// After a seal, `verify` passes only on the sealed content: if it passes on a later state of
/// the manifest (carrying the same approval) and of its files, then recipients, subject,
/// context, channel, body file, outbound body, attachment names and attachment contents are
/// all unchanged, or else SHA-256 gave the same digest to the old and the new version of the
/// canonical content, of the outbound body, or of an attachment.
pub proof fn lemma_verify_detects_changes(
    l: LoadedModel,
    facts: ContentFactsModel,
    by: Seq<char>,
    note: Seq<char>,
    approved_at: Option<Seq<char>>,
    later: LoadedModel,
    later_facts: ContentFactsModel,
)
    requires
        seal_outcome(l, facts, by, note, approved_at) is Ok,
        later.manifest.approval == seal_outcome(l, facts, by, note, approved_at)->Ok_0.0.approval,
        verify_outcome(later, later_facts) is Ok,
    ensures
        same_protected_content(l, facts, later, later_facts) || sha256_collides(
            content_bytes(l, facts),
            content_bytes(later, later_facts),
        ) || sha256_collides(outbound_bytes(facts), outbound_bytes(later_facts)) || exists|i: int|
            0 <= i < l.manifest.attachments.len() && sha256_collides(
                #[trigger] attachment_contents(facts, i),
                attachment_contents(later_facts, i),
            ),
{
    let r1 = check_outcome(l, facts)->Ok_0;
    let r2 = check_outcome(later, later_facts)->Ok_0;
    let c1 = content_bytes(l, facts);
    let c2 = content_bytes(later, later_facts);
    assert(r1.content_sha256 == sha256_hex_of(c1));
    assert(r2.content_sha256 == sha256_hex_of(c2));
    lemma_lower_hex_unique(sha256_of(c1), sha256_of(c2));
    if c1 == c2 {
        let m1 = l.manifest;
        let m2 = later.manifest;
        let b1 = outbound_bytes(facts);
        let b2 = outbound_bytes(later_facts);
        lemma_canonical_content_unique(m1, sha256_hex_of(b1), m2, sha256_hex_of(b2));
        lemma_lower_hex_unique(sha256_of(b1), sha256_of(b2));
        if b1 == b2 {
            encode_utf8_decode_utf8(body_section(facts.body->Ok_0));
            encode_utf8_decode_utf8(body_section(later_facts.body->Ok_0));
            if !same_protected_content(l, facts, later, later_facts) {
                let i = choose|i: int|
                    0 <= i < m1.attachments.len() && #[trigger] attachment_contents(facts, i)
                        != attachment_contents(later_facts, i);
                lemma_passing_attachments(l, facts, i);
                lemma_passing_attachments(later, later_facts, i);
                lemma_lower_hex_unique(
                    sha256_of(attachment_contents(facts, i)),
                    sha256_of(attachment_contents(later_facts, i)),
                );
                assert(sha256_collides(attachment_contents(facts, i), attachment_contents(later_facts, i)));
            }
        }
    }
}

} // verus!
