//! What each command promises of the values it is given: the addresses an e-mail check
//! accepts, the recipients a review shows, the fields `create` copies and the approval `seal`
//! records.
use vstd::prelude::*;
use crate::check::{check_outcome, first_invalid};
use crate::email::is_basic_email;
use crate::error::ErrorModel;
use crate::manifest::{
    ApprovalModel,
    AttachmentModel,
    Channel,
    ContentFactsModel,
    LoadedModel,
    ManifestModel,
};
use crate::review::{attachment_lines, body_end, review_outcome, review_text};
use crate::run::{created_manifest, CreateRequest};
use crate::seal::seal_outcome;
use crate::text::{contains_text, is_blank, is_white_space, joined, occurs_at};

verus! {

// ---------------------------------------------------------------------------------------
// E-mail addresses
// ---------------------------------------------------------------------------------------

/// An address has the basic e-mail shape exactly when it splits as `local@domain` with a
/// non-empty local part, no other `@` on either side, a `.` in the domain, and no white space
/// anywhere.
pub proof fn lemma_basic_email_shape(address: Seq<char>)
    ensures
        is_basic_email(address) <==> {
            &&& exists|local: Seq<char>, domain: Seq<char>|
                #![trigger local + seq!['@'] + domain]
                address == local + seq!['@'] + domain && local.len() > 0 && !local.contains('@')
                    && !domain.contains('@') && domain.contains('.')
            &&& forall|i: int| 0 <= i < address.len() ==> !is_white_space(#[trigger] address[i])
        },
{
    let shaped = exists|local: Seq<char>, domain: Seq<char>|
        #![trigger local + seq!['@'] + domain]
        address == local + seq!['@'] + domain && local.len() > 0 && !local.contains('@')
            && !domain.contains('@') && domain.contains('.');
    if is_basic_email(address) {
        let at = choose|at: int|
            #![trigger crate::email::single_at(address, at)]
            crate::email::single_at(address, at) && at > 0 && exists|d: int|
                at < d < address.len() && address[d] == '.';
        let d = choose|d: int| at < d < address.len() && address[d] == '.';
        let local = address.take(at);
        let domain = address.skip(at + 1);
        assert(address =~= local + seq!['@'] + domain);
        assert(!local.contains('@')) by {
            if local.contains('@') {
                let j = choose|j: int| 0 <= j < local.len() && local[j] == '@';
                assert(address[j] == '@');
            }
        }
        assert(!domain.contains('@')) by {
            if domain.contains('@') {
                let j = choose|j: int| 0 <= j < domain.len() && domain[j] == '@';
                assert(address[at + 1 + j] == '@');
            }
        }
        assert(domain[d - at - 1] == '.');
        assert(shaped);
    }
    if shaped {
        let (local, domain) = choose|local: Seq<char>, domain: Seq<char>|
            #![trigger local + seq!['@'] + domain]
            address == local + seq!['@'] + domain && local.len() > 0 && !local.contains('@')
                && !domain.contains('@') && domain.contains('.');
        let at = local.len() as int;
        assert(address[at] == '@');
        assert forall|j: int| 0 <= j < address.len() && j != at implies address[j] != '@' by {
            if j < at {
                assert(address[j] == local[j]);
            } else {
                assert(address[j] == domain[j - at - 1]);
            }
        }
        assert(crate::email::single_at(address, at));
        let k = choose|k: int| 0 <= k < domain.len() && domain[k] == '.';
        assert(address[at + 1 + k] == '.');
    }
}

proof fn lemma_first_invalid_none(addrs: Seq<Seq<char>>, i: int)
    requires
        first_invalid(addrs) is None,
        0 <= i < addrs.len(),
    ensures
        is_basic_email(addrs[i]),
    decreases addrs.len(),
{
    if i > 0 {
        lemma_first_invalid_none(addrs.drop_first(), i - 1);
    }
}

proof fn lemma_first_invalid_found(addrs: Seq<Seq<char>>, i: int)
    requires
        0 <= i < addrs.len(),
        !is_basic_email(addrs[i]),
    ensures
        first_invalid(addrs) matches Some(x) && addrs.contains(x) && !is_basic_email(x),
    decreases addrs.len(),
{
    if is_basic_email(addrs[0]) {
        lemma_first_invalid_found(addrs.drop_first(), i - 1);
        let x = first_invalid(addrs.drop_first())->Some_0;
        let k = choose|k: int| 0 <= k < addrs.drop_first().len() && addrs.drop_first()[k] == x;
        assert(addrs[k + 1] == x);
    } else {
        assert(addrs[0] == addrs[0]);
    }
}

/// Where in `to + cc + bcc` each recipient stands.
proof fn lemma_recipient_positions(to: Seq<Seq<char>>, cc: Seq<Seq<char>>, bcc: Seq<Seq<char>>)
    ensures
        forall|i: int| 0 <= i < to.len() ==> (to + cc + bcc)[i] == #[trigger] to[i],
        forall|i: int| 0 <= i < cc.len() ==> (to + cc + bcc)[to.len() + i] == #[trigger] cc[i],
        forall|i: int|
            0 <= i < bcc.len() ==> (to + cc + bcc)[to.len() + cc.len() + i] == #[trigger] bcc[i],
{
}

/// The e-mail checks of a passing check: an e-mail manifest passes only with at least one `to`
/// recipient, a subject that is not blank, and every address in `to`, `cc` and `bcc` of the
/// basic e-mail shape.
pub proof fn lemma_passing_email_recipients(l: LoadedModel, facts: ContentFactsModel)
    requires
        check_outcome(l, facts) is Ok,
        l.manifest.channel == Channel::Email,
    ensures
        l.manifest.to.len() > 0,
        l.manifest.subject matches Some(s) && !is_blank(s),
        forall|a: Seq<char>| #[trigger] l.manifest.to.contains(a) ==> is_basic_email(a),
        forall|a: Seq<char>| #[trigger] l.manifest.cc.contains(a) ==> is_basic_email(a),
        forall|a: Seq<char>| #[trigger] l.manifest.bcc.contains(a) ==> is_basic_email(a),
{
    let m = l.manifest;
    let all = m.to + m.cc + m.bcc;
    assert(first_invalid(all) is None);
    lemma_recipient_positions(m.to, m.cc, m.bcc);
    assert forall|a: Seq<char>| #[trigger] m.to.contains(a) implies is_basic_email(a) by {
        let i = choose|i: int| 0 <= i < m.to.len() && m.to[i] == a;
        lemma_first_invalid_none(all, i);
    }
    assert forall|a: Seq<char>| #[trigger] m.cc.contains(a) implies is_basic_email(a) by {
        let i = choose|i: int| 0 <= i < m.cc.len() && m.cc[i] == a;
        lemma_first_invalid_none(all, m.to.len() + i);
    }
    assert forall|a: Seq<char>| #[trigger] m.bcc.contains(a) implies is_basic_email(a) by {
        let i = choose|i: int| 0 <= i < m.bcc.len() && m.bcc[i] == a;
        lemma_first_invalid_none(all, m.to.len() + m.cc.len() + i);
    }
}

/// An e-mail manifest whose schema, context, `to` list and subject pass is refused for an
/// address as soon as one address in `to`, `cc` or `bcc` lacks the basic e-mail shape: the
/// check fails with `InvalidEmailAddress`, naming such an address.
pub proof fn lemma_malformed_address_refused(
    l: LoadedModel,
    facts: ContentFactsModel,
    bad: Seq<char>,
)
    requires
        l.manifest.schema == 1,
        !is_blank(l.manifest.context),
        l.manifest.channel == Channel::Email,
        l.manifest.to.len() > 0,
        l.manifest.subject matches Some(s) && !is_blank(s),
        l.manifest.to.contains(bad) || l.manifest.cc.contains(bad) || l.manifest.bcc.contains(bad),
        !is_basic_email(bad),
    ensures
        check_outcome(l, facts) matches Err(ErrorModel::InvalidEmailAddress(x)) && !is_basic_email(
            x,
        ) && (l.manifest.to.contains(x) || l.manifest.cc.contains(x) || l.manifest.bcc.contains(
            x,
        )),
{
    let m = l.manifest;
    let all = m.to + m.cc + m.bcc;
    lemma_recipient_positions(m.to, m.cc, m.bcc);
    if m.to.contains(bad) {
        let i = choose|i: int| 0 <= i < m.to.len() && m.to[i] == bad;
        lemma_first_invalid_found(all, i);
    } else if m.cc.contains(bad) {
        let i = choose|i: int| 0 <= i < m.cc.len() && m.cc[i] == bad;
        lemma_first_invalid_found(all, m.to.len() + i);
    } else {
        let i = choose|i: int| 0 <= i < m.bcc.len() && m.bcc[i] == bad;
        lemma_first_invalid_found(all, m.to.len() + m.cc.len() + i);
    }
    let x = first_invalid(all)->Some_0;
    let k = choose|k: int| 0 <= k < all.len() && all[k] == x;
    if k < m.to.len() {
        assert(m.to[k] == x);
    } else if k < m.to.len() + m.cc.len() {
        assert(m.cc[k - m.to.len()] == x);
    } else {
        assert(m.bcc[k - m.to.len() - m.cc.len()] == x);
    }
}

// ---------------------------------------------------------------------------------------
// Reviews
// ---------------------------------------------------------------------------------------

proof fn lemma_contains_in_left(x: Seq<char>, y: Seq<char>, p: Seq<char>)
    requires
        contains_text(x, p),
    ensures
        contains_text(x + y, p),
{
    let i = choose|i: int| occurs_at(x, p, i);
    assert((x + y).subrange(i, i + p.len()) =~= x.subrange(i, i + p.len()));
    assert(occurs_at(x + y, p, i));
}

proof fn lemma_contains_in_right(x: Seq<char>, y: Seq<char>, p: Seq<char>)
    requires
        contains_text(y, p),
    ensures
        contains_text(x + y, p),
{
    let i = choose|i: int| occurs_at(y, p, i);
    assert((x + y).subrange(x.len() + i, x.len() + i + p.len()) =~= y.subrange(i, i + p.len()));
    assert(occurs_at(x + y, p, x.len() + i));
}

proof fn lemma_contains_itself(p: Seq<char>)
    ensures
        contains_text(p, p),
{
    assert(p.subrange(0, p.len() as int) =~= p);
    assert(occurs_at(p, p, 0));
}

/// A run of three pieces inside a longer concatenation.
proof fn lemma_contains_run(h: Seq<char>, a: Seq<char>, b: Seq<char>, c: Seq<char>)
    ensures
        contains_text(h + a + b + c, a + b + c),
{
    let t = h + a + b + c;
    let p = a + b + c;
    assert forall|k: int| 0 <= k < p.len() implies #[trigger] t[h.len() + k] == p[k] by {
        if k < a.len() {
        } else if k < a.len() + b.len() {
        } else {
        }
    }
    assert(t.subrange(h.len() as int, (h.len() + p.len()) as int) =~= p);
    assert(occurs_at(t, p, h.len() as int));
}

/// Each part occurs in the parts joined with a separator.
proof fn lemma_joined_contains_parts(parts: Seq<Seq<char>>, sep: Seq<char>, i: int)
    requires
        0 <= i < parts.len(),
    ensures
        contains_text(joined(parts, sep), parts[i]),
    decreases parts.len(),
{
    lemma_contains_itself(parts[i]);
    if parts.len() == 1 {
    } else if i == parts.len() - 1 {
        lemma_contains_in_right(joined(parts.drop_last(), sep) + sep, parts[i], parts[i]);
    } else {
        lemma_joined_contains_parts(parts.drop_last(), sep, i);
        assert(parts.drop_last()[i] == parts[i]);
        lemma_contains_in_left(joined(parts.drop_last(), sep), sep, parts[i]);
        lemma_contains_in_left(joined(parts.drop_last(), sep) + sep, parts.last(), parts[i]);
    }
}

/// The `To`, `Cc` and `Bcc` lines of a review: each lists its recipients joined with `, `.
pub open spec fn recipient_lines_shown(text: Seq<char>, m: ManifestModel) -> bool {
    &&& contains_text(text, "\n- To: "@ + joined(m.to, ", "@) + "\n- Cc: "@)
    &&& contains_text(text, "\n- Cc: "@ + joined(m.cc, ", "@) + "\n- Bcc: "@)
    &&& contains_text(text, "\n- Bcc: "@ + joined(m.bcc, ", "@) + "\n- Subject: "@)
}

/// The review text up to its `Subject:` label.
spec fn review_head(path: Seq<char>, m: ManifestModel) -> Seq<char> {
    "# External action review\n\n- Manifest: "@ + path + "\n- Channel: "@ + m.channel.name()
        + "\n- Context: "@ + m.context + "\n- To: "@ + joined(m.to, ", "@) + "\n- Cc: "@
        + joined(m.cc, ", "@) + "\n- Bcc: "@ + joined(m.bcc, ", "@) + "\n- Subject: "@
}

/// What occurs in the head of a review occurs in the review.
proof fn lemma_review_extends_head(
    path: Seq<char>,
    m: ManifestModel,
    report: crate::manifest::ReportModel,
    body: Seq<char>,
    p: Seq<char>,
)
    requires
        contains_text(review_head(path, m), p),
    ensures
        contains_text(review_text(path, m, report, body), p),
{
    let x0 = review_head(path, m);
    let subject = match m.subject {
        Some(s) => s,
        None => seq![],
    };
    let x1 = x0 + subject;
    lemma_contains_in_left(x0, subject, p);
    let x2 = x1 + "\n- Content SHA-256: "@;
    lemma_contains_in_left(x1, "\n- Content SHA-256: "@, p);
    let x3 = x2 + report.content_sha256;
    lemma_contains_in_left(x2, report.content_sha256, p);
    let x4 = x3 + "\n\n## Body ("@;
    lemma_contains_in_left(x3, "\n\n## Body ("@, p);
    let x5 = x4 + m.body_file;
    lemma_contains_in_left(x4, m.body_file, p);
    let x6 = x5 + ")\n\n"@;
    lemma_contains_in_left(x5, ")\n\n"@, p);
    let x7 = x6 + body;
    lemma_contains_in_left(x6, body, p);
    let x8 = x7 + body_end(body);
    lemma_contains_in_left(x7, body_end(body), p);
    let x9 = x8 + "\n## Attachments\n\n"@;
    lemma_contains_in_left(x8, "\n## Attachments\n\n"@, p);
    let last = if report.attachments.len() == 0 {
        "- (none)\n"@
    } else {
        attachment_lines(report.attachments)
    };
    lemma_contains_in_left(x9, last, p);
    assert(review_text(path, m, report, body) == x9 + last);
}

/// The recipient lines, and each recipient, occur in the head of a review.
proof fn lemma_review_head_shows_recipients(path: Seq<char>, m: ManifestModel)
    ensures
        recipient_lines_shown(review_head(path, m), m),
        forall|a: Seq<char>|
            #![trigger m.to.contains(a)]
            #![trigger m.cc.contains(a)]
            #![trigger m.bcc.contains(a)]
            m.to.contains(a) || m.cc.contains(a) || m.bcc.contains(a) ==> contains_text(
                review_head(path, m),
                a,
            ),
{
    let s0 = "# External action review\n\n- Manifest: "@ + path + "\n- Channel: "@
        + m.channel.name() + "\n- Context: "@ + m.context;
    let to_j = joined(m.to, ", "@);
    let cc_j = joined(m.cc, ", "@);
    let bcc_j = joined(m.bcc, ", "@);
    let s1 = s0 + "\n- To: "@;
    let s2 = s1 + to_j;
    let s3 = s2 + "\n- Cc: "@;
    let s4 = s3 + cc_j;
    let s5 = s4 + "\n- Bcc: "@;
    let s6 = s5 + bcc_j;
    let s7 = s6 + "\n- Subject: "@;
    assert(review_head(path, m) == s7);
    // To line
    lemma_contains_run(s0, "\n- To: "@, to_j, "\n- Cc: "@);
    lemma_contains_in_left(s3, cc_j, "\n- To: "@ + to_j + "\n- Cc: "@);
    lemma_contains_in_left(s4, "\n- Bcc: "@, "\n- To: "@ + to_j + "\n- Cc: "@);
    lemma_contains_in_left(s5, bcc_j, "\n- To: "@ + to_j + "\n- Cc: "@);
    lemma_contains_in_left(s6, "\n- Subject: "@, "\n- To: "@ + to_j + "\n- Cc: "@);
    // Cc line
    lemma_contains_run(s2, "\n- Cc: "@, cc_j, "\n- Bcc: "@);
    lemma_contains_in_left(s5, bcc_j, "\n- Cc: "@ + cc_j + "\n- Bcc: "@);
    lemma_contains_in_left(s6, "\n- Subject: "@, "\n- Cc: "@ + cc_j + "\n- Bcc: "@);
    // Bcc line
    lemma_contains_run(s4, "\n- Bcc: "@, bcc_j, "\n- Subject: "@);
    assert forall|a: Seq<char>|
        m.to.contains(a) || m.cc.contains(a) || m.bcc.contains(a) implies contains_text(s7, a) by {
        if m.to.contains(a) {
            let i = choose|i: int| 0 <= i < m.to.len() && m.to[i] == a;
            lemma_joined_contains_parts(m.to, ", "@, i);
            lemma_contains_in_right(s1, to_j, a);
            lemma_contains_in_left(s2, "\n- Cc: "@, a);
            lemma_contains_in_left(s3, cc_j, a);
            lemma_contains_in_left(s4, "\n- Bcc: "@, a);
            lemma_contains_in_left(s5, bcc_j, a);
            lemma_contains_in_left(s6, "\n- Subject: "@, a);
        } else if m.cc.contains(a) {
            let i = choose|i: int| 0 <= i < m.cc.len() && m.cc[i] == a;
            lemma_joined_contains_parts(m.cc, ", "@, i);
            lemma_contains_in_right(s3, cc_j, a);
            lemma_contains_in_left(s4, "\n- Bcc: "@, a);
            lemma_contains_in_left(s5, bcc_j, a);
            lemma_contains_in_left(s6, "\n- Subject: "@, a);
        } else {
            let i = choose|i: int| 0 <= i < m.bcc.len() && m.bcc[i] == a;
            lemma_joined_contains_parts(m.bcc, ", "@, i);
            lemma_contains_in_right(s5, bcc_j, a);
            lemma_contains_in_left(s6, "\n- Subject: "@, a);
        }
    }
}

/// A review shows every recipient for approval: its `To`, `Cc` and `Bcc` lines list the
/// manifest's `to`, `cc` and `bcc` addresses joined with `, `, so each address of each list,
/// hidden `bcc` ones included, occurs in the review text.
pub proof fn lemma_review_shows_recipients(l: LoadedModel, facts: ContentFactsModel)
    requires
        review_outcome(l, facts) is Ok,
    ensures
        recipient_lines_shown(review_outcome(l, facts)->Ok_0, l.manifest),
        forall|a: Seq<char>|
            #![trigger l.manifest.to.contains(a)]
            #![trigger l.manifest.cc.contains(a)]
            #![trigger l.manifest.bcc.contains(a)]
            l.manifest.to.contains(a) || l.manifest.cc.contains(a) || l.manifest.bcc.contains(a)
                ==> contains_text(review_outcome(l, facts)->Ok_0, a),
{
    let m = l.manifest;
    let report = check_outcome(l, facts)->Ok_0;
    let body = crate::body::body_section(facts.body->Ok_0);
    let t = review_outcome(l, facts)->Ok_0;
    assert(t == review_text(l.path, m, report, body));
    lemma_review_head_shows_recipients(l.path, m);
    lemma_review_extends_head(l.path, m, report, body, "\n- To: "@ + joined(m.to, ", "@) + "\n- Cc: "@);
    lemma_review_extends_head(l.path, m, report, body, "\n- Cc: "@ + joined(m.cc, ", "@) + "\n- Bcc: "@);
    lemma_review_extends_head(l.path, m, report, body, "\n- Bcc: "@ + joined(m.bcc, ", "@) + "\n- Subject: "@);
    assert forall|a: Seq<char>|
        m.to.contains(a) || m.cc.contains(a) || m.bcc.contains(a) implies contains_text(t, a) by {
        lemma_review_extends_head(l.path, m, report, body, a);
    }
}

// ---------------------------------------------------------------------------------------
// Create and seal
// ---------------------------------------------------------------------------------------

/// `create` writes the request as given: the channel, context, every `to`, `cc` and `bcc`
/// recipient in order, the subject and the body file unchanged, schema 1, the attachments'
/// paths in order each with the hash of its contents, no allowed placeholders and no approval.
pub proof fn lemma_create_keeps_request(request: CreateRequest, hashes: Seq<Seq<char>>)
    ensures
        ({
            let m = created_manifest(request, hashes);
            &&& m.schema == 1
            &&& m.channel == request.channel
            &&& m.context == request.context@
            &&& m.to == request.to.deep_view()
            &&& m.cc == request.cc.deep_view()
            &&& m.bcc == request.bcc.deep_view()
            &&& m.subject == request.subject.deep_view()
            &&& m.body_file == request.body_file@
            &&& m.attachments.len() == request.attachments@.len()
            &&& forall|i: int|
                0 <= i < request.attachments@.len() ==> #[trigger] m.attachments[i]
                    == AttachmentModel { path: request.attachments@[i]@, sha256: hashes[i] }
            &&& m.allow_placeholders.len() == 0
            &&& m.approval is None
        }),
{
}

/// A successful seal records the given approver, note and approval time verbatim, with the
/// content hash of the check it reports, and changes nothing else in the manifest.
pub proof fn lemma_seal_records_approval(
    l: LoadedModel,
    facts: ContentFactsModel,
    by: Seq<char>,
    note: Seq<char>,
    approved_at: Option<Seq<char>>,
)
    requires
        seal_outcome(l, facts, by, note, approved_at) is Ok,
    ensures
        ({
            let (sealed, report) = seal_outcome(l, facts, by, note, approved_at)->Ok_0;
            &&& approved_at is Some
            &&& sealed.approval == Some(
                ApprovalModel {
                    by,
                    approved_at: approved_at->Some_0,
                    note,
                    content_sha256: report.content_sha256,
                },
            )
            &&& sealed == ManifestModel { approval: sealed.approval, ..l.manifest }
            &&& check_outcome(l, facts) == Ok::<crate::manifest::ReportModel, ErrorModel>(report)
            &&& !is_blank(by) && !is_blank(note)
        }),
{
}

} // verus!
