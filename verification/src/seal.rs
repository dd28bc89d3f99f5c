//! Recording a user's approval of the checked content.
use vstd::prelude::*;
use chrono::{DateTime, SecondsFormat, Utc};
use crate::check::{check, check_inputs_fit, check_outcome};
use crate::error::{ErrorModel, ManifestError};
use crate::manifest::{
    Approval,
    ApprovalModel,
    CheckReport,
    ContentFacts,
    ContentFactsModel,
    LoadedManifest,
    LoadedModel,
    Manifest,
    ManifestModel,
    ReportModel,
};
use crate::text::{blank, is_blank};

verus! {

/// The instant that an RFC 3339 timestamp denotes, written in UTC the way the manifest stores
/// it, or `None` when the text is not RFC 3339.
pub uninterp spec fn rfc3339_in_utc(text: Seq<char>) -> Option<Seq<char>>;

/// `chrono::DateTime::parse_from_rfc3339`, with the parsed instant converted to UTC and written
/// back in RFC 3339 form (seconds with as many fraction digits as needed, `Z` for UTC, as the
/// manifest stores timestamps). The contract names the result [`rfc3339_in_utc`]; it says
/// nothing of which texts chrono accepts.
#[verifier::external_body]
fn parse_approval_time(text: &str) -> (res: Option<String>)
    ensures
        match res {
            Some(t) => rfc3339_in_utc(text@) == Some(t@),
            None => rfc3339_in_utc(text@) is None,
        },
{
    DateTime::parse_from_rfc3339(text).ok().map(
        |t| t.with_timezone(&Utc).to_rfc3339_opts(SecondsFormat::AutoSi, true),
    )
}

/// A text that `chrono` can write for the current time: an RFC 3339 timestamp already in the
/// stored form (reading it back gives it unchanged), or, for a clock past the year 9999, a
/// text that begins with `+` (chrono writes such years with an explicit sign).
pub open spec fn clock_text(now: Seq<char>) -> bool {
    rfc3339_in_utc(now) == Some(now) || (now.len() > 0 && now[0] == '+')
}

/// `chrono::Utc::now`, written by `to_rfc3339_opts(SecondsFormat::AutoSi, true)`, the form the
/// manifest stores. Which instant it is depends on the clock, so only its form is stated: for
/// years 0 to 9999 chrono writes a four-digit year, and `parse_from_rfc3339` reads the text
/// back to the same instant, which prints as the same text (the clock gives no leap-second
/// nanoseconds); later years are written with a leading `+`. The clock never reads before
/// 1970 here (chrono panics on such a clock, outside any input).
#[verifier::external_body]
fn current_time() -> (res: String)
    ensures
        clock_text(res@),
{
    Utc::now().to_rfc3339_opts(SecondsFormat::AutoSi, true)
}

/// `m` with the given approval recorded.
pub open spec fn with_approval(m: ManifestModel, approval: ApprovalModel) -> ManifestModel {
    ManifestModel { approval: Some(approval), ..m }
}

/// The outcome of sealing with the approval time `approved_at` (already in stored form):
/// approver and note must not be blank, and the manifest must pass its check; the approval
/// then records the checked content hash.
pub open spec fn seal_outcome(
    l: LoadedModel,
    facts: ContentFactsModel,
    by: Seq<char>,
    note: Seq<char>,
    approved_at: Option<Seq<char>>,
) -> Result<(ManifestModel, ReportModel), ErrorModel> {
    if is_blank(by) || is_blank(note) {
        Err(ErrorModel::MissingApprovalFields)
    } else {
        match check_outcome(l, facts) {
            Err(e) => Err(e),
            Ok(report) => match approved_at {
                None => Err(ErrorModel::InvalidApprovalTime),
                Some(t) => Ok(
                    (
                        with_approval(
                            l.manifest,
                            ApprovalModel { by, approved_at: t, note, content_sha256: report.content_sha256 },
                        ),
                        report,
                    ),
                ),
            },
        }
    }
}

/// The model of a seal's result.
pub open spec fn sealed_result(r: Result<(Manifest, CheckReport), ManifestError>) -> Result<
    (ManifestModel, ReportModel),
    ErrorModel,
> {
    match r {
        Ok((m, report)) => Ok((m.deep_view(), report.deep_view())),
        Err(e) => Err(e.deep_view()),
    }
}

/// Records the approval of `by`, with `note`, at `approved_at` (RFC 3339, recorded in UTC)
/// or, when none is given, at the current time as chrono writes it. Refuses blank approver or
/// note, a manifest that fails its check, and a given time that is not RFC 3339. Recording an approval is not obtaining one: this
/// is only to be run after the user approved the reviewed content.
pub fn seal(
    loaded: LoadedManifest,
    facts: &ContentFacts,
    by: String,
    note: String,
    approved_at: Option<String>,
) -> (res: Result<(Manifest, CheckReport), ManifestError>)
    requires
        check_inputs_fit(loaded.deep_view(), facts.deep_view()),
    ensures
        approved_at matches Some(t) ==> sealed_result(res) == seal_outcome(
            loaded.deep_view(),
            facts.deep_view(),
            by@,
            note@,
            rfc3339_in_utc(t@),
        ),
        approved_at is None ==> exists|now: Seq<char>|
            #[trigger] clock_text(now) && sealed_result(res) == seal_outcome(
                loaded.deep_view(),
                facts.deep_view(),
                by@,
                note@,
                Some(now),
            ),
        approved_at is None && !is_blank(by@) && !is_blank(note@) && check_outcome(
            loaded.deep_view(),
            facts.deep_view(),
        ) is Ok ==> res is Ok,
        res matches Ok((m, report)) ==> m.approval matches Some(a) && a.by@ == by@ && a.note@
            == note@ && a.content_sha256@ == report.content_sha256@,
{
    let ghost any_time = seq!['+'];
    assert(clock_text(any_time));
    if blank(by.as_str()) || blank(note.as_str()) {
        assert(seal_outcome(loaded.deep_view(), facts.deep_view(), by@, note@, Some(any_time))
            == Err::<(ManifestModel, ReportModel), ErrorModel>(ErrorModel::MissingApprovalFields));
        return Err(ManifestError::MissingApprovalFields);
    }
    let report = check(&loaded, facts);
    let report = match report {
        Err(e) => {
            assert(seal_outcome(loaded.deep_view(), facts.deep_view(), by@, note@, Some(any_time))
                == Err::<(ManifestModel, ReportModel), ErrorModel>(e.deep_view()));
            return Err(e);
        },
        Ok(r) => r,
    };
    let time = match approved_at {
        Some(text) => match parse_approval_time(text.as_str()) {
            Some(t) => t,
            None => {
                return Err(ManifestError::InvalidApprovalTime);
            },
        },
        None => current_time(),
    };
    let ghost t = time@;
    let approval = Approval {
        by,
        approved_at: time,
        note,
        content_sha256: report.content_sha256.clone(),
    };
    let mut manifest = loaded.manifest;
    manifest.approval = Some(approval);
    assert(manifest.deep_view() =~= with_approval(
        loaded.deep_view().manifest,
        ApprovalModel { by: by@, approved_at: t, note: note@, content_sha256: report.content_sha256@ },
    ));
    assert(sealed_result(Ok((manifest, report))) == seal_outcome(
        loaded.deep_view(),
        facts.deep_view(),
        by@,
        note@,
        Some(t),
    ));
    Ok((manifest, report))
}

} // verus!
