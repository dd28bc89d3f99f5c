//! The commands of the tool, decided on what was observed of the file system.
//!
//! A caller reads what a command needs (the manifest, the body file, the attachments), hands
//! each step's result to [`run`], then writes the manifest that the outcome asks for and
//! shows its output.
use vstd::prelude::*;
use crate::check::{check, check_inputs_fit, check_outcome, report_result, verify, verify_outcome};
use crate::digest::{sha256_hex, sha256_hex_of};
use crate::error::{ErrorModel, ManifestError};
use crate::manifest::{
    Attachment,
    AttachmentModel,
    Channel,
    CheckReport,
    ContentFacts,
    ContentFactsModel,
    LoadedManifest,
    LoadedModel,
    Manifest,
    ManifestModel,
    ReportModel,
};
use crate::review::{
    created_message,
    created_text,
    report_summary,
    review,
    review_outcome,
    sealed_message,
    sealed_text,
    summary_text,
};
use crate::seal::{clock_text, rfc3339_in_utc, seal, seal_outcome, sealed_result};

verus! {

/// The arguments of `create`.
#[derive(Debug)]
pub struct CreateRequest {
    /// Where the new manifest goes.
    pub manifest: String,
    pub channel: Channel,
    pub context: String,
    pub to: Vec<String>,
    pub cc: Vec<String>,
    pub bcc: Vec<String>,
    pub subject: Option<String>,
    pub body_file: String,
    /// The attachments' paths, relative to the manifest's directory unless absolute.
    pub attachments: Vec<String>,
}

/// The arguments of `seal`.
#[derive(Debug)]
pub struct SealRequest {
    pub manifest: String,
    pub by: String,
    pub approval_note: String,
    /// The approval time in RFC 3339; the current time when absent.
    pub approved_at: Option<String>,
}

/// A command of the tool.
#[derive(Debug)]
pub enum Command {
    /// Writes a new manifest for a message, recording its attachments' hashes.
    Create(CreateRequest),
    /// Checks a manifest; `json` asks for the whole report.
    Check { manifest: String, json: bool },
    /// Shows what will be sent, for the user to approve.
    Review { manifest: String },
    /// Records the user's approval of the checked content.
    Seal(SealRequest),
    /// Checks a manifest and its approval, right before sending.
    Verify { manifest: String, json: bool },
}

/// What was observed of the file system for a command, each step's failure given as its
/// message.
#[derive(Debug)]
pub struct Observed {
    /// A file already exists where `create` would write the manifest.
    pub manifest_exists: bool,
    /// Creating the new manifest's directory.
    pub directory: Result<(), String>,
    /// The manifest's directory, against which its relative paths resolve.
    pub base: String,
    /// The contents of the attachments named to `create`, in order.
    pub new_attachments: Vec<Result<Vec<u8>, String>>,
    /// The manifest as read and parsed (every command but `create`).
    pub loaded: Result<LoadedManifest, String>,
    /// What was observed of the files that the manifest names.
    pub facts: ContentFacts,
}

/// What a command shows.
#[derive(Debug)]
pub enum Output {
    /// A line or a document of text.
    Text(String),
    /// A report to be shown in full, as JSON.
    Report(CheckReport),
}

/// What a command asks for: a manifest to write (before anything is shown), and what to show.
#[derive(Debug)]
pub struct Outcome {
    pub write: Option<Manifest>,
    pub result: Result<Output, ManifestError>,
}

/// The manifest that `create` writes, given the hashes of its attachments' contents.
pub open spec fn created_manifest(request: CreateRequest, hashes: Seq<Seq<char>>) -> ManifestModel {
    ManifestModel {
        schema: 1,
        channel: request.channel,
        context: request.context@,
        to: request.to.deep_view(),
        cc: request.cc.deep_view(),
        bcc: request.bcc.deep_view(),
        subject: request.subject.deep_view(),
        body_file: request.body_file@,
        attachments: Seq::new(
            request.attachments@.len(),
            |i: int| AttachmentModel { path: request.attachments@[i]@, sha256: hashes[i] },
        ),
        allow_placeholders: seq![],
        approval: None,
    }
}

/// The first attachment named to `create` that could not be read: its error message.
pub open spec fn first_unreadable(contents: Seq<Result<Vec<u8>, String>>) -> Option<Seq<char>>
    decreases contents.len(),
{
    if contents.len() == 0 {
        None
    } else if contents[0] is Err {
        Some(contents[0]->Err_0@)
    } else {
        first_unreadable(contents.drop_first())
    }
}

/// The lowercase-hex SHA-256 of each attachment's contents (meaningful where they were read).
pub open spec fn content_hashes(contents: Seq<Result<Vec<u8>, String>>) -> Seq<Seq<char>> {
    Seq::new(contents.len(), |i: int| sha256_hex_of(contents[i]->Ok_0@))
}

fn copy_strings(v: &Vec<String>) -> (res: Vec<String>)
    ensures
        res.deep_view() == v.deep_view(),
{
    let mut res: Vec<String> = Vec::new();
    let mut i: usize = 0;
    while i < v.len()
        invariant
            i <= v@.len(),
            res.deep_view() =~= v.deep_view().take(i as int),
        decreases v@.len() - i,
    {
        let ghost before = res.deep_view();
        res.push(v[i].clone());
        assert(res.deep_view() =~= before.push(v@[i as int]@));
        assert(res.deep_view() =~= v.deep_view().take(i + 1));
        i = i + 1;
    }
    assert(v.deep_view().take(i as int) =~= v.deep_view());
    res
}

/// The manifest for a `create` request, refused when an attachment could not be read.
pub fn new_manifest(request: &CreateRequest, contents: &Vec<Result<Vec<u8>, String>>) -> (res: Result<
    Manifest,
    ManifestError,
>)
    requires
        contents@.len() == request.attachments@.len(),
    ensures
        match first_unreadable(contents@) {
            Some(e) => res matches Err(err) && err.deep_view() == ErrorModel::Unreadable(e),
            None => res matches Ok(m) && m.deep_view() == created_manifest(
                *request,
                content_hashes(contents@),
            ),
        },
        res matches Ok(m) ==> m.to.deep_view() == request.to.deep_view() && m.cc.deep_view()
            == request.cc.deep_view() && m.bcc.deep_view() == request.bcc.deep_view()
            && m.subject.deep_view() == request.subject.deep_view() && m.approval is None,
{
    let ghost hashes = content_hashes(contents@);
    let mut attachments: Vec<Attachment> = Vec::new();
    let mut i: usize = 0;
    assert(contents@.skip(0) =~= contents@);
    while i < contents.len()
        invariant
            contents@.len() == request.attachments@.len(),
            hashes == content_hashes(contents@),
            i <= contents@.len(),
            first_unreadable(contents@) == first_unreadable(contents@.skip(i as int)),
            attachments.deep_view() =~= Seq::new(
                i as nat,
                |j: int| AttachmentModel { path: request.attachments@[j]@, sha256: hashes[j] },
            ),
        decreases contents@.len() - i,
    {
        assert(contents@.skip(i as int)[0] == contents@[i as int]);
        match &contents[i] {
            Err(e) => {
                return Err(ManifestError::Unreadable(e.clone()));
            },
            Ok(bytes) => {
                let sha256 = sha256_hex(bytes.as_slice());
                let ghost before = attachments.deep_view();
                attachments.push(Attachment { path: request.attachments[i].clone(), sha256 });
                assert(attachments.deep_view() =~= before.push(
                    AttachmentModel { path: request.attachments@[i as int]@, sha256: hashes[i as int] },
                ));
            },
        }
        assert(contents@.skip(i as int).drop_first() =~= contents@.skip(i + 1));
        i = i + 1;
    }
    assert(contents@.skip(i as int) =~= Seq::<Result<Vec<u8>, String>>::empty());
    let subject = match &request.subject {
        Some(s) => Some(s.clone()),
        None => None,
    };
    let m = Manifest {
        schema: 1,
        channel: request.channel,
        context: request.context.clone(),
        to: copy_strings(&request.to),
        cc: copy_strings(&request.cc),
        bcc: copy_strings(&request.bcc),
        subject,
        body_file: request.body_file.clone(),
        attachments,
        allow_placeholders: Vec::new(),
        approval: None,
    };
    assert(m.allow_placeholders.deep_view() =~= Seq::<Seq<char>>::empty());
    assert(m.subject.deep_view() == request.subject.deep_view());
    assert(m.attachments.deep_view() =~= created_manifest(*request, hashes).attachments);
    assert(m.deep_view() =~= created_manifest(*request, hashes));
    Ok(m)
}

/// The model of what a command shows.
pub enum OutputModel {
    Text(Seq<char>),
    Report(ReportModel),
}

/// The model of a command's result.
pub open spec fn output_result(r: Result<Output, ManifestError>) -> Result<OutputModel, ErrorModel> {
    match r {
        Ok(Output::Text(t)) => Ok(OutputModel::Text(t@)),
        Ok(Output::Report(report)) => Ok(OutputModel::Report(report.deep_view())),
        Err(e) => Err(e.deep_view()),
    }
}

/// How a check or a verification shows its report: in full, or as its summary line.
pub open spec fn shown_report(
    outcome: Result<ReportModel, ErrorModel>,
    json: bool,
) -> Result<OutputModel, ErrorModel> {
    match outcome {
        Err(e) => Err(e),
        Ok(r) => if json {
            Ok(OutputModel::Report(r))
        } else {
            Ok(OutputModel::Text(summary_text(r)))
        },
    }
}

/// The loaded manifest that a command works on, with what was observed of its files.
pub open spec fn loaded_fits(observed: Observed) -> bool {
    observed.loaded matches Ok(l) ==> check_inputs_fit(l.deep_view(), observed.facts.deep_view())
}

/// What `run` needs of its observations: they are of the files the command names.
pub open spec fn observations_fit(command: Command, observed: Observed) -> bool {
    match command {
        Command::Create(request) => {
            &&& observed.new_attachments@.len() == request.attachments@.len()
            &&& observed.facts.attachments@.len() == request.attachments@.len()
            &&& request.to@.len() + request.cc@.len() + request.bcc@.len() <= usize::MAX
        },
        _ => loaded_fits(observed),
    }
}

/// Shows a report in full or as its summary line.
fn show(report: Result<CheckReport, ManifestError>, json: bool) -> (res: Result<Output, ManifestError>)
    ensures
        output_result(res) == shown_report(report_result(report), json),
{
    match report {
        Err(e) => Err(e),
        Ok(r) => if json {
            Ok(Output::Report(r))
        } else {
            Ok(Output::Text(report_summary(&r)))
        },
    }
}

/// Decides a command on what was observed: what to write and what to show.
///
/// `create` refuses an existing manifest, then a directory it could not create, then an
/// attachment it could not read; otherwise it writes the new manifest and shows the outcome
/// of checking it. `check`, `review` and `verify` write nothing. `seal` writes the sealed
/// manifest only when it succeeds.
pub fn run(command: Command, observed: &Observed) -> (res: Outcome)
    requires
        observations_fit(command, *observed),
    ensures
        match command {
            Command::Create(request) => if observed.manifest_exists {
                res.write is None && output_result(res.result) == Err::<OutputModel, ErrorModel>(
                    ErrorModel::ManifestExists(request.manifest@),
                )
            } else if observed.directory is Err {
                res.write is None && output_result(res.result) == Err::<OutputModel, ErrorModel>(
                    ErrorModel::Unreadable(observed.directory->Err_0@),
                )
            } else if first_unreadable(observed.new_attachments@) is Some {
                res.write is None && output_result(res.result) == Err::<OutputModel, ErrorModel>(
                    ErrorModel::Unreadable(first_unreadable(observed.new_attachments@)->Some_0),
                )
            } else {
                let m = created_manifest(request, content_hashes(observed.new_attachments@));
                let l = LoadedModel { path: request.manifest@, base: observed.base@, manifest: m };
                &&& res.write matches Some(w) && w.deep_view() == m
                &&& output_result(res.result) == match check_outcome(l, observed.facts.deep_view()) {
                    Err(e) => Err(e),
                    Ok(r) => Ok(OutputModel::Text(created_text(request.manifest@, r.content_sha256))),
                }
            },
            Command::Check { json, .. } => res.write is None && output_result(res.result)
                == match observed.loaded {
                Err(e) => Err(ErrorModel::Unreadable(e@)),
                Ok(l) => shown_report(check_outcome(l.deep_view(), observed.facts.deep_view()), json),
            },
            Command::Verify { json, .. } => res.write is None && output_result(res.result)
                == match observed.loaded {
                Err(e) => Err(ErrorModel::Unreadable(e@)),
                Ok(l) => shown_report(verify_outcome(l.deep_view(), observed.facts.deep_view()), json),
            },
            Command::Review { .. } => res.write is None && output_result(res.result)
                == match observed.loaded {
                Err(e) => Err(ErrorModel::Unreadable(e@)),
                Ok(l) => match review_outcome(l.deep_view(), observed.facts.deep_view()) {
                    Err(e) => Err(e),
                    Ok(t) => Ok(OutputModel::Text(t)),
                },
            },
            Command::Seal(request) => if crate::text::is_blank(request.by@) || crate::text::is_blank(
                request.approval_note@,
            ) {
                res.write is None && output_result(res.result) == Err::<OutputModel, ErrorModel>(
                    ErrorModel::MissingApprovalFields,
                )
            } else {
                match observed.loaded {
                    Err(e) => res.write is None && output_result(res.result) == Err::<
                        OutputModel,
                        ErrorModel,
                    >(ErrorModel::Unreadable(e@)),
                    Ok(l) => exists|t: Option<Seq<char>>|
                        #[trigger] sealed_as(
                            request,
                            l.deep_view(),
                            observed.facts.deep_view(),
                            t,
                            res,
                        ),
                }
            },
        },
{
    match command {
        Command::Create(request) => run_create(request, observed),
        Command::Check { json, .. } => {
            let result = match &observed.loaded {
                Err(e) => Err(ManifestError::Unreadable(e.clone())),
                Ok(l) => show(check(l, &observed.facts), json),
            };
            Outcome { write: None, result }
        },
        Command::Verify { json, .. } => {
            let result = match &observed.loaded {
                Err(e) => Err(ManifestError::Unreadable(e.clone())),
                Ok(l) => show(verify(l, &observed.facts), json),
            };
            Outcome { write: None, result }
        },
        Command::Review { .. } => {
            let result = match &observed.loaded {
                Err(e) => Err(ManifestError::Unreadable(e.clone())),
                Ok(l) => match review(l, &observed.facts) {
                    Err(e) => Err(e),
                    Ok(t) => Ok(Output::Text(t)),
                },
            };
            Outcome { write: None, result }
        },
        Command::Seal(request) => run_seal(request, observed),
    }
}

fn run_create(request: CreateRequest, observed: &Observed) -> (res: Outcome)
    requires
        observations_fit(Command::Create(request), *observed),
    ensures
        if observed.manifest_exists {
            res.write is None && output_result(res.result) == Err::<OutputModel, ErrorModel>(
                ErrorModel::ManifestExists(request.manifest@),
            )
        } else if observed.directory is Err {
            res.write is None && output_result(res.result) == Err::<OutputModel, ErrorModel>(
                ErrorModel::Unreadable(observed.directory->Err_0@),
            )
        } else if first_unreadable(observed.new_attachments@) is Some {
            res.write is None && output_result(res.result) == Err::<OutputModel, ErrorModel>(
                ErrorModel::Unreadable(first_unreadable(observed.new_attachments@)->Some_0),
            )
        } else {
            let m = created_manifest(request, content_hashes(observed.new_attachments@));
            let l = LoadedModel { path: request.manifest@, base: observed.base@, manifest: m };
            &&& res.write matches Some(w) && w.deep_view() == m
            &&& output_result(res.result) == match check_outcome(l, observed.facts.deep_view()) {
                Err(e) => Err(e),
                Ok(r) => Ok(OutputModel::Text(created_text(request.manifest@, r.content_sha256))),
            }
        },
{
    if observed.manifest_exists {
        return Outcome { write: None, result: Err(ManifestError::ManifestExists(request.manifest)) };
    }
    match &observed.directory {
        Err(e) => {
            return Outcome { write: None, result: Err(ManifestError::Unreadable(e.clone())) };
        },
        Ok(()) => {},
    }
    let m = match new_manifest(&request, &observed.new_attachments) {
        Err(e) => {
            return Outcome { write: None, result: Err(e) };
        },
        Ok(m) => m,
    };
    let ghost mv = m.deep_view();
    let loaded = LoadedManifest { path: request.manifest, base: observed.base.clone(), manifest: m };
    let result = match check(&loaded, &observed.facts) {
        Err(e) => Err(e),
        Ok(r) => Ok(Output::Text(created_message(loaded.path.as_str(), r.content_sha256.as_str()))),
    };
    assert(loaded.deep_view() == LoadedModel {
        path: request.manifest@,
        base: observed.base@,
        manifest: mv,
    });
    Outcome { write: Some(loaded.manifest), result }
}

/// `res` is what sealing for `request` gives when the approval time is `t`: the given time
/// read as RFC 3339, or, when none was given, the current time as chrono writes it.
pub open spec fn sealed_as(
    request: SealRequest,
    l: LoadedModel,
    facts: ContentFactsModel,
    t: Option<Seq<char>>,
    res: Outcome,
) -> bool {
    &&& (request.approved_at matches Some(a) ==> t == rfc3339_in_utc(a@))
    &&& (request.approved_at is None ==> (t matches Some(now) && clock_text(now)))
    &&& match seal_outcome(l, facts, request.by@, request.approval_note@, t) {
        Err(e) => res.write is None && output_result(res.result) == Err::<OutputModel, ErrorModel>(
            e,
        ),
        Ok((sealed, report)) => res.write matches Some(w) && w.deep_view() == sealed
            && output_result(res.result) == Ok::<OutputModel, ErrorModel>(
            OutputModel::Text(sealed_text(request.manifest@, report.content_sha256)),
        ),
    }
}

fn run_seal(request: SealRequest, observed: &Observed) -> (res: Outcome)
    requires
        loaded_fits(*observed),
    ensures
        if crate::text::is_blank(request.by@) || crate::text::is_blank(request.approval_note@) {
            res.write is None && output_result(res.result) == Err::<OutputModel, ErrorModel>(
                ErrorModel::MissingApprovalFields,
            )
        } else {
            match observed.loaded {
                Err(e) => res.write is None && output_result(res.result) == Err::<
                    OutputModel,
                    ErrorModel,
                >(ErrorModel::Unreadable(e@)),
                Ok(l) => exists|t: Option<Seq<char>>|
                    #[trigger] sealed_as(request, l.deep_view(), observed.facts.deep_view(), t, res),
            }
        },
{
    if crate::text::blank(request.by.as_str()) || crate::text::blank(request.approval_note.as_str()) {
        return Outcome { write: None, result: Err(ManifestError::MissingApprovalFields) };
    }
    let loaded = match &observed.loaded {
        Err(e) => {
            return Outcome { write: None, result: Err(ManifestError::Unreadable(e.clone())) };
        },
        Ok(l) => l,
    };
    let copy = copy_loaded(loaded);
    let ghost by = request.by@;
    let ghost note = request.approval_note@;
    let ghost at = request.approved_at;
    let ghost req = request;
    let ghost lv = loaded.deep_view();
    let ghost fv = observed.facts.deep_view();
    let path = request.manifest;
    let sealed = seal(copy, &observed.facts, request.by, request.approval_note, request.approved_at);
    let ghost t: Option<Seq<char>> = match at {
        Some(a) => rfc3339_in_utc(a@),
        None => Some(
            choose|now: Seq<char>|
                #[trigger] clock_text(now) && sealed_result(sealed) == seal_outcome(lv, fv, by, note, Some(now)),
        ),
    };
    assert(sealed_result(sealed) == seal_outcome(lv, fv, by, note, t));
    let res = match sealed {
        Err(e) => Outcome { write: None, result: Err(e) },
        Ok((m, report)) => {
            let text = sealed_message(path.as_str(), report.content_sha256.as_str());
            Outcome { write: Some(m), result: Ok(Output::Text(text)) }
        },
    };
    assert(sealed_as(req, lv, fv, t, res));
    res
}

fn copy_manifest(m: &Manifest) -> (res: Manifest)
    ensures
        res.deep_view() == m.deep_view(),
{
    let mut attachments: Vec<Attachment> = Vec::new();
    let mut i: usize = 0;
    while i < m.attachments.len()
        invariant
            i <= m.attachments@.len(),
            attachments.deep_view() =~= m.attachments.deep_view().take(i as int),
        decreases m.attachments@.len() - i,
    {
        let a = &m.attachments[i];
        let ghost before = attachments.deep_view();
        let item = Attachment { path: a.path.clone(), sha256: a.sha256.clone() };
        attachments.push(item);
        assert(attachments.deep_view() =~= before.push(item.deep_view()));
        assert(attachments.deep_view() =~= m.attachments.deep_view().take(i + 1));
        i = i + 1;
    }
    assert(m.attachments.deep_view().take(i as int) =~= m.attachments.deep_view());
    let subject = match &m.subject {
        Some(s) => Some(s.clone()),
        None => None,
    };
    let approval = match &m.approval {
        Some(a) => Some(
            crate::manifest::Approval {
                by: a.by.clone(),
                approved_at: a.approved_at.clone(),
                note: a.note.clone(),
                content_sha256: a.content_sha256.clone(),
            },
        ),
        None => None,
    };
    let res = Manifest {
        schema: m.schema,
        channel: m.channel,
        context: m.context.clone(),
        to: copy_strings(&m.to),
        cc: copy_strings(&m.cc),
        bcc: copy_strings(&m.bcc),
        subject,
        body_file: m.body_file.clone(),
        attachments,
        allow_placeholders: copy_strings(&m.allow_placeholders),
        approval,
    };
    assert(res.deep_view() =~= m.deep_view());
    res
}

fn copy_loaded(l: &LoadedManifest) -> (res: LoadedManifest)
    ensures
        res.deep_view() == l.deep_view(),
{
    LoadedManifest { path: l.path.clone(), base: l.base.clone(), manifest: copy_manifest(&l.manifest) }
}

} // verus!
