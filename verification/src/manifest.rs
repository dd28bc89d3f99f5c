//! The manifest of one outbound message, what was observed of the files it names, and the
//! report that a check produces.
use vstd::prelude::*;

verus! {

/// Where the message will be sent.
#[derive(Clone, Copy, Debug, PartialEq, Eq, Structural)]
pub enum Channel {
    Email,
    Slack,
    Discord,
    Social,
    Form,
}

impl Channel {
    /// The name under which the channel is written in a manifest.
    pub open spec fn name(self) -> Seq<char> {
        match self {
            Channel::Email => "email"@,
            Channel::Slack => "slack"@,
            Channel::Discord => "discord"@,
            Channel::Social => "social"@,
            Channel::Form => "form"@,
        }
    }

    /// The name under which the channel is written in a manifest.
    pub fn as_str(&self) -> (res: &'static str)
        ensures
            res@ == self.name(),
    {
        match self {
            Channel::Email => "email",
            Channel::Slack => "slack",
            Channel::Discord => "discord",
            Channel::Social => "social",
            Channel::Form => "form",
        }
    }
}

/// A file sent along with the message, and the SHA-256 it had when the manifest was made.
#[derive(Debug)]
pub struct Attachment {
    pub path: String,
    pub sha256: String,
}

/// The model of an [`Attachment`].
pub struct AttachmentModel {
    pub path: Seq<char>,
    pub sha256: Seq<char>,
}

impl DeepView for Attachment {
    type V = AttachmentModel;

    open spec fn deep_view(&self) -> AttachmentModel {
        AttachmentModel { path: self.path@, sha256: self.sha256@ }
    }
}

/// A user's explicit approval of the content whose hash it records.
#[derive(Debug)]
pub struct Approval {
    pub by: String,
    /// The approval time, in RFC 3339 form, UTC.
    pub approved_at: String,
    pub note: String,
    pub content_sha256: String,
}

/// The model of an [`Approval`].
pub struct ApprovalModel {
    pub by: Seq<char>,
    pub approved_at: Seq<char>,
    pub note: Seq<char>,
    pub content_sha256: Seq<char>,
}

impl DeepView for Approval {
    type V = ApprovalModel;

    open spec fn deep_view(&self) -> ApprovalModel {
        ApprovalModel {
            by: self.by@,
            approved_at: self.approved_at@,
            note: self.note@,
            content_sha256: self.content_sha256@,
        }
    }
}

/// Recipients, exact body, attachments and approval of one outbound message.
#[derive(Debug)]
pub struct Manifest {
    pub schema: u32,
    pub channel: Channel,
    /// The exact thread, channel, account or form the message goes to.
    pub context: String,
    pub to: Vec<String>,
    pub cc: Vec<String>,
    pub bcc: Vec<String>,
    pub subject: Option<String>,
    /// The body file, relative to the manifest's directory unless absolute.
    pub body_file: String,
    pub attachments: Vec<Attachment>,
    /// Placeholder markers that the author accepts in this message.
    pub allow_placeholders: Vec<String>,
    pub approval: Option<Approval>,
}

/// The model of a [`Manifest`].
pub struct ManifestModel {
    pub schema: u32,
    pub channel: Channel,
    pub context: Seq<char>,
    pub to: Seq<Seq<char>>,
    pub cc: Seq<Seq<char>>,
    pub bcc: Seq<Seq<char>>,
    pub subject: Option<Seq<char>>,
    pub body_file: Seq<char>,
    pub attachments: Seq<AttachmentModel>,
    pub allow_placeholders: Seq<Seq<char>>,
    pub approval: Option<ApprovalModel>,
}

impl DeepView for Manifest {
    type V = ManifestModel;

    open spec fn deep_view(&self) -> ManifestModel {
        ManifestModel {
            schema: self.schema,
            channel: self.channel,
            context: self.context@,
            to: self.to.deep_view(),
            cc: self.cc.deep_view(),
            bcc: self.bcc.deep_view(),
            subject: self.subject.deep_view(),
            body_file: self.body_file@,
            attachments: self.attachments.deep_view(),
            allow_placeholders: self.allow_placeholders.deep_view(),
            approval: self.approval.deep_view(),
        }
    }
}

/// A manifest together with its own path and the directory its relative paths start from.
#[derive(Debug)]
pub struct LoadedManifest {
    pub path: String,
    pub base: String,
    pub manifest: Manifest,
}

/// The model of a [`LoadedManifest`].
pub struct LoadedModel {
    pub path: Seq<char>,
    pub base: Seq<char>,
    pub manifest: ManifestModel,
}

impl DeepView for LoadedManifest {
    type V = LoadedModel;

    open spec fn deep_view(&self) -> LoadedModel {
        LoadedModel { path: self.path@, base: self.base@, manifest: self.manifest.deep_view() }
    }
}

/// What the file system says of a path.
#[derive(Clone, Copy, Debug, PartialEq, Eq, Structural)]
pub struct FileFacts {
    /// The path names a regular file.
    pub is_file: bool,
    /// Its length in bytes.
    pub len: u64,
}

/// What was observed of one attachment, each step's failure given as its message.
#[derive(Debug)]
pub struct AttachmentFacts {
    /// The canonical form of the attachment's resolved path.
    pub canonical: Result<String, String>,
    pub metadata: Result<FileFacts, String>,
    pub contents: Result<Vec<u8>, String>,
}

/// The model of an [`AttachmentFacts`].
pub struct AttachmentFactsModel {
    pub canonical: Result<Seq<char>, Seq<char>>,
    pub metadata: Result<FileFacts, Seq<char>>,
    pub contents: Result<Seq<u8>, Seq<char>>,
}

/// The model of a `Result` of two strings.
pub open spec fn text_result(r: Result<String, String>) -> Result<Seq<char>, Seq<char>> {
    match r {
        Ok(v) => Ok(v@),
        Err(e) => Err(e@),
    }
}

impl DeepView for AttachmentFacts {
    type V = AttachmentFactsModel;

    open spec fn deep_view(&self) -> AttachmentFactsModel {
        AttachmentFactsModel {
            canonical: text_result(self.canonical),
            metadata: match self.metadata {
                Ok(m) => Ok(m),
                Err(e) => Err(e@),
            },
            contents: match self.contents {
                Ok(c) => Ok(c@),
                Err(e) => Err(e@),
            },
        }
    }
}

/// What was observed of the files a manifest names.
#[derive(Debug)]
pub struct ContentFacts {
    /// The body file's text.
    pub body: Result<String, String>,
    /// One entry per attachment of the manifest, in the same order.
    pub attachments: Vec<AttachmentFacts>,
}

/// The model of a [`ContentFacts`].
pub struct ContentFactsModel {
    pub body: Result<Seq<char>, Seq<char>>,
    pub attachments: Seq<AttachmentFactsModel>,
}

impl DeepView for ContentFacts {
    type V = ContentFactsModel;

    open spec fn deep_view(&self) -> ContentFactsModel {
        ContentFactsModel {
            body: text_result(self.body),
            attachments: self.attachments.deep_view(),
        }
    }
}

/// The report on one attachment.
#[derive(Debug)]
pub struct AttachmentReport {
    pub path: String,
    pub bytes: u64,
    pub sha256: String,
}

/// The model of an [`AttachmentReport`].
pub struct AttachmentReportModel {
    pub path: Seq<char>,
    pub bytes: u64,
    pub sha256: Seq<char>,
}

impl DeepView for AttachmentReport {
    type V = AttachmentReportModel;

    open spec fn deep_view(&self) -> AttachmentReportModel {
        AttachmentReportModel { path: self.path@, bytes: self.bytes, sha256: self.sha256@ }
    }
}

/// What a successful check found.
#[derive(Debug)]
pub struct CheckReport {
    pub manifest: String,
    pub channel: String,
    pub context: String,
    pub recipients: usize,
    /// The length in bytes of the outbound body.
    pub body_bytes: u64,
    /// The SHA-256 of the outbound body.
    pub body_sha256: String,
    pub attachments: Vec<AttachmentReport>,
    /// The SHA-256 of the canonical content, which an approval records.
    pub content_sha256: String,
    pub sealed: bool,
}

/// The model of a [`CheckReport`].
pub struct ReportModel {
    pub manifest: Seq<char>,
    pub channel: Seq<char>,
    pub context: Seq<char>,
    pub recipients: usize,
    pub body_bytes: u64,
    pub body_sha256: Seq<char>,
    pub attachments: Seq<AttachmentReportModel>,
    pub content_sha256: Seq<char>,
    pub sealed: bool,
}

impl DeepView for CheckReport {
    type V = ReportModel;

    open spec fn deep_view(&self) -> ReportModel {
        ReportModel {
            manifest: self.manifest@,
            channel: self.channel@,
            context: self.context@,
            recipients: self.recipients,
            body_bytes: self.body_bytes,
            body_sha256: self.body_sha256@,
            attachments: self.attachments.deep_view(),
            content_sha256: self.content_sha256@,
            sealed: self.sealed,
        }
    }
}

} // verus!
