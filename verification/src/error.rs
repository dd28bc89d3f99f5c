//! Why a manifest is refused.
use vstd::prelude::*;
use crate::text::{concat, decimal, decimal_string, join, joined};

verus! {

/// Why a command refused the manifest or its files.
#[derive(Debug)]
pub enum ManifestError {
    /// The manifest's schema is not 1.
    UnsupportedSchema(u32),
    /// The context is blank.
    MissingContext,
    /// An e-mail manifest names no `to` recipient.
    MissingRecipient,
    /// An e-mail manifest has no subject, or a blank one.
    MissingSubject,
    /// An e-mail recipient does not have the shape of an address.
    InvalidEmailAddress(String),
    /// A file could not be read or examined; the message says which and why.
    Unreadable(String),
    /// The outbound body is blank.
    EmptyBody,
    /// Placeholder markers remain, listed once each in ascending order.
    UnresolvedPlaceholders(Vec<String>),
    /// An attachment names the same file as an earlier one.
    DuplicateAttachment(String),
    /// An attachment is not a regular file, or is empty (its resolved path).
    NotANonEmptyFile(String),
    /// An attachment's content no longer has the recorded hash: path, recorded, actual.
    AttachmentHashMismatch(String, String, String),
    /// The manifest carries no approval.
    NotSealed,
    /// The content changed after approval: sealed hash, current hash.
    ApprovedContentChanged(String, String),
    /// The approver or the approval note is blank.
    MissingApprovalFields,
    /// The given approval time is not RFC 3339.
    InvalidApprovalTime,
    /// `create` would overwrite an existing manifest.
    ManifestExists(String),
}

/// The model of a [`ManifestError`].
pub enum ErrorModel {
    UnsupportedSchema(u32),
    MissingContext,
    MissingRecipient,
    MissingSubject,
    InvalidEmailAddress(Seq<char>),
    Unreadable(Seq<char>),
    EmptyBody,
    UnresolvedPlaceholders(Seq<Seq<char>>),
    DuplicateAttachment(Seq<char>),
    NotANonEmptyFile(Seq<char>),
    AttachmentHashMismatch(Seq<char>, Seq<char>, Seq<char>),
    NotSealed,
    ApprovedContentChanged(Seq<char>, Seq<char>),
    MissingApprovalFields,
    InvalidApprovalTime,
    ManifestExists(Seq<char>),
}

impl DeepView for ManifestError {
    type V = ErrorModel;

    open spec fn deep_view(&self) -> ErrorModel {
        match self {
            ManifestError::UnsupportedSchema(n) => ErrorModel::UnsupportedSchema(*n),
            ManifestError::MissingContext => ErrorModel::MissingContext,
            ManifestError::MissingRecipient => ErrorModel::MissingRecipient,
            ManifestError::MissingSubject => ErrorModel::MissingSubject,
            ManifestError::InvalidEmailAddress(a) => ErrorModel::InvalidEmailAddress(a@),
            ManifestError::Unreadable(m) => ErrorModel::Unreadable(m@),
            ManifestError::EmptyBody => ErrorModel::EmptyBody,
            ManifestError::UnresolvedPlaceholders(l) => ErrorModel::UnresolvedPlaceholders(
                l.deep_view(),
            ),
            ManifestError::DuplicateAttachment(p) => ErrorModel::DuplicateAttachment(p@),
            ManifestError::NotANonEmptyFile(p) => ErrorModel::NotANonEmptyFile(p@),
            ManifestError::AttachmentHashMismatch(p, m, a) => ErrorModel::AttachmentHashMismatch(
                p@,
                m@,
                a@,
            ),
            ManifestError::NotSealed => ErrorModel::NotSealed,
            ManifestError::ApprovedContentChanged(s, c) => ErrorModel::ApprovedContentChanged(
                s@,
                c@,
            ),
            ManifestError::MissingApprovalFields => ErrorModel::MissingApprovalFields,
            ManifestError::InvalidApprovalTime => ErrorModel::InvalidApprovalTime,
            ManifestError::ManifestExists(p) => ErrorModel::ManifestExists(p@),
        }
    }
}

impl ErrorModel {
    /// The message shown for the error.
    pub open spec fn message(self) -> Seq<char> {
        match self {
            ErrorModel::UnsupportedSchema(n) => "unsupported manifest schema "@ + decimal(
                n as nat,
            ) + "; expected 1"@,
            ErrorModel::MissingContext => "context must identify the exact thread, channel, account, or form"@,
            ErrorModel::MissingRecipient => "email manifest requires at least one recipient in `to`"@,
            ErrorModel::MissingSubject => "email manifest requires a non-empty subject"@,
            ErrorModel::InvalidEmailAddress(a) => "invalid email address: "@ + a,
            ErrorModel::Unreadable(m) => m,
            ErrorModel::EmptyBody => "body file is empty"@,
            ErrorModel::UnresolvedPlaceholders(l) => "unresolved placeholder(s): "@ + joined(
                l,
                ", "@,
            ),
            ErrorModel::DuplicateAttachment(p) => "duplicate attachment: "@ + p,
            ErrorModel::NotANonEmptyFile(p) => "attachment is not a non-empty file: "@ + p,
            ErrorModel::AttachmentHashMismatch(p, m, a) => "attachment sha256 mismatch for "@ + p
                + ": manifest "@ + m + ", actual "@ + a,
            ErrorModel::NotSealed => "manifest is not sealed by an explicit user approval"@,
            ErrorModel::ApprovedContentChanged(s, c) => "approved content changed: sealed "@ + s
                + ", current "@ + c,
            ErrorModel::MissingApprovalFields => "--by and --approval-note must be non-empty"@,
            ErrorModel::InvalidApprovalTime => "--approved-at must be RFC 3339"@,
            ErrorModel::ManifestExists(p) => p + " already exists"@,
        }
    }
}

impl ManifestError {
    /// The message shown for the error.
    pub fn message(&self) -> (res: String)
        ensures
            res@ == self.deep_view().message(),
    {
        match self {
            ManifestError::UnsupportedSchema(n) => {
                let mut s = String::from_str("unsupported manifest schema ");
                let d = decimal_string(*n as u64);
                s.append(d.as_str());
                s.append("; expected 1");
                s
            },
            ManifestError::MissingContext => String::from_str(
                "context must identify the exact thread, channel, account, or form",
            ),
            ManifestError::MissingRecipient => String::from_str(
                "email manifest requires at least one recipient in `to`",
            ),
            ManifestError::MissingSubject => String::from_str(
                "email manifest requires a non-empty subject",
            ),
            ManifestError::InvalidEmailAddress(a) => concat("invalid email address: ", a.as_str()),
            ManifestError::Unreadable(m) => m.clone(),
            ManifestError::EmptyBody => String::from_str("body file is empty"),
            ManifestError::UnresolvedPlaceholders(l) => {
                let j = join(l, ", ");
                concat("unresolved placeholder(s): ", j.as_str())
            },
            ManifestError::DuplicateAttachment(p) => concat("duplicate attachment: ", p.as_str()),
            ManifestError::NotANonEmptyFile(p) => concat(
                "attachment is not a non-empty file: ",
                p.as_str(),
            ),
            ManifestError::AttachmentHashMismatch(p, m, a) => {
                let mut s = String::from_str("attachment sha256 mismatch for ");
                s.append(p.as_str());
                s.append(": manifest ");
                s.append(m.as_str());
                s.append(", actual ");
                s.append(a.as_str());
                s
            },
            ManifestError::NotSealed => String::from_str(
                "manifest is not sealed by an explicit user approval",
            ),
            ManifestError::ApprovedContentChanged(sealed, current) => {
                let mut s = String::from_str("approved content changed: sealed ");
                s.append(sealed.as_str());
                s.append(", current ");
                s.append(current.as_str());
                s
            },
            ManifestError::MissingApprovalFields => String::from_str(
                "--by and --approval-note must be non-empty",
            ),
            ManifestError::InvalidApprovalTime => String::from_str("--approved-at must be RFC 3339"),
            ManifestError::ManifestExists(p) => concat(p.as_str(), " already exists"),
        }
    }
}

} // verus!
