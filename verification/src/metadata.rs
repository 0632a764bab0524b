//! What the filesystem said about a file's timestamps, and what it means.

use vstd::prelude::*;

use crate::calendar::Timestamp;

verus! {

/// The class of a failed filesystem operation.
#[derive(Clone, Copy, Debug, PartialEq, Eq, Structural)]
pub enum FailureKind {
    NotFound,
    PermissionDenied,
    /// The platform or filesystem does not offer the operation.
    Unsupported,
    /// A failure without a class of its own.
    Other,
    /// Any class not listed above.
    Unclassified,
}

/// A failed filesystem operation: its class and the system's words for it.
#[derive(Debug, PartialEq, Eq)]
pub struct IoFailure {
    pub kind: FailureKind,
    pub detail: String,
}

impl Clone for IoFailure {
    fn clone(&self) -> (copy: Self)
        ensures
            copy == *self,
    {
        IoFailure { kind: self.kind, detail: self.detail.clone() }
    }
}

/// The timestamps of a file, each as far as the filesystem told it.
#[derive(Debug, PartialEq, Eq)]
pub struct Metadata {
    /// When the file was created.
    pub created: Result<Timestamp, IoFailure>,
    /// When the file was last modified.
    pub modified: Result<Timestamp, IoFailure>,
}

/// Why a file's timestamp could not be had.
#[derive(Debug, PartialEq, Eq)]
pub enum MetadataError {
    /// The platform or filesystem keeps no creation time.
    CreationTimeUnavailable,
    /// Reading the metadata failed for another reason.
    IoError(IoFailure),
}

impl Clone for MetadataError {
    fn clone(&self) -> (copy: Self)
        ensures
            copy == *self,
    {
        match self {
            MetadataError::CreationTimeUnavailable => MetadataError::CreationTimeUnavailable,
            MetadataError::IoError(failure) => MetadataError::IoError(failure.clone()),
        }
    }
}

impl From<IoFailure> for MetadataError {
    fn from(failure: IoFailure) -> (error: Self) {
        MetadataError::IoError(failure)
    }
}

impl vstd::std_specs::convert::FromSpecImpl<IoFailure> for MetadataError {
    open spec fn obeys_from_spec() -> bool {
        true
    }

    open spec fn from_spec(failure: IoFailure) -> Self {
        MetadataError::IoError(failure)
    }
}

impl MetadataError {
    /// The text shown to the user for this error.
    pub open spec fn message_text(self) -> Seq<char> {
        match self {
            MetadataError::CreationTimeUnavailable => "Creation time is unavailable"@,
            MetadataError::IoError(failure) => "IO error: "@ + failure.detail@,
        }
    }

    /// The text shown to the user for this error.
    pub fn message(&self) -> (text: String)
        ensures
            text@ == self.message_text(),
    {
        match self {
            MetadataError::CreationTimeUnavailable => String::from_str(
                "Creation time is unavailable",
            ),
            MetadataError::IoError(failure) => {
                let mut text = String::from_str("IO error: ");
                text.append(failure.detail.as_str());
                text
            },
        }
    }

    /// The failure underneath this error, if it wraps one.
    pub fn source(&self) -> (cause: Option<&IoFailure>)
        ensures
            match *self {
                MetadataError::CreationTimeUnavailable => cause is None,
                MetadataError::IoError(failure) => cause == Some(&failure),
            },
    {
        match self {
            MetadataError::IoError(failure) => Some(failure),
            _ => None,
        }
    }
}

/// Whether a failure to read the creation time says that there is none to
/// read. `Unsupported` says so outright; `Other` is what a system reports
/// that has no class for it.
pub open spec fn tells_unavailable(kind: FailureKind) -> bool {
    kind == FailureKind::Unsupported || kind == FailureKind::Other
}

/// The creation time in `metadata`, or why there is none: a creation time
/// that the platform does not keep is told apart from a failed read.
pub open spec fn creation_time(metadata: Metadata) -> Result<Timestamp, MetadataError> {
    match metadata.created {
        Ok(time) => Ok(time),
        Err(failure) => if tells_unavailable(failure.kind) {
            Err(MetadataError::CreationTimeUnavailable)
        } else {
            Err(MetadataError::IoError(failure))
        },
    }
}

/// The modification time in `metadata`, or the failure to read it.
pub open spec fn modification_time(metadata: Metadata) -> Result<Timestamp, MetadataError> {
    match metadata.modified {
        Ok(time) => Ok(time),
        Err(failure) => Err(MetadataError::IoError(failure)),
    }
}

/// The creation time in `metadata`, or why there is none.
pub fn get_creation_time(metadata: &Metadata) -> (time: Result<Timestamp, MetadataError>)
    ensures
        time == creation_time(*metadata),
{
    match &metadata.created {
        Ok(time) => Ok(*time),
        Err(failure) => match failure.kind {
            FailureKind::Unsupported | FailureKind::Other => Err(
                MetadataError::CreationTimeUnavailable,
            ),
            _ => Err(MetadataError::from(failure.clone())),
        },
    }
}

/// The modification time in `metadata`, or the failure to read it.
pub fn get_modification_time(metadata: &Metadata) -> (time: Result<Timestamp, MetadataError>)
    ensures
        time == modification_time(*metadata),
{
    match &metadata.modified {
        Ok(time) => Ok(*time),
        Err(failure) => Err(MetadataError::from(failure.clone())),
    }
}

} // verus!
