use dorg::calendar::Timestamp;
use dorg::metadata::{
    get_creation_time, get_modification_time, FailureKind, IoFailure, Metadata,
};
use dorg::MetadataError;

fn failure(kind: FailureKind, detail: &str) -> IoFailure {
    IoFailure { kind, detail: detail.to_string() }
}

const CREATED: Timestamp = Timestamp { secs: 1655251200, nanos: 5 };
const MODIFIED: Timestamp = Timestamp { secs: 1699142400, nanos: 7 };

#[test]
fn each_getter_gives_its_own_timestamp() {
    let metadata = Metadata { created: Ok(CREATED), modified: Ok(MODIFIED) };
    assert_eq!(get_creation_time(&metadata), Ok(CREATED));
    assert_eq!(get_modification_time(&metadata), Ok(MODIFIED));
}

#[test]
fn an_unsupported_creation_time_is_unavailable() {
    for kind in [FailureKind::Unsupported, FailureKind::Other] {
        let metadata = Metadata { created: Err(failure(kind, "no birth time")), modified: Ok(MODIFIED) };
        assert_eq!(get_creation_time(&metadata), Err(MetadataError::CreationTimeUnavailable));
        assert_eq!(get_modification_time(&metadata), Ok(MODIFIED));
    }
}

#[test]
fn another_failure_of_the_creation_time_is_an_io_error() {
    for kind in [FailureKind::NotFound, FailureKind::PermissionDenied, FailureKind::Unclassified] {
        let metadata = Metadata { created: Err(failure(kind, "denied")), modified: Ok(MODIFIED) };
        assert_eq!(
            get_creation_time(&metadata),
            Err(MetadataError::IoError(failure(kind, "denied")))
        );
    }
}

#[test]
fn a_failure_of_the_modification_time_is_always_an_io_error() {
    for kind in [
        FailureKind::NotFound,
        FailureKind::PermissionDenied,
        FailureKind::Unsupported,
        FailureKind::Other,
        FailureKind::Unclassified,
    ] {
        let metadata = Metadata { created: Ok(CREATED), modified: Err(failure(kind, "gone")) };
        assert_eq!(
            get_modification_time(&metadata),
            Err(MetadataError::IoError(failure(kind, "gone")))
        );
        assert_eq!(get_creation_time(&metadata), Ok(CREATED));
    }
}

#[test]
fn metadata_error_messages() {
    assert_eq!(MetadataError::CreationTimeUnavailable.message(), "Creation time is unavailable");
    assert_eq!(
        MetadataError::IoError(failure(FailureKind::PermissionDenied, "permission denied")).message(),
        "IO error: permission denied"
    );
    assert_eq!(MetadataError::IoError(failure(FailureKind::Other, "")).message(), "IO error: ");
}

#[test]
fn metadata_error_source_is_the_wrapped_failure() {
    assert_eq!(MetadataError::CreationTimeUnavailable.source(), None);
    let cause = failure(FailureKind::NotFound, "no such file");
    assert_eq!(MetadataError::IoError(cause.clone()).source(), Some(&cause));
}

#[test]
fn metadata_error_from_a_failure_wraps_it() {
    let cause = failure(FailureKind::Unsupported, "unsupported");
    assert_eq!(MetadataError::from(cause.clone()), MetadataError::IoError(cause.clone()));
    let converted: MetadataError = cause.clone().into();
    assert_eq!(converted, MetadataError::IoError(cause));
}

#[test]
fn a_clone_equals_what_it_was_made_from() {
    let cause = failure(FailureKind::PermissionDenied, "denied");
    assert_eq!(cause.clone(), cause);
    let error = MetadataError::IoError(cause);
    assert_eq!(error.clone(), error);
    assert_eq!(MetadataError::CreationTimeUnavailable.clone(), MetadataError::CreationTimeUnavailable);
}
