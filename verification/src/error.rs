use vstd::prelude::*;

verus! {

/// The error taxonomy of the pipeline.
///
/// `ManifestFetchError` is fatal to a stream: the retry budget for manifest
/// polling was exhausted.  `FetchError` is the failure of one segment
/// download; it is never retried by the fetcher itself.  `NotFound` is a
/// cache miss on read.  `MergeError` is a container-join or ordering failure
/// in the merge engine.  `InvalidUrl` is a playlist address that could not be
/// parsed at construction time.
#[derive(Clone, Copy, Debug, PartialEq, Eq, Structural)]
pub enum IoriError {
    ManifestFetchError,
    FetchError,
    NotFound,
    MergeError,
    InvalidUrl,
}

pub type IoriResult<T> = Result<T, IoriError>;

} // verus!
