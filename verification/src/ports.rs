//! Values that cross the boundary to providers, renderers and push sources.

use vstd::prelude::*;

use crate::model::RepoRef;
use crate::time::Duration;

verus! {

/// Why a provider call failed.
#[derive(Debug, Clone, PartialEq)]
pub enum ProviderError {
    /// The token is missing, invalid, or expired.
    Auth,
    /// The resource does not exist; the provider's message.
    NotFound(String),
    /// The provider asks to wait this long before the next request.
    RateLimited { retry_after: Duration },
    /// The request did not reach the provider or its answer did not arrive.
    Transport(String),
    /// The provider's answer could not be read.
    Parse(String),
    /// Any other failure.
    Other(String),
}

/// Log bytes from an offset on, and the offset to ask from next time.
#[derive(Debug, Clone, PartialEq, Eq)]
pub struct LogChunk {
    pub bytes: Vec<u8>,
    pub next_offset: u64,
}

/// A renderer could not draw.
#[derive(Debug, Clone, PartialEq, Eq)]
pub struct RenderError(pub String);

/// A push source's hint that a repository, and perhaps a run, changed.
#[derive(Debug, Clone, PartialEq, Eq)]
pub struct RefreshHint {
    pub repo: RepoRef,
    pub run_id: Option<u64>,
}

/// The unseen part of a whole log: the bytes from `offset` on (none where `offset` is past
/// the end), and the log's length as the next offset.
pub fn log_suffix(all: Vec<u8>, offset: u64) -> (chunk: LogChunk)
    ensures
        chunk.bytes@ == all@.skip(if offset <= all@.len() { offset as int } else { all@.len() as int }),
        chunk.next_offset == all@.len(),
{
    let len = all.len();
    let start: usize = if (offset as u128) < (len as u128) { offset as usize } else { len };
    let ghost whole = all@;
    let mut all = all;
    let tail = all.split_off(start);
    assert(tail@ =~= whole.skip(start as int));
    LogChunk { bytes: tail, next_offset: len as u64 }
}

} // verus!
