use vstd::prelude::*;

use crate::bytes::bytes_equal;
use crate::error::DomainErrorCode;

verus! {

/// A stored analytics artifact as its metadata records it.
#[derive(Clone, Debug)]
pub struct StoredArtifact {
    pub content_hash: Vec<u8>,
    pub blob_size: u64,
}

/// A recalculation encoded again: its content hash, size and bytes.
#[derive(Clone, Debug)]
pub struct ReplayEncoding {
    pub content_hash: Vec<u8>,
    pub size: u64,
    pub bytes: Vec<u8>,
}

/// A replay reproduces a stored artifact when the decoded stored result equals the
/// recalculated one and encoding the recalculation gives back the artifact's content hash, its
/// size and the very payload bytes that were read.
pub open spec fn replay_reproduces(
    results_equal: bool,
    artifact: StoredArtifact,
    payload: Seq<u8>,
    replay: ReplayEncoding,
) -> bool {
    &&& results_equal
    &&& replay.content_hash@ == artifact.content_hash@
    &&& replay.size == artifact.blob_size
    &&& replay.bytes@ == payload
}

/// Decides a replay of a bond analytics, carry-roll or futures delivery artifact: every drift
/// between what was stored and what the recalculation encodes to is a content hash mismatch.
pub fn check_replay(
    results_equal: bool,
    artifact: &StoredArtifact,
    payload: &[u8],
    replay: &ReplayEncoding,
) -> (result: Result<(), DomainErrorCode>)
    ensures
        result is Ok <==> replay_reproduces(results_equal, *artifact, payload@, *replay),
        result matches Err(code) ==> code == DomainErrorCode::ContentHashMismatch,
{
    if !results_equal {
        return Err(DomainErrorCode::ContentHashMismatch);
    }
    if !bytes_equal(&replay.content_hash, &artifact.content_hash) || replay.size != artifact.blob_size
        || !bytes_equal(&replay.bytes, payload) {
        return Err(DomainErrorCode::ContentHashMismatch);
    }
    Ok(())
}

} // verus!
