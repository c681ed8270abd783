use vstd::prelude::*;

use crate::bytes::bytes_equal;
use crate::digest::{content_digest, sha256};
use crate::error::{ApplicationError, ApplicationErrorCategory, ApplicationResult, failure, integrity, validation};

verus! {

/// What binding payloads reads of a data snapshot: its identity and the content hashes its
/// Parquet and manifest payloads must have.
#[derive(Clone, Debug)]
pub struct DataSnapshotFacts {
    pub snapshot_id: String,
    pub content_hash: Vec<u8>,
    pub manifest_hash: Vec<u8>,
}

/// The outcome of checking one payload against the content hash it must have: empty bytes are
/// invalid, other bytes must digest to the hash.
pub open spec fn payload_outcome(bytes: Seq<u8>, expected: Seq<u8>) -> ApplicationResult<()> {
    if bytes.len() == 0 {
        Err(failure(ApplicationErrorCategory::ValidationFailed))
    } else if sha256(bytes) != expected {
        Err(failure(ApplicationErrorCategory::HashMismatch))
    } else {
        Ok(())
    }
}

/// Checks that a payload is non-empty and has exactly the expected content hash.
pub fn require_payload(bytes: &[u8], expected: &[u8]) -> (result: ApplicationResult<()>)
    ensures
        result == payload_outcome(bytes@, expected@),
{
    if bytes.len() == 0 {
        return Err(validation());
    }
    let digest = content_digest(bytes);
    if !bytes_equal(digest.as_slice(), expected) {
        return Err(integrity());
    }
    Ok(())
}

/// The outcome of binding payloads to a snapshot: the Parquet payload is checked, then the
/// manifest payload, and the two hashes must differ.
pub open spec fn payloads_outcome(snapshot: DataSnapshotFacts, parquet: Seq<u8>, manifest: Seq<u8>) -> ApplicationResult<()> {
    if payload_outcome(parquet, snapshot.content_hash@) is Err {
        payload_outcome(parquet, snapshot.content_hash@)
    } else if payload_outcome(manifest, snapshot.manifest_hash@) is Err {
        payload_outcome(manifest, snapshot.manifest_hash@)
    } else if snapshot.content_hash@ == snapshot.manifest_hash@ {
        Err(failure(ApplicationErrorCategory::ValidationFailed))
    } else {
        Ok(())
    }
}

/// The exact Parquet and manifest bytes of a data snapshot, bound before any I/O.
#[derive(Clone, Debug)]
pub struct DataSnapshotPayloads<Evidence> {
    snapshot: DataSnapshotFacts,
    parquet: Vec<u8>,
    manifest: Vec<u8>,
    idempotency_key: String,
    import_evidence: Option<Evidence>,
}

impl<Evidence> DataSnapshotPayloads<Evidence> {
    pub closed spec fn spec_snapshot(&self) -> DataSnapshotFacts {
        self.snapshot
    }

    pub closed spec fn spec_parquet(&self) -> Seq<u8> {
        self.parquet@
    }

    pub closed spec fn spec_manifest(&self) -> Seq<u8> {
        self.manifest@
    }

    pub closed spec fn spec_idempotency_key(&self) -> Seq<char> {
        self.idempotency_key@
    }

    pub closed spec fn spec_import_evidence(&self) -> Option<Evidence> {
        self.import_evidence
    }

    /// Binds exact Parquet and manifest bytes to their snapshot: a validation error for an empty
    /// payload or when both payloads claim the same hash, a hash mismatch when a payload does not
    /// digest to its hash.
    pub fn new(snapshot: DataSnapshotFacts, parquet: Vec<u8>, manifest: Vec<u8>, idempotency_key: String) -> (result:
        Result<Self, ApplicationError>)
        ensures
            match result {
                Ok(payloads) => payloads_outcome(snapshot, parquet@, manifest@) is Ok && payloads.spec_snapshot()
                    == snapshot && payloads.spec_parquet() == parquet@ && payloads.spec_manifest() == manifest@
                    && payloads.spec_idempotency_key() == idempotency_key@ && payloads.spec_import_evidence()
                    is None,
                Err(e) => payloads_outcome(snapshot, parquet@, manifest@) == Err::<(), _>(e),
            },
    {
        require_payload(parquet.as_slice(), snapshot.content_hash.as_slice())?;
        require_payload(manifest.as_slice(), snapshot.manifest_hash.as_slice())?;
        if bytes_equal(snapshot.content_hash.as_slice(), snapshot.manifest_hash.as_slice()) {
            return Err(validation());
        }
        Ok(DataSnapshotPayloads { snapshot, parquet, manifest, idempotency_key, import_evidence: None })
    }

    /// Binds the payloads as `new` does, together with the evidence of the decoded canonical
    /// manifest that authorized the import.
    pub fn new_authorized(
        snapshot: DataSnapshotFacts,
        parquet: Vec<u8>,
        manifest: Vec<u8>,
        idempotency_key: String,
        import_evidence: Evidence,
    ) -> (result: Result<Self, ApplicationError>)
        ensures
            match result {
                Ok(payloads) => payloads_outcome(snapshot, parquet@, manifest@) is Ok && payloads.spec_snapshot()
                    == snapshot && payloads.spec_parquet() == parquet@ && payloads.spec_manifest() == manifest@
                    && payloads.spec_idempotency_key() == idempotency_key@ && payloads.spec_import_evidence()
                    == Some(import_evidence),
                Err(e) => payloads_outcome(snapshot, parquet@, manifest@) == Err::<(), _>(e),
            },
    {
        let mut payloads = Self::new(snapshot, parquet, manifest, idempotency_key)?;
        payloads.import_evidence = Some(import_evidence);
        Ok(payloads)
    }

    pub fn snapshot(&self) -> (snapshot: &DataSnapshotFacts)
        ensures
            *snapshot == self.spec_snapshot(),
    {
        &self.snapshot
    }

    pub fn parquet(&self) -> (parquet: &[u8])
        ensures
            parquet@ == self.spec_parquet(),
    {
        self.parquet.as_slice()
    }

    pub fn manifest(&self) -> (manifest: &[u8])
        ensures
            manifest@ == self.spec_manifest(),
    {
        self.manifest.as_slice()
    }

    pub fn idempotency_key(&self) -> (key: &String)
        ensures
            key@ == self.spec_idempotency_key(),
    {
        &self.idempotency_key
    }

    pub fn import_evidence(&self) -> (evidence: Option<&Evidence>)
        ensures
            match evidence {
                Some(e) => self.spec_import_evidence() == Some(*e),
                None => self.spec_import_evidence() is None,
            },
    {
        self.import_evidence.as_ref()
    }
}

} // verus!
