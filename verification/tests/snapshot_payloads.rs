use sha2::Digest;
use ficant_application::error::ApplicationErrorCategory;
use ficant_application::snapshot_payloads::{DataSnapshotFacts, DataSnapshotPayloads, require_payload};

fn digest(bytes: &[u8]) -> Vec<u8> {
    sha2::Sha256::digest(bytes).to_vec()
}

fn snapshot() -> DataSnapshotFacts {
    DataSnapshotFacts { snapshot_id: "01J0000000000000000000000A".to_owned(), content_hash: digest(b"parquet"), manifest_hash: digest(b"manifest") }
}

#[test]
fn payloads_must_digest_to_their_hashes() {
    assert!(require_payload(b"parquet", &digest(b"parquet")).is_ok());
    assert_eq!(require_payload(b"", &digest(b"")).unwrap_err().category(), ApplicationErrorCategory::ValidationFailed);
    assert_eq!(require_payload(b"other", &digest(b"parquet")).unwrap_err().category(), ApplicationErrorCategory::HashMismatch);
}

#[test]
fn data_snapshot_payloads_bind_exact_bytes() {
    let payloads = DataSnapshotPayloads::<()>::new(snapshot(), b"parquet".to_vec(), b"manifest".to_vec(), "key".to_owned()).unwrap();
    assert_eq!(payloads.parquet(), b"parquet");
    assert_eq!(payloads.manifest(), b"manifest");
    assert_eq!(payloads.idempotency_key(), "key");
    assert!(payloads.import_evidence().is_none());
    let authorized = DataSnapshotPayloads::new_authorized(snapshot(), b"parquet".to_vec(), b"manifest".to_vec(), "key".to_owned(), 7u32).unwrap();
    assert_eq!(authorized.import_evidence(), Some(&7));

    let swapped = DataSnapshotPayloads::<()>::new(snapshot(), b"manifest".to_vec(), b"parquet".to_vec(), "key".to_owned()).unwrap_err();
    assert_eq!(swapped.category(), ApplicationErrorCategory::HashMismatch);
    let empty = DataSnapshotPayloads::<()>::new(snapshot(), b"parquet".to_vec(), Vec::new(), "key".to_owned()).unwrap_err();
    assert_eq!(empty.category(), ApplicationErrorCategory::ValidationFailed);
    let same = DataSnapshotFacts { snapshot_id: "s".to_owned(), content_hash: digest(b"x"), manifest_hash: digest(b"x") };
    let collision = DataSnapshotPayloads::<()>::new(same, b"x".to_vec(), b"x".to_vec(), "key".to_owned()).unwrap_err();
    assert_eq!(collision.category(), ApplicationErrorCategory::ValidationFailed);
}
