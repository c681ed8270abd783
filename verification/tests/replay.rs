use ficant_application::error::DomainErrorCode;
use ficant_application::replay::{ReplayEncoding, StoredArtifact, check_replay};

fn artifact() -> StoredArtifact {
    StoredArtifact { content_hash: vec![0xab; 32], blob_size: 4 }
}

fn encoding(hash: u8, size: u64, bytes: &[u8]) -> ReplayEncoding {
    ReplayEncoding { content_hash: vec![hash; 32], size, bytes: bytes.to_vec() }
}

#[test]
fn replay_accepts_an_exact_reproduction() {
    assert_eq!(check_replay(true, &artifact(), &[1, 2, 3, 4], &encoding(0xab, 4, &[1, 2, 3, 4])), Ok(()));
}

#[test]
fn replay_refuses_every_drift_as_a_content_hash_mismatch() {
    let mismatch = Err(DomainErrorCode::ContentHashMismatch);
    assert_eq!(check_replay(false, &artifact(), &[1, 2, 3, 4], &encoding(0xab, 4, &[1, 2, 3, 4])), mismatch);
    assert_eq!(check_replay(true, &artifact(), &[1, 2, 3, 4], &encoding(0xac, 4, &[1, 2, 3, 4])), mismatch);
    assert_eq!(check_replay(true, &artifact(), &[1, 2, 3, 4], &encoding(0xab, 5, &[1, 2, 3, 4])), mismatch);
    assert_eq!(check_replay(true, &artifact(), &[1, 2, 3, 4], &encoding(0xab, 4, &[1, 2, 3, 5])), mismatch);
}
