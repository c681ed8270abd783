use ficant_application::error::ApplicationErrorCategory;
use ficant_application::primitives::{LineageRef, OwnerRef, VersionRef};
use ficant_application::universe::{
    UniverseSnapshot, UniverseSnapshotIntent, canonical_members, universe_manifest_bytes,
    verify_universe_snapshot_manifest,
};
use sha2::Digest;

fn id(suffix: char) -> String {
    format!("01ARZ3NDEKTSV4RRFFQ69G5FA{suffix}")
}

fn digest(bytes: &[u8]) -> Vec<u8> {
    sha2::Sha256::digest(bytes).to_vec()
}

#[test]
fn universe_manifest_round_trip_returns_actor_and_rejects_trailing_bytes() {
    let owner = OwnerRef::new(id('T'), id('P'));
    let members = vec![VersionRef::new(id('K'), 7)];
    let lineage = vec![LineageRef::new(id('J'), Some(3), Some(digest(b"lineage")))];
    let actor = id('A');
    let intent = UniverseSnapshotIntent::new(
        id('H'),
        owner.clone(),
        members.clone(),
        digest(b"filter"),
        lineage.clone(),
        actor.clone(),
        "universe-manifest-round-trip".to_owned(),
    )
    .unwrap();
    let manifest = universe_manifest_bytes(&intent);
    let snapshot = UniverseSnapshot {
        id: intent.snapshot_id().clone(),
        owner: owner.clone(),
        instrument_versions: members.clone(),
        filter_digest: intent.filter_digest().to_vec(),
        content_hash: digest(&manifest),
        lineage: lineage.clone(),
    };
    assert_eq!(
        verify_universe_snapshot_manifest(&snapshot, &manifest).unwrap(),
        actor
    );

    let mut trailing = manifest;
    trailing.push(0);
    let tampered = UniverseSnapshot {
        id: snapshot.id.clone(),
        owner,
        instrument_versions: members,
        filter_digest: snapshot.filter_digest.clone(),
        content_hash: digest(&trailing),
        lineage,
    };
    assert_eq!(
        verify_universe_snapshot_manifest(&tampered, &trailing)
            .unwrap_err()
            .category(),
        ApplicationErrorCategory::ValidationFailed
    );
    assert_eq!(snapshot.lineage.len(), 1);
    assert_eq!(
        snapshot.content_hash,
        digest(&trailing[..trailing.len() - 1])
    );
}

#[test]
fn manifest_with_foreign_hash_is_a_hash_mismatch() {
    let owner = OwnerRef::new(id('T'), id('P'));
    let members = vec![VersionRef::new(id('K'), 7)];
    let lineage = vec![LineageRef::new(id('J'), None, None)];
    let intent = UniverseSnapshotIntent::new(
        id('H'),
        owner.clone(),
        members.clone(),
        digest(b"filter"),
        lineage.clone(),
        id('A'),
        "key".to_owned(),
    )
    .unwrap();
    let manifest = universe_manifest_bytes(&intent);
    let snapshot = UniverseSnapshot {
        id: id('H'),
        owner,
        instrument_versions: members,
        filter_digest: digest(b"filter"),
        content_hash: digest(b"something else"),
        lineage,
    };
    assert_eq!(
        verify_universe_snapshot_manifest(&snapshot, &manifest)
            .unwrap_err()
            .category(),
        ApplicationErrorCategory::HashMismatch
    );
}

#[test]
fn intent_requires_members_and_lineage() {
    let owner = OwnerRef::new(id('T'), id('P'));
    let no_members = UniverseSnapshotIntent::new(
        id('H'),
        owner.clone(),
        Vec::new(),
        digest(b"filter"),
        vec![LineageRef::new(id('J'), None, None)],
        id('A'),
        "key".to_owned(),
    );
    assert_eq!(
        no_members.unwrap_err().category(),
        ApplicationErrorCategory::ValidationFailed
    );
    let no_lineage = UniverseSnapshotIntent::new(
        id('H'),
        owner,
        vec![VersionRef::new(id('K'), 1)],
        digest(b"filter"),
        Vec::new(),
        id('A'),
        "key".to_owned(),
    );
    assert_eq!(
        no_lineage.unwrap_err().category(),
        ApplicationErrorCategory::ValidationFailed
    );
}

#[test]
fn canonical_members_are_sorted_and_deduplicated() {
    let sorted = canonical_members(vec![
        VersionRef::new(id('K'), 7),
        VersionRef::new(id('B'), 2),
        VersionRef::new(id('K'), 7),
        VersionRef::new(id('B'), 1),
    ]);
    assert_eq!(
        sorted,
        vec![
            VersionRef::new(id('B'), 1),
            VersionRef::new(id('B'), 2),
            VersionRef::new(id('K'), 7),
        ]
    );
}
