use ficant_application::data_health::{
    DataHealthQuery, GetDataHealthReport, PublishDataHealthThresholdProfile, check_position_snapshot,
    check_price_snapshot, check_price_source, check_profile_payload, check_profile_window,
    trace_token,
};
use ficant_application::error::{ApplicationError, ApplicationErrorCategory};
use ficant_application::primitives::{Instant, LocalDate, MarketTime, OwnerRef, VersionRef};
use sha2::Digest;

fn time(seconds: i64, nanos: u32) -> MarketTime {
    MarketTime {
        instant: Instant { seconds, nanos },
        market_timezone: "Asia/Shanghai".to_owned(),
        local_trading_date: LocalDate { year: 2025, month: 1, day: 2 },
    }
}

fn query(data: Option<&str>) -> DataHealthQuery {
    DataHealthQuery::new(
        VersionRef::new("subject".to_owned(), 3),
        "position-snapshot".to_owned(),
        data.map(str::to_owned),
        time(1_700_000_000, 5),
    )
}

fn field(bytes: &[u8]) -> Vec<u8> {
    let mut out = (bytes.len() as u64).to_be_bytes().to_vec();
    out.extend_from_slice(bytes);
    out
}

#[test]
fn trace_token_hashes_the_canonical_query_fields() {
    for data in [None, Some("data-snapshot")] {
        let mut bytes = Vec::new();
        bytes.extend(field(b"subject"));
        bytes.extend(field(&3u64.to_be_bytes()));
        bytes.extend(field(b"position-snapshot"));
        if let Some(id) = data {
            bytes.extend(field(id.as_bytes()));
        }
        bytes.extend(field(&1_700_000_000i64.to_be_bytes()));
        bytes.extend(field(&5u32.to_be_bytes()));
        bytes.extend(field(b"platform-resolved-profile"));
        let digest = sha2::Sha256::digest(&bytes);
        let expected: String = digest[..16].iter().map(|b| format!("{b:02x}")).collect();
        assert_eq!(trace_token(&query(data)), expected);
    }
    assert_ne!(trace_token(&query(None)), trace_token(&query(Some("x"))));
}

#[test]
fn query_exposes_its_parts() {
    let q = query(Some("d"));
    assert_eq!(q.subject_ref(), &VersionRef::new("subject".to_owned(), 3));
    assert_eq!(q.position_snapshot_id(), "position-snapshot");
    assert_eq!(q.data_snapshot_id().map(String::as_str), Some("d"));
    assert_eq!(q.evaluated_at().instant.seconds, 1_700_000_000);
}

#[test]
fn profile_payload_must_reproduce_its_hash() {
    let bytes = b"profile".to_vec();
    let hash = sha2::Sha256::digest(&bytes).to_vec();
    assert!(check_profile_payload(&bytes, &hash).is_ok());
    assert_eq!(check_profile_payload(&bytes, &[0; 32]).unwrap_err().category(), ApplicationErrorCategory::ValidationFailed);
    assert!(check_profile_payload(&[], &sha2::Sha256::digest(b"").to_vec()).is_err());
}

#[test]
fn snapshot_reads_fail_closed_on_drift() {
    let q = query(None);
    let subject = VersionRef::new("subject".to_owned(), 3);
    let at = |s| Instant { seconds: s, nanos: 0 };
    assert!(check_position_snapshot(true, Ok(()), &"position-snapshot".to_owned(), &subject, at(1), &q).is_ok());
    assert_eq!(check_position_snapshot(false, Ok(()), &"position-snapshot".to_owned(), &subject, at(1), &q).unwrap_err().category(), ApplicationErrorCategory::NotFound);
    assert_eq!(check_position_snapshot(true, Ok(()), &"other".to_owned(), &subject, at(1), &q).unwrap_err().category(), ApplicationErrorCategory::LineageIncomplete);
    assert!(check_position_snapshot(true, Ok(()), &"position-snapshot".to_owned(), &subject, at(1_800_000_000), &q).is_err());
    let denied = ApplicationError::new(ApplicationErrorCategory::Forbidden, false);
    assert_eq!(check_position_snapshot(true, Err(denied), &"position-snapshot".to_owned(), &subject, at(1), &q).unwrap_err(), denied);

    let owner = OwnerRef::new("t".to_owned(), "o".to_owned());
    assert!(check_profile_window(&owner, &owner, at(1), at(1), at(10), at(5)).is_ok());
    assert!(check_profile_window(&owner, &owner, at(1), at(1), at(5), at(5)).is_err());
    assert!(check_profile_window(&owner, &owner, at(6), at(1), at(10), at(5)).is_err());

    assert!(check_price_snapshot(Ok(()), &"d".to_owned(), &"d".to_owned(), at(1), at(1), at(2)).is_ok());
    assert!(check_price_snapshot(Ok(()), &"d".to_owned(), &"e".to_owned(), at(1), at(1), at(2)).is_err());
    assert!(check_price_snapshot(Ok(()), &"d".to_owned(), &"d".to_owned(), at(1), at(3), at(2)).is_err());

    let source = VersionRef::new("src".to_owned(), 2);
    assert!(check_price_source(true, Ok(()), &owner, &owner, &"src".to_owned(), 2, &source).is_ok());
    assert_eq!(check_price_source(false, Ok(()), &owner, &owner, &"src".to_owned(), 2, &source).unwrap_err().category(), ApplicationErrorCategory::NotFound);
    assert_eq!(check_price_source(true, Ok(()), &owner, &owner, &"src".to_owned(), 1, &source).unwrap_err().category(), ApplicationErrorCategory::LineageIncomplete);
}

#[test]
fn data_health_use_cases_hold_their_sources() {
    let publish = PublishDataHealthThresholdProfile::new("blobs", "snapshots");
    assert_eq!((*publish.blob_store(), *publish.snapshots()), ("blobs", "snapshots"));
    let report = GetDataHealthReport::new(1, 2, 3, 4, 5, 6, 7);
    assert_eq!(report.sources().threshold_profiles, 7);
    assert_eq!(report.sources().positions, 1);
}
