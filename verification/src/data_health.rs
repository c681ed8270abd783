use vstd::prelude::*;

use crate::bytes::{append_token, be_u32, be_u64, bytes_equal, push_be_u32, push_be_u64, text_bytes, token};
use crate::digest::{content_digest, sha256};
use crate::error::{
    ApplicationError, ApplicationErrorCategory, ApplicationResult, failure, lineage, not_found,
    validation,
};
use crate::hex::{encode_hex, hex_text};
use crate::primitives::{Instant, MarketTime, OwnerRef, VersionRef, instant_before, instant_less};

verus! {

/// A request for the data health of one position snapshot, optionally with the price evidence
/// of one data snapshot, as of an evaluation time.
#[derive(Clone, Debug, PartialEq, Eq)]
pub struct DataHealthQuery {
    subject_ref: VersionRef,
    position_snapshot_id: String,
    data_snapshot_id: Option<String>,
    evaluated_at: MarketTime,
}

impl DataHealthQuery {
    pub closed spec fn spec_subject_ref(&self) -> VersionRef {
        self.subject_ref
    }

    pub closed spec fn spec_position_snapshot_id(&self) -> Seq<char> {
        self.position_snapshot_id@
    }

    pub closed spec fn spec_data_snapshot_id(&self) -> Option<Seq<char>> {
        match self.data_snapshot_id {
            Some(id) => Some(id@),
            None => None,
        }
    }

    pub closed spec fn spec_evaluated_at(&self) -> MarketTime {
        self.evaluated_at
    }

    pub fn new(
        subject_ref: VersionRef,
        position_snapshot_id: String,
        data_snapshot_id: Option<String>,
        evaluated_at: MarketTime,
    ) -> (query: Self)
        ensures
            query.spec_subject_ref() == subject_ref,
            query.spec_position_snapshot_id() == position_snapshot_id@,
            query.spec_data_snapshot_id() == (match data_snapshot_id {
                Some(id) => Some(id@),
                None => None::<Seq<char>>,
            }),
            query.spec_evaluated_at() == evaluated_at,
    {
        DataHealthQuery { subject_ref, position_snapshot_id, data_snapshot_id, evaluated_at }
    }

    pub fn subject_ref(&self) -> (subject_ref: &VersionRef)
        ensures
            *subject_ref == self.spec_subject_ref(),
    {
        &self.subject_ref
    }

    pub fn position_snapshot_id(&self) -> (id: &String)
        ensures
            id@ == self.spec_position_snapshot_id(),
    {
        &self.position_snapshot_id
    }

    pub fn data_snapshot_id(&self) -> (id: Option<&String>)
        ensures
            match id {
                Some(text) => self.spec_data_snapshot_id() == Some(text@),
                None => self.spec_data_snapshot_id() is None,
            },
    {
        match &self.data_snapshot_id {
            Some(id) => Some(id),
            None => None,
        }
    }

    pub fn evaluated_at(&self) -> (evaluated_at: &MarketTime)
        ensures
            *evaluated_at == self.spec_evaluated_at(),
    {
        &self.evaluated_at
    }
}

/// The tag that ends every data-health trace input.
pub open spec fn profile_tag() -> Seq<u8> {
    text_bytes("platform-resolved-profile"@)
}

/// The bytes a data-health trace is derived from: the subject, the position snapshot, the
/// data snapshot when there is one, the evaluation instant and the profile tag, each as a
/// length-prefixed field.
pub open spec fn trace_bytes(
    subject: (Seq<char>, u64),
    position_snapshot_id: Seq<char>,
    data_snapshot_id: Option<Seq<char>>,
    evaluated_at: Instant,
) -> Seq<u8> {
    token(text_bytes(subject.0)) + token(be_u64(subject.1)) + token(
        text_bytes(position_snapshot_id),
    ) + match data_snapshot_id {
        Some(id) => token(text_bytes(id)),
        None => Seq::empty(),
    } + token(be_u64(evaluated_at.seconds as u64)) + token(be_u32(evaluated_at.nanos)) + token(
        profile_tag(),
    )
}

/// The safe trace token of a query: the first sixteen digest bytes of its trace input, in
/// lowercase hexadecimal.
pub open spec fn trace_token_of(query: DataHealthQuery) -> Seq<char> {
    hex_text(
        sha256(
            trace_bytes(
                query.spec_subject_ref()@,
                query.spec_position_snapshot_id(),
                query.spec_data_snapshot_id(),
                query.spec_evaluated_at().instant,
            ),
        ).subrange(0, 16),
    )
}

/// The safe trace token under which a data-health read is reported.
pub fn trace_token(query: &DataHealthQuery) -> (token_text: String)
    ensures
        token_text@ == trace_token_of(*query),
{
    let mut bytes: Vec<u8> = Vec::new();
    append_token(&mut bytes, query.subject_ref.id.as_str().as_bytes());
    let mut version: Vec<u8> = Vec::new();
    push_be_u64(&mut version, query.subject_ref.version);
    append_token(&mut bytes, version.as_slice());
    append_token(&mut bytes, query.position_snapshot_id.as_str().as_bytes());
    match &query.data_snapshot_id {
        Some(id) => append_token(&mut bytes, id.as_str().as_bytes()),
        None => {},
    }
    let mut seconds: Vec<u8> = Vec::new();
    push_be_u64(&mut seconds, query.evaluated_at.instant.seconds as u64);
    append_token(&mut bytes, seconds.as_slice());
    let mut nanos: Vec<u8> = Vec::new();
    push_be_u32(&mut nanos, query.evaluated_at.instant.nanos);
    append_token(&mut bytes, nanos.as_slice());
    append_token(&mut bytes, "platform-resolved-profile".as_bytes());
    assert(bytes@ =~= trace_bytes(
        query.spec_subject_ref()@,
        query.spec_position_snapshot_id(),
        query.spec_data_snapshot_id(),
        query.spec_evaluated_at().instant,
    ));
    let digest = content_digest(bytes.as_slice());
    let head = vstd::slice::slice_subrange(digest.as_slice(), 0, 16);
    encode_hex(head)
}

/// A published threshold profile's canonical bytes must be non-empty and reproduce its
/// declared content hash.
pub fn check_profile_payload(canonical_bytes: &[u8], content_hash: &[u8]) -> (result:
    ApplicationResult<()>)
    ensures
        result is Ok <==> canonical_bytes@.len() > 0 && sha256(canonical_bytes@) == content_hash@,
        result matches Err(e) ==> e == failure(ApplicationErrorCategory::ValidationFailed),
{
    if canonical_bytes.len() == 0 {
        return Err(validation());
    }
    let digest = content_digest(canonical_bytes);
    if !bytes_equal(digest.as_slice(), content_hash) {
        return Err(validation());
    }
    Ok(())
}

/// The outcome of reading a position snapshot for a query: absent is `NotFound`, then the
/// scope's authorization failure, then incomplete lineage unless it is the requested snapshot
/// of the requested subject and visible at the evaluation instant.
pub open spec fn position_snapshot_outcome(
    found: bool,
    authorization: ApplicationResult<()>,
    snapshot_id: Seq<char>,
    snapshot_subject: (Seq<char>, u64),
    snapshot_visible_at: Instant,
    query: DataHealthQuery,
) -> ApplicationResult<()> {
    if !found {
        Err(failure(ApplicationErrorCategory::NotFound))
    } else if authorization is Err {
        authorization
    } else if snapshot_id != query.spec_position_snapshot_id() || snapshot_subject
        != query.spec_subject_ref()@ || instant_less(
        query.spec_evaluated_at().instant,
        snapshot_visible_at,
    ) {
        Err(failure(ApplicationErrorCategory::LineageIncomplete))
    } else {
        Ok(())
    }
}

/// A data-health report accepts a position snapshot only when it was found and authorized, is
/// the snapshot the query names, belongs to the queried subject — the same identifier and
/// version — and was visible at the evaluation instant.
pub proof fn law_position_snapshot_of_the_queried_subject(
    found: bool,
    authorization: ApplicationResult<()>,
    snapshot_id: Seq<char>,
    snapshot_subject: (Seq<char>, u64),
    snapshot_visible_at: Instant,
    query: DataHealthQuery,
)
    ensures
        position_snapshot_outcome(found, authorization, snapshot_id, snapshot_subject, snapshot_visible_at, query)
            is Ok ==> {
            &&& found
            &&& authorization is Ok
            &&& snapshot_id == query.spec_position_snapshot_id()
            &&& snapshot_subject.0 == query.spec_subject_ref().id@
            &&& snapshot_subject.1 == query.spec_subject_ref().version
            &&& !instant_less(query.spec_evaluated_at().instant, snapshot_visible_at)
        },
        !found ==> position_snapshot_outcome(found, authorization, snapshot_id, snapshot_subject, snapshot_visible_at, query)
            == Err::<(), ApplicationError>(failure(ApplicationErrorCategory::NotFound)),
{
}

/// Checks the position snapshot a data-health query read.
pub fn check_position_snapshot(
    found: bool,
    authorization: ApplicationResult<()>,
    snapshot_id: &String,
    snapshot_subject: &VersionRef,
    snapshot_visible_at: Instant,
    query: &DataHealthQuery,
) -> (result: ApplicationResult<()>)
    ensures
        result == position_snapshot_outcome(
            found,
            authorization,
            snapshot_id@,
            snapshot_subject@,
            snapshot_visible_at,
            *query,
        ),
        result is Ok ==> {
            &&& found
            &&& authorization is Ok
            &&& snapshot_id@ == query.spec_position_snapshot_id()
            &&& snapshot_subject.id@ == query.spec_subject_ref().id@
            &&& snapshot_subject.version == query.spec_subject_ref().version
            &&& !instant_less(query.spec_evaluated_at().instant, snapshot_visible_at)
        },
        !found ==> result == Err::<(), ApplicationError>(failure(ApplicationErrorCategory::NotFound)),
        found && authorization is Err ==> result == authorization,
{
    proof {
        law_position_snapshot_of_the_queried_subject(found, authorization, snapshot_id@, snapshot_subject@, snapshot_visible_at, *query);
    }
    if !found {
        return Err(not_found());
    }
    authorization?;
    if !snapshot_id.eq(&query.position_snapshot_id) || !snapshot_subject.same_as(&query.subject_ref)
        || instant_before(query.evaluated_at.instant, snapshot_visible_at) {
        return Err(lineage());
    }
    Ok(())
}

/// The active threshold profile belongs to the snapshot's owner, is visible, and is in effect
/// at the evaluation instant.
pub open spec fn profile_window_valid(
    profile_owner: OwnerRef,
    snapshot_owner: OwnerRef,
    visible_at: Instant,
    effective_from: Instant,
    effective_to: Instant,
    evaluated_at: Instant,
) -> bool {
    &&& profile_owner.tenant_id@ == snapshot_owner.tenant_id@
    &&& profile_owner.owner_id@ == snapshot_owner.owner_id@
    &&& !instant_less(evaluated_at, visible_at)
    &&& !instant_less(evaluated_at, effective_from)
    &&& instant_less(evaluated_at, effective_to)
}

/// Checks the threshold profile a data-health evaluation uses.
pub fn check_profile_window(
    profile_owner: &OwnerRef,
    snapshot_owner: &OwnerRef,
    visible_at: Instant,
    effective_from: Instant,
    effective_to: Instant,
    evaluated_at: Instant,
) -> (result: ApplicationResult<()>)
    ensures
        result is Ok <==> profile_window_valid(
            *profile_owner,
            *snapshot_owner,
            visible_at,
            effective_from,
            effective_to,
            evaluated_at,
        ),
        result matches Err(e) ==> e == failure(ApplicationErrorCategory::LineageIncomplete),
{
    if !profile_owner.same_as(snapshot_owner) || instant_before(evaluated_at, visible_at)
        || instant_before(evaluated_at, effective_from) || !instant_before(evaluated_at, effective_to) {
        return Err(lineage());
    }
    Ok(())
}

/// Checks the data snapshot behind price evidence: after the scope's authorization, it must be
/// the requested snapshot, visible and as of no later than the evaluation instant.
pub fn check_price_snapshot(
    authorization: ApplicationResult<()>,
    snapshot_id: &String,
    requested_id: &String,
    visible_at: Instant,
    as_of: Instant,
    evaluated_at: Instant,
) -> (result: ApplicationResult<()>)
    ensures
        authorization is Err ==> result == authorization,
        authorization is Ok ==> (result is Ok <==> (snapshot_id@ == requested_id@ && !instant_less(
            evaluated_at,
            visible_at,
        ) && !instant_less(evaluated_at, as_of))),
        authorization is Ok && result is Err ==> result == Err::<(), ApplicationError>(
            failure(ApplicationErrorCategory::LineageIncomplete),
        ),
{
    authorization?;
    if !snapshot_id.eq(requested_id) || instant_before(evaluated_at, visible_at) || instant_before(
        evaluated_at,
        as_of,
    ) {
        return Err(lineage());
    }
    Ok(())
}

/// Checks the data source a data snapshot names: absent is `NotFound`, then the scope's
/// authorization failure, then incomplete lineage unless it is the named version of a source
/// of the snapshot's owner.
pub fn check_price_source(
    found: bool,
    authorization: ApplicationResult<()>,
    source_owner: &OwnerRef,
    snapshot_owner: &OwnerRef,
    source_id: &String,
    source_version: u64,
    source_ref: &VersionRef,
) -> (result: ApplicationResult<()>)
    ensures
        !found ==> result == Err::<(), ApplicationError>(failure(ApplicationErrorCategory::NotFound)),
        found && authorization is Err ==> result == authorization,
        found && authorization is Ok ==> (result is Ok <==> (source_owner.tenant_id@
            == snapshot_owner.tenant_id@ && source_owner.owner_id@ == snapshot_owner.owner_id@
            && source_id@ == source_ref.id@ && source_version == source_ref.version)),
        found && authorization is Ok && result is Err ==> result == Err::<(), ApplicationError>(
            failure(ApplicationErrorCategory::LineageIncomplete),
        ),
{
    if !found {
        return Err(not_found());
    }
    authorization?;
    if !source_owner.same_as(snapshot_owner) || !source_id.eq(&source_ref.id) || source_version
        != source_ref.version {
        return Err(lineage());
    }
    Ok(())
}

/// Publication of a platform data-health threshold profile through the verified-blob path.
#[derive(Debug)]
pub struct PublishDataHealthThresholdProfile<BlobStore, Snapshots> {
    blob_store: BlobStore,
    snapshots: Snapshots,
}

impl<BlobStore, Snapshots> PublishDataHealthThresholdProfile<BlobStore, Snapshots> {
    pub closed spec fn spec_blob_store(&self) -> BlobStore {
        self.blob_store
    }

    pub closed spec fn spec_snapshots(&self) -> Snapshots {
        self.snapshots
    }

    pub fn new(blob_store: BlobStore, snapshots: Snapshots) -> (use_case: Self)
        ensures
            use_case.spec_blob_store() == blob_store,
            use_case.spec_snapshots() == snapshots,
    {
        PublishDataHealthThresholdProfile { blob_store, snapshots }
    }

    pub fn blob_store(&self) -> (blob_store: &BlobStore)
        ensures
            *blob_store == self.spec_blob_store(),
    {
        &self.blob_store
    }

    pub fn snapshots(&self) -> (snapshots: &Snapshots)
        ensures
            *snapshots == self.spec_snapshots(),
    {
        &self.snapshots
    }
}

/// The read-only sources of a data-health report.
#[derive(Debug)]
pub struct DataHealthSources<Positions, Metadata, Blobs, Events, Decoder, DataSources, Profiles> {
    pub positions: Positions,
    pub snapshot_metadata: Metadata,
    pub blob_reader: Blobs,
    pub integrity_events: Events,
    pub decoder: Decoder,
    pub data_sources: DataSources,
    pub threshold_profiles: Profiles,
}

/// Stateless, read-only data-health orchestration over its seven sources.
#[derive(Debug)]
pub struct GetDataHealthReport<Positions, Metadata, Blobs, Events, Decoder, DataSources, Profiles> {
    sources: DataHealthSources<Positions, Metadata, Blobs, Events, Decoder, DataSources, Profiles>,
}

impl<Positions, Metadata, Blobs, Events, Decoder, DataSources, Profiles> GetDataHealthReport<
    Positions,
    Metadata,
    Blobs,
    Events,
    Decoder,
    DataSources,
    Profiles,
> {
    pub closed spec fn spec_sources(&self) -> DataHealthSources<
        Positions,
        Metadata,
        Blobs,
        Events,
        Decoder,
        DataSources,
        Profiles,
    > {
        self.sources
    }

    pub fn new(
        positions: Positions,
        snapshot_metadata: Metadata,
        blob_reader: Blobs,
        integrity_events: Events,
        decoder: Decoder,
        data_sources: DataSources,
        threshold_profiles: Profiles,
    ) -> (use_case: Self)
        ensures
            use_case.spec_sources() == (DataHealthSources {
                positions,
                snapshot_metadata,
                blob_reader,
                integrity_events,
                decoder,
                data_sources,
                threshold_profiles,
            }),
    {
        GetDataHealthReport {
            sources: DataHealthSources {
                positions,
                snapshot_metadata,
                blob_reader,
                integrity_events,
                decoder,
                data_sources,
                threshold_profiles,
            },
        }
    }

    pub fn sources(&self) -> (sources: &DataHealthSources<
        Positions,
        Metadata,
        Blobs,
        Events,
        Decoder,
        DataSources,
        Profiles,
    >)
        ensures
            *sources == self.spec_sources(),
    {
        &self.sources
    }
}

/// A threshold profile is usable only when it belongs to the snapshot's owner, was visible at
/// the evaluation instant, and is in effect there — it expires strictly after it.
pub proof fn law_profile_window_fields(
    profile_owner: OwnerRef,
    snapshot_owner: OwnerRef,
    visible_at: Instant,
    effective_from: Instant,
    effective_to: Instant,
    evaluated_at: Instant,
)
    ensures
        profile_window_valid(profile_owner, snapshot_owner, visible_at, effective_from, effective_to, evaluated_at) ==> {
            &&& profile_owner.tenant_id@ == snapshot_owner.tenant_id@
            &&& profile_owner.owner_id@ == snapshot_owner.owner_id@
            &&& !instant_less(evaluated_at, visible_at)
            &&& !instant_less(evaluated_at, effective_from)
            &&& instant_less(evaluated_at, effective_to)
        },
{
}

} // verus!
