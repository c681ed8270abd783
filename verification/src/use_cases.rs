use vstd::prelude::*;

use crate::error::{
    ApplicationError, ApplicationErrorCategory, ApplicationResult, failure, forbidden, lineage,
    not_found, validation,
};
use crate::futures::{CtdCandidate, is_ctd_index, select_ctd};
use crate::primitives::{MarketTime, OwnerRef, VersionRef, instant_before, instant_less};
use crate::text::contains_text;
use crate::bytes::bytes_equal;

verus! {

/// Registration and exact lookup of typed, immutable data source versions.
#[derive(Debug)]
pub struct DataSourceUseCase<Repository> {
    repository: Repository,
}

impl<Repository> DataSourceUseCase<Repository> {
    pub closed spec fn spec_repository(&self) -> Repository {
        self.repository
    }

    pub fn new(repository: Repository) -> (use_case: Self)
        ensures
            use_case.spec_repository() == repository,
    {
        DataSourceUseCase { repository }
    }

    pub fn repository(&self) -> (repository: &Repository)
        ensures
            *repository == self.spec_repository(),
    {
        &self.repository
    }
}

/// A legacy data source definition without a price source type is refused.
pub fn check_data_source_registration(price_source_typed: bool) -> (result: ApplicationResult<()>)
    ensures
        result is Ok <==> price_source_typed,
        result matches Err(e) ==> e == failure(ApplicationErrorCategory::ValidationFailed),
{
    if !price_source_typed {
        return Err(validation());
    }
    Ok(())
}

/// The outcome of an exact data source read: absent is `NotFound`, then the scope's own
/// authorization failure, then validation failure unless the stored value is the requested
/// identifier and version and carries a price source type.
pub open spec fn exact_data_source_outcome(
    found: bool,
    authorization: ApplicationResult<()>,
    value_id: Seq<char>,
    value_version: u64,
    typed: bool,
    reference: (Seq<char>, u64),
) -> ApplicationResult<()> {
    if !found {
        Err(failure(ApplicationErrorCategory::NotFound))
    } else if authorization is Err {
        authorization
    } else if value_id != reference.0 || value_version != reference.1 || !typed {
        Err(failure(ApplicationErrorCategory::ValidationFailed))
    } else {
        Ok(())
    }
}

/// Decides an exact data source read from what the repository returned.
pub fn check_exact_data_source(
    found: bool,
    authorization: ApplicationResult<()>,
    value_id: &String,
    value_version: u64,
    typed: bool,
    reference: &VersionRef,
) -> (result: ApplicationResult<()>)
    ensures
        result == exact_data_source_outcome(
            found,
            authorization,
            value_id@,
            value_version,
            typed,
            reference@,
        ),
{
    if !found {
        return Err(not_found());
    }
    authorization?;
    if !value_id.eq(&reference.id) || value_version != reference.version || !typed {
        return Err(validation());
    }
    Ok(())
}

/// Publication and verified reads of formal outputs.
#[derive(Debug)]
pub struct FormalOutputUseCase<Repository> {
    repository: Repository,
}

impl<Repository> FormalOutputUseCase<Repository> {
    pub closed spec fn spec_repository(&self) -> Repository {
        self.repository
    }

    pub fn new(repository: Repository) -> (use_case: Self)
        ensures
            use_case.spec_repository() == repository,
    {
        FormalOutputUseCase { repository }
    }

    pub fn repository(&self) -> (repository: &Repository)
        ensures
            *repository == self.spec_repository(),
    {
        &self.repository
    }
}

/// Factor definitions, curve nodes and their bindings to exact targets.
#[derive(Debug)]
pub struct FactorTopologyUseCase<Repository> {
    repository: Repository,
}

impl<Repository> FactorTopologyUseCase<Repository> {
    pub closed spec fn spec_repository(&self) -> Repository {
        self.repository
    }

    pub fn new(repository: Repository) -> (use_case: Self)
        ensures
            use_case.spec_repository() == repository,
    {
        FactorTopologyUseCase { repository }
    }

    pub fn repository(&self) -> (repository: &Repository)
        ensures
            *repository == self.spec_repository(),
    {
        &self.repository
    }
}

/// A factor can only be bound to a target that exists.
pub fn require_exact_target(exists: bool) -> (result: ApplicationResult<()>)
    ensures
        result is Ok <==> exists,
        result matches Err(e) ==> e == failure(ApplicationErrorCategory::NotFound),
{
    if !exists {
        return Err(not_found());
    }
    Ok(())
}

/// An empty topology read is `NotFound`, never an empty success.
pub fn require_non_empty<T>(values: Vec<T>) -> (result: ApplicationResult<Vec<T>>)
    ensures
        values@.len() == 0 ==> result == Err::<Vec<T>, ApplicationError>(
            failure(ApplicationErrorCategory::NotFound),
        ),
        values@.len() > 0 ==> (result matches Ok(v) && v@ == values@),
{
    if values.len() == 0 {
        return Err(not_found());
    }
    Ok(values)
}

/// Atomic submission of a verified research graph run.
#[derive(Debug)]
pub struct Phase4Submission<Repository> {
    repository: Repository,
}

impl<Repository> Phase4Submission<Repository> {
    pub closed spec fn spec_repository(&self) -> Repository {
        self.repository
    }

    pub fn new(repository: Repository) -> (use_case: Self)
        ensures
            use_case.spec_repository() == repository,
    {
        Phase4Submission { repository }
    }

    pub fn repository(&self) -> (repository: &Repository)
        ensures
            *repository == self.spec_repository(),
    {
        &self.repository
    }
}

/// A graph run is submitted only when the graph belongs to the submitting owner and the
/// execution identity names the same run and the same graph digest.
pub open spec fn submission_lineage_complete(
    graph_owner: OwnerRef,
    owner: OwnerRef,
    execution_run_id: Seq<char>,
    run_id: Seq<char>,
    execution_graph_digest: Seq<u8>,
    graph_digest: Seq<u8>,
) -> bool {
    &&& graph_owner.tenant_id@ == owner.tenant_id@
    &&& graph_owner.owner_id@ == owner.owner_id@
    &&& execution_run_id == run_id
    &&& execution_graph_digest == graph_digest
}

/// Checks the lineage of a graph submission before anything is stored.
pub fn check_submission_lineage(
    graph_owner: &OwnerRef,
    owner: &OwnerRef,
    execution_run_id: &String,
    run_id: &String,
    execution_graph_digest: &[u8],
    graph_digest: &[u8],
) -> (result: ApplicationResult<()>)
    ensures
        result is Ok <==> submission_lineage_complete(
            *graph_owner,
            *owner,
            execution_run_id@,
            run_id@,
            execution_graph_digest@,
            graph_digest@,
        ),
        result matches Err(e) ==> e == failure(ApplicationErrorCategory::LineageIncomplete),
{
    if !graph_owner.same_as(owner) || !execution_run_id.eq(run_id) || !bytes_equal(
        execution_graph_digest,
        graph_digest,
    ) {
        return Err(lineage());
    }
    Ok(())
}

/// Exact-input-bound hedge calculation.
#[derive(Debug)]
pub struct CalculateFuturesHedge<Engine> {
    engine: Engine,
}

impl<Engine> CalculateFuturesHedge<Engine> {
    pub closed spec fn spec_engine(&self) -> Engine {
        self.engine
    }

    pub fn new(engine: Engine) -> (use_case: Self)
        ensures
            use_case.spec_engine() == engine,
    {
        CalculateFuturesHedge { engine }
    }

    pub fn engine(&self) -> (engine: &Engine)
        ensures
            *engine == self.spec_engine(),
    {
        &self.engine
    }
}

/// Delivery basket calculation with cheapest-to-deliver selection.
#[derive(Debug)]
pub struct CalculateFuturesDeliveryBasket<Engine> {
    engine: Engine,
}

impl<Engine> CalculateFuturesDeliveryBasket<Engine> {
    pub closed spec fn spec_engine(&self) -> Engine {
        self.engine
    }

    pub fn new(engine: Engine) -> (use_case: Self)
        ensures
            use_case.spec_engine() == engine,
    {
        CalculateFuturesDeliveryBasket { engine }
    }

    pub fn engine(&self) -> (engine: &Engine)
        ensures
            *engine == self.spec_engine(),
    {
        &self.engine
    }
}

/// The cheapest-to-deliver position of a calculated basket; an empty basket is invalid.
pub fn basket_ctd(candidates: &[CtdCandidate]) -> (result: ApplicationResult<usize>)
    ensures
        candidates@.len() == 0 ==> result == Err::<usize, ApplicationError>(
            failure(ApplicationErrorCategory::ValidationFailed),
        ),
        candidates@.len() > 0 ==> (result matches Ok(index) && is_ctd_index(
            candidates@,
            index as int,
        )),
{
    if candidates.len() == 0 {
        return Err(validation());
    }
    Ok(select_ctd(candidates))
}

/// Administrator authorizations of data sources and their resolution for imports.
#[derive(Debug)]
pub struct GovernedInputUseCase<Authorizations, DataSources> {
    authorizations: Authorizations,
    data_sources: DataSources,
}

impl<Authorizations, DataSources> GovernedInputUseCase<Authorizations, DataSources> {
    pub closed spec fn spec_authorizations(&self) -> Authorizations {
        self.authorizations
    }

    pub closed spec fn spec_data_sources(&self) -> DataSources {
        self.data_sources
    }

    pub fn new(authorizations: Authorizations, data_sources: DataSources) -> (use_case: Self)
        ensures
            use_case.spec_authorizations() == authorizations,
            use_case.spec_data_sources() == data_sources,
    {
        GovernedInputUseCase { authorizations, data_sources }
    }

    pub fn authorizations(&self) -> (authorizations: &Authorizations)
        ensures
            *authorizations == self.spec_authorizations(),
    {
        &self.authorizations
    }

    pub fn data_sources(&self) -> (data_sources: &DataSources)
        ensures
            *data_sources == self.spec_data_sources(),
    {
        &self.data_sources
    }
}

/// An authorization is published only for the exact source it names: the same owner, content
/// hash, canonical schema and schema hash.
pub open spec fn authorization_source_exact(
    source_owner: OwnerRef,
    expected_owner: OwnerRef,
    source_hash: Seq<u8>,
    expected_hash: Seq<u8>,
    source_schema_id: Seq<char>,
    expected_schema_id: Seq<char>,
    source_schema_hash: Seq<u8>,
    expected_schema_hash: Seq<u8>,
) -> bool {
    &&& source_owner.tenant_id@ == expected_owner.tenant_id@
    &&& source_owner.owner_id@ == expected_owner.owner_id@
    &&& source_hash == expected_hash
    &&& source_schema_id == expected_schema_id
    &&& source_schema_hash == expected_schema_hash
}

/// Checks that the resolved source is the one an authorization names.
pub fn check_authorization_source(
    source_owner: &OwnerRef,
    expected_owner: &OwnerRef,
    source_hash: &[u8],
    expected_hash: &[u8],
    source_schema_id: &String,
    expected_schema_id: &String,
    source_schema_hash: &[u8],
    expected_schema_hash: &[u8],
) -> (result: ApplicationResult<()>)
    ensures
        result is Ok <==> authorization_source_exact(
            *source_owner,
            *expected_owner,
            source_hash@,
            expected_hash@,
            source_schema_id@,
            expected_schema_id@,
            source_schema_hash@,
            expected_schema_hash@,
        ),
        result matches Err(e) ==> e == failure(ApplicationErrorCategory::ValidationFailed),
{
    if !source_owner.same_as(expected_owner) || !bytes_equal(source_hash, expected_hash)
        || !source_schema_id.eq(expected_schema_id) || !bytes_equal(
        source_schema_hash,
        expected_schema_hash,
    ) {
        return Err(validation());
    }
    Ok(())
}

/// Administrator reads of foundation changes.
#[derive(Debug)]
pub struct FoundationChangeUseCase<Repository> {
    repository: Repository,
}

impl<Repository> FoundationChangeUseCase<Repository> {
    pub closed spec fn spec_repository(&self) -> Repository {
        self.repository
    }

    pub fn new(repository: Repository) -> (use_case: Self)
        ensures
            use_case.spec_repository() == repository,
    {
        FoundationChangeUseCase { repository }
    }

    pub fn repository(&self) -> (repository: &Repository)
        ensures
            *repository == self.spec_repository(),
    {
        &self.repository
    }
}

/// The scope that reading foundation changes needs.
pub open spec fn governance_read_scope() -> Seq<char> {
    "governance:read"@
}

/// Governance reads need the platform administrator role, then the governance read scope.
pub fn authorize_governance_read(role_check: ApplicationResult<()>, granted_scopes: &[String]) -> (result:
    ApplicationResult<()>)
    ensures
        role_check is Err ==> result == role_check,
        role_check is Ok ==> (result is Ok <==> exists|j: int|
            0 <= j < granted_scopes@.len() && #[trigger] granted_scopes@[j]@
                == governance_read_scope()),
        role_check is Ok && result is Err ==> result == Err::<(), ApplicationError>(
            failure(ApplicationErrorCategory::Forbidden),
        ),
{
    role_check?;
    let required = "governance:read".to_owned();
    if !contains_text(granted_scopes, &required) {
        return Err(forbidden());
    }
    Ok(())
}

/// Publication of a canonical Universe snapshot.
#[derive(Debug)]
pub struct PublishUniverseSnapshot<BlobStore, Snapshots> {
    blob_store: BlobStore,
    snapshots: Snapshots,
}

impl<BlobStore, Snapshots> PublishUniverseSnapshot<BlobStore, Snapshots> {
    pub closed spec fn spec_blob_store(&self) -> BlobStore {
        self.blob_store
    }

    pub closed spec fn spec_snapshots(&self) -> Snapshots {
        self.snapshots
    }

    pub fn new(blob_store: BlobStore, snapshots: Snapshots) -> (use_case: Self)
        ensures
            use_case.spec_blob_store() == blob_store,
            use_case.spec_snapshots() == snapshots,
    {
        PublishUniverseSnapshot { blob_store, snapshots }
    }

    pub fn blob_store(&self) -> (blob_store: &BlobStore)
        ensures
            *blob_store == self.spec_blob_store(),
    {
        &self.blob_store
    }

    pub fn snapshots(&self) -> (snapshots: &Snapshots)
        ensures
            *snapshots == self.spec_snapshots(),
    {
        &self.snapshots
    }
}

/// The one-transaction research business loop.
#[derive(Debug)]
pub struct Phase1BusinessLoop<Clock, IdGenerator, BlobStore, TransactionRunner> {
    clock: Clock,
    id_generator: IdGenerator,
    blob_store: BlobStore,
    transaction_runner: TransactionRunner,
}

impl<Clock, IdGenerator, BlobStore, TransactionRunner> Phase1BusinessLoop<
    Clock,
    IdGenerator,
    BlobStore,
    TransactionRunner,
> {
    pub closed spec fn spec_parts(&self) -> (Clock, IdGenerator, BlobStore, TransactionRunner) {
        (self.clock, self.id_generator, self.blob_store, self.transaction_runner)
    }

    pub fn new(
        clock: Clock,
        id_generator: IdGenerator,
        blob_store: BlobStore,
        transaction_runner: TransactionRunner,
    ) -> (use_case: Self)
        ensures
            use_case.spec_parts() == (clock, id_generator, blob_store, transaction_runner),
    {
        Phase1BusinessLoop { clock, id_generator, blob_store, transaction_runner }
    }

    pub fn clock(&self) -> (clock: &Clock)
        ensures
            *clock == self.spec_parts().0,
    {
        &self.clock
    }

    pub fn id_generator(&self) -> (id_generator: &IdGenerator)
        ensures
            *id_generator == self.spec_parts().1,
    {
        &self.id_generator
    }

    pub fn blob_store(&self) -> (blob_store: &BlobStore)
        ensures
            *blob_store == self.spec_parts().2,
    {
        &self.blob_store
    }

    pub fn transaction_runner(&self) -> (transaction_runner: &TransactionRunner)
        ensures
            *transaction_runner == self.spec_parts().3,
    {
        &self.transaction_runner
    }
}

/// A snapshot bound to the staged proof that must verify it.
#[derive(Debug)]
pub struct StagedSnapshot<Snapshot, Proof> {
    snapshot: Snapshot,
    staged_proof: Proof,
}

impl<Snapshot, Proof> StagedSnapshot<Snapshot, Proof> {
    pub closed spec fn spec_snapshot(&self) -> Snapshot {
        self.snapshot
    }

    pub closed spec fn spec_proof(&self) -> Proof {
        self.staged_proof
    }

    /// Binds a snapshot to its staged proof when the proof's own check of the snapshot
    /// passed, and fails with that check's error otherwise.
    pub fn from_proof(snapshot: Snapshot, staged_proof: Proof, proof_check: ApplicationResult<()>) -> (result:
        ApplicationResult<Self>)
        ensures
            proof_check matches Err(e) ==> (result matches Err(r) && r == e),
            proof_check is Ok ==> (result matches Ok(staged) && staged.spec_snapshot() == snapshot
                && staged.spec_proof() == staged_proof),
    {
        proof_check?;
        Ok(StagedSnapshot { snapshot, staged_proof })
    }

    pub fn snapshot(&self) -> (snapshot: &Snapshot)
        ensures
            *snapshot == self.spec_snapshot(),
    {
        &self.snapshot
    }

    pub fn staged_proof(&self) -> (staged_proof: &Proof)
        ensures
            *staged_proof == self.spec_proof(),
    {
        &self.staged_proof
    }
}

/// Catalog listing, context resolution and cursors over the portfolio catalog.
#[derive(Debug)]
pub struct ListPortfolioCatalog<Repository, CursorCodec> {
    repository: Repository,
    cursor_codec: CursorCodec,
}

impl<Repository, CursorCodec> ListPortfolioCatalog<Repository, CursorCodec> {
    pub closed spec fn spec_repository(&self) -> Repository {
        self.repository
    }

    pub closed spec fn spec_cursor_codec(&self) -> CursorCodec {
        self.cursor_codec
    }

    pub fn new(repository: Repository, cursor_codec: CursorCodec) -> (use_case: Self)
        ensures
            use_case.spec_repository() == repository,
            use_case.spec_cursor_codec() == cursor_codec,
    {
        ListPortfolioCatalog { repository, cursor_codec }
    }

    pub fn repository(&self) -> (repository: &Repository)
        ensures
            *repository == self.spec_repository(),
    {
        &self.repository
    }

    pub fn cursor_codec(&self) -> (cursor_codec: &CursorCodec)
        ensures
            *cursor_codec == self.spec_cursor_codec(),
    {
        &self.cursor_codec
    }
}

/// Failures of the analytics engine.
#[derive(Clone, Copy, Debug, PartialEq, Eq, Structural)]
pub enum AnalyticsError {
    InvalidInput,
    AbiMismatch,
    BufferTooSmall,
    NoBracket,
    NotConverged,
    NonFinite,
    CalendarCoverageMissing,
    Internal,
}

/// An engine failure is a validation failure, except an internal one, which is a state
/// conflict; neither is retryable.
pub open spec fn analytics_error_of(error: AnalyticsError) -> ApplicationError {
    match error {
        AnalyticsError::Internal => failure(ApplicationErrorCategory::StateConflict),
        _ => failure(ApplicationErrorCategory::ValidationFailed),
    }
}

/// The application error of an engine failure.
pub fn map_analytics_error(error: AnalyticsError) -> (mapped: ApplicationError)
    ensures
        mapped == analytics_error_of(error),
{
    match error {
        AnalyticsError::InvalidInput
        | AnalyticsError::AbiMismatch
        | AnalyticsError::BufferTooSmall
        | AnalyticsError::NoBracket
        | AnalyticsError::NotConverged
        | AnalyticsError::NonFinite
        | AnalyticsError::CalendarCoverageMissing => validation(),
        AnalyticsError::Internal => crate::error::state_conflict(),
    }
}

/// An administrator authorization of a data source for one import interface and mapping.
#[derive(Clone, Debug)]
pub struct DataSourceAuthorizationFacts {
    pub owner: OwnerRef,
    pub data_source: VersionRef,
    pub import_interface: String,
    pub mapping_id: String,
    pub mapping_hash: Vec<u8>,
    pub active: bool,
    pub effective_from: MarketTime,
    pub effective_to: MarketTime,
}

/// How the authorization repository resolved an exact authorization reference.
#[derive(Clone, Debug)]
pub enum DataSourceAuthorizationResolution {
    Authorized(DataSourceAuthorizationFacts),
    OwnerMismatch { data_source: VersionRef },
}

/// What an authorized import does next: stop as not authorized (naming the data source when
/// one is known), or read the authorized data source.
#[derive(Clone, Debug)]
pub enum ImportAuthorizationDecision {
    NotAuthorized(Option<VersionRef>),
    ReadSource(VersionRef),
}

/// An authorization covers an import: the scope may read its owner, and it is active for the
/// same interface and exact mapping at the import instant.
pub open spec fn authorization_covers(
    authorization: DataSourceAuthorizationFacts,
    owner_authorized: bool,
    import_interface: Seq<char>,
    mapping_id: Seq<char>,
    mapping_hash: Seq<u8>,
    at: MarketTime,
) -> bool {
    &&& owner_authorized
    &&& authorization.import_interface@ == import_interface
    &&& authorization.mapping_id@ == mapping_id
    &&& authorization.mapping_hash@ == mapping_hash
    &&& authorization.active
    &&& !instant_less(at.instant, authorization.effective_from.instant)
    &&& instant_less(at.instant, authorization.effective_to.instant)
}

/// Some granted scope is `scope`.
pub open spec fn scope_granted(granted: Seq<String>, scope: Seq<char>) -> bool {
    exists|j: int| 0 <= j < granted.len() && #[trigger] granted[j]@ == scope
}

/// Evidence that an import passed its access check. Only `check_import_access` makes one, and
/// the authorization decision takes one, so no repository answer is decided on before the role
/// and the import scope were checked.
#[derive(Debug)]
pub struct ImportAccess {
    checked: (),
}

/// The access check of an import, made before any repository is read: the researcher role,
/// then the import scope (forbidden without it).
pub fn check_import_access(role_check: ApplicationResult<()>, granted_scopes: &[String], import_scope: &String) -> (result:
    ApplicationResult<ImportAccess>)
    ensures
        role_check matches Err(e) ==> result matches Err(r) && r == e,
        role_check is Ok ==> (result is Ok <==> scope_granted(granted_scopes@, import_scope@)),
        role_check is Ok ==> (result matches Err(r) ==> r == failure(ApplicationErrorCategory::Forbidden)),
{
    if let Err(e) = role_check {
        return Err(e);
    }
    if !contains_text(granted_scopes, import_scope) {
        return Err(forbidden());
    }
    Ok(ImportAccess { checked: () })
}

/// Decides an import authorization once access is granted and the authorization repository has
/// answered: a missing authorization, one of another owner, or one that does not cover the
/// import leaves the import not authorized; otherwise the authorized data source is read next.
pub fn check_import_authorization(
    access: &ImportAccess,
    resolution: Option<DataSourceAuthorizationResolution>,
    owner_check: ApplicationResult<()>,
    import_interface: &String,
    mapping_id: &String,
    mapping_hash: &[u8],
    at: &MarketTime,
) -> (decision: ImportAuthorizationDecision)
    ensures
        match resolution {
            None => decision == ImportAuthorizationDecision::NotAuthorized(None),
            Some(DataSourceAuthorizationResolution::OwnerMismatch { data_source }) => decision
                == ImportAuthorizationDecision::NotAuthorized(Some(data_source)),
            Some(DataSourceAuthorizationResolution::Authorized(authorization)) => if authorization_covers(
                authorization,
                owner_check is Ok,
                import_interface@,
                mapping_id@,
                mapping_hash@,
                *at,
            ) {
                decision == ImportAuthorizationDecision::ReadSource(authorization.data_source)
            } else {
                decision == ImportAuthorizationDecision::NotAuthorized(Some(authorization.data_source))
            },
        },
{
    match resolution {
        None => ImportAuthorizationDecision::NotAuthorized(None),
        Some(DataSourceAuthorizationResolution::OwnerMismatch { data_source }) => {
            ImportAuthorizationDecision::NotAuthorized(Some(data_source))
        },
        Some(DataSourceAuthorizationResolution::Authorized(authorization)) => {
            if owner_check.is_err() || !authorization.import_interface.eq(import_interface)
                || !authorization.mapping_id.eq(mapping_id) || !bytes_equal(
                authorization.mapping_hash.as_slice(),
                mapping_hash,
            ) || !authorization.active || instant_before(
                at.instant,
                authorization.effective_from.instant,
            ) || !instant_before(at.instant, authorization.effective_to.instant) {
                ImportAuthorizationDecision::NotAuthorized(Some(authorization.data_source))
            } else {
                ImportAuthorizationDecision::ReadSource(authorization.data_source)
            }
        },
    }
}

/// An exact data source read succeeds only for a found, authorized, typed source of exactly the
/// requested identifier and version.
pub proof fn law_exact_data_source_fields(
    found: bool,
    authorization: ApplicationResult<()>,
    value_id: Seq<char>,
    value_version: u64,
    typed: bool,
    reference: (Seq<char>, u64),
)
    ensures
        exact_data_source_outcome(found, authorization, value_id, value_version, typed, reference) is Ok ==> {
            &&& found
            &&& authorization is Ok
            &&& value_id == reference.0
            &&& value_version == reference.1
            &&& typed
        },
{
}

/// A submission's lineage is complete only when the graph is the owner's and the execution
/// names the same run and the same graph digest.
pub proof fn law_submission_lineage_fields(
    graph_owner: OwnerRef,
    owner: OwnerRef,
    execution_run_id: Seq<char>,
    run_id: Seq<char>,
    execution_graph_digest: Seq<u8>,
    graph_digest: Seq<u8>,
)
    ensures
        submission_lineage_complete(graph_owner, owner, execution_run_id, run_id, execution_graph_digest, graph_digest) ==> {
            &&& graph_owner.tenant_id@ == owner.tenant_id@
            &&& graph_owner.owner_id@ == owner.owner_id@
            &&& execution_run_id == run_id
            &&& execution_graph_digest == graph_digest
        },
{
}

/// An authorization is published only for the exact source it names: the same owner, content
/// hash, canonical schema and schema hash.
pub proof fn law_authorization_source_fields(
    source_owner: OwnerRef,
    expected_owner: OwnerRef,
    source_hash: Seq<u8>,
    expected_hash: Seq<u8>,
    source_schema_id: Seq<char>,
    expected_schema_id: Seq<char>,
    source_schema_hash: Seq<u8>,
    expected_schema_hash: Seq<u8>,
)
    ensures
        authorization_source_exact(
            source_owner,
            expected_owner,
            source_hash,
            expected_hash,
            source_schema_id,
            expected_schema_id,
            source_schema_hash,
            expected_schema_hash,
        ) ==> {
            &&& source_owner.tenant_id@ == expected_owner.tenant_id@
            &&& source_owner.owner_id@ == expected_owner.owner_id@
            &&& source_hash == expected_hash
            &&& source_schema_id == expected_schema_id
            &&& source_schema_hash == expected_schema_hash
        },
{
}

/// An import is authorized only by an active authorization of an owner the scope may read, for
/// the same interface and exact mapping, in effect at the import instant.
pub proof fn law_import_authorization_fields(
    authorization: DataSourceAuthorizationFacts,
    owner_authorized: bool,
    import_interface: Seq<char>,
    mapping_id: Seq<char>,
    mapping_hash: Seq<u8>,
    at: MarketTime,
)
    ensures
        authorization_covers(authorization, owner_authorized, import_interface, mapping_id, mapping_hash, at) ==> {
            &&& owner_authorized
            &&& authorization.import_interface@ == import_interface
            &&& authorization.mapping_id@ == mapping_id
            &&& authorization.mapping_hash@ == mapping_hash
            &&& authorization.active
            &&& !instant_less(at.instant, authorization.effective_from.instant)
            &&& instant_less(at.instant, authorization.effective_to.instant)
        },
{
}

} // verus!
