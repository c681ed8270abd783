use vstd::prelude::*;

verus! {

/// Bond analytics calculation without mutable I/O.
#[derive(Debug)]
pub struct CalculateBondAnalytics<Engine> {
    engine: Engine,
}

impl<Engine> CalculateBondAnalytics<Engine> {
    /// The ports this service was built with.
    pub closed spec fn spec_ports(&self) -> Engine {
        self.engine
    }

    pub fn new(engine: Engine) -> (service: Self)
        ensures
            service.spec_ports() == engine,
    {
        CalculateBondAnalytics { engine }
    }
}

/// Calculation, staging and publication of one immutable bond analytics artifact.
#[derive(Debug)]
pub struct PublishBondAnalytics<Engine, Codec, Blobs, Artifacts> {
    engine: Engine,
    codec: Codec,
    blobs: Blobs,
    artifacts: Artifacts,
}

impl<Engine, Codec, Blobs, Artifacts> PublishBondAnalytics<Engine, Codec, Blobs, Artifacts> {
    /// The ports this service was built with.
    pub closed spec fn spec_ports(&self) -> (Engine, Codec, Blobs, Artifacts) {
        (self.engine, self.codec, self.blobs, self.artifacts)
    }

    pub fn new(engine: Engine, codec: Codec, blobs: Blobs, artifacts: Artifacts) -> (service: Self)
        ensures
            service.spec_ports() == (engine, codec, blobs, artifacts),
    {
        PublishBondAnalytics { engine, codec, blobs, artifacts }
    }
}

/// Verified re-read and exact recalculation of a published bond analytics artifact.
#[derive(Debug)]
pub struct ReplayBondAnalytics<Engine, Codec, Artifacts, Reader, IntegrityEvents> {
    engine: Engine,
    codec: Codec,
    artifacts: Artifacts,
    reader: Reader,
    integrity_events: IntegrityEvents,
}

impl<Engine, Codec, Artifacts, Reader, IntegrityEvents> ReplayBondAnalytics<Engine, Codec, Artifacts, Reader, IntegrityEvents> {
    /// The ports this service was built with.
    pub closed spec fn spec_ports(&self) -> (Engine, Codec, Artifacts, Reader, IntegrityEvents) {
        (self.engine, self.codec, self.artifacts, self.reader, self.integrity_events)
    }

    pub fn new(engine: Engine, codec: Codec, artifacts: Artifacts, reader: Reader, integrity_events: IntegrityEvents) -> (service: Self)
        ensures
            service.spec_ports() == (engine, codec, artifacts, reader, integrity_events),
    {
        ReplayBondAnalytics { engine, codec, artifacts, reader, integrity_events }
    }
}

/// Carry and roll-down calculation without mutable I/O.
#[derive(Debug)]
pub struct CalculateCarryRoll<Engine> {
    engine: Engine,
}

impl<Engine> CalculateCarryRoll<Engine> {
    /// The ports this service was built with.
    pub closed spec fn spec_ports(&self) -> Engine {
        self.engine
    }

    pub fn new(engine: Engine) -> (service: Self)
        ensures
            service.spec_ports() == engine,
    {
        CalculateCarryRoll { engine }
    }
}

/// Calculation, staging and publication of one immutable carry and roll-down artifact.
#[derive(Debug)]
pub struct PublishCarryRoll<Engine, Codec, Blobs, Artifacts> {
    engine: Engine,
    codec: Codec,
    blobs: Blobs,
    artifacts: Artifacts,
}

impl<Engine, Codec, Blobs, Artifacts> PublishCarryRoll<Engine, Codec, Blobs, Artifacts> {
    /// The ports this service was built with.
    pub closed spec fn spec_ports(&self) -> (Engine, Codec, Blobs, Artifacts) {
        (self.engine, self.codec, self.blobs, self.artifacts)
    }

    pub fn new(engine: Engine, codec: Codec, blobs: Blobs, artifacts: Artifacts) -> (service: Self)
        ensures
            service.spec_ports() == (engine, codec, blobs, artifacts),
    {
        PublishCarryRoll { engine, codec, blobs, artifacts }
    }
}

/// Verified re-read and exact recalculation of a published carry and roll-down artifact.
#[derive(Debug)]
pub struct ReplayCarryRoll<Engine, Codec, Artifacts, Reader, IntegrityEvents> {
    engine: Engine,
    codec: Codec,
    artifacts: Artifacts,
    reader: Reader,
    integrity_events: IntegrityEvents,
}

impl<Engine, Codec, Artifacts, Reader, IntegrityEvents> ReplayCarryRoll<Engine, Codec, Artifacts, Reader, IntegrityEvents> {
    /// The ports this service was built with.
    pub closed spec fn spec_ports(&self) -> (Engine, Codec, Artifacts, Reader, IntegrityEvents) {
        (self.engine, self.codec, self.artifacts, self.reader, self.integrity_events)
    }

    pub fn new(engine: Engine, codec: Codec, artifacts: Artifacts, reader: Reader, integrity_events: IntegrityEvents) -> (service: Self)
        ensures
            service.spec_ports() == (engine, codec, artifacts, reader, integrity_events),
    {
        ReplayCarryRoll { engine, codec, artifacts, reader, integrity_events }
    }
}

/// Reads of immutable data snapshots under an exact access scope.
#[derive(Debug)]
pub struct SnapshotUseCase<Snapshots> {
    snapshots: Snapshots,
}

impl<Snapshots> SnapshotUseCase<Snapshots> {
    /// The ports this service was built with.
    pub closed spec fn spec_ports(&self) -> Snapshots {
        self.snapshots
    }

    pub fn new(snapshots: Snapshots) -> (service: Self)
        ensures
            service.spec_ports() == snapshots,
    {
        SnapshotUseCase { snapshots }
    }
}

/// Staging, verification, promotion and publication of data snapshot payloads.
#[derive(Debug)]
pub struct PublishDataSnapshot<BlobStore, Snapshots> {
    blob_store: BlobStore,
    snapshots: Snapshots,
}

impl<BlobStore, Snapshots> PublishDataSnapshot<BlobStore, Snapshots> {
    /// The ports this service was built with.
    pub closed spec fn spec_ports(&self) -> (BlobStore, Snapshots) {
        (self.blob_store, self.snapshots)
    }

    pub fn new(blob_store: BlobStore, snapshots: Snapshots) -> (service: Self)
        ensures
            service.spec_ports() == (blob_store, snapshots),
    {
        PublishDataSnapshot { blob_store, snapshots }
    }
}

/// Resolution of the exact delivery rule pack of a futures calculation.
#[derive(Debug)]
pub struct ResolveFuturesDeliveryRule<Definitions, Parser> {
    definitions: Definitions,
    parser: Parser,
}

impl<Definitions, Parser> ResolveFuturesDeliveryRule<Definitions, Parser> {
    /// The ports this service was built with.
    pub closed spec fn spec_ports(&self) -> (Definitions, Parser) {
        (self.definitions, self.parser)
    }

    pub fn new(definitions: Definitions, parser: Parser) -> (service: Self)
        ensures
            service.spec_ports() == (definitions, parser),
    {
        ResolveFuturesDeliveryRule { definitions, parser }
    }
}

/// Resolution of an exact futures contract definition version.
#[derive(Debug)]
pub struct ResolveFuturesContract<Definitions> {
    definitions: Definitions,
}

impl<Definitions> ResolveFuturesContract<Definitions> {
    /// The ports this service was built with.
    pub closed spec fn spec_ports(&self) -> Definitions {
        self.definitions
    }

    pub fn new(definitions: Definitions) -> (service: Self)
        ensures
            service.spec_ports() == definitions,
    {
        ResolveFuturesContract { definitions }
    }
}

/// Materialization of the exact inputs of a futures delivery calculation.
#[derive(Debug)]
pub struct MaterializeFuturesDeliveryInputs<Definitions, SnapshotMetadata, BlobReader, IntegrityEvents, Decoder, Parser> {
    definitions: Definitions,
    snapshot_metadata: SnapshotMetadata,
    blob_reader: BlobReader,
    integrity_events: IntegrityEvents,
    decoder: Decoder,
    parser: Parser,
}

impl<Definitions, SnapshotMetadata, BlobReader, IntegrityEvents, Decoder, Parser> MaterializeFuturesDeliveryInputs<Definitions, SnapshotMetadata, BlobReader, IntegrityEvents, Decoder, Parser> {
    /// The ports this service was built with.
    pub closed spec fn spec_ports(&self) -> (Definitions, SnapshotMetadata, BlobReader, IntegrityEvents, Decoder, Parser) {
        (self.definitions, self.snapshot_metadata, self.blob_reader, self.integrity_events, self.decoder, self.parser)
    }

    pub fn new(definitions: Definitions, snapshot_metadata: SnapshotMetadata, blob_reader: BlobReader, integrity_events: IntegrityEvents, decoder: Decoder, parser: Parser) -> (service: Self)
        ensures
            service.spec_ports() == (definitions, snapshot_metadata, blob_reader, integrity_events, decoder, parser),
    {
        MaterializeFuturesDeliveryInputs { definitions, snapshot_metadata, blob_reader, integrity_events, decoder, parser }
    }
}

/// Materialization of a futures delivery calculation from registered definitions and a verified snapshot.
#[derive(Debug)]
pub struct MaterializeRegisteredFuturesDelivery<Definitions, SnapshotMetadata, BlobReader, IntegrityEvents, Decoder, Parser> {
    definitions: Definitions,
    snapshot_metadata: SnapshotMetadata,
    blob_reader: BlobReader,
    integrity_events: IntegrityEvents,
    decoder: Decoder,
    parser: Parser,
}

impl<Definitions, SnapshotMetadata, BlobReader, IntegrityEvents, Decoder, Parser> MaterializeRegisteredFuturesDelivery<Definitions, SnapshotMetadata, BlobReader, IntegrityEvents, Decoder, Parser> {
    /// The ports this service was built with.
    pub closed spec fn spec_ports(&self) -> (Definitions, SnapshotMetadata, BlobReader, IntegrityEvents, Decoder, Parser) {
        (self.definitions, self.snapshot_metadata, self.blob_reader, self.integrity_events, self.decoder, self.parser)
    }

    pub fn new(definitions: Definitions, snapshot_metadata: SnapshotMetadata, blob_reader: BlobReader, integrity_events: IntegrityEvents, decoder: Decoder, parser: Parser) -> (service: Self)
        ensures
            service.spec_ports() == (definitions, snapshot_metadata, blob_reader, integrity_events, decoder, parser),
    {
        MaterializeRegisteredFuturesDelivery { definitions, snapshot_metadata, blob_reader, integrity_events, decoder, parser }
    }
}

/// Calculation, staging and publication of one immutable futures delivery artifact.
#[derive(Debug)]
pub struct PublishFuturesDelivery<Engine, Codec, Blobs, Artifacts> {
    engine: Engine,
    codec: Codec,
    blobs: Blobs,
    artifacts: Artifacts,
}

impl<Engine, Codec, Blobs, Artifacts> PublishFuturesDelivery<Engine, Codec, Blobs, Artifacts> {
    /// The ports this service was built with.
    pub closed spec fn spec_ports(&self) -> (Engine, Codec, Blobs, Artifacts) {
        (self.engine, self.codec, self.blobs, self.artifacts)
    }

    pub fn new(engine: Engine, codec: Codec, blobs: Blobs, artifacts: Artifacts) -> (service: Self)
        ensures
            service.spec_ports() == (engine, codec, blobs, artifacts),
    {
        PublishFuturesDelivery { engine, codec, blobs, artifacts }
    }
}

/// Verified re-read and exact recalculation of a published futures delivery artifact.
#[derive(Debug)]
pub struct ReplayFuturesDelivery<Engine, Codec, Artifacts, Reader, IntegrityEvents> {
    engine: Engine,
    codec: Codec,
    artifacts: Artifacts,
    reader: Reader,
    integrity_events: IntegrityEvents,
}

impl<Engine, Codec, Artifacts, Reader, IntegrityEvents> ReplayFuturesDelivery<Engine, Codec, Artifacts, Reader, IntegrityEvents> {
    /// The ports this service was built with.
    pub closed spec fn spec_ports(&self) -> (Engine, Codec, Artifacts, Reader, IntegrityEvents) {
        (self.engine, self.codec, self.artifacts, self.reader, self.integrity_events)
    }

    pub fn new(engine: Engine, codec: Codec, artifacts: Artifacts, reader: Reader, integrity_events: IntegrityEvents) -> (service: Self)
        ensures
            service.spec_ports() == (engine, codec, artifacts, reader, integrity_events),
    {
        ReplayFuturesDelivery { engine, codec, artifacts, reader, integrity_events }
    }
}

/// Staging, verification, promotion and publication of one position snapshot payload.
#[derive(Debug)]
pub struct PublishPositionSnapshot<BlobStore, Snapshots> {
    blob_store: BlobStore,
    snapshots: Snapshots,
}

impl<BlobStore, Snapshots> PublishPositionSnapshot<BlobStore, Snapshots> {
    /// The ports this service was built with.
    pub closed spec fn spec_ports(&self) -> (BlobStore, Snapshots) {
        (self.blob_store, self.snapshots)
    }

    pub fn new(blob_store: BlobStore, snapshots: Snapshots) -> (service: Self)
        ensures
            service.spec_ports() == (blob_store, snapshots),
    {
        PublishPositionSnapshot { blob_store, snapshots }
    }
}

/// Resolution of the position snapshot visible at a knowledge time, and its views.
#[derive(Debug)]
pub struct PositionViewsUseCase<Repository> {
    repository: Repository,
}

impl<Repository> PositionViewsUseCase<Repository> {
    /// The ports this service was built with.
    pub closed spec fn spec_ports(&self) -> Repository {
        self.repository
    }

    pub fn new(repository: Repository) -> (service: Self)
        ensures
            service.spec_ports() == repository,
    {
        PositionViewsUseCase { repository }
    }
}

/// Key-rate DV01 calculation of a bond position, optionally with the futures delivery ports
/// that let it resolve futures positions.
#[derive(Debug)]
pub struct CalculateBondKeyRateDv01<Positions, Curves, Definitions, Factors, Blobs, IntegrityEvents, Decoder, CurveEngine, BondEngine, FuturesSnapshotMetadata, FuturesSnapshotDecoder, FuturesRuleParser, FuturesEngine> {
    positions: Positions,
    curves: Curves,
    definitions: Definitions,
    factors: Factors,
    blobs: Blobs,
    integrity_events: IntegrityEvents,
    decoder: Decoder,
    curve_engine: CurveEngine,
    bond_engine: BondEngine,
    futures_snapshot_metadata: Option<FuturesSnapshotMetadata>,
    futures_snapshot_decoder: Option<FuturesSnapshotDecoder>,
    futures_rule_parser: Option<FuturesRuleParser>,
    futures_engine: Option<FuturesEngine>,
}

impl<Positions, Curves, Definitions, Factors, Blobs, IntegrityEvents, Decoder, CurveEngine, BondEngine, FuturesSnapshotMetadata, FuturesSnapshotDecoder, FuturesRuleParser, FuturesEngine> CalculateBondKeyRateDv01<Positions, Curves, Definitions, Factors, Blobs, IntegrityEvents, Decoder, CurveEngine, BondEngine, FuturesSnapshotMetadata, FuturesSnapshotDecoder, FuturesRuleParser, FuturesEngine> {
    /// The ports every calculation uses.
    pub closed spec fn spec_ports(&self) -> (Positions, Curves, Definitions, Factors, Blobs, IntegrityEvents, Decoder, CurveEngine, BondEngine) {
        (self.positions, self.curves, self.definitions, self.factors, self.blobs, self.integrity_events, self.decoder, self.curve_engine, self.bond_engine)
    }

    /// The futures delivery ports, when the calculation was built with them.
    pub closed spec fn spec_futures_ports(&self) -> (Option<FuturesSnapshotMetadata>, Option<FuturesSnapshotDecoder>, Option<FuturesRuleParser>, Option<FuturesEngine>) {
        (self.futures_snapshot_metadata, self.futures_snapshot_decoder, self.futures_rule_parser, self.futures_engine)
    }

    /// A calculation without futures delivery ports.
    pub fn new(positions: Positions, curves: Curves, definitions: Definitions, factors: Factors, blobs: Blobs, integrity_events: IntegrityEvents, decoder: Decoder, curve_engine: CurveEngine, bond_engine: BondEngine) -> (service: Self)
        ensures
            service.spec_ports() == (positions, curves, definitions, factors, blobs, integrity_events, decoder, curve_engine, bond_engine),
            service.spec_futures_ports() == (None::<FuturesSnapshotMetadata>, None::<FuturesSnapshotDecoder>, None::<FuturesRuleParser>, None::<FuturesEngine>),
    {
        CalculateBondKeyRateDv01 {
            positions,
            curves,
            definitions,
            factors,
            blobs,
            integrity_events,
            decoder,
            curve_engine,
            bond_engine,
            futures_snapshot_metadata: None,
            futures_snapshot_decoder: None,
            futures_rule_parser: None,
            futures_engine: None,
        }
    }

    /// A calculation with the futures delivery ports.
    pub fn new_with_futures(positions: Positions, curves: Curves, definitions: Definitions, factors: Factors, blobs: Blobs, integrity_events: IntegrityEvents, decoder: Decoder, curve_engine: CurveEngine, bond_engine: BondEngine, futures_snapshot_metadata: FuturesSnapshotMetadata, futures_snapshot_decoder: FuturesSnapshotDecoder, futures_rule_parser: FuturesRuleParser, futures_engine: FuturesEngine) -> (service: Self)
        ensures
            service.spec_ports() == (positions, curves, definitions, factors, blobs, integrity_events, decoder, curve_engine, bond_engine),
            service.spec_futures_ports() == (Some(futures_snapshot_metadata), Some(futures_snapshot_decoder), Some(futures_rule_parser), Some(futures_engine)),
    {
        CalculateBondKeyRateDv01 {
            positions,
            curves,
            definitions,
            factors,
            blobs,
            integrity_events,
            decoder,
            curve_engine,
            bond_engine,
            futures_snapshot_metadata: Some(futures_snapshot_metadata),
            futures_snapshot_decoder: Some(futures_snapshot_decoder),
            futures_rule_parser: Some(futures_rule_parser),
            futures_engine: Some(futures_engine),
        }
    }
}
} // verus!
