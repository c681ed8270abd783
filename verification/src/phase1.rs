use vstd::prelude::*;

use crate::bytes::bytes_equal;
use crate::error::{
    ApplicationErrorCategory, ApplicationResult, DomainErrorCode, Rejection, failure, forbidden, validation,
};
use crate::primitives::{LineageRef, OwnerRef};
use crate::resolution::same_lineage_ref;
use crate::text::same_text;

verus! {

/// The kind of a staged snapshot.
#[derive(Clone, Copy, Debug, PartialEq, Eq, Structural)]
pub enum StagedSnapshotKind {
    Data,
    Universe,
}

/// A staged snapshot as the Phase 1 request reads it: its kind, identity, content hash, owner,
/// lineage, and whether its staging proof was taken under the request's scope.
#[derive(Clone, Debug)]
pub struct StagedSnapshotFacts {
    pub kind: StagedSnapshotKind,
    pub id: String,
    pub content_hash: Vec<u8>,
    pub owner: OwnerRef,
    pub lineage: Vec<LineageRef>,
    pub scopes_match: bool,
}

/// What a Phase 1 business request binds together: the market fact, the two snapshots, the
/// experiment run, the signal-set artifact, and what the access scope and the domain said of
/// them.
#[derive(Debug)]
pub struct Phase1RequestFacts {
    pub fact_authorized: ApplicationResult<()>,
    pub run_authorized: ApplicationResult<()>,
    pub run_snapshot_check: ApplicationResult<()>,
    pub owner_authorized: ApplicationResult<()>,
    pub idempotency_scoped: ApplicationResult<()>,
    pub fact_owner: OwnerRef,
    pub fact_lineage: LineageRef,
    pub data_snapshot: StagedSnapshotFacts,
    pub universe_snapshot: StagedSnapshotFacts,
    pub run_id: String,
    pub run_owner: OwnerRef,
    pub run_data_snapshot: LineageRef,
    pub run_universe_snapshot: LineageRef,
    pub artifact_owner: OwnerRef,
    pub artifact_scope_matches: bool,
    pub signal_owner: OwnerRef,
    pub signal_run_id: String,
    pub signal_data_snapshot: LineageRef,
    pub signal_universe_snapshot: LineageRef,
}

/// Two owner references name the same owner.
pub open spec fn same_owner(a: OwnerRef, b: OwnerRef) -> bool {
    a.tenant_id@ == b.tenant_id@ && a.owner_id@ == b.owner_id@
}

/// A reference names a snapshot by its identity and content hash alone.
pub open spec fn content_addressed(reference: LineageRef, snapshot: StagedSnapshotFacts) -> bool {
    &&& reference.object_id@ == snapshot.id@
    &&& reference.version is None
    &&& reference.content_hash matches Some(h) && h@ == snapshot.content_hash@
}

/// Some lineage reference of the list is the reference.
pub open spec fn lineage_contains(lineage: Seq<LineageRef>, reference: LineageRef) -> bool {
    exists|i: int| 0 <= i < lineage.len() && same_lineage_ref(#[trigger] lineage[i], reference)
}

/// Every object of the request belongs to the run's owner, and the data snapshot records the
/// market fact in its lineage.
pub open spec fn owners_agree(facts: Phase1RequestFacts) -> bool {
    &&& same_owner(facts.fact_owner, facts.run_owner)
    &&& same_owner(facts.data_snapshot.owner, facts.run_owner)
    &&& same_owner(facts.universe_snapshot.owner, facts.run_owner)
    &&& same_owner(facts.artifact_owner, facts.run_owner)
    &&& same_owner(facts.signal_owner, facts.run_owner)
    &&& lineage_contains(facts.data_snapshot.lineage@, facts.fact_lineage)
}

/// The run and the signal set name exactly the two staged snapshots, and the signal set names
/// the run.
pub open spec fn references_agree(facts: Phase1RequestFacts) -> bool {
    &&& content_addressed(facts.run_data_snapshot, facts.data_snapshot)
    &&& content_addressed(facts.run_universe_snapshot, facts.universe_snapshot)
    &&& facts.signal_run_id@ == facts.run_id@
    &&& content_addressed(facts.signal_data_snapshot, facts.data_snapshot)
    &&& content_addressed(facts.signal_universe_snapshot, facts.universe_snapshot)
}

/// The outcome of binding a Phase 1 request, in the order it is checked: the fact's and the
/// run's authorization; a data snapshot of the right kind; the run's own check of that
/// snapshot; a universe snapshot of the right kind; the run owner's authorization; every staging
/// proof taken under the request's scope (forbidden otherwise); owners and fact lineage, then
/// snapshot references (broken lineage otherwise); and the scoped idempotency key.
pub open spec fn phase1_outcome(facts: Phase1RequestFacts) -> Result<(), Rejection> {
    if facts.fact_authorized is Err {
        Err(Rejection::Application(facts.fact_authorized->Err_0))
    } else if facts.run_authorized is Err {
        Err(Rejection::Application(facts.run_authorized->Err_0))
    } else if facts.data_snapshot.kind != StagedSnapshotKind::Data {
        Err(Rejection::Domain(DomainErrorCode::BrokenLineage))
    } else if facts.run_snapshot_check is Err {
        Err(Rejection::Application(facts.run_snapshot_check->Err_0))
    } else if facts.universe_snapshot.kind != StagedSnapshotKind::Universe {
        Err(Rejection::Domain(DomainErrorCode::BrokenLineage))
    } else if facts.owner_authorized is Err {
        Err(Rejection::Application(facts.owner_authorized->Err_0))
    } else if !facts.data_snapshot.scopes_match || !facts.universe_snapshot.scopes_match
        || !facts.artifact_scope_matches {
        Err(Rejection::Application(failure(ApplicationErrorCategory::Forbidden)))
    } else if !owners_agree(facts) || !references_agree(facts) {
        Err(Rejection::Domain(DomainErrorCode::BrokenLineage))
    } else if facts.idempotency_scoped is Err {
        Err(Rejection::Application(facts.idempotency_scoped->Err_0))
    } else {
        Ok(())
    }
}

fn owners_same(a: &OwnerRef, b: &OwnerRef) -> (same: bool)
    ensures
        same == same_owner(*a, *b),
{
    a.same_as(b)
}

fn addressed(reference: &LineageRef, snapshot: &StagedSnapshotFacts) -> (named: bool)
    ensures
        named == content_addressed(*reference, *snapshot),
{
    let hash_matches = match &reference.content_hash {
        Some(h) => crate::bytes::bytes_equal(h.as_slice(), snapshot.content_hash.as_slice()),
        None => false,
    };
    same_text(&reference.object_id, &snapshot.id) && reference.version.is_none() && hash_matches
}

fn lineage_has(lineage: &[LineageRef], reference: &LineageRef) -> (found: bool)
    ensures
        found == lineage_contains(lineage@, *reference),
{
    let mut i: usize = 0;
    while i < lineage.len()
        invariant
            i <= lineage@.len(),
            forall|k: int| 0 <= k < i ==> !same_lineage_ref(#[trigger] lineage@[k], *reference),
        decreases lineage@.len() - i,
    {
        if crate::resolution::lineage_refs_same(&lineage[i], reference) {
            return true;
        }
        i = i + 1;
    }
    false
}

/// Binds a Phase 1 business request before any I/O starts, exactly as `phase1_outcome`
/// orders its checks.
pub fn check_phase1_request(facts: &Phase1RequestFacts) -> (result: Result<(), Rejection>)
    ensures
        result == phase1_outcome(*facts),
{
    if let Err(e) = facts.fact_authorized {
        return Err(Rejection::Application(e));
    }
    if let Err(e) = facts.run_authorized {
        return Err(Rejection::Application(e));
    }
    if facts.data_snapshot.kind != StagedSnapshotKind::Data {
        return Err(Rejection::Domain(DomainErrorCode::BrokenLineage));
    }
    if let Err(e) = facts.run_snapshot_check {
        return Err(Rejection::Application(e));
    }
    if facts.universe_snapshot.kind != StagedSnapshotKind::Universe {
        return Err(Rejection::Domain(DomainErrorCode::BrokenLineage));
    }
    if let Err(e) = facts.owner_authorized {
        return Err(Rejection::Application(e));
    }
    if !facts.data_snapshot.scopes_match || !facts.universe_snapshot.scopes_match || !facts.artifact_scope_matches {
        return Err(Rejection::Application(forbidden()));
    }
    let owners = owners_same(&facts.fact_owner, &facts.run_owner) && owners_same(
        &facts.data_snapshot.owner,
        &facts.run_owner,
    ) && owners_same(&facts.universe_snapshot.owner, &facts.run_owner) && owners_same(
        &facts.artifact_owner,
        &facts.run_owner,
    ) && owners_same(&facts.signal_owner, &facts.run_owner) && lineage_has(
        facts.data_snapshot.lineage.as_slice(),
        &facts.fact_lineage,
    );
    let references = addressed(&facts.run_data_snapshot, &facts.data_snapshot) && addressed(
        &facts.run_universe_snapshot,
        &facts.universe_snapshot,
    ) && same_text(&facts.signal_run_id, &facts.run_id) && addressed(
        &facts.signal_data_snapshot,
        &facts.data_snapshot,
    ) && addressed(&facts.signal_universe_snapshot, &facts.universe_snapshot);
    if !owners || !references {
        return Err(Rejection::Domain(DomainErrorCode::BrokenLineage));
    }
    if let Err(e) = facts.idempotency_scoped {
        return Err(Rejection::Application(e));
    }
    Ok(())
}

/// Holds a promoted artifact blob to the artifact's own record: a differing content hash is a
/// content hash mismatch, checked first; a differing size then fails validation.
pub fn check_artifact_verified(
    content_hash: &[u8],
    blob_size: u64,
    verified_hash: &[u8],
    verified_size: u64,
) -> (result: Result<(), Rejection>)
    ensures
        result is Ok <==> (content_hash@ == verified_hash@ && blob_size == verified_size),
        result matches Err(r) ==> r == (if content_hash@ != verified_hash@ {
            Rejection::Domain(DomainErrorCode::ContentHashMismatch)
        } else {
            Rejection::Application(failure(ApplicationErrorCategory::ValidationFailed))
        }),
{
    if !bytes_equal(content_hash, verified_hash) {
        return Err(Rejection::Domain(DomainErrorCode::ContentHashMismatch));
    }
    if blob_size != verified_size {
        return Err(Rejection::Application(validation()));
    }
    Ok(())
}

/// The events a Phase 1 run journals, in the order they happen.
#[derive(Clone, Copy, Debug, PartialEq, Eq, Structural)]
pub enum JournalEventType {
    RunCreated,
    RunStarted,
    ArtifactPublished,
    SignalSetPublished,
    RunSucceeded,
}

/// One planned journal event: its sequence number, type and payload.
#[derive(Clone, Debug)]
pub struct JournalEntryPlan {
    pub sequence: u64,
    pub event_type: JournalEventType,
    pub payload: Vec<u8>,
}

/// The journal of a successful Phase 1 run: created, started, artifact published, signal set
/// published, succeeded, numbered from one. The run events carry the run's identifier, the
/// publications the published content hash.
pub open spec fn journal_plan(run_id: Seq<u8>, artifact_hash: Seq<u8>, signal_hash: Seq<u8>) -> Seq<
    (u64, JournalEventType, Seq<u8>),
> {
    seq![
        (1u64, JournalEventType::RunCreated, run_id),
        (2u64, JournalEventType::RunStarted, run_id),
        (3u64, JournalEventType::ArtifactPublished, artifact_hash),
        (4u64, JournalEventType::SignalSetPublished, signal_hash),
        (5u64, JournalEventType::RunSucceeded, run_id),
    ]
}

/// The planned entries as values.
pub open spec fn plan_views(entries: Seq<JournalEntryPlan>) -> Seq<(u64, JournalEventType, Seq<u8>)> {
    entries.map_values(|e: JournalEntryPlan| (e.sequence, e.event_type, e.payload@))
}

/// Plans the journal of a successful Phase 1 run.
pub fn plan_phase1_journal(run_id: &[u8], artifact_hash: &[u8], signal_hash: &[u8]) -> (entries: Vec<
    JournalEntryPlan,
>)
    ensures
        plan_views(entries@) == journal_plan(run_id@, artifact_hash@, signal_hash@),
{
    let mut entries: Vec<JournalEntryPlan> = Vec::new();
    entries.push(JournalEntryPlan { sequence: 1, event_type: JournalEventType::RunCreated, payload: copy_bytes(run_id) });
    entries.push(JournalEntryPlan { sequence: 2, event_type: JournalEventType::RunStarted, payload: copy_bytes(run_id) });
    entries.push(
        JournalEntryPlan { sequence: 3, event_type: JournalEventType::ArtifactPublished, payload: copy_bytes(artifact_hash) },
    );
    entries.push(
        JournalEntryPlan { sequence: 4, event_type: JournalEventType::SignalSetPublished, payload: copy_bytes(signal_hash) },
    );
    entries.push(JournalEntryPlan { sequence: 5, event_type: JournalEventType::RunSucceeded, payload: copy_bytes(run_id) });
    assert(plan_views(entries@) =~= journal_plan(run_id@, artifact_hash@, signal_hash@));
    entries
}

/// Every planned journal is numbered one to five without gaps and runs from the run's creation
/// to its success.
pub proof fn law_journal_sequence_is_gapless(run_id: Seq<u8>, artifact_hash: Seq<u8>, signal_hash: Seq<u8>)
    ensures
        ({
            let plan = journal_plan(run_id, artifact_hash, signal_hash);
            &&& plan.len() == 5
            &&& forall|i: int| 0 <= i < plan.len() ==> (#[trigger] plan[i]).0 == i + 1
            &&& plan[0].1 == JournalEventType::RunCreated
            &&& plan[plan.len() - 1].1 == JournalEventType::RunSucceeded
        }),
{
}

fn copy_bytes(bytes: &[u8]) -> (copy: Vec<u8>)
    ensures
        copy@ == bytes@,
{
    let mut copy: Vec<u8> = Vec::new();
    crate::bytes::push_all(&mut copy, bytes);
    copy
}

/// A Phase 1 request binds only when every check passed: all authorizations and the idempotency
/// key, a data snapshot and a universe snapshot of their kinds staged under the request's
/// scope, every object of the run's owner, the fact in the data snapshot's lineage, and the run
/// and signal set naming exactly the staged snapshots (identity and content hash, no version)
/// and the same run.
pub proof fn law_phase1_request_fields(facts: Phase1RequestFacts)
    ensures
        phase1_outcome(facts) is Ok ==> {
            &&& facts.fact_authorized is Ok
            &&& facts.run_authorized is Ok
            &&& facts.run_snapshot_check is Ok
            &&& facts.owner_authorized is Ok
            &&& facts.idempotency_scoped is Ok
            &&& facts.data_snapshot.kind == StagedSnapshotKind::Data
            &&& facts.universe_snapshot.kind == StagedSnapshotKind::Universe
            &&& facts.data_snapshot.scopes_match && facts.universe_snapshot.scopes_match && facts.artifact_scope_matches
            &&& facts.fact_owner.tenant_id@ == facts.run_owner.tenant_id@ && facts.fact_owner.owner_id@ == facts.run_owner.owner_id@
            &&& facts.data_snapshot.owner.tenant_id@ == facts.run_owner.tenant_id@
            &&& facts.data_snapshot.owner.owner_id@ == facts.run_owner.owner_id@
            &&& facts.universe_snapshot.owner.tenant_id@ == facts.run_owner.tenant_id@
            &&& facts.universe_snapshot.owner.owner_id@ == facts.run_owner.owner_id@
            &&& facts.artifact_owner.tenant_id@ == facts.run_owner.tenant_id@
            &&& facts.artifact_owner.owner_id@ == facts.run_owner.owner_id@
            &&& facts.signal_owner.tenant_id@ == facts.run_owner.tenant_id@
            &&& facts.signal_owner.owner_id@ == facts.run_owner.owner_id@
            &&& exists|i: int| 0 <= i < facts.data_snapshot.lineage@.len() && #[trigger] facts.data_snapshot.lineage@[i].object_id@
                == facts.fact_lineage.object_id@ && facts.data_snapshot.lineage@[i].version == facts.fact_lineage.version
            &&& facts.run_data_snapshot.object_id@ == facts.data_snapshot.id@
            &&& facts.run_data_snapshot.version is None
            &&& facts.run_data_snapshot.content_hash is Some
            &&& facts.run_data_snapshot.content_hash->0@ == facts.data_snapshot.content_hash@
            &&& facts.run_universe_snapshot.object_id@ == facts.universe_snapshot.id@
            &&& facts.run_universe_snapshot.version is None
            &&& facts.run_universe_snapshot.content_hash is Some
            &&& facts.run_universe_snapshot.content_hash->0@ == facts.universe_snapshot.content_hash@
            &&& facts.signal_run_id@ == facts.run_id@
            &&& facts.signal_data_snapshot.object_id@ == facts.data_snapshot.id@
            &&& facts.signal_data_snapshot.content_hash is Some
            &&& facts.signal_data_snapshot.content_hash->0@ == facts.data_snapshot.content_hash@
            &&& facts.signal_universe_snapshot.object_id@ == facts.universe_snapshot.id@
            &&& facts.signal_universe_snapshot.content_hash is Some
            &&& facts.signal_universe_snapshot.content_hash->0@ == facts.universe_snapshot.content_hash@
        },
{
    if phase1_outcome(facts) is Ok {
        assert(owners_agree(facts));
        let i = choose|i: int| 0 <= i < facts.data_snapshot.lineage@.len() && same_lineage_ref(#[trigger] facts.data_snapshot.lineage@[i], facts.fact_lineage);
        assert(same_lineage_ref(facts.data_snapshot.lineage@[i], facts.fact_lineage));
    }
}

} // verus!
