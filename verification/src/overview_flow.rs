use vstd::prelude::*;

use crate::error::{ApplicationError, ApplicationErrorCategory, failure, integrity};

verus! {

/// Where an overview computation stands: which port call or library step it waits for next,
/// or how it ended.
#[derive(Clone, Copy, Debug, PartialEq, Eq, Structural)]
pub enum OverviewPhase {
    ResolveInputs,
    LoadMemberSnapshots,
    LoadBenchmarkSnapshot,
    ResolveMemberAuthorities,
    ResolveBenchmarkAuthority,
    AnalyzeMembers,
    AnalyzeBenchmark,
    AssembleDraft,
    Publish,
    Done,
    Failed(ApplicationError),
}

/// The state of an overview computation: its phase, the member it works on within a
/// per-member phase, how many members the catalog resolved, and the assembled draft once there
/// is one.
#[derive(Debug)]
pub struct OverviewState<Draft> {
    pub phase: OverviewPhase,
    pub member: usize,
    pub members: usize,
    pub draft: Option<Draft>,
}

/// What came back from the call an action asked for, after the library's own check of it: the
/// catalog resolution with its member count, the success of a step, the assembled draft, or the
/// error of any step.
#[derive(Debug)]
pub enum OverviewEvent<Draft> {
    Resolved { members: usize },
    Completed,
    Assembled(Draft),
    Rejected(ApplicationError),
}

/// The next call to make, or the end of the computation. `Publish` carries the draft to
/// publish and `Succeed` the draft to return: both are the draft the state holds.
#[derive(Debug, PartialEq)]
pub enum OverviewAction<'a, Draft> {
    ResolveInputs,
    LoadMemberSnapshot(usize),
    LoadBenchmarkSnapshot,
    ResolveMemberAuthority(usize),
    ResolveBenchmarkAuthority,
    AnalyzeMember(usize),
    AnalyzeBenchmark,
    AssembleDraft,
    Publish(&'a Draft),
    Succeed(&'a Draft),
    Fail(ApplicationError),
}

/// The computation has ended.
pub open spec fn finished(phase: OverviewPhase) -> bool {
    phase == OverviewPhase::Done || phase is Failed
}

/// The phases that take one step per member.
pub open spec fn per_member(phase: OverviewPhase) -> bool {
    phase == OverviewPhase::LoadMemberSnapshots || phase == OverviewPhase::ResolveMemberAuthorities
        || phase == OverviewPhase::AnalyzeMembers
}

/// The phase after a completed phase; publication ends in success.
pub open spec fn next_phase(phase: OverviewPhase) -> OverviewPhase {
    match phase {
        OverviewPhase::LoadMemberSnapshots => OverviewPhase::LoadBenchmarkSnapshot,
        OverviewPhase::LoadBenchmarkSnapshot => OverviewPhase::ResolveMemberAuthorities,
        OverviewPhase::ResolveMemberAuthorities => OverviewPhase::ResolveBenchmarkAuthority,
        OverviewPhase::ResolveBenchmarkAuthority => OverviewPhase::AnalyzeMembers,
        OverviewPhase::AnalyzeMembers => OverviewPhase::AnalyzeBenchmark,
        OverviewPhase::AnalyzeBenchmark => OverviewPhase::AssembleDraft,
        _ => OverviewPhase::Done,
    }
}

/// The action a state asks for: the call of its phase for its member, or its single call.
/// Publication publishes and success returns the draft the state holds; without one, the state
/// is broken and fails with an integrity error.
pub open spec fn state_action<'a, Draft>(state: OverviewState<Draft>, action: OverviewAction<'a, Draft>) -> bool {
    match state.phase {
        OverviewPhase::ResolveInputs => action == OverviewAction::<'a, Draft>::ResolveInputs,
        OverviewPhase::LoadMemberSnapshots => action == OverviewAction::<'a, Draft>::LoadMemberSnapshot(state.member),
        OverviewPhase::LoadBenchmarkSnapshot => action == OverviewAction::<'a, Draft>::LoadBenchmarkSnapshot,
        OverviewPhase::ResolveMemberAuthorities => action == OverviewAction::<'a, Draft>::ResolveMemberAuthority(state.member),
        OverviewPhase::ResolveBenchmarkAuthority => action == OverviewAction::<'a, Draft>::ResolveBenchmarkAuthority,
        OverviewPhase::AnalyzeMembers => action == OverviewAction::<'a, Draft>::AnalyzeMember(state.member),
        OverviewPhase::AnalyzeBenchmark => action == OverviewAction::<'a, Draft>::AnalyzeBenchmark,
        OverviewPhase::AssembleDraft => action == OverviewAction::<'a, Draft>::AssembleDraft,
        OverviewPhase::Publish => match state.draft {
            Some(d) => action matches OverviewAction::Publish(p) && *p == d,
            None => action == OverviewAction::<'a, Draft>::Fail(failure(ApplicationErrorCategory::HashMismatch)),
        },
        OverviewPhase::Done => match state.draft {
            Some(d) => action matches OverviewAction::Succeed(p) && *p == d,
            None => action == OverviewAction::<'a, Draft>::Fail(failure(ApplicationErrorCategory::HashMismatch)),
        },
        OverviewPhase::Failed(e) => action == OverviewAction::<'a, Draft>::Fail(e),
    }
}

/// The phase and member after a step, which never changes the member count or the draft
/// except as `overview_transition` says.
pub open spec fn with_phase<Draft>(state: OverviewState<Draft>, phase: OverviewPhase, member: usize) -> OverviewState<Draft> {
    OverviewState { phase, member, members: state.members, draft: state.draft }
}

/// One step of an overview computation. A finished computation stays as it is. Any error ends
/// it with that error; an event that does not answer the pending call, or a resolution without
/// members, ends it with an integrity error. Otherwise the snapshots of every member and then
/// of the benchmark are loaded, their analytics authorities resolved, every member and then the
/// benchmark analyzed, the draft assembled and kept, and that draft published; only its
/// successful publication succeeds.
pub open spec fn overview_transition<Draft>(state: OverviewState<Draft>, event: OverviewEvent<Draft>) -> OverviewState<Draft> {
    let misfit = with_phase(state, OverviewPhase::Failed(failure(ApplicationErrorCategory::HashMismatch)), state.member);
    if finished(state.phase) {
        state
    } else {
        match event {
            OverviewEvent::Rejected(e) => with_phase(state, OverviewPhase::Failed(e), state.member),
            OverviewEvent::Resolved { members } => if state.phase == OverviewPhase::ResolveInputs && members > 0 {
                OverviewState { phase: OverviewPhase::LoadMemberSnapshots, member: 0, members, draft: state.draft }
            } else {
                misfit
            },
            OverviewEvent::Assembled(d) => if state.phase == OverviewPhase::AssembleDraft {
                OverviewState { phase: OverviewPhase::Publish, member: 0, members: state.members, draft: Some(d) }
            } else {
                misfit
            },
            OverviewEvent::Completed => if state.phase == OverviewPhase::ResolveInputs || state.phase
                == OverviewPhase::AssembleDraft {
                misfit
            } else if per_member(state.phase) && state.member + 1 < state.members {
                with_phase(state, state.phase, (state.member + 1) as usize)
            } else {
                with_phase(state, next_phase(state.phase), 0)
            },
        }
    }
}

/// The first state of an overview computation.
pub fn overview_start<Draft>() -> (state: OverviewState<Draft>)
    ensures
        state.phase == OverviewPhase::ResolveInputs,
        state.member == 0,
        state.members == 0,
        state.draft is None,
{
    OverviewState { phase: OverviewPhase::ResolveInputs, member: 0, members: 0, draft: None }
}

fn phase_is_per_member(phase: OverviewPhase) -> (each: bool)
    ensures
        each == per_member(phase),
{
    match phase {
        OverviewPhase::LoadMemberSnapshots | OverviewPhase::ResolveMemberAuthorities | OverviewPhase::AnalyzeMembers => true,
        _ => false,
    }
}

fn following_phase(phase: OverviewPhase) -> (next: OverviewPhase)
    ensures
        next == next_phase(phase),
{
    match phase {
        OverviewPhase::LoadMemberSnapshots => OverviewPhase::LoadBenchmarkSnapshot,
        OverviewPhase::LoadBenchmarkSnapshot => OverviewPhase::ResolveMemberAuthorities,
        OverviewPhase::ResolveMemberAuthorities => OverviewPhase::ResolveBenchmarkAuthority,
        OverviewPhase::ResolveBenchmarkAuthority => OverviewPhase::AnalyzeMembers,
        OverviewPhase::AnalyzeMembers => OverviewPhase::AnalyzeBenchmark,
        OverviewPhase::AnalyzeBenchmark => OverviewPhase::AssembleDraft,
        _ => OverviewPhase::Done,
    }
}

/// The action a state asks for next.
pub fn overview_action<'a, Draft>(state: &'a OverviewState<Draft>) -> (action: OverviewAction<'a, Draft>)
    ensures
        state_action(*state, action),
{
    match state.phase {
        OverviewPhase::ResolveInputs => OverviewAction::ResolveInputs,
        OverviewPhase::LoadMemberSnapshots => OverviewAction::LoadMemberSnapshot(state.member),
        OverviewPhase::LoadBenchmarkSnapshot => OverviewAction::LoadBenchmarkSnapshot,
        OverviewPhase::ResolveMemberAuthorities => OverviewAction::ResolveMemberAuthority(state.member),
        OverviewPhase::ResolveBenchmarkAuthority => OverviewAction::ResolveBenchmarkAuthority,
        OverviewPhase::AnalyzeMembers => OverviewAction::AnalyzeMember(state.member),
        OverviewPhase::AnalyzeBenchmark => OverviewAction::AnalyzeBenchmark,
        OverviewPhase::AssembleDraft => OverviewAction::AssembleDraft,
        OverviewPhase::Publish => match &state.draft {
            Some(d) => OverviewAction::Publish(d),
            None => OverviewAction::Fail(integrity()),
        },
        OverviewPhase::Done => match &state.draft {
            Some(d) => OverviewAction::Succeed(d),
            None => OverviewAction::Fail(integrity()),
        },
        OverviewPhase::Failed(e) => OverviewAction::Fail(e),
    }
}

/// Takes one step of an overview computation; `overview_action` then says what to do next.
pub fn overview_step<Draft>(state: OverviewState<Draft>, event: OverviewEvent<Draft>) -> (next: OverviewState<Draft>)
    ensures
        next == overview_transition(state, event),
{
    let OverviewState { phase, member, members, draft } = state;
    let next_state = if matches!(phase, OverviewPhase::Done | OverviewPhase::Failed(_)) {
        OverviewState { phase, member, members, draft }
    } else {
        match event {
            OverviewEvent::Rejected(e) => OverviewState { phase: OverviewPhase::Failed(e), member, members, draft },
            OverviewEvent::Resolved { members: resolved } => {
                if phase == OverviewPhase::ResolveInputs && resolved > 0 {
                    OverviewState { phase: OverviewPhase::LoadMemberSnapshots, member: 0, members: resolved, draft }
                } else {
                    OverviewState { phase: OverviewPhase::Failed(integrity()), member, members, draft }
                }
            },
            OverviewEvent::Assembled(assembled) => {
                if phase == OverviewPhase::AssembleDraft {
                    OverviewState { phase: OverviewPhase::Publish, member: 0, members, draft: Some(assembled) }
                } else {
                    OverviewState { phase: OverviewPhase::Failed(integrity()), member, members, draft }
                }
            },
            OverviewEvent::Completed => {
                if phase == OverviewPhase::ResolveInputs || phase == OverviewPhase::AssembleDraft {
                    OverviewState { phase: OverviewPhase::Failed(integrity()), member, members, draft }
                } else if phase_is_per_member(phase) && member < members && member + 1 < members {
                    OverviewState { phase, member: member + 1, members, draft }
                } else {
                    OverviewState { phase: following_phase(phase), member: 0, members, draft }
                }
            },
        }
    };
    next_state
}

/// An overview computation succeeds only from the successful publication of its draft, and the
/// draft it then holds — the one it returns — is the draft that was published.
pub proof fn law_success_only_after_publication<Draft>(state: OverviewState<Draft>, event: OverviewEvent<Draft>)
    requires
        overview_transition(state, event).phase == OverviewPhase::Done,
    ensures
        state.phase == OverviewPhase::Done || (state.phase == OverviewPhase::Publish && event is Completed),
        overview_transition(state, event).draft == state.draft,
{
}

/// What success returns is what was published: when the publication of a draft completes and
/// the computation succeeds, the draft its success returns is the draft its publication carried.
pub proof fn law_returns_the_published_draft<'a, 'b, Draft>(
    state: OverviewState<Draft>,
    publish: OverviewAction<'a, Draft>,
    succeed: OverviewAction<'b, Draft>,
)
    requires
        state.phase == OverviewPhase::Publish,
        state_action(state, publish),
        state_action(overview_transition(state, OverviewEvent::Completed), succeed),
    ensures
        overview_transition(state, OverviewEvent::Completed).phase == OverviewPhase::Done,
        publish matches OverviewAction::Publish(p) ==> (succeed matches OverviewAction::Succeed(q) && *q == *p),
{
}

/// The draft is published once: publication is entered only from assembly, where it keeps the
/// assembled draft, and never follows itself.
pub proof fn law_publish_once<Draft>(state: OverviewState<Draft>, event: OverviewEvent<Draft>)
    ensures
        overview_transition(state, event).phase == OverviewPhase::Publish ==> state.phase
            == OverviewPhase::AssembleDraft && (event matches OverviewEvent::Assembled(d)
            && overview_transition(state, event).draft == Some(d)),
        state.phase == OverviewPhase::Publish ==> overview_transition(state, event).phase
            != OverviewPhase::Publish,
{
}

/// Failures are closed: an error in any unfinished step ends the computation with exactly that
/// error, and a finished computation never changes.
pub proof fn law_errors_fail_closed<Draft>(state: OverviewState<Draft>, event: OverviewEvent<Draft>)
    ensures
        !finished(state.phase) ==> (event matches OverviewEvent::Rejected(e) ==> overview_transition(state, event).phase
            == OverviewPhase::Failed(e)),
        finished(state.phase) ==> overview_transition(state, event) == state,
{
}

} // verus!
