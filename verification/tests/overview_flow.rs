use ficant_application::error::{ApplicationError, ApplicationErrorCategory};
use ficant_application::overview_flow::{
    OverviewAction as A, OverviewEvent as E, OverviewPhase, OverviewState, overview_action, overview_start, overview_step,
};

/// The action a state asks for, with the carried draft copied out.
fn step_name(state: &OverviewState<&'static str>) -> String {
    match overview_action(state) {
        A::ResolveInputs => "resolve".to_owned(),
        A::LoadMemberSnapshot(m) => format!("load-member-{m}"),
        A::LoadBenchmarkSnapshot => "load-benchmark".to_owned(),
        A::ResolveMemberAuthority(m) => format!("authority-member-{m}"),
        A::ResolveBenchmarkAuthority => "authority-benchmark".to_owned(),
        A::AnalyzeMember(m) => format!("analyze-member-{m}"),
        A::AnalyzeBenchmark => "analyze-benchmark".to_owned(),
        A::AssembleDraft => "assemble".to_owned(),
        A::Publish(d) => format!("publish-{d}"),
        A::Succeed(d) => format!("succeed-{d}"),
        A::Fail(e) => format!("fail-{:?}", e.category()),
    }
}

#[test]
fn overview_publishes_its_assembled_draft_once_before_success() {
    let mut state = overview_start::<&'static str>();
    assert_eq!(step_name(&state), "resolve");
    let mut steps = Vec::new();
    state = overview_step(state, E::Resolved { members: 2 });
    steps.push(step_name(&state));
    while !(steps.last().unwrap().starts_with("succeed") || steps.last().unwrap().starts_with("fail")) {
        let event = if steps.last().unwrap() == "assemble" { E::Assembled("draft") } else { E::Completed };
        state = overview_step(state, event);
        steps.push(step_name(&state));
    }
    assert_eq!(
        steps,
        vec![
            "load-member-0",
            "load-member-1",
            "load-benchmark",
            "authority-member-0",
            "authority-member-1",
            "authority-benchmark",
            "analyze-member-0",
            "analyze-member-1",
            "analyze-benchmark",
            "assemble",
            "publish-draft",
            "succeed-draft",
        ]
    );
    assert_eq!(state.phase, OverviewPhase::Done);
    assert_eq!(state.draft, Some("draft"));
}

#[test]
fn overview_fails_closed_on_any_error() {
    let denied = ApplicationError::new(ApplicationErrorCategory::Forbidden, false);
    let integrity = ApplicationError::new(ApplicationErrorCategory::HashMismatch, false);
    let state = overview_step(overview_start::<u8>(), E::Resolved { members: 1 });
    let state = overview_step(state, E::Rejected(denied));
    assert_eq!(overview_action(&state), A::Fail(denied));
    let state = overview_step(state, E::Completed);
    assert_eq!(overview_action(&state), A::Fail(denied));

    let state = overview_step(overview_start::<u8>(), E::Resolved { members: 0 });
    assert_eq!(overview_action(&state), A::Fail(integrity));
    let state = overview_step(overview_start::<u8>(), E::Completed);
    assert_eq!(overview_action(&state), A::Fail(integrity));
    let state = overview_step(overview_start::<u8>(), E::Resolved { members: 1 });
    let state = overview_step(state, E::Assembled(7));
    assert_eq!(overview_action(&state), A::Fail(integrity));
}

#[test]
fn a_publication_without_a_draft_fails_closed() {
    let broken = OverviewState::<u8> { phase: OverviewPhase::Publish, member: 0, members: 1, draft: None };
    assert_eq!(overview_action(&broken), A::Fail(ApplicationError::new(ApplicationErrorCategory::HashMismatch, false)));
}
