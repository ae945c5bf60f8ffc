use promptforge::inference_route::{
    route_start, route_step, RouteAction, RouteEvent, RouteKind, RoutePlan, RouteReply, RouteState,
    RouteStep,
};
use promptforge::run_flow::{
    failure_context, run_start, run_step, RunAction, RunEvent, RunPlan, RunState, RunStep,
};
use promptforge::switch_profile::{
    stage_label, switch_start, switch_step, FailedStage, SwitchAction, SwitchEvent, SwitchReply,
    SwitchState,
};

fn switch_actions(events: &[SwitchEvent]) -> Vec<SwitchAction> {
    let (mut state, mut action) = switch_start();
    let mut actions = vec![action];
    for &event in events {
        match state {
            SwitchState::At(k) => {
                (state, action) = switch_step(k, event);
                actions.push(action);
            }
            SwitchState::Finished => break,
        }
    }
    actions
}

#[test]
fn a_successful_switch_stops_old_children_before_starting_new_ones_and_commits_last() {
    let actions = switch_actions(&[SwitchEvent::Done; 14]);
    assert_eq!(actions.len(), 15);
    let take = actions.iter().position(|a| *a == SwitchAction::TakeOldLocal).unwrap();
    let stop = actions.iter().position(|a| *a == SwitchAction::ShutdownOldLocal).unwrap();
    let start = actions.iter().position(|a| *a == SwitchAction::StartNewLocal).unwrap();
    let build = actions.iter().position(|a| *a == SwitchAction::BuildRouting).unwrap();
    assert!(build < take && take < stop && stop < start);
    assert_eq!(actions[13], SwitchAction::CommitProfile);
    assert_eq!(actions[14], SwitchAction::Reply(SwitchReply::Switched));
}

#[test]
fn a_validation_failure_leaves_the_live_state_untouched() {
    let mut events = vec![SwitchEvent::Done; 6];
    events.push(SwitchEvent::Failed); // LoadProfile
    let actions = switch_actions(&events);
    assert_eq!(
        *actions.last().unwrap(),
        SwitchAction::Reply(SwitchReply::Failed(FailedStage::LoadProfile))
    );
    assert!(!actions.contains(&SwitchAction::TakeOldLocal));
    assert!(!actions.contains(&SwitchAction::CommitProfile));
}

#[test]
fn a_start_failure_is_reported_by_stage_and_commits_nothing() {
    let mut events = vec![SwitchEvent::Done; 11];
    events.push(SwitchEvent::TaskFailed); // StartNewLocal
    let actions = switch_actions(&events);
    assert_eq!(
        *actions.last().unwrap(),
        SwitchAction::Reply(SwitchReply::Failed(FailedStage::StartLocalTask))
    );
    assert!(actions.contains(&SwitchAction::TakeOldLocal));
    assert!(!actions.contains(&SwitchAction::CommitProfile));
    assert_eq!(stage_label(FailedStage::StartLocalTask), "start-local-task");
    assert_eq!(stage_label(FailedStage::ParseName), "parse-name");
}

#[test]
fn early_refusals_have_their_own_replies() {
    assert_eq!(
        switch_actions(&[SwitchEvent::Failed]).last(),
        Some(&SwitchAction::Reply(SwitchReply::Unauthorized))
    );
    assert_eq!(
        switch_actions(&[SwitchEvent::Done, SwitchEvent::Failed]).last(),
        Some(&SwitchAction::Reply(SwitchReply::ProfilesUnavailable))
    );
    let mut events = vec![SwitchEvent::Done; 4];
    events.push(SwitchEvent::Failed); // CheckProfileFile
    assert_eq!(
        switch_actions(&events).last(),
        Some(&SwitchAction::Reply(SwitchReply::ProfileNotFound))
    );
}

fn route_actions(plan: RoutePlan, events: &[RouteEvent]) -> Vec<RouteAction> {
    let (mut state, mut action) = route_start(plan);
    let mut actions = vec![action];
    for &event in events {
        match state {
            RouteState::At { step, emulated } => {
                (state, action) = route_step(plan, step, emulated, event);
                actions.push(action);
            }
            RouteState::Finished => break,
        }
    }
    actions
}

fn steps(actions: &[RouteAction]) -> Vec<RouteStep> {
    actions
        .iter()
        .filter_map(|a| match a {
            RouteAction::Do(step) => Some(*step),
            RouteAction::Reply(_) => None,
        })
        .collect()
}

#[test]
fn emulated_chat_completions_rewrite_then_parse() {
    let plan = RoutePlan { kind: RouteKind::Chat, stream: false };
    let mut events = vec![RouteEvent::Done, RouteEvent::Done, RouteEvent::ResolvedToolCodeDialect];
    events.extend([RouteEvent::Done; 6]);
    let actions = route_actions(plan, &events);
    assert_eq!(
        steps(&actions),
        [
            RouteStep::Authorize,
            RouteStep::ValidateRequest,
            RouteStep::ResolveModel,
            RouteStep::RequireKind,
            RouteStep::AdmitToQueue,
            RouteStep::PrepareEmulation,
            RouteStep::SendUpstream,
            RouteStep::ValidateResponse,
            RouteStep::ApplyEmulation,
        ]
    );
    assert_eq!(*actions.last().unwrap(), RouteAction::Reply(RouteReply::Json));
}

#[test]
fn streamed_completions_are_never_emulated() {
    let plan = RoutePlan { kind: RouteKind::Chat, stream: true };
    let mut events = vec![RouteEvent::Done, RouteEvent::Done, RouteEvent::ResolvedToolCodeDialect];
    events.extend([RouteEvent::Done; 3]);
    let actions = route_actions(plan, &events);
    assert!(!steps(&actions).contains(&RouteStep::PrepareEmulation));
    assert_eq!(*actions.last().unwrap(), RouteAction::Reply(RouteReply::Stream));
}

#[test]
fn embeddings_validate_the_reply_and_fail_at_the_failed_step() {
    let plan = RoutePlan { kind: RouteKind::Embedding, stream: true };
    let actions = route_actions(plan, &[RouteEvent::Done; 7]);
    assert_eq!(steps(&actions).last(), Some(&RouteStep::ValidateResponse));
    assert_eq!(*actions.last().unwrap(), RouteAction::Reply(RouteReply::Json));

    let actions = route_actions(plan, &[RouteEvent::Done, RouteEvent::Failed]);
    assert_eq!(
        *actions.last().unwrap(),
        RouteAction::Reply(RouteReply::Failed(RouteStep::ValidateRequest))
    );
    let actions = route_actions(RoutePlan { kind: RouteKind::Classifier, stream: false }, &[RouteEvent::Failed]);
    assert_eq!(
        *actions.last().unwrap(),
        RouteAction::Reply(RouteReply::Failed(RouteStep::Authorize))
    );
}

fn run_actions(plan: RunPlan, events: &[RunEvent]) -> Vec<RunAction> {
    let (mut state, mut action) = run_start(plan);
    let mut actions = vec![action];
    for &event in events {
        match state {
            RunState::At(k) => {
                (state, action) = run_step(plan, k, event);
                actions.push(action);
            }
            RunState::Finished => break,
        }
    }
    actions
}

#[test]
fn runs_use_the_configured_catalog_and_store() {
    let local = run_actions(RunPlan { remote: false, file_store: false }, &[RunEvent::Done; 8]);
    assert!(local.contains(&RunAction::Do(RunStep::UseEmptyCatalog)));
    assert!(local.contains(&RunAction::Do(RunStep::UseMemoryStore)));
    assert_eq!(*local.last().unwrap(), RunAction::Output);

    let remote = run_actions(RunPlan { remote: true, file_store: true }, &[RunEvent::Done; 8]);
    assert!(remote.contains(&RunAction::Do(RunStep::FetchModelCatalog)));
    assert!(remote.contains(&RunAction::Do(RunStep::OpenFileStore)));
}

#[test]
fn failures_carry_their_step_context() {
    let actions = run_actions(RunPlan { remote: true, file_store: false }, &[RunEvent::Done, RunEvent::Failed]);
    assert_eq!(*actions.last().unwrap(), RunAction::Failed(RunStep::CheckVersion));
    assert_eq!(
        failure_context(RunStep::CheckVersion, "/tmp/x.md", "").as_deref(),
        Some("/tmp/x.md is not a promptforge prompt: its frontmatter declares no `promptforge:` version")
    );
    assert_eq!(
        failure_context(RunStep::ReadPromptFile, "p.md", "").as_deref(),
        Some("read prompt file p.md")
    );
    assert_eq!(
        failure_context(RunStep::OpenFileStore, "p.md", "/tmp/s").as_deref(),
        Some("create store directory /tmp/s")
    );
    assert_eq!(failure_context(RunStep::Execute, "p.md", ""), None);
}
