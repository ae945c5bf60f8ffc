//! The decisions of `POST /admin/switch-profile`: which step comes next, and
//! how a failed step is answered.
//!
//! A switch is authenticated, resolves the profiles directory and the profile
//! name, serializes against other switches, and loads and validates the whole
//! new profile before touching the live state. Only then are the previous
//! local children taken out of the live state and stopped, and the new local
//! runtime started; the routing, key and web-search settings of the new
//! profile are committed in one swap after that. A failure before the old
//! children are taken leaves the live state untouched; a failure after leaves
//! the previous profile authenticated and remote-routable but without its
//! local models.

use vstd::prelude::*;

verus! {

/// One step of a profile switch, performed by the caller.
#[derive(Clone, Copy, Debug, PartialEq, Eq, Structural)]
pub enum SwitchAction {
    /// Check the request's bearer token.
    Authorize,
    /// Find the configured profiles directory.
    ResolveProfilesDir,
    /// Parse the requested profile name.
    ParseName,
    /// Take the switch mutex for the rest of the switch.
    AcquireSwitchLock,
    /// Check that `<dir>/<name>.toml` is a file.
    CheckProfileFile,
    /// Load the profile's env file into the process environment.
    LoadEnvFile,
    /// Load and validate the profile's configuration.
    LoadProfile,
    /// Check that the profile's `[server]` equals the boot file's.
    CheckServerMatchesBoot,
    /// Build the new remote routing.
    BuildRouting,
    /// Take the previous local runtime out of the live state (leaving it empty).
    TakeOldLocal,
    /// Stop the previous local children.
    ShutdownOldLocal,
    /// Start the new profile's local runtime.
    StartNewLocal,
    /// Merge the new local models into the new routing.
    MergeRouting,
    /// Swap routing, key, web search, local runtime, name and allowlist in at once.
    CommitProfile,
    /// Answer the request; the switch is over.
    Reply(SwitchReply),
}

/// How a switch is answered.
#[derive(Clone, Copy, Debug, PartialEq, Eq, Structural)]
pub enum SwitchReply {
    /// The new profile is live.
    Switched,
    /// The bearer token does not match.
    Unauthorized,
    /// No profiles directory is configured.
    ProfilesUnavailable,
    /// No `<name>.toml` in the profiles directory.
    ProfileNotFound,
    /// A step failed; the stage names it.
    Failed(FailedStage),
}

/// The stage that a failed switch reports.
#[derive(Clone, Copy, Debug, PartialEq, Eq, Structural)]
pub enum FailedStage {
    ParseName,
    LoadProfile,
    ServerMismatch,
    BuildRouting,
    ShutdownLocal,
    ShutdownLocalTask,
    StartLocal,
    StartLocalTask,
    MergeRouting,
}

/// What came of the last step.
#[derive(Clone, Copy, Debug, PartialEq, Eq, Structural)]
pub enum SwitchEvent {
    /// The step succeeded.
    Done,
    /// The step failed.
    Failed,
    /// The blocking task that ran the step failed (panicked or was cancelled).
    TaskFailed,
}

/// Where a switch stands: at step `k` of the switch order, or answered.
#[derive(Clone, Copy, Debug, PartialEq, Eq, Structural)]
pub enum SwitchState {
    At(u8),
    Finished,
}

/// The number of steps of a switch before its reply.
pub const SWITCH_STEPS: u8 = 14u8;

/// The switch order.
pub open spec fn step_action(k: int) -> SwitchAction {
    if k == 0 {
        SwitchAction::Authorize
    } else if k == 1 {
        SwitchAction::ResolveProfilesDir
    } else if k == 2 {
        SwitchAction::ParseName
    } else if k == 3 {
        SwitchAction::AcquireSwitchLock
    } else if k == 4 {
        SwitchAction::CheckProfileFile
    } else if k == 5 {
        SwitchAction::LoadEnvFile
    } else if k == 6 {
        SwitchAction::LoadProfile
    } else if k == 7 {
        SwitchAction::CheckServerMatchesBoot
    } else if k == 8 {
        SwitchAction::BuildRouting
    } else if k == 9 {
        SwitchAction::TakeOldLocal
    } else if k == 10 {
        SwitchAction::ShutdownOldLocal
    } else if k == 11 {
        SwitchAction::StartNewLocal
    } else if k == 12 {
        SwitchAction::MergeRouting
    } else {
        SwitchAction::CommitProfile
    }
}

/// The reply to a failure of step `k`, or `None` for a step that cannot fail.
pub open spec fn failure_reply(k: int, event: SwitchEvent) -> Option<SwitchReply> {
    if k == 0 {
        Some(SwitchReply::Unauthorized)
    } else if k == 1 {
        Some(SwitchReply::ProfilesUnavailable)
    } else if k == 2 {
        Some(SwitchReply::Failed(FailedStage::ParseName))
    } else if k == 4 {
        Some(SwitchReply::ProfileNotFound)
    } else if k == 6 {
        Some(SwitchReply::Failed(FailedStage::LoadProfile))
    } else if k == 7 {
        Some(SwitchReply::Failed(FailedStage::ServerMismatch))
    } else if k == 8 {
        Some(SwitchReply::Failed(FailedStage::BuildRouting))
    } else if k == 10 {
        Some(
            SwitchReply::Failed(
                if event == SwitchEvent::TaskFailed {
                    FailedStage::ShutdownLocalTask
                } else {
                    FailedStage::ShutdownLocal
                },
            ),
        )
    } else if k == 11 {
        Some(
            SwitchReply::Failed(
                if event == SwitchEvent::TaskFailed {
                    FailedStage::StartLocalTask
                } else {
                    FailedStage::StartLocal
                },
            ),
        )
    } else if k == 12 {
        Some(SwitchReply::Failed(FailedStage::MergeRouting))
    } else {
        None
    }
}

/// The next state and action after `event` ends step `k`.
pub open spec fn switch_next(k: int, event: SwitchEvent) -> (SwitchState, SwitchAction) {
    if event != SwitchEvent::Done && failure_reply(k, event) is Some {
        (SwitchState::Finished, SwitchAction::Reply(failure_reply(k, event)->0))
    } else if k + 1 < SWITCH_STEPS {
        (SwitchState::At((k + 1) as u8), step_action(k + 1))
    } else {
        (SwitchState::Finished, SwitchAction::Reply(SwitchReply::Switched))
    }
}

/// The first step of a switch.
pub fn switch_start() -> (first: (SwitchState, SwitchAction))
    ensures
        first == (SwitchState::At(0), step_action(0)),
{
    (SwitchState::At(0), SwitchAction::Authorize)
}

fn action_at(k: u8) -> (action: SwitchAction)
    requires
        k < SWITCH_STEPS,
    ensures
        action == step_action(k as int),
{
    if k == 0 {
        SwitchAction::Authorize
    } else if k == 1 {
        SwitchAction::ResolveProfilesDir
    } else if k == 2 {
        SwitchAction::ParseName
    } else if k == 3 {
        SwitchAction::AcquireSwitchLock
    } else if k == 4 {
        SwitchAction::CheckProfileFile
    } else if k == 5 {
        SwitchAction::LoadEnvFile
    } else if k == 6 {
        SwitchAction::LoadProfile
    } else if k == 7 {
        SwitchAction::CheckServerMatchesBoot
    } else if k == 8 {
        SwitchAction::BuildRouting
    } else if k == 9 {
        SwitchAction::TakeOldLocal
    } else if k == 10 {
        SwitchAction::ShutdownOldLocal
    } else if k == 11 {
        SwitchAction::StartNewLocal
    } else if k == 12 {
        SwitchAction::MergeRouting
    } else {
        SwitchAction::CommitProfile
    }
}

fn reply_for_failure(k: u8, event: SwitchEvent) -> (reply: Option<SwitchReply>)
    ensures
        reply == failure_reply(k as int, event),
{
    if k == 0 {
        Some(SwitchReply::Unauthorized)
    } else if k == 1 {
        Some(SwitchReply::ProfilesUnavailable)
    } else if k == 2 {
        Some(SwitchReply::Failed(FailedStage::ParseName))
    } else if k == 4 {
        Some(SwitchReply::ProfileNotFound)
    } else if k == 6 {
        Some(SwitchReply::Failed(FailedStage::LoadProfile))
    } else if k == 7 {
        Some(SwitchReply::Failed(FailedStage::ServerMismatch))
    } else if k == 8 {
        Some(SwitchReply::Failed(FailedStage::BuildRouting))
    } else if k == 10 {
        Some(SwitchReply::Failed(match event {
            SwitchEvent::TaskFailed => FailedStage::ShutdownLocalTask,
            _ => FailedStage::ShutdownLocal,
        }))
    } else if k == 11 {
        Some(SwitchReply::Failed(match event {
            SwitchEvent::TaskFailed => FailedStage::StartLocalTask,
            _ => FailedStage::StartLocal,
        }))
    } else if k == 12 {
        Some(SwitchReply::Failed(FailedStage::MergeRouting))
    } else {
        None
    }
}

/// The step after `event` ended step `k`: the next step of the switch order,
/// the reply to a failure, or, after the commit, the `Switched` reply. A
/// failure reported for a step that cannot fail counts as success.
pub fn switch_step(k: u8, event: SwitchEvent) -> (next: (SwitchState, SwitchAction))
    requires
        k < SWITCH_STEPS,
    ensures
        next == switch_next(k as int, event),
{
    let is_failure = match event {
        SwitchEvent::Done => false,
        _ => true,
    };
    if is_failure {
        if let Some(reply) = reply_for_failure(k, event) {
            return (SwitchState::Finished, SwitchAction::Reply(reply));
        }
    }
    if k + 1 < SWITCH_STEPS {
        (SwitchState::At(k + 1), action_at(k + 1))
    } else {
        (SwitchState::Finished, SwitchAction::Reply(SwitchReply::Switched))
    }
}

/// The stage label a failed switch reports.
pub open spec fn stage_label_of(stage: FailedStage) -> Seq<char> {
    match stage {
        FailedStage::ParseName => "parse-name"@,
        FailedStage::LoadProfile => "load-profile"@,
        FailedStage::ServerMismatch => "server-mismatch"@,
        FailedStage::BuildRouting => "build-routing"@,
        FailedStage::ShutdownLocal => "shutdown-local"@,
        FailedStage::ShutdownLocalTask => "shutdown-local-task"@,
        FailedStage::StartLocal => "start-local"@,
        FailedStage::StartLocalTask => "start-local-task"@,
        FailedStage::MergeRouting => "merge-routing"@,
    }
}

/// The stage label a failed switch reports.
pub fn stage_label(stage: FailedStage) -> (label: &'static str)
    ensures
        label@ == stage_label_of(stage),
{
    match stage {
        FailedStage::ParseName => "parse-name",
        FailedStage::LoadProfile => "load-profile",
        FailedStage::ServerMismatch => "server-mismatch",
        FailedStage::BuildRouting => "build-routing",
        FailedStage::ShutdownLocal => "shutdown-local",
        FailedStage::ShutdownLocalTask => "shutdown-local-task",
        FailedStage::StartLocal => "start-local",
        FailedStage::StartLocalTask => "start-local-task",
        FailedStage::MergeRouting => "merge-routing",
    }
}

proof fn lemma_failure_reply(k: int, event: SwitchEvent)
    ensures
        failure_reply(k, event) is Some ==> k <= 12 && failure_reply(k, event)->0
            != SwitchReply::Switched,
{
}

proof fn lemma_commit_step(i: int)
    requires
        0 <= i < SWITCH_STEPS,
        step_action(i) == SwitchAction::CommitProfile,
    ensures
        i == 13,
{
}

/// The actions a switch performs when its steps end with `events`: the first
/// step, then one action per event until the reply.
pub open spec fn switch_trace(events: Seq<SwitchEvent>) -> (SwitchState, Seq<SwitchAction>)
    decreases events.len(),
{
    if events.len() == 0 {
        (SwitchState::At(0), seq![step_action(0)])
    } else {
        let (state, actions) = switch_trace(events.drop_last());
        match state {
            SwitchState::At(k) => {
                let (next, action) = switch_next(k as int, events.last());
                (next, actions.push(action))
            },
            SwitchState::Finished => (state, actions),
        }
    }
}

/// The first `n` steps of the switch order.
pub open spec fn switch_order(n: int) -> Seq<SwitchAction> {
    Seq::new(n as nat, |k: int| step_action(k))
}

pub open spec fn is_reply(action: SwitchAction) -> bool {
    action is Reply
}

/// Every switch follows the switch order and ends, if it has ended, with one
/// reply: a switch performs a prefix of the order, then answers.
pub open spec fn trace_follows_order(state: SwitchState, actions: Seq<SwitchAction>) -> bool {
    match state {
        SwitchState::At(k) => k < SWITCH_STEPS && actions == switch_order(k + 1),
        SwitchState::Finished => actions.len() >= 2 && actions.len() - 1 <= SWITCH_STEPS
            && actions.drop_last() == switch_order(
            actions.len() - 1,
        ) && actions.last() is Reply && (actions.last() == SwitchAction::Reply(SwitchReply::Switched)
            <==> actions.len() - 1 == SWITCH_STEPS),
    }
}

/// The switch order and its single reply. Consequences: the whole new profile
/// is loaded and validated before the live state is touched; the old local
/// children are stopped before the new ones start; the profile is committed
/// only when every step succeeded, and a switch that fails commits nothing.
pub proof fn lemma_switch_follows_order(events: Seq<SwitchEvent>)
    ensures
        trace_follows_order(switch_trace(events).0, switch_trace(events).1),
    decreases events.len(),
{
    if events.len() == 0 {
        assert(seq![step_action(0)] =~= switch_order(1));
    } else {
        let prefix = events.drop_last();
        lemma_switch_follows_order(prefix);
        let (state, actions) = switch_trace(prefix);
        match state {
            SwitchState::At(k) => {
                let (next, action) = switch_next(k as int, events.last());
                let after = actions.push(action);
                lemma_failure_reply(k as int, events.last());
                match next {
                    SwitchState::At(j) => {
                        assert(after =~= switch_order(j + 1));
                    },
                    SwitchState::Finished => {
                        assert(after.drop_last() =~= switch_order(after.len() - 1));
                    },
                }
            },
            SwitchState::Finished => {},
        }
    }
}

/// A switch that commits has performed every validation and the local
/// restart first, in order; a switch answered with an error never commits.
pub proof fn lemma_commit_only_after_every_step(events: Seq<SwitchEvent>)
    ensures
        switch_trace(events).1.contains(SwitchAction::CommitProfile) ==> switch_trace(events).1.take(
            SWITCH_STEPS as int,
        ) == switch_order(SWITCH_STEPS as int),
        switch_trace(events).0 == SwitchState::Finished && switch_trace(events).1.last()
            != SwitchAction::Reply(SwitchReply::Switched) ==> !switch_trace(events).1.contains(
            SwitchAction::CommitProfile,
        ),
{
    lemma_switch_follows_order(events);
    let (state, actions) = switch_trace(events);
    if actions.contains(SwitchAction::CommitProfile) {
        let i = choose|i: int| 0 <= i < actions.len() && actions[i] == SwitchAction::CommitProfile;
        match state {
            SwitchState::At(k) => {
                assert(actions[i] == step_action(i));
                lemma_commit_step(i);
                assert(actions.take(SWITCH_STEPS as int) =~= switch_order(SWITCH_STEPS as int));
            },
            SwitchState::Finished => {
                if i < actions.len() - 1 {
                    assert(actions[i] == actions.drop_last()[i]);
                    lemma_commit_step(i);
                    assert(actions.take(SWITCH_STEPS as int) =~= actions.drop_last().take(
                        SWITCH_STEPS as int,
                    ));
                }
            },
        }
    }
    if state == SwitchState::Finished && actions.last() != SwitchAction::Reply(SwitchReply::Switched) {
        assert forall|i: int| 0 <= i < actions.len() implies actions[i] != SwitchAction::CommitProfile by {
            if i < actions.len() - 1 {
                assert(actions[i] == actions.drop_last()[i]);
                assert(actions.len() - 1 < SWITCH_STEPS);
                assert(actions[i] == step_action(i));
                if actions[i] == SwitchAction::CommitProfile {
                    lemma_commit_step(i);
                }
            }
        }
    }
}

/// The part of the gateway's live state that a switch touches: the active
/// profile's name, the bearer key, the profile's routing, web-search and
/// allowlist settings (named as one value), and the local runtime (`None`
/// once taken out and not yet replaced).
pub struct LiveView {
    pub profile: Option<Seq<char>>,
    pub key: Seq<char>,
    pub settings: int,
    pub local: Option<int>,
}

/// A merged `[server]` section: the socket the gateway listens on and its
/// bearer key.
pub struct ServerView {
    pub socket: Seq<char>,
    pub key: Seq<char>,
}

/// What a switch has staged for the new profile before it commits: its name,
/// its merged `[server]` (whose key the commit makes live), its settings and
/// its started local runtime.
pub struct StagedView {
    pub profile: Seq<char>,
    pub server: ServerView,
    pub settings: int,
    pub local: int,
}

/// The live state once the staged profile is committed.
pub open spec fn committed(staged: StagedView) -> LiveView {
    LiveView {
        profile: Some(staged.profile),
        key: staged.server.key,
        settings: staged.settings,
        local: Some(staged.local),
    }
}

/// What one switch action does to the live state: taking the old local
/// runtime leaves none; the commit swaps the whole staged profile in at once;
/// every other action leaves the live state as it is.
pub open spec fn live_effect(live: LiveView, action: SwitchAction, staged: StagedView) -> LiveView {
    match action {
        SwitchAction::TakeOldLocal => LiveView { local: None, ..live },
        SwitchAction::CommitProfile => committed(staged),
        _ => live,
    }
}

/// The live state after a sequence of switch actions.
pub open spec fn live_after(live: LiveView, staged: StagedView, actions: Seq<SwitchAction>) -> LiveView
    decreases actions.len(),
{
    if actions.len() == 0 {
        live
    } else {
        live_effect(live_after(live, staged, actions.drop_last()), actions.last(), staged)
    }
}

/// The step of the switch order that takes the old local runtime.
pub open spec fn take_old_local_step() -> int {
    9
}

proof fn lemma_live_after_order(live: LiveView, staged: StagedView, n: int)
    requires
        0 <= n <= SWITCH_STEPS,
    ensures
        n <= take_old_local_step() ==> live_after(live, staged, switch_order(n)) == live,
        take_old_local_step() < n < SWITCH_STEPS ==> live_after(live, staged, switch_order(n)) == (LiveView {
            local: None,
            ..live
        }),
        n == SWITCH_STEPS ==> live_after(live, staged, switch_order(n)) == committed(staged),
    decreases n,
{
    if n > 0 {
        lemma_live_after_order(live, staged, n - 1);
        assert(switch_order(n).drop_last() =~= switch_order(n - 1));
        assert(switch_order(n).last() == step_action(n - 1));
    }
}

/// What a switch leaves of the live state. A switch answered before it took
/// the old local runtime (every authorization, lookup, validation and
/// routing failure) leaves the live state untouched. One that fails while
/// stopping the old children, starting the new ones or merging the routing
/// leaves the previous profile, key and settings live without a local
/// runtime. One answered `Switched` leaves exactly the staged profile live.
/// And when the staged key is the live one, no switch changes the key.
pub proof fn lemma_switch_live_state(live: LiveView, staged: StagedView, events: Seq<SwitchEvent>)
    ensures
        switch_trace(events).0 == SwitchState::Finished ==> {
            let actions = switch_trace(events).1;
            let performed = actions.len() - 1;
            let after = live_after(live, staged, actions);
            &&& performed <= take_old_local_step() ==> after == live
            &&& take_old_local_step() < performed < SWITCH_STEPS ==> after == (LiveView { local: None, ..live })
            &&& actions.last() == SwitchAction::Reply(SwitchReply::Switched) ==> after == committed(staged)
        },
        staged.server.key == live.key ==> live_after(live, staged, switch_trace(events).1).key == live.key,
{
    lemma_switch_follows_order(events);
    let (state, actions) = switch_trace(events);
    match state {
        SwitchState::At(k) => {
            lemma_live_after_order(live, staged, k + 1);
        },
        SwitchState::Finished => {
            let n = actions.len() - 1;
            lemma_live_after_order(live, staged, n);
            assert(actions.drop_last() == switch_order(n));
            assert(live_after(live, staged, actions) == live_after(live, staged, switch_order(n)));
        },
    }
}

/// Event `e` lets step `k` go on: it is a success, or step `k` cannot fail.
pub open spec fn passes(k: int, e: SwitchEvent) -> bool {
    e == SwitchEvent::Done || failure_reply(k, e) is None
}

/// Event `j` of a switch ends step `j`: a switch still running after `n`
/// events is at step `n`, with every earlier step passed; a finished one was
/// answered by the event of its last step, which failed it, or by the commit.
pub proof fn lemma_switch_events_end_steps(events: Seq<SwitchEvent>)
    ensures
        switch_trace(events).0 matches SwitchState::At(k) ==> k == events.len() && forall|j: int|
            0 <= j < k ==> passes(j, #[trigger] events[j]),
        switch_trace(events).0 == SwitchState::Finished ==> {
            let actions = switch_trace(events).1;
            let m = actions.len() - 2;
            &&& 0 <= m < events.len()
            &&& forall|j: int| 0 <= j < m ==> passes(j, #[trigger] events[j])
            &&& (!passes(m, events[m]) && actions.last() == SwitchAction::Reply(failure_reply(m, events[m])->0))
                || (m == SWITCH_STEPS - 1 && passes(m, events[m]) && actions.last() == SwitchAction::Reply(
                SwitchReply::Switched,
            ))
        },
    decreases events.len(),
{
    lemma_switch_follows_order(events);
    if events.len() > 0 {
        let prefix = events.drop_last();
        lemma_switch_events_end_steps(prefix);
        lemma_switch_follows_order(prefix);
        let (state, actions) = switch_trace(prefix);
        assert forall|j: int| 0 <= j < prefix.len() implies prefix[j] == events[j] by {}
        match state {
            SwitchState::At(k) => {
                assert(events.last() == events[k as int]);
                assert(actions.len() == k + 1);
            },
            SwitchState::Finished => {},
        }
    }
}

/// The step whose check compares the profile's merged `[server]` with the
/// boot file's.
pub open spec fn server_check_step() -> int {
    7
}

/// The events report the server check as it is: it succeeds exactly when the
/// staged profile's merged `[server]` equals the boot file's.
pub open spec fn server_check_reported(events: Seq<SwitchEvent>, staged: StagedView, boot: ServerView) -> bool {
    events.len() > server_check_step() ==> (events[server_check_step()] == SwitchEvent::Done <==> staged.server
        == boot)
}

/// A profile whose merged `[server]` differs from the boot file's is refused
/// before any live change: the switch never takes the old local runtime nor
/// commits, leaves the live state as it was, and, once it has reached the
/// server check, is answered `server-mismatch` there.
pub proof fn lemma_server_mismatch_refused(
    live: LiveView,
    staged: StagedView,
    boot: ServerView,
    events: Seq<SwitchEvent>,
)
    requires
        server_check_reported(events, staged, boot),
        staged.server != boot,
    ensures
        live_after(live, staged, switch_trace(events).1) == live,
        !switch_trace(events).1.contains(SwitchAction::TakeOldLocal),
        !switch_trace(events).1.contains(SwitchAction::CommitProfile),
        switch_trace(events).0 == SwitchState::Finished && switch_trace(events).1.len() > server_check_step() + 1
            ==> switch_trace(events).1.len() == server_check_step() + 2 && switch_trace(events).1.last()
            == SwitchAction::Reply(SwitchReply::Failed(FailedStage::ServerMismatch)),
{
    lemma_switch_events_end_steps(events);
    lemma_switch_follows_order(events);
    let (state, actions) = switch_trace(events);
    let n: int = match state {
        SwitchState::At(k) => {
            if k > 7 {
                assert(passes(7, events[7]));
            }
            lemma_live_after_order(live, staged, k + 1);
            k + 1
        },
        SwitchState::Finished => {
            let m = actions.len() - 2;
            if m > 7 {
                assert(passes(7, events[7]));
            }
            m + 1
        },
    };
    assert(n <= 8);
    assert(actions.take(n) == switch_order(n)) by {
        match state {
            SwitchState::At(k) => {
                assert(actions.take(n) =~= actions);
            },
            SwitchState::Finished => {
                assert(actions.take(n) =~= actions.drop_last());
            },
        }
    }
    assert forall|i: int| 0 <= i < actions.len() implies actions[i] != SwitchAction::TakeOldLocal && actions[i]
        != SwitchAction::CommitProfile by {
        if i < n {
            assert(actions[i] == actions.take(n)[i]);
            assert(actions[i] == step_action(i));
        }
    }
    lemma_switch_live_state(live, staged, events);
}

/// One switch never rotates the bearer key: when the live key is the boot
/// file's and the server check reports truly, the live key after the switch
/// is still the boot file's, whatever the switch's outcome.
pub proof fn lemma_switch_keeps_key(live: LiveView, staged: StagedView, boot: ServerView, events: Seq<SwitchEvent>)
    requires
        live.key == boot.key,
        server_check_reported(events, staged, boot),
    ensures
        live_after(live, staged, switch_trace(events).1).key == boot.key,
{
    lemma_switch_events_end_steps(events);
    lemma_switch_follows_order(events);
    lemma_switch_live_state(live, staged, events);
    let (state, actions) = switch_trace(events);
    match state {
        SwitchState::At(k) => {
            lemma_live_after_order(live, staged, k + 1);
            if k > 7 {
                assert(passes(7, events[7]));
            }
        },
        SwitchState::Finished => {
            let m = actions.len() - 2;
            if m > 7 {
                assert(passes(7, events[7]));
            }
        },
    }
}

/// One profile switch request: what it staged and how its steps ended.
pub struct SwitchCall {
    pub staged: StagedView,
    pub events: Seq<SwitchEvent>,
}

/// The live state after a sequence of switch requests, one after another.
pub open spec fn live_after_calls(live: LiveView, calls: Seq<SwitchCall>) -> LiveView
    decreases calls.len(),
{
    if calls.len() == 0 {
        live
    } else {
        let before = live_after_calls(live, calls.drop_last());
        live_after(before, calls.last().staged, switch_trace(calls.last().events).1)
    }
}

/// The boot file owns `[server]`, so switches never rotate the admin
/// credential: after any sequence of switch requests, successful or failed,
/// the live bearer key is still the boot file's. (The socket is bound at boot
/// and is no part of the live state a switch touches.)
pub proof fn lemma_key_never_rotates(live: LiveView, boot: ServerView, calls: Seq<SwitchCall>)
    requires
        live.key == boot.key,
        forall|i: int| 0 <= i < calls.len() ==> server_check_reported(#[trigger] calls[i].events, calls[i].staged, boot),
    ensures
        live_after_calls(live, calls).key == boot.key,
    decreases calls.len(),
{
    if calls.len() > 0 {
        let prefix = calls.drop_last();
        assert forall|i: int| 0 <= i < prefix.len() implies server_check_reported(
            #[trigger] prefix[i].events,
            prefix[i].staged,
            boot,
        ) by {
            assert(prefix[i] == calls[i]);
        }
        lemma_key_never_rotates(live, boot, prefix);
        let last = calls[calls.len() - 1];
        lemma_switch_keeps_key(live_after_calls(live, prefix), last.staged, boot, last.events);
    }
}

/// Action `a` is performed at some step of the switch order.
pub open spec fn switch_performs(a: SwitchAction) -> bool {
    exists|i: int| 0 <= i < SWITCH_STEPS && #[trigger] step_action(i) == a
}

/// Wherever `a` and `b` stand in the switch order, `a` comes first.
pub open spec fn switch_before(a: SwitchAction, b: SwitchAction) -> bool {
    forall|i: int, j: int|
        0 <= i < SWITCH_STEPS && 0 <= j < SWITCH_STEPS && #[trigger] step_action(i) == a && #[trigger] step_action(j)
            == b ==> i < j
}

/// The documented order of a switch: the bearer token is checked first; the
/// profiles directory, the name and the switch lock come before the profile
/// file is looked at; its env file loads before the profile is loaded; the
/// whole new profile is loaded, checked against the boot `[server]` and
/// routed before the live state is touched; the old local runtime is taken
/// and stopped before the new one starts; the routing is merged after the
/// start; and the commit is the last step.
pub proof fn lemma_switch_order_documented()
    ensures
        step_action(0) == SwitchAction::Authorize,
        step_action(SWITCH_STEPS - 1) == SwitchAction::CommitProfile,
        switch_before(SwitchAction::Authorize, SwitchAction::ResolveProfilesDir),
        switch_before(SwitchAction::ResolveProfilesDir, SwitchAction::ParseName),
        switch_before(SwitchAction::ParseName, SwitchAction::AcquireSwitchLock),
        switch_before(SwitchAction::AcquireSwitchLock, SwitchAction::CheckProfileFile),
        switch_before(SwitchAction::CheckProfileFile, SwitchAction::LoadEnvFile),
        switch_before(SwitchAction::LoadEnvFile, SwitchAction::LoadProfile),
        switch_before(SwitchAction::LoadProfile, SwitchAction::CheckServerMatchesBoot),
        switch_before(SwitchAction::CheckServerMatchesBoot, SwitchAction::BuildRouting),
        switch_before(SwitchAction::BuildRouting, SwitchAction::TakeOldLocal),
        switch_before(SwitchAction::TakeOldLocal, SwitchAction::ShutdownOldLocal),
        switch_before(SwitchAction::ShutdownOldLocal, SwitchAction::StartNewLocal),
        switch_before(SwitchAction::StartNewLocal, SwitchAction::MergeRouting),
        switch_before(SwitchAction::MergeRouting, SwitchAction::CommitProfile),
        switch_performs(SwitchAction::Authorize),
        switch_performs(SwitchAction::ResolveProfilesDir),
        switch_performs(SwitchAction::ParseName),
        switch_performs(SwitchAction::AcquireSwitchLock),
        switch_performs(SwitchAction::CheckProfileFile),
        switch_performs(SwitchAction::LoadEnvFile),
        switch_performs(SwitchAction::LoadProfile),
        switch_performs(SwitchAction::CheckServerMatchesBoot),
        switch_performs(SwitchAction::BuildRouting),
        switch_performs(SwitchAction::TakeOldLocal),
        switch_performs(SwitchAction::ShutdownOldLocal),
        switch_performs(SwitchAction::StartNewLocal),
        switch_performs(SwitchAction::MergeRouting),
        switch_performs(SwitchAction::CommitProfile),
{
    assert(step_action(0) == SwitchAction::Authorize);
    assert(step_action(1) == SwitchAction::ResolveProfilesDir);
    assert(step_action(2) == SwitchAction::ParseName);
    assert(step_action(3) == SwitchAction::AcquireSwitchLock);
    assert(step_action(4) == SwitchAction::CheckProfileFile);
    assert(step_action(5) == SwitchAction::LoadEnvFile);
    assert(step_action(6) == SwitchAction::LoadProfile);
    assert(step_action(7) == SwitchAction::CheckServerMatchesBoot);
    assert(step_action(8) == SwitchAction::BuildRouting);
    assert(step_action(9) == SwitchAction::TakeOldLocal);
    assert(step_action(10) == SwitchAction::ShutdownOldLocal);
    assert(step_action(11) == SwitchAction::StartNewLocal);
    assert(step_action(12) == SwitchAction::MergeRouting);
    assert(step_action(13) == SwitchAction::CommitProfile);
}

/// The switch after events `events`, all successes up to step `k`: it is
/// still running, at step `k`, having performed the first `k + 1` actions.
proof fn lemma_switch_runs_while_done(events: Seq<SwitchEvent>, k: int)
    requires
        0 <= k < SWITCH_STEPS,
        k <= events.len(),
        forall|j: int| 0 <= j < k ==> #[trigger] events[j] == SwitchEvent::Done,
    ensures
        switch_trace(events.take(k)) == (SwitchState::At(k as u8), switch_order(k + 1)),
    decreases k,
{
    if k == 0 {
        assert(events.take(0) =~= Seq::<SwitchEvent>::empty());
        assert(seq![step_action(0)] =~= switch_order(1));
    } else {
        lemma_switch_runs_while_done(events, k - 1);
        assert(events.take(k).drop_last() =~= events.take(k - 1));
        assert(events.take(k).last() == events[k - 1]);
        assert(switch_order(k).push(step_action(k)) =~= switch_order(k + 1));
    }
}

/// Where a switch stands once the events up to and including the one of
/// step `k` are in, and the last action it was given.
pub open spec fn switch_answer_after(events: Seq<SwitchEvent>, k: int) -> (SwitchState, SwitchAction) {
    let (state, actions) = switch_trace(events.take(k + 1));
    (state, actions.last())
}

/// How a switch answers the first step that did not succeed. A failure of
/// the token check, the profiles directory, the name, the profile file, the
/// profile load, the `[server]` check, the routing build, the teardown of the
/// old local children, the start of the new ones or the routing merge ends
/// the switch right there, answered with that failure (a teardown or start
/// whose blocking task failed is told apart); the lock, the env file, taking
/// the old runtime and the commit cannot fail, and the switch goes on; so a
/// switch is answered `Switched` only when every fallible step succeeded.
pub proof fn lemma_switch_failures_answered(events: Seq<SwitchEvent>, k: int)
    requires
        0 <= k < events.len(),
        k < SWITCH_STEPS,
        forall|j: int| 0 <= j < k ==> #[trigger] events[j] == SwitchEvent::Done,
        events[k] != SwitchEvent::Done,
    ensures
        ({
            let (state, last) = switch_answer_after(events, k);
            let task = events[k] == SwitchEvent::TaskFailed;
            &&& k == 0 ==> state == SwitchState::Finished && last == SwitchAction::Reply(SwitchReply::Unauthorized)
            &&& k == 1 ==> state == SwitchState::Finished && last == SwitchAction::Reply(
                SwitchReply::ProfilesUnavailable,
            )
            &&& k == 2 ==> state == SwitchState::Finished && last == SwitchAction::Reply(
                SwitchReply::Failed(FailedStage::ParseName),
            )
            &&& k == 4 ==> state == SwitchState::Finished && last == SwitchAction::Reply(SwitchReply::ProfileNotFound)
            &&& k == 6 ==> state == SwitchState::Finished && last == SwitchAction::Reply(
                SwitchReply::Failed(FailedStage::LoadProfile),
            )
            &&& k == 7 ==> state == SwitchState::Finished && last == SwitchAction::Reply(
                SwitchReply::Failed(FailedStage::ServerMismatch),
            )
            &&& k == 8 ==> state == SwitchState::Finished && last == SwitchAction::Reply(
                SwitchReply::Failed(FailedStage::BuildRouting),
            )
            &&& k == 10 ==> state == SwitchState::Finished && last == SwitchAction::Reply(
                SwitchReply::Failed(if task { FailedStage::ShutdownLocalTask } else { FailedStage::ShutdownLocal }),
            )
            &&& k == 11 ==> state == SwitchState::Finished && last == SwitchAction::Reply(
                SwitchReply::Failed(if task { FailedStage::StartLocalTask } else { FailedStage::StartLocal }),
            )
            &&& k == 12 ==> state == SwitchState::Finished && last == SwitchAction::Reply(
                SwitchReply::Failed(FailedStage::MergeRouting),
            )
            &&& (k == 3 || k == 5 || k == 9) ==> state == SwitchState::At((k + 1) as u8)
            &&& k == 13 ==> state == SwitchState::Finished && last == SwitchAction::Reply(SwitchReply::Switched)
        }),
{
    lemma_switch_runs_while_done(events, k);
    assert(events.take(k + 1).drop_last() =~= events.take(k));
    assert(events.take(k + 1).last() == events[k]);
}

/// A switch whose teardown of the old local children did not succeed never
/// starts new children on top of the survivors, never merges their routing
/// and never commits.
pub proof fn lemma_failed_teardown_starts_nothing(events: Seq<SwitchEvent>)
    requires
        events.len() > 10,
        events[10] != SwitchEvent::Done,
    ensures
        !switch_trace(events).1.contains(SwitchAction::StartNewLocal),
        !switch_trace(events).1.contains(SwitchAction::MergeRouting),
        !switch_trace(events).1.contains(SwitchAction::CommitProfile),
{
    lemma_switch_events_end_steps(events);
    lemma_switch_follows_order(events);
    lemma_switch_order_documented();
    let (state, actions) = switch_trace(events);
    let n: int = match state {
        SwitchState::At(k) => k + 1,
        SwitchState::Finished => actions.len() - 1,
    };
    match state {
        SwitchState::At(k) => {
            assert(k == events.len());
            assert(passes(10, events[10]));
            assert(false);
        },
        SwitchState::Finished => {
            let m = actions.len() - 2;
            if m > 10 {
                assert(passes(10, events[10]));
            }
            assert(m <= 10);
        },
    }
    assert forall|i: int| 0 <= i < actions.len() implies actions[i] != SwitchAction::StartNewLocal
        && actions[i] != SwitchAction::MergeRouting && actions[i] != SwitchAction::CommitProfile by {
        if i < n {
            assert(actions[i] == actions.drop_last()[i]);
            assert(actions[i] == step_action(i));
        }
    }
}

} // verus!
