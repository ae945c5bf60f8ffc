//! The decisions of one command-line run: the order of its steps, which
//! model catalog and store it uses, and how a failed step is reported.
//!
//! A run reads the prompt file, declines a file whose frontmatter declares no
//! `promptforge:` version, parses the prompt, assembles the tool set and the
//! tool picker, takes the model catalog from the gateway when one is
//! configured (an empty catalog otherwise), opens a file-backed store when a
//! store directory is given (an in-memory one otherwise), and executes the
//! prompt. Each failure but the execution's own carries the context of its
//! step.

use vstd::prelude::*;
use vstd::string::StringExecFns;

verus! {

/// One step of a run, performed by the caller.
#[derive(Clone, Copy, Debug, PartialEq, Eq, Structural)]
pub enum RunStep {
    ReadPromptFile,
    CheckVersion,
    ParsePrompt,
    AssembleTools,
    BuildPicker,
    FetchModelCatalog,
    UseEmptyCatalog,
    OpenFileStore,
    UseMemoryStore,
    Execute,
}

/// What the caller does next: a step, or the end of the run.
#[derive(Clone, Copy, Debug, PartialEq, Eq, Structural)]
pub enum RunAction {
    Do(RunStep),
    /// The run produced its output.
    Output,
    /// The run failed at this step.
    Failed(RunStep),
}

/// What a run is configured with: a remote gateway or not, a store directory
/// or not.
#[derive(Clone, Copy, Debug, PartialEq, Eq, Structural)]
pub struct RunPlan {
    pub remote: bool,
    pub file_store: bool,
}

/// What came of the last step.
#[derive(Clone, Copy, Debug, PartialEq, Eq, Structural)]
pub enum RunEvent {
    Done,
    Failed,
}

/// Where a run stands.
#[derive(Clone, Copy, Debug, PartialEq, Eq, Structural)]
pub enum RunState {
    At(u8),
    Finished,
}

/// The number of steps of every run.
pub const RUN_STEPS: u8 = 8u8;

/// The order of a run's steps.
pub open spec fn run_order(plan: RunPlan) -> Seq<RunStep> {
    seq![
        RunStep::ReadPromptFile,
        RunStep::CheckVersion,
        RunStep::ParsePrompt,
        RunStep::AssembleTools,
        RunStep::BuildPicker,
        if plan.remote { RunStep::FetchModelCatalog } else { RunStep::UseEmptyCatalog },
        if plan.file_store { RunStep::OpenFileStore } else { RunStep::UseMemoryStore },
        RunStep::Execute,
    ]
}

/// The steps that do no work that can fail.
pub open spec fn infallible(step: RunStep) -> bool {
    step == RunStep::UseEmptyCatalog || step == RunStep::UseMemoryStore
}

/// The next state and action after `event` ends step `k`.
pub open spec fn run_next(plan: RunPlan, k: int, event: RunEvent) -> (RunState, RunAction) {
    let step = run_order(plan)[k];
    if event == RunEvent::Failed && !infallible(step) {
        (RunState::Finished, RunAction::Failed(step))
    } else if k + 1 < RUN_STEPS {
        (RunState::At((k + 1) as u8), RunAction::Do(run_order(plan)[k + 1]))
    } else {
        (RunState::Finished, RunAction::Output)
    }
}

fn step_at(plan: RunPlan, k: u8) -> (step: RunStep)
    requires
        k < RUN_STEPS,
    ensures
        step == run_order(plan)[k as int],
{
    if k == 0 {
        RunStep::ReadPromptFile
    } else if k == 1 {
        RunStep::CheckVersion
    } else if k == 2 {
        RunStep::ParsePrompt
    } else if k == 3 {
        RunStep::AssembleTools
    } else if k == 4 {
        RunStep::BuildPicker
    } else if k == 5 {
        if plan.remote { RunStep::FetchModelCatalog } else { RunStep::UseEmptyCatalog }
    } else if k == 6 {
        if plan.file_store { RunStep::OpenFileStore } else { RunStep::UseMemoryStore }
    } else {
        RunStep::Execute
    }
}

/// The first step of a run.
pub fn run_start(plan: RunPlan) -> (first: (RunState, RunAction))
    ensures
        first == (RunState::At(0), RunAction::Do(run_order(plan)[0])),
{
    (RunState::At(0), RunAction::Do(RunStep::ReadPromptFile))
}

/// The step after `event` ended step `k`: the next step of the run's order,
/// the failure of a step that can fail, or the output after the execution.
pub fn run_step(plan: RunPlan, k: u8, event: RunEvent) -> (next: (RunState, RunAction))
    requires
        k < RUN_STEPS,
    ensures
        next == run_next(plan, k as int, event),
{
    let step = step_at(plan, k);
    let fallible = match step {
        RunStep::UseEmptyCatalog | RunStep::UseMemoryStore => false,
        _ => true,
    };
    if event == RunEvent::Failed && fallible {
        (RunState::Finished, RunAction::Failed(step))
    } else if k + 1 < RUN_STEPS {
        (RunState::At(k + 1), RunAction::Do(step_at(plan, k + 1)))
    } else {
        (RunState::Finished, RunAction::Output)
    }
}

/// The context a failed step adds to its error, naming the prompt file or the
/// store directory where the step concerns one; the execution's own errors
/// carry none.
pub open spec fn failure_context_of(step: RunStep, file: Seq<char>, store_dir: Seq<char>) -> Option<
    Seq<char>,
> {
    match step {
        RunStep::ReadPromptFile => Some("read prompt file "@ + file),
        RunStep::CheckVersion => Some(
            file
                + " is not a promptforge prompt: its frontmatter declares no `promptforge:` version"@,
        ),
        RunStep::ParsePrompt => Some("parse prompt file "@ + file),
        RunStep::AssembleTools => Some("assemble the CLI tool set"@),
        RunStep::BuildPicker => Some("build the tool picker"@),
        RunStep::FetchModelCatalog => Some("fetch the model catalog"@),
        RunStep::OpenFileStore => Some("create store directory "@ + store_dir),
        _ => None,
    }
}

/// The context a failed step adds to its error (`file` and `store_dir` as
/// the paths display).
pub fn failure_context(step: RunStep, file: &str, store_dir: &str) -> (context: Option<String>)
    ensures
        match context {
            Some(c) => failure_context_of(step, file@, store_dir@) == Some(c@),
            None => failure_context_of(step, file@, store_dir@) is None,
        },
{
    match step {
        RunStep::ReadPromptFile => Some("read prompt file ".to_owned().concat(file)),
        RunStep::CheckVersion => Some(
            file.to_owned().concat(
                " is not a promptforge prompt: its frontmatter declares no `promptforge:` version",
            ),
        ),
        RunStep::ParsePrompt => Some("parse prompt file ".to_owned().concat(file)),
        RunStep::AssembleTools => Some("assemble the CLI tool set".to_owned()),
        RunStep::BuildPicker => Some("build the tool picker".to_owned()),
        RunStep::FetchModelCatalog => Some("fetch the model catalog".to_owned()),
        RunStep::OpenFileStore => Some("create store directory ".to_owned().concat(store_dir)),
        _ => None,
    }
}

/// The actions a run performs when its steps end with `events`.
pub open spec fn run_trace(plan: RunPlan, events: Seq<RunEvent>) -> (RunState, Seq<RunAction>)
    decreases events.len(),
{
    if events.len() == 0 {
        (RunState::At(0), seq![RunAction::Do(run_order(plan)[0])])
    } else {
        let (state, actions) = run_trace(plan, events.drop_last());
        match state {
            RunState::At(k) => {
                let (next, action) = run_next(plan, k as int, events.last());
                (next, actions.push(action))
            },
            RunState::Finished => (state, actions),
        }
    }
}

/// The first `n` steps of a run's order, as actions.
pub open spec fn run_prefix(plan: RunPlan, n: int) -> Seq<RunAction> {
    Seq::new(n as nat, |i: int| RunAction::Do(run_order(plan)[i]))
}

/// A run performs a prefix of its order and, once over, ends with its output
/// (after every step) or with the failure of the last step it attempted.
pub open spec fn run_follows_order(plan: RunPlan, state: RunState, actions: Seq<RunAction>) -> bool {
    match state {
        RunState::At(k) => k < RUN_STEPS && actions == run_prefix(plan, k + 1),
        RunState::Finished => {
            &&& 2 <= actions.len() <= RUN_STEPS + 1
            &&& actions.drop_last() == run_prefix(plan, actions.len() - 1)
            &&& (actions.last() == RunAction::Output ==> actions.len() - 1 == RUN_STEPS)
            &&& (actions.last() == RunAction::Output || actions.last() == RunAction::Failed(
                run_order(plan)[actions.len() - 2],
            ))
        },
    }
}

/// Every run follows its order. Consequences: the model catalog is fetched
/// exactly when a remote gateway is configured, and the store is file-backed
/// exactly when a store directory is given; a file is parsed only after its
/// version was checked, and executed only after the tools, picker, catalog
/// and store are ready.
pub proof fn lemma_run_follows_order(plan: RunPlan, events: Seq<RunEvent>)
    ensures
        run_follows_order(plan, run_trace(plan, events).0, run_trace(plan, events).1),
    decreases events.len(),
{
    if events.len() == 0 {
        assert(seq![RunAction::Do(run_order(plan)[0])] =~= run_prefix(plan, 1));
    } else {
        let prefix = events.drop_last();
        lemma_run_follows_order(plan, prefix);
        let (state, actions) = run_trace(plan, prefix);
        match state {
            RunState::At(k) => {
                let (next, action) = run_next(plan, k as int, events.last());
                let after = actions.push(action);
                match next {
                    RunState::At(j) => {
                        assert(after =~= run_prefix(plan, j + 1));
                    },
                    RunState::Finished => {
                        assert(after.drop_last() =~= run_prefix(plan, after.len() - 1));
                    },
                }
            },
            RunState::Finished => {},
        }
    }
}

/// The catalog and store steps of a run's order follow its configuration.
pub proof fn lemma_run_order_resources(plan: RunPlan)
    ensures
        run_order(plan).contains(RunStep::FetchModelCatalog) <==> plan.remote,
        run_order(plan).contains(RunStep::OpenFileStore) <==> plan.file_store,
{
    let order = run_order(plan);
    if plan.remote {
        assert(order[5] == RunStep::FetchModelCatalog);
    }
    if plan.file_store {
        assert(order[6] == RunStep::OpenFileStore);
    }
}

/// Wherever steps `a` and `b` stand in a run's order, `a` comes first.
pub open spec fn run_before(plan: RunPlan, a: RunStep, b: RunStep) -> bool {
    forall|i: int, j: int|
        0 <= i < RUN_STEPS && 0 <= j < RUN_STEPS && #[trigger] run_order(plan)[i] == a && #[trigger] run_order(
            plan,
        )[j] == b ==> i < j
}

/// A failed step fails the run, answered with that step, except the two
/// steps that do no work that can fail: taking the empty model catalog and
/// taking the in-memory store, whose failure the run passes over as a
/// success. In particular a model catalog that could not be fetched, or a
/// store directory that could not be created, fails the run.
pub proof fn lemma_run_failures_fail_the_run(plan: RunPlan, k: int)
    requires
        0 <= k < RUN_STEPS,
    ensures
        run_order(plan)[k] != RunStep::UseEmptyCatalog && run_order(plan)[k] != RunStep::UseMemoryStore
            ==> run_next(plan, k, RunEvent::Failed) == (RunState::Finished, RunAction::Failed(run_order(plan)[k])),
        run_order(plan)[k] == RunStep::UseEmptyCatalog || run_order(plan)[k] == RunStep::UseMemoryStore
            ==> run_next(plan, k, RunEvent::Failed) == run_next(plan, k, RunEvent::Done),
        run_next(plan, k, RunEvent::Done) == (if k + 1 < RUN_STEPS {
            (RunState::At((k + 1) as u8), RunAction::Do(run_order(plan)[k + 1]))
        } else {
            (RunState::Finished, RunAction::Output)
        }),
{
}

/// The documented order of a run: the prompt file is read first; its version
/// is checked before it is parsed; the tools and then the picker are
/// assembled after parsing; the model catalog comes after the picker and
/// before the store; and the prompt is executed last, after everything else.
pub proof fn lemma_run_order_documented(plan: RunPlan)
    ensures
        run_order(plan).len() == RUN_STEPS,
        run_order(plan)[0] == RunStep::ReadPromptFile,
        run_order(plan)[RUN_STEPS - 1] == RunStep::Execute,
        run_before(plan, RunStep::ReadPromptFile, RunStep::CheckVersion),
        run_before(plan, RunStep::CheckVersion, RunStep::ParsePrompt),
        run_before(plan, RunStep::ParsePrompt, RunStep::AssembleTools),
        run_before(plan, RunStep::AssembleTools, RunStep::BuildPicker),
        run_before(plan, RunStep::BuildPicker, RunStep::FetchModelCatalog),
        run_before(plan, RunStep::BuildPicker, RunStep::UseEmptyCatalog),
        run_before(plan, RunStep::FetchModelCatalog, RunStep::OpenFileStore),
        run_before(plan, RunStep::FetchModelCatalog, RunStep::UseMemoryStore),
        run_before(plan, RunStep::UseEmptyCatalog, RunStep::OpenFileStore),
        run_before(plan, RunStep::UseEmptyCatalog, RunStep::UseMemoryStore),
        run_before(plan, RunStep::OpenFileStore, RunStep::Execute),
        run_before(plan, RunStep::UseMemoryStore, RunStep::Execute),
        forall|i: int| 0 <= i < RUN_STEPS - 1 ==> #[trigger] run_order(plan)[i] != RunStep::Execute,
{
}

} // verus!
