//! The decisions of the gateway's inference routes (`POST /v1/chat/completions`,
//! `POST /v1/embeddings`, `POST /v1/rerank`): which step comes next, and how a
//! failed step is answered.
//!
//! Every route authenticates, validates the request, resolves its model,
//! checks the model's kind and admits the request to the model's dominion
//! queue before any upstream traffic. A non-streaming chat completion on a
//! model with the emulated tool-code dialect has its request rewritten before
//! the call and its reply's fences parsed after it; a streaming completion is
//! never emulated and is relayed as it arrives. A non-streaming reply is
//! validated before it is returned.

use vstd::prelude::*;

verus! {

/// The kind of model a route serves.
#[derive(Clone, Copy, Debug, PartialEq, Eq, Structural)]
pub enum RouteKind {
    /// `POST /v1/chat/completions`, `kind = "chat"`.
    Chat,
    /// `POST /v1/embeddings`, `kind = "embedding"`.
    Embedding,
    /// `POST /v1/rerank`, `kind = "classifier"`.
    Classifier,
}

/// One step of an inference request, performed by the caller.
#[derive(Clone, Copy, Debug, PartialEq, Eq, Structural)]
pub enum RouteStep {
    /// Check the request's bearer token.
    Authorize,
    /// Validate the request body.
    ValidateRequest,
    /// Resolve the request's model through the live routing.
    ResolveModel,
    /// Check that the model serves this route's kind.
    RequireKind,
    /// Wait for a permit from the model's dominion queue.
    AdmitToQueue,
    /// Rewrite the request for the emulated tool-code dialect.
    PrepareEmulation,
    /// Open the upstream chunk stream.
    OpenStream,
    /// Send the request upstream and wait for the reply.
    SendUpstream,
    /// Validate the upstream reply.
    ValidateResponse,
    /// Parse the reply's tool-code fences into tool calls.
    ApplyEmulation,
}

/// What the caller does next: a step, or the answer.
#[derive(Clone, Copy, Debug, PartialEq, Eq, Structural)]
pub enum RouteAction {
    Do(RouteStep),
    /// Answer the request; it is over.
    Reply(RouteReply),
}

/// How an inference request is answered.
#[derive(Clone, Copy, Debug, PartialEq, Eq, Structural)]
pub enum RouteReply {
    /// The validated reply as JSON.
    Json,
    /// The chunk stream relayed as server-sent events, holding the permit.
    Stream,
    /// The step that failed, whose error is the answer.
    Failed(RouteStep),
}

/// What came of the last step.
#[derive(Clone, Copy, Debug, PartialEq, Eq, Structural)]
pub enum RouteEvent {
    /// The step succeeded.
    Done,
    /// The model was resolved and speaks the emulated tool-code dialect.
    ResolvedToolCodeDialect,
    /// The step failed.
    Failed,
}

/// What a request is: the route's kind and whether it asked to stream.
#[derive(Clone, Copy, Debug, PartialEq, Eq, Structural)]
pub struct RoutePlan {
    pub kind: RouteKind,
    pub stream: bool,
}

/// Where a request stands: at step `k` of its order, knowing whether it is
/// emulated, or answered.
#[derive(Clone, Copy, Debug, PartialEq, Eq, Structural)]
pub enum RouteState {
    At { step: u8, emulated: bool },
    Finished,
}

/// Whether a request is streamed: only chat completions stream.
pub open spec fn streams(plan: RoutePlan) -> bool {
    plan.kind == RouteKind::Chat && plan.stream
}

/// The order of a request's steps before its reply.
pub open spec fn route_order(plan: RoutePlan, emulated: bool) -> Seq<RouteAction> {
    let head = seq![
        RouteAction::Do(RouteStep::Authorize),
        RouteAction::Do(RouteStep::ValidateRequest),
        RouteAction::Do(RouteStep::ResolveModel),
        RouteAction::Do(RouteStep::RequireKind),
        RouteAction::Do(RouteStep::AdmitToQueue),
    ];
    if streams(plan) {
        head.push(RouteAction::Do(RouteStep::OpenStream))
    } else if emulated {
        head + seq![
            RouteAction::Do(RouteStep::PrepareEmulation),
            RouteAction::Do(RouteStep::SendUpstream),
            RouteAction::Do(RouteStep::ValidateResponse),
            RouteAction::Do(RouteStep::ApplyEmulation),
        ]
    } else {
        head + seq![RouteAction::Do(RouteStep::SendUpstream), RouteAction::Do(RouteStep::ValidateResponse)]
    }
}

/// The reply once every step succeeded.
pub open spec fn success_reply(plan: RoutePlan) -> RouteReply {
    if streams(plan) {
        RouteReply::Stream
    } else {
        RouteReply::Json
    }
}

/// Whether a request is emulated once its model is resolved: a
/// non-streaming chat completion on a tool-code-dialect model.
pub open spec fn emulated_after(plan: RoutePlan, event: RouteEvent) -> bool {
    plan.kind == RouteKind::Chat && !plan.stream && event == RouteEvent::ResolvedToolCodeDialect
}

/// The next state and action after `event` ends step `k`.
pub open spec fn route_next(plan: RoutePlan, k: int, emulated: bool, event: RouteEvent) -> (
    RouteState,
    RouteAction,
) {
    let order = route_order(plan, emulated);
    if event == RouteEvent::Failed && order[k] != RouteAction::Do(RouteStep::ApplyEmulation) {
        (RouteState::Finished, RouteAction::Reply(RouteReply::Failed(order[k]->Do_0)))
    } else {
        let emulated = if order[k] == RouteAction::Do(RouteStep::ResolveModel) {
            emulated_after(plan, event)
        } else {
            emulated
        };
        let order = route_order(plan, emulated);
        if k + 1 < order.len() {
            (RouteState::At { step: (k + 1) as u8, emulated }, order[k + 1])
        } else {
            (RouteState::Finished, RouteAction::Reply(success_reply(plan)))
        }
    }
}

fn order_len(plan: RoutePlan, emulated: bool) -> (len: u8)
    ensures
        len == route_order(plan, emulated).len(),
{
    if plan.kind == RouteKind::Chat && plan.stream {
        6
    } else if emulated {
        9
    } else {
        7
    }
}

fn action_at(plan: RoutePlan, emulated: bool, k: u8) -> (action: RouteAction)
    requires
        k < route_order(plan, emulated).len(),
    ensures
        action == route_order(plan, emulated)[k as int],
{
    let streamed = plan.kind == RouteKind::Chat && plan.stream;
    if k == 0 {
        RouteAction::Do(RouteStep::Authorize)
    } else if k == 1 {
        RouteAction::Do(RouteStep::ValidateRequest)
    } else if k == 2 {
        RouteAction::Do(RouteStep::ResolveModel)
    } else if k == 3 {
        RouteAction::Do(RouteStep::RequireKind)
    } else if k == 4 {
        RouteAction::Do(RouteStep::AdmitToQueue)
    } else if streamed {
        RouteAction::Do(RouteStep::OpenStream)
    } else if emulated {
        if k == 5 {
            RouteAction::Do(RouteStep::PrepareEmulation)
        } else if k == 6 {
            RouteAction::Do(RouteStep::SendUpstream)
        } else if k == 7 {
            RouteAction::Do(RouteStep::ValidateResponse)
        } else {
            RouteAction::Do(RouteStep::ApplyEmulation)
        }
    } else if k == 5 {
        RouteAction::Do(RouteStep::SendUpstream)
    } else {
        RouteAction::Do(RouteStep::ValidateResponse)
    }
}

/// The first step of a request.
pub fn route_start(plan: RoutePlan) -> (first: (RouteState, RouteAction))
    ensures
        first == (RouteState::At { step: 0, emulated: false }, route_order(plan, false)[0]),
{
    (RouteState::At { step: 0, emulated: false }, RouteAction::Do(RouteStep::Authorize))
}

/// The step after `event` ended step `k`: the next step of the request's
/// order, the failed step as the answer, or the success reply. Resolving a
/// tool-code-dialect model makes a non-streaming chat completion emulated.
/// Parsing the reply's fences cannot fail; a failure reported for it counts
/// as success.
pub fn route_step(plan: RoutePlan, k: u8, emulated: bool, event: RouteEvent) -> (next: (
    RouteState,
    RouteAction,
))
    requires
        k < route_order(plan, emulated).len(),
    ensures
        next == route_next(plan, k as int, emulated, event),
{
    let current = action_at(plan, emulated, k);
    if event == RouteEvent::Failed && current != RouteAction::Do(RouteStep::ApplyEmulation) {
        if let RouteAction::Do(step) = current {
            return (RouteState::Finished, RouteAction::Reply(RouteReply::Failed(step)));
        }
    }
    let emulated = if current == RouteAction::Do(RouteStep::ResolveModel) {
        plan.kind == RouteKind::Chat && !plan.stream && event == RouteEvent::ResolvedToolCodeDialect
    } else {
        emulated
    };
    if k + 1 < order_len(plan, emulated) {
        (RouteState::At { step: k + 1, emulated }, action_at(plan, emulated, k + 1))
    } else if plan.kind == RouteKind::Chat && plan.stream {
        (RouteState::Finished, RouteAction::Reply(RouteReply::Stream))
    } else {
        (RouteState::Finished, RouteAction::Reply(RouteReply::Json))
    }
}

/// The actions a request performs when its steps end with `events`.
pub open spec fn route_trace(plan: RoutePlan, events: Seq<RouteEvent>) -> (RouteState, Seq<RouteAction>)
    decreases events.len(),
{
    if events.len() == 0 {
        (RouteState::At { step: 0, emulated: false }, seq![RouteAction::Do(RouteStep::Authorize)])
    } else {
        let (state, actions) = route_trace(plan, events.drop_last());
        match state {
            RouteState::At { step, emulated } => {
                let (next, action) = route_next(plan, step as int, emulated, events.last());
                (next, actions.push(action))
            },
            RouteState::Finished => (state, actions),
        }
    }
}

/// A request follows its order: the actions so far are a prefix of the order
/// (under the emulation choice its model resolution made), and an answered
/// request ends with one reply (see [`answered_in_order`]).
pub open spec fn route_follows_order(plan: RoutePlan, state: RouteState, actions: Seq<RouteAction>) -> bool {
    match state {
        RouteState::At { step, emulated } => {
            &&& step < route_order(plan, emulated).len()
            &&& actions == route_order(plan, emulated).take(step + 1)
            &&& emulated ==> plan.kind == RouteKind::Chat && !plan.stream
        },
        RouteState::Finished => exists|emulated: bool| #[trigger] answered_in_order(plan, emulated, actions),
    }
}

/// An answered request ran a prefix of its order, under emulation choice
/// `emulated`, then replied once: with the error of the last step it
/// attempted, or with the success reply, which needs the whole order.
pub open spec fn answered_in_order(plan: RoutePlan, emulated: bool, actions: Seq<RouteAction>) -> bool {
    &&& emulated ==> plan.kind == RouteKind::Chat && !plan.stream
    &&& actions.len() >= 2
    &&& actions.len() - 1 <= route_order(plan, emulated).len()
    &&& actions.drop_last() == route_order(plan, emulated).take(actions.len() - 1)
    &&& actions.last() is Reply
    &&& (actions.last() == RouteAction::Reply(success_reply(plan)) || actions.last()
        == RouteAction::Reply(RouteReply::Failed(actions[actions.len() - 2]->Do_0)))
    &&& actions.last() == RouteAction::Reply(success_reply(plan)) ==> actions.len() - 1
        == route_order(plan, emulated).len()
    &&& actions[actions.len() - 2] is Do
}

proof fn lemma_orders_share_head(plan: RoutePlan, a: bool, b: bool, n: int)
    requires
        0 <= n <= 5,
    ensures
        route_order(plan, a).take(n) == route_order(plan, b).take(n),
        route_order(plan, a).len() >= 6,
{
    assert(route_order(plan, a).take(n) =~= route_order(plan, b).take(n));
}

/// Every request follows its order. Consequences: nothing happens before the
/// bearer token is checked; the queue admits a request before any upstream
/// traffic; a streamed completion is never emulated; a JSON reply comes only
/// after the upstream reply was validated.
pub proof fn lemma_route_follows_order(plan: RoutePlan, events: Seq<RouteEvent>)
    ensures
        route_follows_order(plan, route_trace(plan, events).0, route_trace(plan, events).1),
    decreases events.len(),
{
    if events.len() == 0 {
        assert(seq![RouteAction::Do(RouteStep::Authorize)] =~= route_order(plan, false).take(1));
    } else {
        let prefix = events.drop_last();
        lemma_route_follows_order(plan, prefix);
        let (state, actions) = route_trace(plan, prefix);
        match state {
            RouteState::At { step, emulated } => {
                let event = events.last();
                let order = route_order(plan, emulated);
                let (next, action) = route_next(plan, step as int, emulated, event);
                let after = actions.push(action);
                let emulated2 = if order[step as int] == RouteAction::Do(RouteStep::ResolveModel) {
                    emulated_after(plan, event)
                } else {
                    emulated
                };
                let order2 = route_order(plan, emulated2);
                if step <= 4 {
                    lemma_orders_share_head(plan, emulated, emulated2, step + 1);
                } else {
                    assert(emulated2 == emulated);
                }
                if event == RouteEvent::Failed && order[step as int] != RouteAction::Do(RouteStep::ApplyEmulation) {
                    assert(after.drop_last() =~= order.take(after.len() - 1));
                    assert(success_reply(plan) != RouteReply::Failed(order[step as int]->Do_0));
                    assert(answered_in_order(plan, emulated, after));
                } else {
                    assert(actions =~= order2.take(step + 1));
                    match next {
                        RouteState::At { step: j, emulated: e } => {
                            assert(after =~= order2.take(j + 1));
                        },
                        RouteState::Finished => {
                            assert(after.drop_last() =~= order2.take(after.len() - 1));
                            assert(answered_in_order(plan, emulated2, after));
                        },
                    }
                }
            },
            RouteState::Finished => {},
        }
    }
}

/// Step `a` stands somewhere in `order`.
pub open spec fn route_has(order: Seq<RouteAction>, a: RouteStep) -> bool {
    exists|i: int| 0 <= i < order.len() && #[trigger] order[i] == RouteAction::Do(a)
}

/// Wherever steps `a` and `b` stand in `order`, `a` comes first.
pub open spec fn route_before(order: Seq<RouteAction>, a: RouteStep, b: RouteStep) -> bool {
    forall|i: int, j: int|
        0 <= i < order.len() && 0 <= j < order.len() && #[trigger] order[i] == RouteAction::Do(a)
            && #[trigger] order[j] == RouteAction::Do(b) ==> i < j
}

/// The documented order of an inference request, for every kind, stream
/// choice and emulation choice: the bearer token is checked first; the
/// request is validated, its model resolved and its kind checked before the
/// queue admits it; the queue admits it before any upstream traffic; a
/// streamed chat completion opens the upstream stream last and sends no plain
/// request; any other request sends one plain request and validates its
/// reply, and opens no stream; an emulated completion is prepared before it
/// is sent and its reply's fences are parsed after the reply is validated,
/// as the last step; a request that is not emulated does neither.
pub proof fn lemma_route_order_documented(plan: RoutePlan, emulated: bool)
    ensures
        ({
            let order = route_order(plan, emulated);
            &&& order[0] == RouteAction::Do(RouteStep::Authorize)
            &&& route_has(order, RouteStep::AdmitToQueue)
            &&& route_before(order, RouteStep::Authorize, RouteStep::ValidateRequest)
            &&& route_before(order, RouteStep::ValidateRequest, RouteStep::ResolveModel)
            &&& route_before(order, RouteStep::ResolveModel, RouteStep::RequireKind)
            &&& route_before(order, RouteStep::RequireKind, RouteStep::AdmitToQueue)
            &&& route_before(order, RouteStep::AdmitToQueue, RouteStep::OpenStream)
            &&& route_before(order, RouteStep::AdmitToQueue, RouteStep::SendUpstream)
            &&& route_before(order, RouteStep::AdmitToQueue, RouteStep::PrepareEmulation)
            &&& route_before(order, RouteStep::PrepareEmulation, RouteStep::SendUpstream)
            &&& route_before(order, RouteStep::SendUpstream, RouteStep::ValidateResponse)
            &&& route_before(order, RouteStep::ValidateResponse, RouteStep::ApplyEmulation)
            &&& streams(plan) ==> route_has(order, RouteStep::OpenStream) && !route_has(
                order,
                RouteStep::SendUpstream,
            ) && order.last() == RouteAction::Do(RouteStep::OpenStream)
            &&& !streams(plan) ==> route_has(order, RouteStep::SendUpstream) && route_has(
                order,
                RouteStep::ValidateResponse,
            ) && !route_has(order, RouteStep::OpenStream)
            &&& !streams(plan) && emulated ==> route_has(order, RouteStep::PrepareEmulation) && order.last()
                == RouteAction::Do(RouteStep::ApplyEmulation)
            &&& !streams(plan) && !emulated ==> !route_has(order, RouteStep::PrepareEmulation) && !route_has(
                order,
                RouteStep::ApplyEmulation,
            ) && order.last() == RouteAction::Do(RouteStep::ValidateResponse)
        }),
{
    let order = route_order(plan, emulated);
    let a = RouteAction::Do(RouteStep::Authorize);
    let v = RouteAction::Do(RouteStep::ValidateRequest);
    let r = RouteAction::Do(RouteStep::ResolveModel);
    let q = RouteAction::Do(RouteStep::RequireKind);
    let adm = RouteAction::Do(RouteStep::AdmitToQueue);
    let os = RouteAction::Do(RouteStep::OpenStream);
    let pe = RouteAction::Do(RouteStep::PrepareEmulation);
    let su = RouteAction::Do(RouteStep::SendUpstream);
    let vr = RouteAction::Do(RouteStep::ValidateResponse);
    let ae = RouteAction::Do(RouteStep::ApplyEmulation);
    if streams(plan) {
        assert(order =~= seq![a, v, r, q, adm, os]);
    } else if emulated {
        assert(order =~= seq![a, v, r, q, adm, pe, su, vr, ae]);
    } else {
        assert(order =~= seq![a, v, r, q, adm, su, vr]);
    }
    assert(order[4] == adm);
    if streams(plan) {
        assert(order[5] == os);
    } else if emulated {
        assert(order[5] == pe);
        assert(order[6] == su);
        assert(order[7] == vr);
    } else {
        assert(order[5] == su);
        assert(order[6] == vr);
    }
}

/// How a request answers: a failed step ends it, answered with that step,
/// except parsing the reply's fences, whose failure is passed over; a
/// success at the last step answers with the relayed stream for a streamed
/// chat completion and with JSON for every other request; a success before
/// the last step goes on to the next step of the order.
pub proof fn lemma_route_answers(plan: RoutePlan, k: int, emulated: bool)
    requires
        0 <= k < route_order(plan, emulated).len(),
        emulated ==> plan.kind == RouteKind::Chat && !plan.stream,
    ensures
        route_order(plan, emulated)[k] != RouteAction::Do(RouteStep::ApplyEmulation) ==> route_next(
            plan,
            k,
            emulated,
            RouteEvent::Failed,
        ) == (RouteState::Finished, RouteAction::Reply(RouteReply::Failed(route_order(plan, emulated)[k]->Do_0))),
        route_order(plan, emulated)[k] == RouteAction::Do(RouteStep::ApplyEmulation) ==> route_next(
            plan,
            k,
            emulated,
            RouteEvent::Failed,
        ) == route_next(plan, k, emulated, RouteEvent::Done),
        k == route_order(plan, emulated).len() - 1 ==> route_next(plan, k, emulated, RouteEvent::Done) == (
            RouteState::Finished,
            RouteAction::Reply(if plan.kind == RouteKind::Chat && plan.stream {
                RouteReply::Stream
            } else {
                RouteReply::Json
            }),
        ),
        k < route_order(plan, emulated).len() - 1 && route_order(plan, emulated)[k] != RouteAction::Do(
            RouteStep::ResolveModel,
        ) ==> route_next(plan, k, emulated, RouteEvent::Done) == (
            RouteState::At { step: (k + 1) as u8, emulated },
            route_order(plan, emulated)[k + 1],
        ),
        route_order(plan, emulated)[k] is Do,
{
    lemma_route_order_documented(plan, emulated);
    let order = route_order(plan, emulated);
    assert(forall|i: int| 0 <= i < order.len() ==> #[trigger] order[i] is Do) by {
        let a = RouteAction::Do(RouteStep::Authorize);
        let v = RouteAction::Do(RouteStep::ValidateRequest);
        let r = RouteAction::Do(RouteStep::ResolveModel);
        let q = RouteAction::Do(RouteStep::RequireKind);
        let adm = RouteAction::Do(RouteStep::AdmitToQueue);
        let os = RouteAction::Do(RouteStep::OpenStream);
        let pe = RouteAction::Do(RouteStep::PrepareEmulation);
        let su = RouteAction::Do(RouteStep::SendUpstream);
        let vr = RouteAction::Do(RouteStep::ValidateResponse);
        let ae = RouteAction::Do(RouteStep::ApplyEmulation);
        if streams(plan) {
            assert(order =~= seq![a, v, r, q, adm, os]);
        } else if emulated {
            assert(order =~= seq![a, v, r, q, adm, pe, su, vr, ae]);
        } else {
            assert(order =~= seq![a, v, r, q, adm, su, vr]);
        }
    }
}

} // verus!
