//! The transaction driver. One driver value accompanies one proxy stream
//! and decides, event by event, what happens next: route the request
//! headers, instantiate plugins, run the two request phases, answer the
//! proxy, run the response phase, and deliver feedback. The surrounding
//! host performs the streaming, the plugin calls and the waiting; the
//! driver is the full decision logic, a step function from state and
//! event to the next state and the actions to perform, in order.

use vstd::prelude::*;
use crate::decision::{spec_outcome, Decision, Outcome, Thresholds};
use crate::headers::{
    extract_request,
    extract_response,
    spec_header_lookup,
    spec_request_extractable,
    spec_response_extractable,
    spec_visible_headers,
    HttpRequest,
    HttpResponse,
};
use crate::phase::{
    aggregate_phase,
    spec_completed_decisions,
    spec_completed_tag_union,
    spec_outcomes_valid,
    DecisionComponents,
    PhaseOutcome,
};
use crate::decision::spec_combine;
use crate::response::{
    internal_error_frame,
    is_annotation_frame,
    is_block_frame,
    is_internal_error_frame,
    request_phase_frame,
    response_phase_frame,
    ResponseFrame,
};
use crate::router::{param_views, spec_route_match, RouteTable};
use crate::tags::{tag_set, tags_strictly_sorted};

verus! {

/// The deadline, in milliseconds, used when a route names none.
pub const DEFAULT_TIMEOUT_MILLIS: u64 = 10;

/// Where a transaction stands in its conversation with the proxy.
#[derive(Clone, Debug)]
pub enum DriverState {
    /// Waiting for the request-direction header frame.
    AwaitRequestHeaders,
    /// Waiting for the host to create the route's plugin instances.
    AwaitInstantiation { timeout_millis: u64 },
    /// The request-init phase is running.
    PhaseOne { timeout_millis: u64 },
    /// The request-decision phase is running.
    PhaseTwo { timeout_millis: u64 },
    /// The request was forwarded; waiting for the response headers. The
    /// request-phase result is kept for feedback should the stream end.
    AwaitResponseHeaders {
        timeout_millis: u64,
        request_decision: Decision,
        request_tags: Vec<String>,
        request_outcome: Outcome,
    },
    /// The response-decision phase is running.
    PhaseThree { timeout_millis: u64 },
    /// The conversation is over; the counters record what was emitted.
    Done { request_frames: u64, response_frames: u64, blocked_on_request: bool },
}

/// What the proxy stream or the host hands the driver.
#[derive(Clone, Debug)]
pub enum Event {
    /// The request-direction header frame, flattened to key/value pairs.
    RequestHeaders { headers: Vec<(String, String)>, end_of_stream: bool },
    /// The inbound stream ended, or brought a frame of another kind,
    /// before any request headers.
    NoRequestHeaders,
    /// Every plugin instance was created, or one failed.
    Instantiated { ok: bool },
    /// Every instance settled its request-init entry point.
    PhaseOneDone,
    /// Every instance settled its request-decision entry point.
    PhaseTwoDone { results: Vec<PhaseOutcome> },
    /// The response-direction header frame.
    ResponseHeaders { headers: Vec<(String, String)>, end_of_stream: bool },
    /// The inbound stream ended, or brought a frame of another kind,
    /// before any response headers.
    NoResponseHeaders,
    /// Every instance settled its response-decision entry point.
    PhaseThreeDone { results: Vec<PhaseOutcome> },
    /// The proxy dropped the stream.
    TransportClosed,
}

/// What the driver asks the host to do, in order.
#[derive(Clone, Debug)]
pub enum Action {
    /// Create one fresh instance per named plugin, wired with the parsed
    /// request and the captured path parameters.
    Instantiate { plugin_ids: Vec<u64>, params: Vec<(String, String)>, request: HttpRequest },
    /// Run every instance's request-init entry point under the deadline.
    RunPhaseOne { timeout_millis: u64 },
    /// Run every instance's request-decision entry point under the
    /// deadline.
    RunPhaseTwo { timeout_millis: u64 },
    /// Hand the parsed response to every instance.
    DistributeResponse { response: HttpResponse },
    /// Run every instance's response-decision entry point under the
    /// deadline.
    RunPhaseThree { timeout_millis: u64 },
    /// Send a frame on the request direction.
    EmitRequestFrame { frame: ResponseFrame },
    /// Send a frame on the response direction.
    EmitResponseFrame { frame: ResponseFrame },
    /// Tell every instance the final combined outcome, fire and forget,
    /// under the deadline.
    DeliverFeedback { decision: Decision, tags: Vec<String>, outcome: Outcome, timeout_millis: u64 },
    /// Close the outbound stream.
    CloseStream,
}

/// Request-direction frames emitted by a list of actions.
pub open spec fn count_request_emits(actions: Seq<Action>) -> int
    decreases actions.len(),
{
    if actions.len() == 0 {
        0
    } else {
        count_request_emits(actions.drop_last()) + if actions.last() is EmitRequestFrame {
            1int
        } else {
            0int
        }
    }
}

/// Response-direction frames emitted by a list of actions.
pub open spec fn count_response_emits(actions: Seq<Action>) -> int
    decreases actions.len(),
{
    if actions.len() == 0 {
        0
    } else {
        count_response_emits(actions.drop_last()) + if actions.last() is EmitResponseFrame {
            1int
        } else {
            0int
        }
    }
}

/// Feedback deliveries asked for by a list of actions.
pub open spec fn count_feedbacks(actions: Seq<Action>) -> int
    decreases actions.len(),
{
    if actions.len() == 0 {
        0
    } else {
        count_feedbacks(actions.drop_last()) + if actions.last() is DeliverFeedback {
            1int
        } else {
            0int
        }
    }
}

/// Emission counts are never negative.
pub proof fn lemma_counts_nonneg(actions: Seq<Action>)
    ensures
        count_request_emits(actions) >= 0,
        count_response_emits(actions) >= 0,
        count_feedbacks(actions) >= 0,
    decreases actions.len(),
{
    if actions.len() > 0 {
        lemma_counts_nonneg(actions.drop_last());
    }
}

/// Request-direction frames already emitted when the driver stands in a
/// state.
pub open spec fn spec_request_frames(s: DriverState) -> int {
    match s {
        DriverState::AwaitResponseHeaders { .. } => 1,
        DriverState::PhaseThree { .. } => 1,
        DriverState::Done { request_frames, .. } => request_frames as int,
        _ => 0,
    }
}

/// Response-direction frames already emitted when the driver stands in a
/// state.
pub open spec fn spec_response_frames(s: DriverState) -> int {
    match s {
        DriverState::Done { response_frames, .. } => response_frames as int,
        _ => 0,
    }
}

/// Whether the request phase ended in a block.
pub open spec fn spec_blocked_on_request(s: DriverState) -> bool {
    match s {
        DriverState::Done { blocked_on_request, .. } => blocked_on_request,
        _ => false,
    }
}

/// A state's frame counters respect the protocol: at most one frame per
/// direction, a response frame only after a request frame, and none after
/// a request-phase block.
pub open spec fn state_wf(s: DriverState) -> bool {
    match s {
        DriverState::Done { request_frames, response_frames, blocked_on_request } => {
            &&& request_frames <= 1
            &&& response_frames <= 1
            &&& response_frames <= request_frames
            &&& (blocked_on_request ==> response_frames == 0)
        },
        _ => true,
    }
}

/// What every step of the driver guarantees about emission, whatever the
/// event: the frames emitted are exactly the change of the state's
/// counters, a finished transaction stays finished and silent, and
/// feedback is asked for at most once, only when the transaction ends.
pub open spec fn spec_step_accounting(
    pre: DriverState,
    post: DriverState,
    actions: Seq<Action>,
) -> bool {
    &&& count_request_emits(actions) == spec_request_frames(post) - spec_request_frames(pre)
    &&& count_response_emits(actions) == spec_response_frames(post) - spec_response_frames(pre)
    &&& state_wf(post)
    &&& (pre is Done ==> post == pre && actions.len() == 0)
    &&& count_feedbacks(actions) <= 1
    &&& (count_feedbacks(actions) > 0 ==> post is Done)
}

/// The decision a phase's settled results combine to.
pub open spec fn spec_phase_decision(results: Seq<PhaseOutcome>) -> Decision {
    spec_combine(spec_completed_decisions(results))
}

/// Whether a state expects this event; anything else leaves the driver
/// untouched.
pub open spec fn spec_event_expected(s: DriverState, e: Event) -> bool {
    match (s, e) {
        (DriverState::AwaitRequestHeaders, Event::RequestHeaders { .. }) => true,
        (DriverState::AwaitRequestHeaders, Event::NoRequestHeaders) => true,
        (DriverState::AwaitInstantiation { .. }, Event::Instantiated { .. }) => true,
        (DriverState::PhaseOne { .. }, Event::PhaseOneDone) => true,
        (DriverState::PhaseTwo { .. }, Event::PhaseTwoDone { .. }) => true,
        (DriverState::AwaitResponseHeaders { .. }, Event::ResponseHeaders { .. }) => true,
        (DriverState::AwaitResponseHeaders { .. }, Event::NoResponseHeaders) => true,
        (DriverState::PhaseThree { .. }, Event::PhaseThreeDone { .. }) => true,
        (s2, Event::TransportClosed) => !(s2 is Done),
        _ => false,
    }
}

/// A driver value is well formed: its counters respect the protocol and
/// what it carries for feedback is a well-formed phase result.
pub open spec fn txn_wf(t: Transaction) -> bool {
    &&& state_wf(t.state)
    &&& (t.state matches DriverState::AwaitResponseHeaders { request_decision, request_tags, .. }
        ==> request_decision.valid() && tags_strictly_sorted(request_tags@))
}

/// One transaction's driver: the configured thresholds and the current
/// state of the conversation.
pub struct Transaction {
    pub thresholds: Thresholds,
    pub state: DriverState,
}

impl Transaction {
    /// A driver for a fresh proxy stream.
    pub fn new(thresholds: Thresholds) -> (t: Transaction)
        ensures
            t.thresholds == thresholds,
            t.state is AwaitRequestHeaders,
            txn_wf(t),
    {
        Transaction { thresholds, state: DriverState::AwaitRequestHeaders }
    }
}

/// Copies a plugin handle list.
fn copy_ids(v: &Vec<u64>) -> (r: Vec<u64>)
    ensures
        r@ == v@,
{
    let mut r: Vec<u64> = Vec::new();
    let mut i: usize = 0;
    while i < v.len()
        invariant
            0 <= i <= v@.len(),
            r@ == v@.take(i as int),
        decreases v@.len() - i,
    {
        r.push(v[i]);
        proof {
            assert(v@.take(i + 1).drop_last() =~= v@.take(i as int));
        }
        i += 1;
    }
    proof {
        assert(v@.take(v@.len() as int) =~= v@);
    }
    r
}

impl Transaction {
    /// Advances the conversation by one event. The returned actions are
    /// for the host to perform in order. An event that the current state
    /// does not expect changes nothing.
    pub fn step(&mut self, table: &RouteTable, event: Event) -> (actions: Vec<Action>)
        requires
            table.wf(),
            txn_wf(*old(self)),
            (event matches Event::PhaseTwoDone { results } ==> spec_outcomes_valid(results@)),
            (event matches Event::PhaseThreeDone { results } ==> spec_outcomes_valid(results@)),
        ensures
            final(self).thresholds == old(self).thresholds,
            txn_wf(*final(self)),
            spec_step_accounting(old(self).state, final(self).state, actions@),
            !spec_event_expected(old(self).state, event) ==> final(self).state == old(self).state
                && actions@.len() == 0,
            (event is TransportClosed && !(old(self).state is Done)) ==> final(self).state
                is Done && actions@.len() == 1 && actions@[0] is CloseStream
                && count_feedbacks(actions@) == 0,
            (old(self).state is AwaitRequestHeaders && event is NoRequestHeaders)
                ==> final(self).state == (DriverState::Done {
                request_frames: 0,
                response_frames: 0,
                blocked_on_request: false,
            }) && actions@.len() == 1 && actions@[0] is CloseStream,
            old(self).state is AwaitRequestHeaders ==> (event matches Event::RequestHeaders {
                headers,
                end_of_stream,
            } ==> ({
                if !spec_request_extractable(headers@) {
                    &&& final(self).state == (DriverState::Done {
                        request_frames: 0,
                        response_frames: 0,
                        blocked_on_request: false,
                    })
                    &&& actions@.len() == 1
                    &&& actions@[0] is CloseStream
                } else {
                    let path = spec_header_lookup(headers@, ":path"@).unwrap();
                    match spec_route_match(table.spec_entries(), path) {
                        Option::None => {
                            &&& final(self).state == (DriverState::Done {
                                request_frames: 0,
                                response_frames: 0,
                                blocked_on_request: false,
                            })
                            &&& actions@.len() == 1
                            &&& actions@[0] is CloseStream
                        },
                        Option::Some(m) => {
                            let target = table.spec_targets()[table.spec_entries()[m.0] as int];
                            let t = if target.timeout_millis is Some {
                                target.timeout_millis.unwrap()
                            } else {
                                DEFAULT_TIMEOUT_MILLIS
                            };
                            &&& final(self).state == (DriverState::AwaitInstantiation {
                                timeout_millis: t,
                            })
                            &&& actions@.len() == 1
                            &&& (actions@[0] matches Action::Instantiate {
                                plugin_ids,
                                params,
                                request,
                            } && plugin_ids@ == target.plugin_ids@ && param_views(params@) == m.1
                                && request.method@
                                == spec_header_lookup(headers@, ":method"@).unwrap()
                                && request.path@ == path && request.headers@
                                == spec_visible_headers(headers@) && request.end_of_stream
                                == end_of_stream)
                        },
                    }
                }
            })),
            old(self).state matches DriverState::AwaitInstantiation { timeout_millis } ==> (
            event matches Event::Instantiated { ok } ==> (if ok {
                &&& final(self).state == (DriverState::PhaseOne { timeout_millis })
                &&& actions@.len() == 1
                &&& actions@[0] == (Action::RunPhaseOne { timeout_millis })
            } else {
                &&& final(self).state == (DriverState::Done {
                    request_frames: 1,
                    response_frames: 0,
                    blocked_on_request: false,
                })
                &&& actions@.len() == 2
                &&& (actions@[0] matches Action::EmitRequestFrame { frame }
                    && is_internal_error_frame(frame))
                &&& actions@[1] is CloseStream
            })),
            old(self).state matches DriverState::PhaseOne { timeout_millis } ==> (event
                is PhaseOneDone ==> final(self).state == (DriverState::PhaseTwo {
                timeout_millis,
            }) && actions@.len() == 1 && actions@[0] == (Action::RunPhaseTwo { timeout_millis })),
            old(self).state matches DriverState::PhaseTwo { timeout_millis } ==> (
            event matches Event::PhaseTwoDone { results } ==> ({
                let d = spec_phase_decision(results@);
                let o = spec_outcome(d, old(self).thresholds);
                if o == Outcome::Restricted {
                    &&& final(self).state == (DriverState::Done {
                        request_frames: 1,
                        response_frames: 0,
                        blocked_on_request: true,
                    })
                    &&& actions@.len() == 3
                    &&& (actions@[0] matches Action::EmitRequestFrame { frame } && is_block_frame(
                        frame,
                    ))
                    &&& (actions@[1] matches Action::DeliverFeedback {
                        decision,
                        tags,
                        outcome,
                        timeout_millis: fb_t,
                    } && decision == d && outcome == o && fb_t == timeout_millis && tag_set(tags@)
                        == spec_completed_tag_union(results@) && tags_strictly_sorted(tags@))
                    &&& actions@[2] is CloseStream
                } else {
                    (final(self).state matches DriverState::AwaitResponseHeaders {
                        timeout_millis: t2,
                        request_decision,
                        request_tags,
                        request_outcome,
                    } && t2 == timeout_millis && request_decision == d && request_outcome == o
                        && tag_set(request_tags@) == spec_completed_tag_union(results@)
                        && tags_strictly_sorted(request_tags@) && actions@.len() == 1 && (
                    actions@[0] matches Action::EmitRequestFrame { frame } && is_annotation_frame(
                        frame,
                        (DecisionComponents { decision: d, tags: request_tags }),
                    )))
                }
            })),
            old(self).state matches DriverState::AwaitResponseHeaders {
                timeout_millis,
                request_decision,
                request_tags,
                request_outcome,
            } ==> (event matches Event::ResponseHeaders { headers, end_of_stream } ==> (if
                spec_response_extractable(headers@) {
                &&& final(self).state == (DriverState::PhaseThree { timeout_millis })
                &&& actions@.len() == 2
                &&& (actions@[0] matches Action::DistributeResponse { response } && Some(
                    response.status@,
                ) == spec_header_lookup(headers@, ":status"@) && response.headers@
                    == spec_visible_headers(headers@) && response.end_of_stream == end_of_stream)
                &&& actions@[1] == (Action::RunPhaseThree { timeout_millis })
            } else {
                &&& final(self).state == (DriverState::Done {
                    request_frames: 1,
                    response_frames: 0,
                    blocked_on_request: false,
                })
                &&& actions@.len() == 2
                &&& actions@[0] == (Action::DeliverFeedback {
                    decision: request_decision,
                    tags: request_tags,
                    outcome: request_outcome,
                    timeout_millis,
                })
                &&& actions@[1] is CloseStream
            })),
            old(self).state matches DriverState::AwaitResponseHeaders {
                timeout_millis,
                request_decision,
                request_tags,
                request_outcome,
            } ==> (event is NoResponseHeaders ==> ({
                &&& final(self).state == (DriverState::Done {
                    request_frames: 1,
                    response_frames: 0,
                    blocked_on_request: false,
                })
                &&& actions@.len() == 2
                &&& actions@[0] == (Action::DeliverFeedback {
                    decision: request_decision,
                    tags: request_tags,
                    outcome: request_outcome,
                    timeout_millis,
                })
                &&& actions@[1] is CloseStream
            })),
            old(self).state matches DriverState::PhaseThree { timeout_millis } ==> (
            event matches Event::PhaseThreeDone { results } ==> ({
                let d = spec_phase_decision(results@);
                let o = spec_outcome(d, old(self).thresholds);
                &&& final(self).state == (DriverState::Done {
                    request_frames: 1,
                    response_frames: 1,
                    blocked_on_request: false,
                })
                &&& actions@.len() == 3
                &&& (actions@[0] matches Action::EmitResponseFrame { frame } && (if o
                    == Outcome::Restricted {
                    is_block_frame(frame)
                } else {
                    frame is ResponseHeaders
                }))
                &&& (actions@[1] matches Action::DeliverFeedback {
                    decision,
                    tags,
                    outcome,
                    timeout_millis: fb_t,
                } && decision == d && outcome == o && fb_t == timeout_millis && tag_set(tags@)
                    == spec_completed_tag_union(results@) && tags_strictly_sorted(tags@))
                &&& actions@[2] is CloseStream
            })),
    {
        let mut actions: Vec<Action> = Vec::new();
        let thresholds = self.thresholds;
        let mut state = DriverState::AwaitRequestHeaders;
        core::mem::swap(&mut state, &mut self.state);
        let next: DriverState = match (state, event) {
            (DriverState::AwaitRequestHeaders, Event::RequestHeaders { headers, end_of_stream }) => {
                match extract_request(&headers, end_of_stream) {
                    Ok(req) => {
                        match table.lookup(&req.path) {
                            Some((target, params)) => {
                                let timeout_millis = match target.timeout_millis {
                                    Some(ms) => ms,
                                    None => DEFAULT_TIMEOUT_MILLIS,
                                };
                                let plugin_ids = copy_ids(&target.plugin_ids);
                                actions.push(
                                    Action::Instantiate { plugin_ids, params, request: req },
                                );
                                DriverState::AwaitInstantiation { timeout_millis }
                            },
                            None => {
                                actions.push(Action::CloseStream);
                                DriverState::Done {
                                    request_frames: 0,
                                    response_frames: 0,
                                    blocked_on_request: false,
                                }
                            },
                        }
                    },
                    Err(_) => {
                        actions.push(Action::CloseStream);
                        DriverState::Done {
                            request_frames: 0,
                            response_frames: 0,
                            blocked_on_request: false,
                        }
                    },
                }
            },
            (DriverState::AwaitRequestHeaders, Event::NoRequestHeaders) => {
                actions.push(Action::CloseStream);
                DriverState::Done {
                    request_frames: 0,
                    response_frames: 0,
                    blocked_on_request: false,
                }
            },
            (DriverState::AwaitRequestHeaders, Event::TransportClosed) => {
                actions.push(Action::CloseStream);
                DriverState::Done {
                    request_frames: 0,
                    response_frames: 0,
                    blocked_on_request: false,
                }
            },
            (DriverState::AwaitInstantiation { timeout_millis }, Event::Instantiated { ok }) => {
                if ok {
                    actions.push(Action::RunPhaseOne { timeout_millis });
                    DriverState::PhaseOne { timeout_millis }
                } else {
                    actions.push(Action::EmitRequestFrame { frame: internal_error_frame() });
                    actions.push(Action::CloseStream);
                    DriverState::Done {
                        request_frames: 1,
                        response_frames: 0,
                        blocked_on_request: false,
                    }
                }
            },
            (DriverState::AwaitInstantiation { .. }, Event::TransportClosed) => {
                actions.push(Action::CloseStream);
                DriverState::Done {
                    request_frames: 0,
                    response_frames: 0,
                    blocked_on_request: false,
                }
            },
            (DriverState::PhaseOne { timeout_millis }, Event::PhaseOneDone) => {
                actions.push(Action::RunPhaseTwo { timeout_millis });
                DriverState::PhaseTwo { timeout_millis }
            },
            (DriverState::PhaseOne { .. }, Event::TransportClosed) => {
                actions.push(Action::CloseStream);
                DriverState::Done {
                    request_frames: 0,
                    response_frames: 0,
                    blocked_on_request: false,
                }
            },
            (DriverState::PhaseTwo { timeout_millis }, Event::PhaseTwoDone { results }) => {
                let dc = aggregate_phase(&results);
                let outcome = dc.decision.outcome(&thresholds);
                let frame = request_phase_frame(&dc, outcome);
                actions.push(Action::EmitRequestFrame { frame });
                match outcome {
                    Outcome::Restricted => {
                        actions.push(
                            Action::DeliverFeedback {
                                decision: dc.decision,
                                tags: dc.tags,
                                outcome,
                                timeout_millis,
                            },
                        );
                        actions.push(Action::CloseStream);
                        DriverState::Done {
                            request_frames: 1,
                            response_frames: 0,
                            blocked_on_request: true,
                        }
                    },
                    _ => {
                        DriverState::AwaitResponseHeaders {
                            timeout_millis,
                            request_decision: dc.decision,
                            request_tags: dc.tags,
                            request_outcome: outcome,
                        }
                    },
                }
            },
            (DriverState::PhaseTwo { .. }, Event::TransportClosed) => {
                actions.push(Action::CloseStream);
                DriverState::Done {
                    request_frames: 0,
                    response_frames: 0,
                    blocked_on_request: false,
                }
            },
            (
                DriverState::AwaitResponseHeaders {
                    timeout_millis,
                    request_decision,
                    request_tags,
                    request_outcome,
                },
                Event::ResponseHeaders { headers, end_of_stream },
            ) => {
                match extract_response(&headers, end_of_stream) {
                    Ok(resp) => {
                        actions.push(Action::DistributeResponse { response: resp });
                        actions.push(Action::RunPhaseThree { timeout_millis });
                        DriverState::PhaseThree { timeout_millis }
                    },
                    Err(_) => {
                        actions.push(
                            Action::DeliverFeedback {
                                decision: request_decision,
                                tags: request_tags,
                                outcome: request_outcome,
                                timeout_millis,
                            },
                        );
                        actions.push(Action::CloseStream);
                        DriverState::Done {
                            request_frames: 1,
                            response_frames: 0,
                            blocked_on_request: false,
                        }
                    },
                }
            },
            (
                DriverState::AwaitResponseHeaders {
                    timeout_millis,
                    request_decision,
                    request_tags,
                    request_outcome,
                },
                Event::NoResponseHeaders,
            ) => {
                actions.push(
                    Action::DeliverFeedback {
                        decision: request_decision,
                        tags: request_tags,
                        outcome: request_outcome,
                        timeout_millis,
                    },
                );
                actions.push(Action::CloseStream);
                DriverState::Done {
                    request_frames: 1,
                    response_frames: 0,
                    blocked_on_request: false,
                }
            },
            (DriverState::AwaitResponseHeaders { .. }, Event::TransportClosed) => {
                actions.push(Action::CloseStream);
                DriverState::Done {
                    request_frames: 1,
                    response_frames: 0,
                    blocked_on_request: false,
                }
            },
            (DriverState::PhaseThree { timeout_millis }, Event::PhaseThreeDone { results }) => {
                let dc = aggregate_phase(&results);
                let outcome = dc.decision.outcome(&thresholds);
                let frame = response_phase_frame(outcome);
                actions.push(Action::EmitResponseFrame { frame });
                actions.push(
                    Action::DeliverFeedback {
                        decision: dc.decision,
                        tags: dc.tags,
                        outcome,
                        timeout_millis,
                    },
                );
                actions.push(Action::CloseStream);
                DriverState::Done {
                    request_frames: 1,
                    response_frames: 1,
                    blocked_on_request: false,
                }
            },
            (DriverState::PhaseThree { .. }, Event::TransportClosed) => {
                actions.push(Action::CloseStream);
                DriverState::Done {
                    request_frames: 1,
                    response_frames: 0,
                    blocked_on_request: false,
                }
            },
            (s, _) => s,
        };
        self.state = next;
        proof {
            reveal_with_fuel(count_request_emits, 5);
            reveal_with_fuel(count_response_emits, 5);
            reveal_with_fuel(count_feedbacks, 5);
        }
        actions
    }
}

/// A run of one driver: the successive states, with the actions of each
/// step between them.
pub open spec fn spec_valid_run(states: Seq<DriverState>, steps: Seq<Seq<Action>>) -> bool {
    &&& states.len() == steps.len() + 1
    &&& forall|i: int|
        0 <= i < steps.len() ==> spec_step_accounting(
            states[i],
            #[trigger] states[i + 1],
            steps[i],
        )
}

/// Request-direction frames emitted over a whole run.
pub open spec fn total_request_emits(steps: Seq<Seq<Action>>) -> int
    decreases steps.len(),
{
    if steps.len() == 0 {
        0
    } else {
        total_request_emits(steps.drop_last()) + count_request_emits(steps.last())
    }
}

/// Response-direction frames emitted over a whole run.
pub open spec fn total_response_emits(steps: Seq<Seq<Action>>) -> int
    decreases steps.len(),
{
    if steps.len() == 0 {
        0
    } else {
        total_response_emits(steps.drop_last()) + count_response_emits(steps.last())
    }
}

/// Feedback deliveries asked for over a whole run.
pub open spec fn total_feedbacks(steps: Seq<Seq<Action>>) -> int
    decreases steps.len(),
{
    if steps.len() == 0 {
        0
    } else {
        total_feedbacks(steps.drop_last()) + count_feedbacks(steps.last())
    }
}

/// Frame discipline of a whole conversation: however the events fall, a
/// run emits at most one frame per direction -- exactly as many as the
/// final state's counters record -- a request phase that blocked
/// suppresses every response-direction frame, and feedback is asked for
/// at most once, never before the transaction is over.
pub proof fn lemma_run_frame_discipline(states: Seq<DriverState>, steps: Seq<Seq<Action>>)
    requires
        spec_valid_run(states, steps),
        states[0] is AwaitRequestHeaders,
    ensures
        total_request_emits(steps) == spec_request_frames(states.last()),
        total_response_emits(steps) == spec_response_frames(states.last()),
        total_request_emits(steps) <= 1,
        total_response_emits(steps) <= 1,
        spec_blocked_on_request(states.last()) ==> total_response_emits(steps) == 0,
        total_feedbacks(steps) <= 1,
        !(states.last() is Done) ==> total_feedbacks(steps) == 0,
    decreases steps.len(),
{
    if steps.len() == 0 {
        assert(states.last() == states[0]);
    } else {
        let prev = states.drop_last();
        let prefix = steps.drop_last();
        assert(prev.len() == prefix.len() + 1);
        assert forall|i: int| 0 <= i < prefix.len() implies spec_step_accounting(
            prev[i],
            #[trigger] prev[i + 1],
            prefix[i],
        ) by {
            assert(prev[i] == states[i]);
            assert(prev[i + 1] == states[i + 1]);
            assert(prefix[i] == steps[i]);
        }
        assert(prev[0] == states[0]);
        lemma_run_frame_discipline(prev, prefix);
        let pre = states[states.len() - 2];
        let post = states.last();
        let last_step = steps.last();
        assert(prev.last() == pre);
        assert(spec_step_accounting(pre, post, last_step));
        lemma_counts_nonneg(last_step);
        if pre is Done {
            assert(post == pre);
        }
        if !(states.last() is Done) {
            assert(count_feedbacks(last_step) == 0);
        }
        if count_feedbacks(last_step) > 0 {
            assert(!(pre is Done));
            assert(total_feedbacks(prefix) == 0);
        }
        // the per-direction totals telescope to the final counters, and
        // a state never records more than one frame per direction
        if spec_blocked_on_request(post) {
            assert(spec_response_frames(post) == 0);
        }
        match post {
            DriverState::Done { request_frames, response_frames, .. } => {
                assert(request_frames <= 1 && response_frames <= 1);
            },
            _ => {},
        }
    }
}

}
