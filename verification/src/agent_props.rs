//! Proved properties of the agent state machine.
//!
//! The agent's handlers each implement one spec-level step function
//! exactly (see their contracts in [`crate::agent`]), so a property proved
//! here about the step functions holds of every run of the agent, for
//! every interleaving of events the host can deliver.

use vstd::prelude::*;

use crate::agent::{
    all_resolved, assistant_item, distinct_pending_ids, pending_has, pending_index,
    pending_unresolved, rejection_error, spec_accept_tool_calls, spec_approval_resolved,
    spec_enqueue, spec_join_tool, spec_model_finished, spec_process_input, spec_process_next,
    spec_start_model, spec_task_ended, tasks_wf, tool_item, tool_items, user_item, AgentStage,
    AgentView, EffectView, PendingToolView,
};
use crate::conversation::TranscriptSource;
use crate::model::ProviderErrorView;
use crate::model_client::ModelClientResponseView;
use crate::tool::{distinct_tool_names, ApprovalResultView, ErrorView};

verus! {

/// One event the host can deliver to the agent, at the level of the
/// mathematical model: a user input, the outcome of the in-flight model
/// call, the resolution of an approval, the result of a tool call, or the
/// end of a child task.
pub enum EventView {
    UserInput(Seq<char>),
    ModelFinished(Result<ModelClientResponseView, ProviderErrorView>),
    ApprovalResolved(Seq<char>, ApprovalResultView),
    ToolFinished(Seq<char>, Result<Seq<char>, ErrorView>),
    TaskEnded(u64),
}

/// Whether the host can deliver this event in this state: it is what the
/// corresponding handler requires. A model-call outcome only ever arrives
/// while a call is in flight (only the in-flight child task sends it), and
/// approval and tool results only for a still-unresolved slot of the
/// current turn. The task-id bounds keep the id allocation of the step
/// from overflowing.
pub open spec fn event_enabled(s: AgentView, e: EventView) -> bool {
    match e {
        EventView::UserInput(_) => s.next_task_id < u64::MAX,
        EventView::ModelFinished(r) => s.stage == AgentStage::ModelThinking && (match r {
            Ok(resp) => s.next_task_id as int + resp.tool_calls.len() + 1 <= u64::MAX as int,
            Err(_) => s.next_task_id < u64::MAX,
        }),
        EventView::ApprovalResolved(id, _) => pending_unresolved(s.pending_tools, id)
            && s.next_task_id < u64::MAX,
        EventView::ToolFinished(id, _) => pending_unresolved(s.pending_tools, id)
            && s.next_task_id < u64::MAX,
        EventView::TaskEnded(_) => true,
    }
}

/// One step of the agent: the handler that runs for this event.
pub open spec fn spec_step(s: AgentView, e: EventView) -> (AgentView, Seq<EffectView>) {
    match e {
        EventView::UserInput(t) => spec_enqueue(s, t),
        EventView::ModelFinished(r) => spec_model_finished(s, r),
        EventView::ApprovalResolved(id, res) => spec_approval_resolved(s, id, res),
        EventView::ToolFinished(id, r) => spec_join_tool(s, id, r),
        EventView::TaskEnded(tid) => (spec_task_ended(s, tid), Seq::empty()),
    }
}

/// A run of the agent: the events processed one at a time, in order, each
/// handler completing before the next event is taken — which is exactly
/// how the actor loop delivers them. Returns the final state and every
/// effect emitted along the way.
pub open spec fn spec_run(s: AgentView, events: Seq<EventView>) -> (AgentView, Seq<EffectView>)
    decreases events.len(),
{
    if events.len() == 0 {
        (s, Seq::empty())
    } else {
        let (s1, effs1) = spec_run(s, events.drop_last());
        let (s2, effs2) = spec_step(s1, events.last());
        (s2, effs1 + effs2)
    }
}

/// Whether every event of the sequence is enabled in the state it is
/// delivered in.
pub open spec fn run_enabled(s: AgentView, events: Seq<EventView>) -> bool
    decreases events.len(),
{
    if events.len() == 0 {
        true
    } else {
        run_enabled(s, events.drop_last()) && event_enabled(
            spec_run(s, events.drop_last()).0,
            events.last(),
        )
    }
}

/// How many model calls a sequence of effects starts.
pub open spec fn starts_count(effs: Seq<EffectView>) -> int
    decreases effs.len(),
{
    if effs.len() == 0 {
        0
    } else {
        starts_count(effs.drop_last()) + (match effs.last() {
            EffectView::StartModelCall(_, _) => 1int,
            _ => 0int,
        })
    }
}

/// How many idle notifications a sequence of effects carries.
pub open spec fn idles_count(effs: Seq<EffectView>) -> int
    decreases effs.len(),
{
    if effs.len() == 0 {
        0
    } else {
        idles_count(effs.drop_last()) + (match effs.last() {
            EffectView::NotifyIdle => 1int,
            _ => 0int,
        })
    }
}

/// How many model requests are in flight in this state. The model client
/// is taken from the state exactly while the stage is `ModelThinking`, so
/// this is 0 or 1 by construction — the heart of the single-flight
/// discipline.
pub open spec fn flight(s: AgentView) -> int {
    if s.stage == AgentStage::ModelThinking {
        1
    } else {
        0
    }
}

/// How many model-call outcomes this event joins (1 for a model-finished
/// event, 0 otherwise).
pub open spec fn finish_count(e: EventView) -> int {
    match e {
        EventView::ModelFinished(_) => 1,
        _ => 0,
    }
}

/// Counting helper: appending effects adds their counts.
proof fn lemma_counts_add(a: Seq<EffectView>, b: Seq<EffectView>)
    ensures
        starts_count(a + b) == starts_count(a) + starts_count(b),
        idles_count(a + b) == idles_count(a) + idles_count(b),
    decreases b.len(),
{
    if b.len() == 0 {
        assert(a + b =~= a);
    } else {
        lemma_counts_add(a, b.drop_last());
        assert((a + b).drop_last() =~= a + b.drop_last());
        assert((a + b).last() == b.last());
    }
}

/// Starting a model call preserves the invariant.
proof fn lemma_start_model_wf(s: AgentView)
    requires
        s.pending_tools.len() == 0,
        distinct_tool_names(s.tools),
        tasks_wf(s.running_tasks, s.next_task_id),
        s.retries_used <= s.max_retries,
        s.next_task_id < u64::MAX,
    ensures
        spec_start_model(s).0.wf(),
{
    let s2 = spec_start_model(s).0;
    let ts = s.running_tasks.push(s.next_task_id);
    assert forall|i: int, j: int| 0 <= i < j < ts.len() implies ts[i] != ts[j] by {
        if j == ts.len() - 1 {
            assert(ts[i] == s.running_tasks[i]);
            assert(ts[j] == s.next_task_id);
        }
    }
    assert forall|i: int| 0 <= i < ts.len() implies ts[i] < s2.next_task_id by {
        if i < s.running_tasks.len() {
            assert(ts[i] == s.running_tasks[i]);
        }
    }
}

/// Accepting tool calls preserves the bookkeeping invariants; the new
/// slots are appended after the existing ones and start unresolved.
proof fn lemma_accept_wf(s: AgentView, cs: Seq<crate::model::ToolCallRequestView>)
    requires
        distinct_pending_ids(s.pending_tools),
        tasks_wf(s.running_tasks, s.next_task_id),
        s.next_task_id as int + cs.len() <= u64::MAX as int,
    ensures
        ({
            let s1 = spec_accept_tool_calls(s, cs).0;
            &&& distinct_pending_ids(s1.pending_tools)
            &&& tasks_wf(s1.running_tasks, s1.next_task_id)
            &&& s1.pending_tools.len() >= s.pending_tools.len()
            &&& forall|i: int|
                0 <= i < s.pending_tools.len() ==> s1.pending_tools[i] == s.pending_tools[i]
            &&& forall|i: int|
                s.pending_tools.len() <= i < s1.pending_tools.len()
                    ==> #[trigger] s1.pending_tools[i].result is None
        }),
    decreases cs.len(),
{
    if cs.len() > 0 {
        lemma_accept_wf(s, cs.drop_last());
        crate::agent::lemma_accept_keeps_config(s, cs.drop_last());
        let s1 = spec_accept_tool_calls(s, cs.drop_last()).0;
        let c = cs.last();
        if crate::tool::knows_tool(s1.tools, c.name) && !pending_has(s1.pending_tools, c.id) {
            let p2 = s1.pending_tools.push(PendingToolView { request: c, result: None });
            assert forall|i: int, j: int| 0 <= i < j < p2.len() implies p2[i].request.id
                != p2[j].request.id by {
                if j == p2.len() - 1 {
                    assert(p2[i] == s1.pending_tools[i]);
                    assert(!(s1.pending_tools[i].request.id == c.id)) by {
                        if s1.pending_tools[i].request.id == c.id {
                            assert(pending_has(s1.pending_tools, c.id));
                        }
                    }
                }
            }
            if !s1.require_approval {
                let ts = s1.running_tasks.push(s1.next_task_id);
                assert forall|i: int, j: int| 0 <= i < j < ts.len() implies ts[i] != ts[j] by {
                    if j == ts.len() - 1 {
                        assert(ts[i] == s1.running_tasks[i]);
                    }
                }
                assert forall|i: int| 0 <= i < ts.len() implies ts[i] < (s1.next_task_id
                    + 1) as u64 by {
                    if i < s1.running_tasks.len() {
                        assert(ts[i] == s1.running_tasks[i]);
                    }
                }
            }
        }
    }
}

/// Joining one tool result preserves the invariant.
proof fn lemma_join_tool_wf(s: AgentView, id: Seq<char>, result: Result<Seq<char>, ErrorView>)
    requires
        s.wf(),
        pending_unresolved(s.pending_tools, id),
        s.next_task_id < u64::MAX,
    ensures
        spec_join_tool(s, id, result).0.wf(),
{
    let i = pending_index(s.pending_tools, id);
    assert(0 <= i < s.pending_tools.len() && s.pending_tools[i].request.id == id);
    let slot = s.pending_tools[i];
    let p2 = s.pending_tools.update(i, PendingToolView { request: slot.request, result: Some(result) });
    assert(distinct_pending_ids(p2)) by {
        assert forall|a: int, b: int| 0 <= a < b < p2.len() implies p2[a].request.id
            != p2[b].request.id by {
            assert(p2[a].request.id == s.pending_tools[a].request.id);
            assert(p2[b].request.id == s.pending_tools[b].request.id);
        }
    }
    if all_resolved(p2) {
        let s1 = AgentView {
            conversation: s.conversation + tool_items(p2),
            pending_tools: Seq::empty(),
            ..s
        };
        lemma_start_model_wf(s1);
    }
}

/// Every enabled step preserves the state invariant.
pub proof fn lemma_step_preserves_wf(s: AgentView, e: EventView)
    requires
        s.wf(),
        event_enabled(s, e),
    ensures
        spec_step(s, e).0.wf(),
{
    match e {
        EventView::UserInput(t) => {
            if s.stage == AgentStage::Idle {
                lemma_start_model_wf(
                    AgentView { conversation: s.conversation.push(user_item(t)), ..s },
                );
            }
        },
        EventView::ModelFinished(r) => {
            match r {
                Err(_) => {
                    if s.retries_used < s.max_retries {
                        lemma_start_model_wf(
                            AgentView { retries_used: (s.retries_used + 1) as u64, ..s },
                        );
                    } else {
                        let s1 = AgentView {
                            retries_used: 0,
                            client_held: true,
                            stage: AgentStage::Idle,
                            ..s
                        };
                        if s1.pending_inputs.len() > 0 {
                            lemma_start_model_wf(
                                AgentView {
                                    conversation: s1.conversation.push(
                                        user_item(s1.pending_inputs[0]),
                                    ),
                                    pending_inputs: s1.pending_inputs.subrange(
                                        1,
                                        s1.pending_inputs.len() as int,
                                    ),
                                    ..s1
                                },
                            );
                        }
                    }
                },
                Ok(resp) => {
                    let s1 = AgentView {
                        conversation: s.conversation.push(assistant_item(resp)),
                        client_held: true,
                        retries_used: 0,
                        ..s
                    };
                    if resp.finish_reason == Some(crate::model::ModelFinishReason::ToolCalls)
                        && resp.tool_calls.len() > 0 {
                        let s2 = AgentView { stage: AgentStage::RunningTools, ..s1 };
                        lemma_accept_wf(s2, resp.tool_calls);
                        crate::agent::lemma_accept_keeps_config(s2, resp.tool_calls);
                        let s3 = spec_accept_tool_calls(s2, resp.tool_calls).0;
                        if s3.pending_tools.len() == 0 {
                            lemma_start_model_wf(s3);
                        }
                    } else {
                        let s2 = AgentView { stage: AgentStage::Idle, ..s1 };
                        if s2.pending_inputs.len() > 0 {
                            lemma_start_model_wf(
                                AgentView {
                                    conversation: s2.conversation.push(
                                        user_item(s2.pending_inputs[0]),
                                    ),
                                    pending_inputs: s2.pending_inputs.subrange(
                                        1,
                                        s2.pending_inputs.len() as int,
                                    ),
                                    ..s2
                                },
                            );
                        }
                    }
                },
            }
        },
        EventView::ApprovalResolved(id, res) => {
            if res.approved {
                let ts = s.running_tasks.push(s.next_task_id);
                assert forall|i: int, j: int| 0 <= i < j < ts.len() implies ts[i] != ts[j] by {
                    if j == ts.len() - 1 {
                        assert(ts[i] == s.running_tasks[i]);
                    }
                }
                assert forall|i: int| 0 <= i < ts.len() implies ts[i] < (s.next_task_id
                    + 1) as u64 by {
                    if i < s.running_tasks.len() {
                        assert(ts[i] == s.running_tasks[i]);
                    }
                }
            } else {
                lemma_join_tool_wf(s, id, Err(rejection_error(res.why)));
            }
        },
        EventView::ToolFinished(id, r) => {
            lemma_join_tool_wf(s, id, r);
        },
        EventView::TaskEnded(tid) => {
            if s.running_tasks.contains(tid) {
                let k = s.running_tasks.index_of(tid);
                let ts = s.running_tasks.remove(k);
                assert forall|i: int, j: int| 0 <= i < j < ts.len() implies ts[i] != ts[j] by {
                    let si = if i < k { i } else { i + 1 };
                    let sj = if j < k { j } else { j + 1 };
                    assert(ts[i] == s.running_tasks[si]);
                    assert(ts[j] == s.running_tasks[sj]);
                }
                assert forall|i: int| 0 <= i < ts.len() implies ts[i] < s.next_task_id by {
                    let si = if i < k { i } else { i + 1 };
                    assert(ts[i] == s.running_tasks[si]);
                }
            }
        },
    }
}

/// The invariant holds after any enabled run.
pub proof fn lemma_run_preserves_wf(s: AgentView, events: Seq<EventView>)
    requires
        s.wf(),
        run_enabled(s, events),
    ensures
        spec_run(s, events).0.wf(),
    decreases events.len(),
{
    if events.len() > 0 {
        lemma_run_preserves_wf(s, events.drop_last());
        lemma_step_preserves_wf(spec_run(s, events.drop_last()).0, events.last());
    }
}


/// How many model-call outcomes a sequence of events joins.
pub open spec fn finishes_total(events: Seq<EventView>) -> int
    decreases events.len(),
{
    if events.len() == 0 {
        0
    } else {
        finishes_total(events.drop_last()) + finish_count(events.last())
    }
}

/// The counts of a one-element effect sequence.
proof fn lemma_counts_singleton(x: EffectView)
    ensures
        starts_count(seq![x]) == (match x {
            EffectView::StartModelCall(_, _) => 1int,
            _ => 0int,
        }),
        idles_count(seq![x]) == (match x {
            EffectView::NotifyIdle => 1int,
            _ => 0int,
        }),
{
    reveal_with_fuel(starts_count, 2);
    reveal_with_fuel(idles_count, 2);
    assert(seq![x].drop_last() =~= Seq::<EffectView>::empty());
}

/// Transcript effects start no model call and notify no idle.
proof fn lemma_transcript_counts(ds: Seq<Seq<char>>)
    ensures
        starts_count(crate::agent::transcript_effects(ds)) == 0,
        idles_count(crate::agent::transcript_effects(ds)) == 0,
    decreases ds.len(),
{
    let effs = crate::agent::transcript_effects(ds);
    if ds.len() > 0 {
        lemma_transcript_counts(ds.drop_last());
        assert(effs.drop_last() =~~= crate::agent::transcript_effects(ds.drop_last()));
        assert(effs.last() is Transcript);
    }
}

/// Accepting tool calls never starts a model call and never notifies idle.
proof fn lemma_accept_counts(s: AgentView, cs: Seq<crate::model::ToolCallRequestView>)
    ensures
        starts_count(spec_accept_tool_calls(s, cs).1) == 0,
        idles_count(spec_accept_tool_calls(s, cs).1) == 0,
    decreases cs.len(),
{
    if cs.len() > 0 {
        lemma_accept_counts(s, cs.drop_last());
        let (s1, effs1) = spec_accept_tool_calls(s, cs.drop_last());
        let c = cs.last();
        if crate::tool::knows_tool(s1.tools, c.name) && !pending_has(s1.pending_tools, c.id) {
            if s1.require_approval {
                lemma_counts_add(effs1, seq![EffectView::RequestApproval(c)]);
                lemma_counts_singleton(EffectView::RequestApproval(c));
            } else {
                lemma_counts_add(effs1, seq![EffectView::StartToolCall(s1.next_task_id, c)]);
                lemma_counts_singleton(EffectView::StartToolCall(s1.next_task_id, c));
            }
        } else {
            lemma_counts_add(effs1, seq![EffectView::DropToolCall(c)]);
            lemma_counts_singleton(EffectView::DropToolCall(c));
        }
    }
}

/// The counts of processing one input: one started model call, no idle.
proof fn lemma_process_input_counts(s: AgentView, input: Seq<char>)
    ensures
        starts_count(spec_process_input(s, input).1) == 1,
        idles_count(spec_process_input(s, input).1) == 0,
        spec_process_input(s, input).0.stage == AgentStage::ModelThinking,
{
    let s1 = AgentView { conversation: s.conversation.push(user_item(input)), ..s };
    let effs = spec_start_model(s1).1;
    lemma_counts_add(seq![EffectView::Transcript(input, TranscriptSource::User)], effs);
    lemma_counts_singleton(EffectView::Transcript(input, TranscriptSource::User));
    lemma_counts_singleton(effs[0]);
    assert(effs =~= seq![effs[0]]);
}

/// The counts of returning to idle: a started call when an input was
/// queued, a single idle notification otherwise.
proof fn lemma_process_next_counts(s: AgentView)
    ensures
        ({
            let (s2, effs) = spec_process_next(s);
            if s.pending_inputs.len() > 0 {
                starts_count(effs) == 1 && idles_count(effs) == 0 && s2.stage
                    == AgentStage::ModelThinking
            } else {
                starts_count(effs) == 0 && idles_count(effs) == 1 && s2 == s
            }
        }),
{
    if s.pending_inputs.len() > 0 {
        let s1 = AgentView {
            pending_inputs: s.pending_inputs.subrange(1, s.pending_inputs.len() as int),
            ..s
        };
        lemma_process_input_counts(s1, s.pending_inputs[0]);
    } else {
        lemma_counts_singleton(EffectView::NotifyIdle);
    }
}

/// LAW (single model call in flight). Over every enabled step: at most one
/// model call starts, and the in-flight count — encoded by the stage, and
/// with it by the taken model client — moves exactly by the calls started
/// minus the outcome joined, staying 0 or 1. Together with
/// [`lemma_single_flight_run`] this shows that for all interleavings at
/// most one model request is in flight per agent at any time.
pub proof fn lemma_single_flight_step(s: AgentView, e: EventView)
    requires
        s.wf(),
        event_enabled(s, e),
    ensures
        ({
            let (s2, effs) = spec_step(s, e);
            &&& starts_count(effs) <= 1
            &&& flight(s2) == flight(s) + starts_count(effs) - finish_count(e)
            &&& 0 <= flight(s2) <= 1
        }),
{
    match e {
        EventView::UserInput(t) => {
            if s.stage != AgentStage::Idle {
                assert(starts_count(Seq::<EffectView>::empty()) == 0);
            } else {
                lemma_process_input_counts(s, t);
            }
        },
        EventView::ModelFinished(r) => {
            match r {
                Err(err) => {
                    let rep = seq![EffectView::ReportError(err)];
                    lemma_counts_singleton(EffectView::ReportError(err));
                    if s.retries_used < s.max_retries {
                        let s1 = AgentView { retries_used: (s.retries_used + 1) as u64, ..s };
                        let effs = spec_start_model(s1).1;
                        lemma_counts_add(rep, effs);
                        lemma_counts_singleton(effs[0]);
                        assert(effs =~= seq![effs[0]]);
                    } else {
                        let s1 = AgentView {
                            retries_used: 0,
                            client_held: true,
                            stage: AgentStage::Idle,
                            ..s
                        };
                        lemma_counts_add(rep, spec_process_next(s1).1);
                        lemma_process_next_counts(s1);
                    }
                },
                Ok(resp) => {
                    let s1 = AgentView {
                        conversation: s.conversation.push(assistant_item(resp)),
                        client_held: true,
                        retries_used: 0,
                        ..s
                    };
                    let teff = crate::agent::transcript_effects(resp.deltas);
                    lemma_transcript_counts(resp.deltas);
                    if resp.finish_reason == Some(crate::model::ModelFinishReason::ToolCalls)
                        && resp.tool_calls.len() > 0 {
                        let s2 = AgentView { stage: AgentStage::RunningTools, ..s1 };
                        let (s3, effs) = spec_accept_tool_calls(s2, resp.tool_calls);
                        lemma_accept_counts(s2, resp.tool_calls);
                        lemma_counts_add(teff, effs);
                        if s3.pending_tools.len() == 0 {
                            let effs2 = spec_start_model(s3).1;
                            lemma_counts_add(teff + effs, effs2);
                            lemma_counts_singleton(effs2[0]);
                            assert(effs2 =~= seq![effs2[0]]);
                        } else {
                            crate::agent::lemma_accept_keeps_config(s2, resp.tool_calls);
                        }
                    } else {
                        let s2 = AgentView { stage: AgentStage::Idle, ..s1 };
                        lemma_counts_add(teff, spec_process_next(s2).1);
                        lemma_process_next_counts(s2);
                    }
                },
            }
        },
        EventView::ApprovalResolved(id, res) => {
            if res.approved {
                let i = pending_index(s.pending_tools, id);
                lemma_counts_singleton(
                    EffectView::StartToolCall(s.next_task_id, s.pending_tools[i].request),
                );
            } else {
                lemma_join_counts(s, id, Err(rejection_error(res.why)));
            }
        },
        EventView::ToolFinished(id, r) => {
            lemma_join_counts(s, id, r);
        },
        EventView::TaskEnded(_) => {
        },
    }
}

/// The counts of joining one tool result: one started model call when it
/// completed the turn, nothing otherwise; never an idle notification.
proof fn lemma_join_counts(s: AgentView, id: Seq<char>, r: Result<Seq<char>, ErrorView>)
    requires
        s.wf(),
        pending_unresolved(s.pending_tools, id),
    ensures
        ({
            let (s2, effs) = spec_join_tool(s, id, r);
            &&& idles_count(effs) == 0
            &&& if s2.stage == AgentStage::ModelThinking {
                starts_count(effs) == 1
            } else {
                starts_count(effs) == 0 && s2.stage == AgentStage::RunningTools
            }
        }),
{
    let i = pending_index(s.pending_tools, id);
    let slot = s.pending_tools[i];
    let p2 = s.pending_tools.update(i, PendingToolView { request: slot.request, result: Some(r) });
    if all_resolved(p2) {
        let s1 = AgentView {
            conversation: s.conversation + tool_items(p2),
            pending_tools: Seq::empty(),
            ..s
        };
        let effs = spec_start_model(s1).1;
        lemma_counts_singleton(effs[0]);
        assert(effs =~= seq![effs[0]]);
    }
}

/// LAW (single model call in flight, over a whole run): over any enabled
/// run, the number of model calls started equals the number of outcomes
/// joined plus the in-flight count of the final state; that count is 0 or
/// 1. Since every prefix of an enabled run is itself an enabled run, the
/// accounting holds at every point of every interleaving: a model call
/// only ever starts when no other is outstanding.
pub proof fn lemma_single_flight_run(s: AgentView, events: Seq<EventView>)
    requires
        s.wf(),
        run_enabled(s, events),
    ensures
        ({
            let (s2, effs) = spec_run(s, events);
            &&& starts_count(effs) == finishes_total(events) + flight(s2) - flight(s)
            &&& 0 <= flight(s2) <= 1
        }),
    decreases events.len(),
{
    if events.len() == 0 {
    } else {
        let pre = events.drop_last();
        lemma_single_flight_run(s, pre);
        let (s1, effs1) = spec_run(s, pre);
        lemma_run_preserves_wf(s, pre);
        lemma_single_flight_step(s1, events.last());
        lemma_counts_add(effs1, spec_step(s1, events.last()).1);
    }
}

/// LAW (busy enqueue only queues). Enqueuing an input while the stage is
/// `ModelThinking` or `RunningTools` appends it to the pending queue and
/// has no other effect: no second model call starts, nothing else in the
/// state moves. Inputs are processed from the front of that queue, in
/// FIFO order, once the agent returns to idle
/// ([`lemma_queued_inputs_fifo`]).
pub proof fn lemma_busy_enqueue_only_queues(s: AgentView, input: Seq<char>)
    requires
        s.stage != AgentStage::Idle,
    ensures
        spec_enqueue(s, input).0 == (AgentView {
            pending_inputs: s.pending_inputs.push(input),
            ..s
        }),
        spec_enqueue(s, input).1 == Seq::<EffectView>::empty(),
        starts_count(spec_enqueue(s, input).1) == 0,
{
}

/// LAW (queued inputs are processed FIFO). When the agent returns to idle
/// with inputs still queued, the input processed next is the oldest one,
/// and the rest of the queue keeps its order.
pub proof fn lemma_queued_inputs_fifo(s: AgentView)
    requires
        s.pending_inputs.len() > 0,
    ensures
        ({
            let (s2, effs) = spec_process_next(s);
            &&& effs.len() >= 1
            &&& effs[0] == EffectView::Transcript(s.pending_inputs[0], TranscriptSource::User)
            &&& s2.pending_inputs == s.pending_inputs.subrange(1, s.pending_inputs.len() as int)
        }),
{
    let s1 = AgentView {
        pending_inputs: s.pending_inputs.subrange(1, s.pending_inputs.len() as int),
        ..s
    };
    let input = s.pending_inputs[0];
    let s1b = AgentView { conversation: s1.conversation.push(user_item(input)), ..s1 };
    let effs = seq![EffectView::Transcript(input, TranscriptSource::User)] + spec_start_model(
        s1b,
    ).1;
    assert(effs[0] == EffectView::Transcript(input, TranscriptSource::User));
}

/// LAW (rejection never executes the tool). Rejecting a tool call
/// approval starts no tool task — for this call or any other — and the
/// call's slot instead records a `PermissionDenied` error carrying the
/// rejection's reason; when the rejection completes the turn, the Tool
/// conversation item recorded for the call carries that
/// `PermissionDenied`-derived message.
pub proof fn lemma_rejection_never_executes(s: AgentView, id: Seq<char>, why: Option<Seq<char>>)
    requires
        s.wf(),
        pending_unresolved(s.pending_tools, id),
    ensures
        ({
            let res = ApprovalResultView { approved: false, why: why };
            let (s2, effs) = spec_approval_resolved(s, id, res);
            let i = pending_index(s.pending_tools, id);
            let resolved = PendingToolView {
                request: s.pending_tools[i].request,
                result: Some(Err(rejection_error(why))),
            };
            &&& forall|k: int| 0 <= k < effs.len() ==> !((#[trigger] effs[k]) is StartToolCall)
            &&& (s2.stage == AgentStage::RunningTools ==> s2.pending_tools[i] == resolved)
            &&& (s2.stage != AgentStage::RunningTools ==> {
                &&& s2.conversation.len() == s.conversation.len() + s.pending_tools.len()
                &&& s2.conversation[s.conversation.len() + i] == tool_item(resolved)
            })
        }),
{
    let res = ApprovalResultView { approved: false, why: why };
    let i = pending_index(s.pending_tools, id);
    let slot = s.pending_tools[i];
    let resolved = PendingToolView {
        request: slot.request,
        result: Some(Err(rejection_error(why))),
    };
    let p2 = s.pending_tools.update(i, resolved);
    if all_resolved(p2) {
        let s1 = AgentView {
            conversation: s.conversation + tool_items(p2),
            pending_tools: Seq::empty(),
            ..s
        };
        let effs = spec_start_model(s1).1;
        assert(effs =~= seq![effs[0]]);
        assert(s1.conversation[s.conversation.len() + i] == tool_items(p2)[i]);
    }
}

/// LAW (idle fires exactly once per drained queue). A step notifies the
/// idle observer at most once, and does so exactly when it joins a model
/// outcome that ends the turn with the agent idle — which can only happen
/// with an empty input queue, after the last pending input has been
/// processed through to a non-tool-call response (or an abandoned turn).
/// No other event notifies idle, so the observer fires exactly once each
/// time the queue drains.
pub proof fn lemma_idle_once_per_drain(s: AgentView, e: EventView)
    requires
        s.wf(),
        event_enabled(s, e),
    ensures
        ({
            let (s2, effs) = spec_step(s, e);
            &&& idles_count(effs) <= 1
            &&& (idles_count(effs) == 1 <==> (e is ModelFinished && s2.stage == AgentStage::Idle))
            &&& (idles_count(effs) == 1 ==> s2.pending_inputs.len() == 0)
        }),
{
    match e {
        EventView::UserInput(t) => {
            if s.stage == AgentStage::Idle {
                lemma_process_input_counts(s, t);
            }
        },
        EventView::ModelFinished(r) => {
            match r {
                Err(err) => {
                    let rep = seq![EffectView::ReportError(err)];
                    lemma_counts_singleton(EffectView::ReportError(err));
                    if s.retries_used < s.max_retries {
                        let s1 = AgentView { retries_used: (s.retries_used + 1) as u64, ..s };
                        let effs = spec_start_model(s1).1;
                        lemma_counts_add(rep, effs);
                        lemma_counts_singleton(effs[0]);
                        assert(effs =~= seq![effs[0]]);
                    } else {
                        let s1 = AgentView {
                            retries_used: 0,
                            client_held: true,
                            stage: AgentStage::Idle,
                            ..s
                        };
                        lemma_counts_add(rep, spec_process_next(s1).1);
                        lemma_process_next_counts(s1);
                    }
                },
                Ok(resp) => {
                    let s1 = AgentView {
                        conversation: s.conversation.push(assistant_item(resp)),
                        client_held: true,
                        retries_used: 0,
                        ..s
                    };
                    let teff = crate::agent::transcript_effects(resp.deltas);
                    lemma_transcript_counts(resp.deltas);
                    if resp.finish_reason == Some(crate::model::ModelFinishReason::ToolCalls)
                        && resp.tool_calls.len() > 0 {
                        let s2 = AgentView { stage: AgentStage::RunningTools, ..s1 };
                        let (s3, effs) = spec_accept_tool_calls(s2, resp.tool_calls);
                        lemma_accept_counts(s2, resp.tool_calls);
                        lemma_counts_add(teff, effs);
                        crate::agent::lemma_accept_keeps_config(s2, resp.tool_calls);
                        if s3.pending_tools.len() == 0 {
                            let effs2 = spec_start_model(s3).1;
                            lemma_counts_add(teff + effs, effs2);
                            lemma_counts_singleton(effs2[0]);
                            assert(effs2 =~= seq![effs2[0]]);
                        }
                    } else {
                        let s2 = AgentView { stage: AgentStage::Idle, ..s1 };
                        lemma_counts_add(teff, spec_process_next(s2).1);
                        lemma_process_next_counts(s2);
                    }
                },
            }
        },
        EventView::ApprovalResolved(id, res) => {
            if res.approved {
                let i = pending_index(s.pending_tools, id);
                lemma_counts_singleton(
                    EffectView::StartToolCall(s.next_task_id, s.pending_tools[i].request),
                );
            } else {
                lemma_join_counts(s, id, Err(rejection_error(res.why)));
            }
        },
        EventView::ToolFinished(id, r) => {
            lemma_join_counts(s, id, r);
        },
        EventView::TaskEnded(_) => {
        },
    }
}


/// How many slots of `p` are still unresolved.
pub open spec fn unresolved_count(p: Seq<PendingToolView>) -> int
    decreases p.len(),
{
    if p.len() == 0 {
        0
    } else {
        unresolved_count(p.drop_last()) + (if p.last().result is None {
            1int
        } else {
            0int
        })
    }
}

/// In a sequence of all-unresolved slots, the unresolved count is the
/// length.
proof fn lemma_unresolved_count_full(p: Seq<PendingToolView>)
    requires
        forall|i: int| 0 <= i < p.len() ==> (#[trigger] p[i].result) is None,
    ensures
        unresolved_count(p) == p.len(),
    decreases p.len(),
{
    if p.len() > 0 {
        lemma_unresolved_count_full(p.drop_last());
    }
}

/// The unresolved count is zero exactly when every slot is resolved.
proof fn lemma_unresolved_count_zero(p: Seq<PendingToolView>)
    ensures
        unresolved_count(p) == 0 <==> all_resolved(p),
        unresolved_count(p) >= 0,
    decreases p.len(),
{
    if p.len() > 0 {
        lemma_unresolved_count_zero(p.drop_last());
        if unresolved_count(p) == 0 {
            assert forall|i: int| 0 <= i < p.len() implies !((#[trigger] p[i].result) is None) by {
                if i < p.len() - 1 {
                    assert(p.drop_last()[i] == p[i]);
                }
            }
        }
        if all_resolved(p) {
            let q = p.drop_last();
            assert forall|i: int| 0 <= i < q.len() implies !((#[trigger] q[i].result) is None) by {
                assert(q[i] == p[i]);
            }
        }
    }
}

/// Resolving one unresolved slot decrements the unresolved count by one.
proof fn lemma_unresolved_count_update(p: Seq<PendingToolView>, i: int, slot: PendingToolView)
    requires
        0 <= i < p.len(),
        p[i].result is None,
        slot.result is Some,
    ensures
        unresolved_count(p.update(i, slot)) == unresolved_count(p) - 1,
    decreases p.len(),
{
    let p2 = p.update(i, slot);
    if i == p.len() - 1 {
        assert(p2.drop_last() =~= p.drop_last());
        assert(p2.last() == slot);
    } else {
        assert(p2.drop_last() =~= p.drop_last().update(i, slot));
        assert(p2.last() == p.last());
        lemma_unresolved_count_update(p.drop_last(), i, slot);
    }
}

/// While strictly fewer results have been joined than slots are
/// unresolved, the turn does not move: only the slots change (one more of
/// them resolved per event), and no effect is emitted.
proof fn lemma_tool_turn_partial(s: AgentView, events: Seq<EventView>)
    requires
        s.stage == AgentStage::RunningTools,
        forall|k: int| 0 <= k < events.len() ==> (#[trigger] events[k]) is ToolFinished,
        run_enabled(s, events),
        events.len() < unresolved_count(s.pending_tools),
    ensures
        ({
            let (s2, effs) = spec_run(s, events);
            &&& s2 == (AgentView { pending_tools: s2.pending_tools, ..s })
            &&& s2.pending_tools.len() == s.pending_tools.len()
            &&& unresolved_count(s2.pending_tools) == unresolved_count(s.pending_tools)
                - events.len()
            &&& effs == Seq::<EffectView>::empty()
        }),
    decreases events.len(),
{
    lemma_unresolved_count_zero(s.pending_tools);
    if events.len() > 0 {
        let pre = events.drop_last();
        lemma_tool_turn_partial(s, pre);
        let (s1, effs1) = spec_run(s, pre);
        let e = events.last();
        assert(e is ToolFinished);
        let id = e->ToolFinished_0;
        let r = e->ToolFinished_1;
        assert(event_enabled(s1, e));
        let i = pending_index(s1.pending_tools, id);
        let slot = s1.pending_tools[i];
        let resolved = PendingToolView { request: slot.request, result: Some(r) };
        let p2 = s1.pending_tools.update(i, resolved);
        lemma_unresolved_count_update(s1.pending_tools, i, resolved);
        lemma_unresolved_count_zero(p2);
        assert(!all_resolved(p2));
        assert(spec_run(s, events).1 =~= Seq::<EffectView>::empty());
    }
}

/// LAW (a turn joins all its tool calls exactly once). Starting from a
/// turn whose N accepted tool calls are all outstanding, feed the agent
/// one result per call — in any completion order the scheduler may
/// produce. Nothing observable happens until the last result arrives;
/// with it, exactly N Tool conversation items are appended (one per
/// call, in acceptance order), the slots drain, and exactly one
/// subsequent model call starts.
pub proof fn lemma_turn_completes_once(s: AgentView, events: Seq<EventView>)
    requires
        s.wf(),
        s.stage == AgentStage::RunningTools,
        forall|i: int| 0 <= i < s.pending_tools.len() ==> (#[trigger] s.pending_tools[i].result)
            is None,
        forall|k: int| 0 <= k < events.len() ==> (#[trigger] events[k]) is ToolFinished,
        run_enabled(s, events),
        events.len() == s.pending_tools.len(),
    ensures
        ({
            let (s2, effs) = spec_run(s, events);
            &&& s2.conversation.len() == s.conversation.len() + s.pending_tools.len()
            &&& forall|i: int|
                s.conversation.len() <= i < s2.conversation.len()
                    ==> (#[trigger] s2.conversation[i].msg) is Tool
            &&& forall|i: int|
                0 <= i < s.conversation.len() ==> #[trigger] s2.conversation[i]
                    == s.conversation[i]
            &&& starts_count(effs) == 1
            &&& s2.stage == AgentStage::ModelThinking
            &&& s2.pending_tools.len() == 0
        }),
{
    let n = s.pending_tools.len() as int;
    lemma_unresolved_count_full(s.pending_tools);
    assert(n > 0);
    let pre = events.drop_last();
    lemma_tool_turn_partial(s, pre);
    let (s1, effs1) = spec_run(s, pre);
    let e = events.last();
    assert(e is ToolFinished) by {
        assert(events[events.len() - 1] is ToolFinished);
    }
    let id = e->ToolFinished_0;
    let r = e->ToolFinished_1;
    assert(event_enabled(s1, e));
    let i = pending_index(s1.pending_tools, id);
    let slot = s1.pending_tools[i];
    let resolved = PendingToolView { request: slot.request, result: Some(r) };
    let p2 = s1.pending_tools.update(i, resolved);
    lemma_unresolved_count_update(s1.pending_tools, i, resolved);
    lemma_unresolved_count_zero(p2);
    assert(all_resolved(p2));
    let s1b = AgentView {
        conversation: s1.conversation + tool_items(p2),
        pending_tools: Seq::<PendingToolView>::empty(),
        ..s1
    };
    let (s2, effs2) = spec_start_model(s1b);
    assert(spec_run(s, events).0 == s2);
    assert(spec_run(s, events).1 =~= effs2);
    lemma_counts_singleton(effs2[0]);
    assert(effs2 =~= seq![effs2[0]]);
    let conv2 = s2.conversation;
    assert forall|j: int|
        s.conversation.len() <= j < conv2.len() implies (#[trigger] conv2[j].msg) is Tool by {
        assert(conv2[j] == tool_items(p2)[j - s.conversation.len()]);
    }
}


} // verus!
