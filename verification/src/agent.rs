//! The agent orchestration state machine.
//!
//! An agent is an actor: its state is owned by one sequential processing
//! loop, and everything that happens to it arrives as a message. This
//! module holds that state and the handler for each message as ordinary,
//! verified functions; the host runs the loop, delivers one event at a
//! time, and performs the returned [`AgentEffect`]s (spawning the model
//! call, spawning an approved tool, invoking the observers). Because the
//! host only ever applies one handler at a time, every interleaving the
//! running system can produce is a sequence of these steps, and the
//! properties proved about single steps and step sequences hold for all
//! of them.
//!
//! Each transition is specified by a spec-level step function on the
//! mathematical view of the state, and each handler's contract says it
//! implements that function exactly.

use vstd::prelude::*;

use crate::conversation::{Conversation, Item, ItemView, TranscriptSource};
use crate::model::{
    MessageView, ModelFinishReason, ModelMessage, ModelRequest, ModelRequestView, ModelTool,
    ModelToolView, ProviderError, ProviderErrorView, ToolCallRequest, ToolCallRequestView,
    ToolCallResult,
};
use crate::model_client::{ModelClientResponse, ModelClientResponseView};
use crate::tool::{
    knows_tool, tool_result_view, ApprovalResultView, Error, ErrorKind, ErrorView, Executor,
    ToolResult,
};

verus! {

/// A stage of the agent.
#[derive(Clone, Copy, Debug, PartialEq, Eq, Structural)]
pub enum AgentStage {
    /// Waiting for input.
    Idle,
    /// A model request is in flight.
    ModelThinking,
    /// Tool calls of the current turn are executing.
    RunningTools,
}

/// The message that enqueues a user input for processing. Handling it is
/// always immediate, whatever the current stage: when the agent is not
/// idle the input only joins the pending queue, and it is processed once
/// the agent returns to idle.
pub struct EnqueueUserInput(pub String);

/// A tool call of the current turn: the request, and its result once the
/// call has been resolved. The slot is created when the call is accepted
/// and stays unresolved until the call's result is joined.
pub struct PendingTool {
    /// The tool call request this slot belongs to.
    pub request: ToolCallRequest,
    /// The result, once the call has reported (or its approval was
    /// rejected).
    pub result: Option<ToolResult>,
}

/// Mathematical view of a [`PendingTool`].
#[verifier::ext_equal]
pub struct PendingToolView {
    pub request: ToolCallRequestView,
    pub result: Option<Result<Seq<char>, ErrorView>>,
}

impl View for PendingTool {
    type V = PendingToolView;

    open spec fn view(&self) -> PendingToolView {
        PendingToolView {
            request: self.request@,
            result: match &self.result {
                Some(Ok(s)) => Some(Ok(s@)),
                Some(Err(e)) => Some(Err(e@)),
                None => None,
            },
        }
    }
}

impl DeepView for PendingTool {
    type V = PendingToolView;

    open spec fn deep_view(&self) -> PendingToolView {
        self.view()
    }
}

/// An effect the host must perform after a handler returns. Effects are
/// ordered; the host performs them in order.
pub enum AgentEffect {
    /// Hand this line to the transcript observer.
    Transcript(String, TranscriptSource),
    /// Take the model client and spawn a child task (under the given task
    /// id) that sends this request; its outcome comes back through
    /// [`AgentCore::handle_model_finished`].
    StartModelCall(u64, ModelRequest),
    /// Hand an approval for this call to the approval observer; its
    /// resolution comes back through
    /// [`AgentCore::handle_approval_resolved`].
    RequestApproval(ToolCallRequest),
    /// Spawn a child task (under the given task id) executing this
    /// approved call; its result comes back through
    /// [`AgentCore::handle_tool_finished`].
    StartToolCall(u64, ToolCallRequest),
    /// This call was dropped: its name resolves to no registered tool, or
    /// its id duplicates a call already accepted this turn. The host may
    /// log a warning; nothing is executed.
    DropToolCall(ToolCallRequest),
    /// Hand this provider error to the error observer.
    ReportError(ProviderError),
    /// Invoke the idle observer: every input has been fully processed.
    NotifyIdle,
}

/// Mathematical view of an [`AgentEffect`].
#[verifier::ext_equal]
pub enum EffectView {
    Transcript(Seq<char>, TranscriptSource),
    StartModelCall(u64, ModelRequestView),
    RequestApproval(ToolCallRequestView),
    StartToolCall(u64, ToolCallRequestView),
    DropToolCall(ToolCallRequestView),
    ReportError(ProviderErrorView),
    NotifyIdle,
}

impl View for AgentEffect {
    type V = EffectView;

    open spec fn view(&self) -> EffectView {
        match self {
            AgentEffect::Transcript(s, src) => EffectView::Transcript(s@, *src),
            AgentEffect::StartModelCall(tid, req) => EffectView::StartModelCall(*tid, req@),
            AgentEffect::RequestApproval(q) => EffectView::RequestApproval(q@),
            AgentEffect::StartToolCall(tid, q) => EffectView::StartToolCall(*tid, q@),
            AgentEffect::DropToolCall(q) => EffectView::DropToolCall(q@),
            AgentEffect::ReportError(e) => EffectView::ReportError(e@),
            AgentEffect::NotifyIdle => EffectView::NotifyIdle,
        }
    }
}

impl DeepView for AgentEffect {
    type V = EffectView;

    open spec fn deep_view(&self) -> EffectView {
        self.view()
    }
}

/// Mathematical view of an [`AgentCore`].
#[verifier::ext_equal]
pub struct AgentView {
    pub conversation: Seq<ItemView>,
    pub stage: AgentStage,
    pub pending_inputs: Seq<Seq<char>>,
    pub pending_tools: Seq<PendingToolView>,
    pub client_held: bool,
    pub tools: Seq<ModelToolView>,
    pub require_approval: bool,
    pub max_retries: u64,
    pub retries_used: u64,
    pub next_task_id: u64,
    pub running_tasks: Seq<u64>,
}

/// Whether `p` holds a slot for the call id `id`.
pub open spec fn pending_has(p: Seq<PendingToolView>, id: Seq<char>) -> bool {
    exists|i: int| 0 <= i < p.len() && p[i].request.id == id
}

/// The index of the slot for the call id `id`.
pub open spec fn pending_index(p: Seq<PendingToolView>, id: Seq<char>) -> int {
    choose|i: int| 0 <= i < p.len() && p[i].request.id == id
}

/// Whether the slot for call id `id` is still unresolved.
pub open spec fn pending_unresolved(p: Seq<PendingToolView>, id: Seq<char>) -> bool {
    pending_has(p, id) && p[pending_index(p, id)].result is None
}

/// Whether every slot of `p` has a result.
pub open spec fn all_resolved(p: Seq<PendingToolView>) -> bool {
    forall|i: int| 0 <= i < p.len() ==> !(#[trigger] p[i].result is None)
}

/// Whether the slots of `p` carry pairwise distinct call ids.
pub open spec fn distinct_pending_ids(p: Seq<PendingToolView>) -> bool {
    forall|i: int, j: int| 0 <= i < j < p.len() ==> p[i].request.id != p[j].request.id
}

/// Whether the task ids of `ts` are pairwise distinct and all below `next`.
pub open spec fn tasks_wf(ts: Seq<u64>, next: u64) -> bool {
    (forall|i: int, j: int| 0 <= i < j < ts.len() ==> ts[i] != ts[j]) && (forall|i: int|
        0 <= i < ts.len() ==> ts[i] < next)
}

impl AgentView {
    /// The state invariant of the agent.
    ///
    /// The two central clauses encode the concurrency discipline: the
    /// model client is out of the state exactly while the stage is
    /// `ModelThinking` — so at most one model request is ever in flight —
    /// and tool slots exist exactly while the stage is `RunningTools`.
    pub open spec fn wf(self) -> bool {
        &&& self.client_held <==> self.stage != AgentStage::ModelThinking
        &&& self.pending_tools.len() > 0 <==> self.stage == AgentStage::RunningTools
        &&& distinct_pending_ids(self.pending_tools)
        &&& crate::tool::distinct_tool_names(self.tools)
        &&& tasks_wf(self.running_tasks, self.next_task_id)
        &&& self.retries_used <= self.max_retries
        &&& self.stage != AgentStage::ModelThinking ==> self.retries_used == 0
    }
}

/// The conversation item recording a user input.
pub open spec fn user_item(text: Seq<char>) -> ItemView {
    ItemView { msg: MessageView::User(text), transcript: text }
}

/// The conversation item recording a drained model response: the opaque
/// message when the provider gave one, and a plain assistant text
/// otherwise.
pub open spec fn assistant_item(resp: ModelClientResponseView) -> ItemView {
    ItemView {
        msg: match resp.opaque_msg {
            Some(id) => MessageView::Opaque(id),
            None => MessageView::Assistant(resp.transcript),
        },
        transcript: resp.transcript,
    }
}

/// The conversation item recording one resolved tool call: the content fed
/// back to the model is the success string, or the failure's textual
/// reason.
pub open spec fn tool_item(p: PendingToolView) -> ItemView {
    match p.result {
        Some(Ok(content)) => ItemView {
            msg: MessageView::Tool(
                crate::model::ToolCallResultView { id: p.request.id, content: content },
            ),
            transcript: "Ran a tool"@,
        },
        Some(Err(e)) => ItemView {
            msg: MessageView::Tool(
                crate::model::ToolCallResultView { id: p.request.id, content: e.reason_text() },
            ),
            transcript: "Failed to run tool"@,
        },
        None => ItemView {
            msg: MessageView::Tool(
                crate::model::ToolCallResultView { id: p.request.id, content: Seq::empty() },
            ),
            transcript: "Failed to run tool"@,
        },
    }
}

/// The conversation items recording a fully resolved turn of tool calls,
/// in the order the calls were accepted.
pub open spec fn tool_items(p: Seq<PendingToolView>) -> Seq<ItemView> {
    p.map_values(|x: PendingToolView| tool_item(x))
}

/// The model request built from the current conversation and the current
/// tool definitions.
pub open spec fn request_view(s: AgentView) -> ModelRequestView {
    ModelRequestView {
        messages: s.conversation.map_values(|it: ItemView| it.msg),
        tools: s.tools,
    }
}

/// Takes the model client and starts a model call carrying the request
/// built from the current conversation: the stage becomes `ModelThinking`
/// and a fresh task id is allocated for the child task.
pub open spec fn spec_start_model(s: AgentView) -> (AgentView, Seq<EffectView>) {
    let s2 = AgentView {
        stage: AgentStage::ModelThinking,
        client_held: false,
        next_task_id: (s.next_task_id + 1) as u64,
        running_tasks: s.running_tasks.push(s.next_task_id),
        ..s
    };
    (s2, seq![EffectView::StartModelCall(s.next_task_id, request_view(s))])
}

/// Accepts one user input while idle: the input is appended to the
/// conversation as a user item, emitted to the transcript observer, and a
/// model call is started.
pub open spec fn spec_process_input(s: AgentView, input: Seq<char>) -> (AgentView, Seq<
    EffectView,
>) {
    let s1 = AgentView { conversation: s.conversation.push(user_item(input)), ..s };
    let (s2, effs) = spec_start_model(s1);
    (s2, seq![EffectView::Transcript(input, TranscriptSource::User)] + effs)
}

/// Handles [`EnqueueUserInput`]: while the agent is not idle the input
/// only joins the pending queue — no model call starts — and while idle it
/// is processed at once.
pub open spec fn spec_enqueue(s: AgentView, input: Seq<char>) -> (AgentView, Seq<EffectView>) {
    if s.stage != AgentStage::Idle {
        (AgentView { pending_inputs: s.pending_inputs.push(input), ..s }, Seq::empty())
    } else {
        spec_process_input(s, input)
    }
}

/// On returning to idle: processes the oldest pending input if there is
/// one, and notifies the idle observer otherwise.
pub open spec fn spec_process_next(s: AgentView) -> (AgentView, Seq<EffectView>) {
    if s.pending_inputs.len() > 0 {
        let input = s.pending_inputs[0];
        let s1 = AgentView {
            pending_inputs: s.pending_inputs.subrange(1, s.pending_inputs.len() as int),
            ..s
        };
        spec_process_input(s1, input)
    } else {
        (s, seq![EffectView::NotifyIdle])
    }
}

/// Accepts the tool calls of a model turn, left to right. A call whose
/// name resolves to a registered tool and whose id is new this turn gets a
/// pending slot and — depending on whether an approval observer is
/// registered — either an approval request or an immediately started child
/// task (auto-approval). Any other call is dropped and never occupies a
/// slot.
pub open spec fn spec_accept_tool_calls(s: AgentView, calls: Seq<ToolCallRequestView>) -> (
    AgentView,
    Seq<EffectView>,
)
    decreases calls.len(),
{
    if calls.len() == 0 {
        (s, Seq::empty())
    } else {
        let (s1, effs1) = spec_accept_tool_calls(s, calls.drop_last());
        let c = calls.last();
        if knows_tool(s1.tools, c.name) && !pending_has(s1.pending_tools, c.id) {
            let slot = PendingToolView { request: c, result: None };
            if s1.require_approval {
                (
                    AgentView { pending_tools: s1.pending_tools.push(slot), ..s1 },
                    effs1 + seq![EffectView::RequestApproval(c)],
                )
            } else {
                (
                    AgentView {
                        pending_tools: s1.pending_tools.push(slot),
                        next_task_id: (s1.next_task_id + 1) as u64,
                        running_tasks: s1.running_tasks.push(s1.next_task_id),
                        ..s1
                    },
                    effs1 + seq![EffectView::StartToolCall(s1.next_task_id, c)],
                )
            }
        } else {
            (s1, effs1 + seq![EffectView::DropToolCall(c)])
        }
    }
}

/// Handles the completion of the in-flight model call.
///
/// On an error the error observer is notified; while retries remain the
/// same request is started again, and once they are exhausted the turn is
/// abandoned and the agent returns to idle. On success the response is
/// appended to the conversation and emitted as an assistant transcript;
/// a response finishing with tool calls moves the agent to `RunningTools`
/// (or straight into the next model call when every call was dropped),
/// and any other response completes the turn.
pub open spec fn spec_model_finished(
    s: AgentView,
    resp: Result<ModelClientResponseView, ProviderErrorView>,
) -> (AgentView, Seq<EffectView>) {
    match resp {
        Err(e) => {
            if s.retries_used < s.max_retries {
                let s1 = AgentView { retries_used: (s.retries_used + 1) as u64, ..s };
                let (s2, effs) = spec_start_model(s1);
                (s2, seq![EffectView::ReportError(e)] + effs)
            } else {
                let s1 = AgentView {
                    retries_used: 0,
                    client_held: true,
                    stage: AgentStage::Idle,
                    ..s
                };
                let (s2, effs) = spec_process_next(s1);
                (s2, seq![EffectView::ReportError(e)] + effs)
            }
        },
        Ok(r) => {
            let s1 = AgentView {
                conversation: s.conversation.push(assistant_item(r)),
                client_held: true,
                retries_used: 0,
                ..s
            };
            let teff = transcript_effects(r.deltas);
            if r.finish_reason == Some(ModelFinishReason::ToolCalls) && r.tool_calls.len() > 0 {
                let s2 = AgentView { stage: AgentStage::RunningTools, ..s1 };
                let (s3, effs) = spec_accept_tool_calls(s2, r.tool_calls);
                if s3.pending_tools.len() == 0 {
                    let (s4, effs2) = spec_start_model(s3);
                    (s4, teff + effs + effs2)
                } else {
                    (s3, teff + effs)
                }
            } else {
                let s2 = AgentView { stage: AgentStage::Idle, ..s1 };
                let (s3, effs) = spec_process_next(s2);
                (s3, teff + effs)
            }
        },
    }
}

/// The transcript effects of a drained response: one line per message
/// delta, in emission order, all attributed to the assistant.
pub open spec fn transcript_effects(ds: Seq<Seq<char>>) -> Seq<EffectView> {
    ds.map_values(|d: Seq<char>| EffectView::Transcript(d, TranscriptSource::Assistant))
}

/// The tool error recorded for a rejected approval: `PermissionDenied`,
/// carrying the rejection's reason when one was given.
pub open spec fn rejection_error(why: Option<Seq<char>>) -> ErrorView {
    ErrorView { kind: ErrorKind::PermissionDenied, reason: why }
}

/// Joins one resolved tool call into its pending slot. Partial completion
/// changes nothing else; when the last outstanding slot resolves, one Tool
/// conversation item is appended per slot (in acceptance order), the slots
/// are drained, and the next model call of the same turn starts.
pub open spec fn spec_join_tool(
    s: AgentView,
    id: Seq<char>,
    result: Result<Seq<char>, ErrorView>,
) -> (AgentView, Seq<EffectView>) {
    let i = pending_index(s.pending_tools, id);
    let slot = s.pending_tools[i];
    let p2 = s.pending_tools.update(
        i,
        PendingToolView { request: slot.request, result: Some(result) },
    );
    if all_resolved(p2) {
        let s1 = AgentView {
            conversation: s.conversation + tool_items(p2),
            pending_tools: Seq::empty(),
            ..s
        };
        spec_start_model(s1)
    } else {
        (AgentView { pending_tools: p2, ..s }, Seq::empty())
    }
}

/// Handles the resolution of a tool call approval. Approval starts the
/// call's child task; rejection never executes the tool — the rejection
/// itself is joined as the call's `PermissionDenied` result.
pub open spec fn spec_approval_resolved(
    s: AgentView,
    id: Seq<char>,
    res: ApprovalResultView,
) -> (AgentView, Seq<EffectView>) {
    if res.approved {
        let i = pending_index(s.pending_tools, id);
        let s1 = AgentView {
            next_task_id: (s.next_task_id + 1) as u64,
            running_tasks: s.running_tasks.push(s.next_task_id),
            ..s
        };
        (s1, seq![EffectView::StartToolCall(s.next_task_id, s.pending_tools[i].request)])
    } else {
        spec_join_tool(s, id, Err(rejection_error(res.why)))
    }
}


/// Reaps one ended child task from the bookkeeping. A report for a task
/// that is not in `running_tasks` is an internal consistency failure; the
/// state is left unchanged and the handler reports it to the host, which
/// aborts the offending agent.
pub open spec fn spec_task_ended(s: AgentView, tid: u64) -> AgentView {
    if s.running_tasks.contains(tid) {
        AgentView { running_tasks: s.running_tasks.remove(s.running_tasks.index_of(tid)), ..s }
    } else {
        s
    }
}

/// Accepting tool calls only moves fields forward: the task-id counter
/// grows by at most one per call, and the configuration fields are
/// untouched.
pub proof fn lemma_accept_keeps_config(s: AgentView, cs: Seq<ToolCallRequestView>)
    requires
        s.next_task_id as int + cs.len() <= u64::MAX as int,
    ensures
        ({
            let s1 = spec_accept_tool_calls(s, cs).0;
            &&& s1.next_task_id as int <= s.next_task_id as int + cs.len()
            &&& s1.next_task_id >= s.next_task_id
            &&& s1.tools == s.tools
            &&& s1.require_approval == s.require_approval
            &&& s1.conversation == s.conversation
            &&& s1.stage == s.stage
            &&& s1.client_held == s.client_held
            &&& s1.pending_inputs == s.pending_inputs
            &&& s1.max_retries == s.max_retries
            &&& s1.retries_used == s.retries_used
        }),
    decreases cs.len(),
{
    if cs.len() > 0 {
        lemma_accept_keeps_config(s, cs.drop_last());
    }
}

/// Mathematical view of a model call outcome.
pub open spec fn response_view(r: Result<ModelClientResponse, ProviderError>) -> Result<
    ModelClientResponseView,
    ProviderErrorView,
> {
    match r {
        Ok(x) => Ok(x@),
        Err(e) => Err(e@),
    }
}

/// The private state of one agent: the conversation, the current stage,
/// the queue of pending user inputs, the tool slots of the current turn,
/// and the child-task bookkeeping. Exactly one processing loop may own a
/// value of this type; each handler runs to completion before the next
/// event is delivered.
pub struct AgentCore {
    /// The conversation so far; append-only during normal operation.
    pub conversation: Conversation,
    /// The current stage.
    pub current_stage: AgentStage,
    /// User inputs not yet submitted to the model, oldest first.
    pub pending_inputs: Vec<String>,
    /// The tool slots of the current turn, in acceptance order.
    pub pending_tool_results: Vec<PendingTool>,
    /// Whether the model client is in the state (it is taken while a
    /// request is in flight and returned on completion).
    pub model_client_held: bool,
    /// The registered tools.
    pub tool_executor: Executor,
    /// Whether an approval observer is registered; without one, accepted
    /// tool calls are auto-approved.
    pub require_approval: bool,
    /// How many times a failed model call is retried before the turn is
    /// abandoned.
    pub max_retries: u64,
    /// How many retries the in-flight request has used.
    pub retries_used: u64,
    /// The next child-task id to allocate.
    pub next_task_id: u64,
    /// The ids of the child tasks that have not reported their end yet.
    pub running_tasks: Vec<u64>,
}

impl View for AgentCore {
    type V = AgentView;

    open spec fn view(&self) -> AgentView {
        AgentView {
            conversation: self.conversation@,
            stage: self.current_stage,
            pending_inputs: self.pending_inputs.deep_view(),
            pending_tools: self.pending_tool_results.deep_view(),
            client_held: self.model_client_held,
            tools: self.tool_executor@,
            require_approval: self.require_approval,
            max_retries: self.max_retries,
            retries_used: self.retries_used,
            next_task_id: self.next_task_id,
            running_tasks: self.running_tasks@,
        }
    }
}

impl AgentCore {
    /// Builds the model request for the current conversation: every
    /// message, in order, plus the registered tool definitions.
    pub fn build_model_request(&self) -> (r: ModelRequest)
        ensures
            r@ == request_view(self@),
    {
        let mut messages: Vec<ModelMessage> = Vec::new();
        let ghost all = self@.conversation.map_values(|it: ItemView| it.msg);
        let mut i: usize = 0;
        while i < self.conversation.items.len()
            invariant
                i <= self.conversation.items.len(),
                all == self@.conversation.map_values(|it: ItemView| it.msg),
                all.len() == self.conversation.items.deep_view().len(),
                self@.conversation == self.conversation.items.deep_view(),
                messages.deep_view() == all.take(i as int),
            decreases self.conversation.items.len() - i,
        {
            let ghost prev = messages.deep_view();
            let m = self.conversation.items[i].msg.clone();
            proof {
                assert(m.deep_view() == all[i as int]);
            }
            messages.push(m);
            proof {
                assert(messages.deep_view() =~~= prev.push(all[i as int]));
                assert(messages.deep_view() =~~= all.take(i + 1 as int));
            }
            i = i + 1;
        }
        proof {
            assert(all.take(self.conversation.items.len() as int) =~~= all);
        }
        let tools = self.tool_executor.definitions();
        let r = ModelRequest { messages, tools };
        proof {
            assert(r@ =~~= request_view(self@));
        }
        r
    }

    /// Takes the model client, allocates a task id for the child task that
    /// will carry the request, and moves to `ModelThinking`.
    fn start_model_call(&mut self) -> (eff: AgentEffect)
        requires
            old(self).next_task_id < u64::MAX,
        ensures
            final(self)@ == spec_start_model(old(self)@).0,
            seq![eff@] == spec_start_model(old(self)@).1,
    {
        let request = self.build_model_request();
        let tid = self.next_task_id;
        self.next_task_id = self.next_task_id + 1;
        self.running_tasks.push(tid);
        self.current_stage = AgentStage::ModelThinking;
        self.model_client_held = false;
        let eff = AgentEffect::StartModelCall(tid, request);
        proof {
            assert(final(self)@ =~~= spec_start_model(old(self)@).0);
            assert(seq![eff@] =~~= spec_start_model(old(self)@).1);
        }
        eff
    }

    /// Appends the input to the conversation as a user item, emits its
    /// transcript, and starts the model call for it.
    fn process_input_checked(&mut self, input: String, effects: &mut Vec<AgentEffect>)
        requires
            old(self).next_task_id < u64::MAX,
        ensures
            final(self)@ == spec_process_input(old(self)@, input@).0,
            final(effects).deep_view() == old(effects).deep_view() + spec_process_input(
                old(self)@,
                input@,
            ).1,
    {
        let ghost text = input@;
        let ghost pre_effects = effects.deep_view();
        effects.push(AgentEffect::Transcript(input.clone(), TranscriptSource::User));
        let item = Item { msg: ModelMessage::User(input.clone()), transcript: input };
        proof {
            assert(item@ == user_item(text));
        }
        let ghost mid = AgentView { conversation: old(self)@.conversation.push(user_item(text)), ..old(self)@ };
        self.conversation.items.push(item);
        proof {
            assert(self@ =~~= mid);
        }
        let eff = self.start_model_call();
        effects.push(eff);
        proof {
            assert(final(self)@ == spec_process_input(old(self)@, text).0);
            assert(final(effects).deep_view() =~~= pre_effects + spec_process_input(
                old(self)@,
                text,
            ).1);
        }
    }

    /// Handles [`EnqueueUserInput`]: while not idle, the input joins the
    /// pending queue and nothing else happens — in particular no second
    /// model call starts; while idle, it is processed at once.
    pub fn enqueue_user_input(&mut self, input: String) -> (effects: Vec<AgentEffect>)
        requires
            old(self).next_task_id < u64::MAX,
        ensures
            final(self)@ == spec_enqueue(old(self)@, input@).0,
            effects.deep_view() == spec_enqueue(old(self)@, input@).1,
    {
        let ghost text = input@;
        let mut effects: Vec<AgentEffect> = Vec::new();
        if self.current_stage != AgentStage::Idle {
            self.pending_inputs.push(input);
            proof {
                assert(self@ =~~= spec_enqueue(old(self)@, text).0);
                assert(effects.deep_view() =~~= spec_enqueue(old(self)@, text).1);
            }
            return effects;
        }
        self.process_input_checked(input, &mut effects);
        proof {
            assert(effects.deep_view() =~~= Seq::<EffectView>::empty() + spec_process_input(
                old(self)@,
                text,
            ).1);
        }
        effects
    }

    /// On returning to idle: dequeues and processes the oldest pending
    /// input, or notifies the idle observer when the queue is drained.
    fn process_next_input(&mut self, effects: &mut Vec<AgentEffect>)
        requires
            old(self).next_task_id < u64::MAX,
        ensures
            final(self)@ == spec_process_next(old(self)@).0,
            final(effects).deep_view() == old(effects).deep_view() + spec_process_next(
                old(self)@,
            ).1,
    {
        let ghost pre_effects = effects.deep_view();
        if self.pending_inputs.len() > 0 {
            let input = self.pending_inputs.remove(0);
            proof {
                assert(self@ =~~= (AgentView {
                    pending_inputs: old(self)@.pending_inputs.subrange(
                        1,
                        old(self)@.pending_inputs.len() as int,
                    ),
                    ..old(self)@
                }));
            }
            self.process_input_checked(input, effects);
        } else {
            effects.push(AgentEffect::NotifyIdle);
            proof {
                assert(final(effects).deep_view() =~~= pre_effects + spec_process_next(
                    old(self)@,
                ).1);
            }
        }
    }

    /// Whether a slot for this call id already exists this turn.
    fn pending_contains(&self, id: &String) -> (r: bool)
        ensures
            r == pending_has(self@.pending_tools, id@),
    {
        let mut i: usize = 0;
        while i < self.pending_tool_results.len()
            invariant
                i <= self.pending_tool_results.len(),
                forall|j: int|
                    0 <= j < i ==> self.pending_tool_results.deep_view()[j].request.id != id@,
            decreases self.pending_tool_results.len() - i,
        {
            if self.pending_tool_results[i].request.id == *id {
                proof {
                    assert(self.pending_tool_results.deep_view()[i as int].request.id == id@);
                }
                return true;
            }
            i = i + 1;
        }
        false
    }

    /// Finds the slot for this call id.
    fn find_pending(&self, id: &String) -> (idx: usize)
        requires
            distinct_pending_ids(self@.pending_tools),
            pending_has(self@.pending_tools, id@),
        ensures
            idx == pending_index(self@.pending_tools, id@),
            0 <= idx < self@.pending_tools.len(),
            self@.pending_tools[idx as int].request.id == id@,
    {
        let ghost p = self@.pending_tools;
        let mut i: usize = 0;
        while i < self.pending_tool_results.len()
            invariant
                p == self@.pending_tools,
                distinct_pending_ids(p),
                pending_has(p, id@),
                i <= self.pending_tool_results.len(),
                forall|j: int| 0 <= j < i ==> p[j].request.id != id@,
            decreases self.pending_tool_results.len() - i,
        {
            if self.pending_tool_results[i].request.id == *id {
                proof {
                    assert(p[i as int].request.id == id@);
                    let k = pending_index(p, id@);
                    assert(0 <= k < p.len() && p[k].request.id == id@);
                    assert(k == i as int);
                }
                return i;
            }
            i = i + 1;
        }
        proof {
            let k = pending_index(p, id@);
            assert(0 <= k < p.len() && p[k].request.id == id@);
            assert(false);
        }
        0
    }

    /// Accepts the tool calls of a model turn, in order: resolvable,
    /// non-duplicate calls get a pending slot and an approval request (or
    /// an immediately started child task under auto-approval); the rest
    /// are dropped.
    fn accept_tool_calls(&mut self, calls: &Vec<ToolCallRequest>, effects: &mut Vec<AgentEffect>)
        requires
            old(self).next_task_id as int + calls@.len() <= u64::MAX as int,
        ensures
            final(self)@ == spec_accept_tool_calls(old(self)@, calls.deep_view()).0,
            final(effects).deep_view() == old(effects).deep_view() + spec_accept_tool_calls(
                old(self)@,
                calls.deep_view(),
            ).1,
    {
        let ghost cs = calls.deep_view();
        let ghost pre_effects = effects.deep_view();
        let mut i: usize = 0;
        while i < calls.len()
            invariant
                i <= calls.len(),
                cs == calls.deep_view(),
                old(self).next_task_id as int + cs.len() <= u64::MAX as int,
                self@ == spec_accept_tool_calls(old(self)@, cs.take(i as int)).0,
                effects.deep_view() == pre_effects + spec_accept_tool_calls(
                    old(self)@,
                    cs.take(i as int),
                ).1,
                self@.next_task_id <= old(self).next_task_id + i,
                self@.tools == old(self)@.tools,
                self@.require_approval == old(self)@.require_approval,
            decreases calls.len() - i,
        {
            let ghost taken = cs.take(i as int);
            let ghost ci = cs[i as int];
            proof {
                let ext = cs.take(i + 1 as int);
                assert(ext =~~= taken.push(ci));
                assert(ext.drop_last() =~~= taken);
                assert(ext.last() == ci);
            }
            let q = &calls[i];
            let known = self.tool_executor.resolves(&q.name);
            let dup = self.pending_contains(&q.id);
            let ghost mid = self@;
            let ghost mid_effects = effects.deep_view();
            if known && !dup {
                let slot = PendingTool { request: q.clone(), result: None };
                proof {
                    assert(slot@ == (PendingToolView { request: ci, result: None }));
                }
                self.pending_tool_results.push(slot);
                if self.require_approval {
                    effects.push(AgentEffect::RequestApproval(q.clone()));
                    proof {
                        assert(self@ =~~= (AgentView {
                            pending_tools: mid.pending_tools.push(
                                PendingToolView { request: ci, result: None },
                            ),
                            ..mid
                        }));
                        assert(effects.deep_view() =~~= mid_effects + seq![
                            EffectView::RequestApproval(ci),
                        ]);
                        assert(self@ =~~= spec_accept_tool_calls(old(self)@, cs.take(i + 1 as int)).0);
                        assert(effects.deep_view() =~~= pre_effects + spec_accept_tool_calls(
                            old(self)@,
                            cs.take(i + 1 as int),
                        ).1);
                    }
                } else {
                    let tid = self.next_task_id;
                    self.next_task_id = self.next_task_id + 1;
                    self.running_tasks.push(tid);
                    effects.push(AgentEffect::StartToolCall(tid, q.clone()));
                    proof {
                        assert(self@ =~~= (AgentView {
                            pending_tools: mid.pending_tools.push(
                                PendingToolView { request: ci, result: None },
                            ),
                            next_task_id: (mid.next_task_id + 1) as u64,
                            running_tasks: mid.running_tasks.push(mid.next_task_id),
                            ..mid
                        }));
                        assert(effects.deep_view() =~~= mid_effects + seq![
                            EffectView::StartToolCall(mid.next_task_id, ci),
                        ]);
                        assert(self@ =~~= spec_accept_tool_calls(old(self)@, cs.take(i + 1 as int)).0);
                        assert(effects.deep_view() =~~= pre_effects + spec_accept_tool_calls(
                            old(self)@,
                            cs.take(i + 1 as int),
                        ).1);
                    }
                }
            } else {
                effects.push(AgentEffect::DropToolCall(q.clone()));
                proof {
                    assert(effects.deep_view() =~~= mid_effects + seq![EffectView::DropToolCall(ci)]);
                    assert(self@ =~~= spec_accept_tool_calls(old(self)@, cs.take(i + 1 as int)).0);
                    assert(effects.deep_view() =~~= pre_effects + spec_accept_tool_calls(
                        old(self)@,
                        cs.take(i + 1 as int),
                    ).1);
                }
            }
            i = i + 1;
        }
        proof {
            assert(cs.take(calls@.len() as int) =~~= cs);
        }
    }

    /// Whether every slot of the current turn has a result.
    fn all_pending_resolved(&self) -> (r: bool)
        ensures
            r == all_resolved(self@.pending_tools),
    {
        let mut i: usize = 0;
        while i < self.pending_tool_results.len()
            invariant
                i <= self.pending_tool_results.len(),
                forall|j: int|
                    0 <= j < i ==> !(#[trigger] self.pending_tool_results.deep_view()[j].result
                        is None),
            decreases self.pending_tool_results.len() - i,
        {
            if self.pending_tool_results[i].result.is_none() {
                proof {
                    assert(self.pending_tool_results.deep_view()[i as int].result is None);
                }
                return false;
            }
            i = i + 1;
        }
        true
    }

    /// Joins one resolved call into its slot; when it was the last
    /// outstanding one, records every result in the conversation, drains
    /// the slots and starts the next model call of the turn.
    fn join_tool(&mut self, id: &String, result: ToolResult, effects: &mut Vec<AgentEffect>)
        requires
            distinct_pending_ids(old(self)@.pending_tools),
            pending_has(old(self)@.pending_tools, id@),
            old(self).next_task_id < u64::MAX,
        ensures
            final(self)@ == spec_join_tool(old(self)@, id@, tool_result_view(result)).0,
            final(effects).deep_view() == old(effects).deep_view() + spec_join_tool(
                old(self)@,
                id@,
                tool_result_view(result),
            ).1,
    {
        let ghost rv = tool_result_view(result);
        let ghost pre_effects = effects.deep_view();
        let idx = self.find_pending(id);
        let request = self.pending_tool_results[idx].request.clone();
        let ghost slot0 = old(self)@.pending_tools[idx as int];
        self.pending_tool_results.set(
            idx,
            PendingTool { request, result: Some(result) },
        );
        let ghost p2 = old(self)@.pending_tools.update(
            idx as int,
            PendingToolView { request: slot0.request, result: Some(rv) },
        );
        proof {
            assert(self@.pending_tools =~~= p2);
        }
        if !self.all_pending_resolved() {
            proof {
                assert(self@ =~~= spec_join_tool(old(self)@, id@, rv).0);
                assert(final(effects).deep_view() =~~= pre_effects + spec_join_tool(
                    old(self)@,
                    id@,
                    rv,
                ).1);
            }
            return ;
        }
        let ghost mid_conv = self@.conversation;
        let ghost mid = self@;
        let mut k: usize = 0;
        while k < self.pending_tool_results.len()
            invariant
                k <= self.pending_tool_results.len(),
                self.pending_tool_results.deep_view() == p2,
                mid_conv == mid.conversation,
                self@ == (AgentView {
                    conversation: mid_conv + tool_items(p2).take(k as int),
                    ..mid
                }),
            decreases self.pending_tool_results.len() - k,
        {
            let slot = &self.pending_tool_results[k];
            let item = match &slot.result {
                Some(Ok(content)) => Item {
                    msg: ModelMessage::Tool(
                        ToolCallResult { id: slot.request.id.clone(), content: content.clone() },
                    ),
                    transcript: String::from_str("Ran a tool"),
                },
                Some(Err(e)) => Item {
                    msg: ModelMessage::Tool(
                        ToolCallResult { id: slot.request.id.clone(), content: e.reason() },
                    ),
                    transcript: String::from_str("Failed to run tool"),
                },
                None => Item {
                    msg: ModelMessage::Tool(
                        ToolCallResult { id: slot.request.id.clone(), content: String::new() },
                    ),
                    transcript: String::from_str("Failed to run tool"),
                },
            };
            proof {
                assert(item@ == tool_item(p2[k as int]));
            }
            let ghost conv_before = self@.conversation;
            self.conversation.items.push(item);
            proof {
                assert(self@.conversation =~~= conv_before.push(tool_item(p2[k as int])));
                assert(self@.conversation =~~= mid_conv + tool_items(p2).take(k + 1 as int));
                assert(self@ =~~= (AgentView {
                    conversation: mid_conv + tool_items(p2).take(k + 1 as int),
                    ..mid
                }));
            }
            k = k + 1;
        }
        proof {
            assert(tool_items(p2).take(p2.len() as int) =~~= tool_items(p2));
        }
        self.pending_tool_results.clear();
        let eff = self.start_model_call();
        effects.push(eff);
        proof {
            assert(final(self)@ =~~= spec_join_tool(old(self)@, id@, rv).0);
            assert(final(effects).deep_view() =~~= pre_effects + spec_join_tool(
                old(self)@,
                id@,
                rv,
            ).1);
        }
    }

    /// Handles the completion of one tool call's child task: the result is
    /// joined into its slot, and when it was the last outstanding one the
    /// turn proceeds to its next model call.
    pub fn handle_tool_finished(&mut self, id: String, result: ToolResult) -> (effects: Vec<
        AgentEffect,
    >)
        requires
            old(self)@.wf(),
            pending_unresolved(old(self)@.pending_tools, id@),
            old(self).next_task_id < u64::MAX,
        ensures
            final(self)@ == spec_join_tool(old(self)@, id@, tool_result_view(result)).0,
            effects.deep_view() == spec_join_tool(old(self)@, id@, tool_result_view(result)).1,
    {
        let mut effects: Vec<AgentEffect> = Vec::new();
        self.join_tool(&id, result, &mut effects);
        proof {
            assert(effects.deep_view() =~~= Seq::<EffectView>::empty() + spec_join_tool(
                old(self)@,
                id@,
                tool_result_view(result),
            ).1);
        }
        effects
    }

    /// Handles the resolution of a tool call approval: approval starts the
    /// call's child task, rejection joins a `PermissionDenied` result in
    /// its place — the tool itself is never executed.
    pub fn handle_approval_resolved(&mut self, id: String, res: crate::tool::ApprovalResult) -> (
        effects: Vec<AgentEffect>)
        requires
            old(self)@.wf(),
            pending_unresolved(old(self)@.pending_tools, id@),
            old(self).next_task_id < u64::MAX,
        ensures
            final(self)@ == spec_approval_resolved(old(self)@, id@, res@).0,
            effects.deep_view() == spec_approval_resolved(old(self)@, id@, res@).1,
    {
        let ghost rw = res@.why;
        let mut effects: Vec<AgentEffect> = Vec::new();
        if res.approved {
            let idx = self.find_pending(&id);
            let req = self.pending_tool_results[idx].request.clone();
            let tid = self.next_task_id;
            self.next_task_id = self.next_task_id + 1;
            self.running_tasks.push(tid);
            effects.push(AgentEffect::StartToolCall(tid, req));
            proof {
                assert(self@ =~~= spec_approval_resolved(old(self)@, id@, res@).0);
                assert(effects.deep_view() =~~= spec_approval_resolved(old(self)@, id@, res@).1);
            }
        } else {
            let err = match res.why {
                Some(w) => Error::permission_denied().with_reason(w),
                None => Error::permission_denied(),
            };
            proof {
                assert(err@ == rejection_error(rw));
            }
            self.join_tool(&id, Err(err), &mut effects);
            proof {
                assert(effects.deep_view() =~~= Seq::<EffectView>::empty() + spec_approval_resolved(
                    old(self)@,
                    id@,
                    res@,
                ).1);
            }
        }
        effects
    }

    /// Handles the completion of the in-flight model call: on an error the
    /// observer is notified and the request retried until the retries are
    /// exhausted; on success the response joins the conversation and the
    /// turn proceeds — to its tool calls, or back to idle.
    pub fn handle_model_finished(
        &mut self,
        resp: Result<ModelClientResponse, ProviderError>,
    ) -> (effects: Vec<AgentEffect>)
        requires
            old(self)@.wf(),
            old(self).current_stage == AgentStage::ModelThinking,
            resp is Ok ==> old(self).next_task_id as int + resp->Ok_0@.tool_calls.len() + 1
                <= u64::MAX as int,
            resp is Err ==> old(self).next_task_id < u64::MAX,
        ensures
            final(self)@ == spec_model_finished(old(self)@, response_view(resp)).0,
            effects.deep_view() == spec_model_finished(old(self)@, response_view(resp)).1,
    {
        let ghost rv = response_view(resp);
        let mut effects: Vec<AgentEffect> = Vec::new();
        match resp {
            Err(e) => {
                effects.push(AgentEffect::ReportError(e));
                if self.retries_used < self.max_retries {
                    self.retries_used = self.retries_used + 1;
                    let eff = self.start_model_call();
                    effects.push(eff);
                    proof {
                        assert(self@ =~~= spec_model_finished(old(self)@, rv).0);
                        assert(effects.deep_view() =~~= spec_model_finished(old(self)@, rv).1);
                    }
                } else {
                    self.retries_used = 0;
                    self.model_client_held = true;
                    self.current_stage = AgentStage::Idle;
                    self.process_next_input(&mut effects);
                    proof {
                        assert(self@ =~~= spec_model_finished(old(self)@, rv).0);
                        assert(effects.deep_view() =~~= spec_model_finished(old(self)@, rv).1);
                    }
                }
            },
            Ok(r) => {
                let ModelClientResponse { transcript, deltas, opaque_msg, tool_calls, finish_reason } = r;
                let ghost resp_view = rv->Ok_0;
                let ghost teff = transcript_effects(resp_view.deltas);
                let mut di: usize = 0;
                while di < deltas.len()
                    invariant
                        di <= deltas.len(),
                        deltas.deep_view() == resp_view.deltas,
                        teff == transcript_effects(resp_view.deltas),
                        effects.deep_view() == teff.take(di as int),
                    decreases deltas.len() - di,
                {
                    let ghost prev = effects.deep_view();
                    let piece = deltas[di].clone();
                    proof {
                        assert(piece@ == resp_view.deltas[di as int]);
                        assert(teff[di as int] == EffectView::Transcript(
                            resp_view.deltas[di as int],
                            TranscriptSource::Assistant,
                        ));
                    }
                    effects.push(AgentEffect::Transcript(piece, TranscriptSource::Assistant));
                    proof {
                        assert(effects.deep_view() =~~= prev.push(teff[di as int]));
                        assert(effects.deep_view() =~~= teff.take(di + 1 as int));
                    }
                    di = di + 1;
                }
                proof {
                    assert(teff.take(deltas@.len() as int) =~~= teff);
                }
                let msg = match opaque_msg {
                    Some(o) => ModelMessage::Opaque(o),
                    None => ModelMessage::Assistant(transcript.clone()),
                };
                let item = Item { msg, transcript };
                proof {
                    assert(item@ == assistant_item(resp_view));
                }
                self.conversation.items.push(item);
                self.model_client_held = true;
                self.retries_used = 0;
                let should_run_tools = match finish_reason {
                    Some(ModelFinishReason::ToolCalls) => tool_calls.len() > 0,
                    _ => false,
                };
                let ghost mid = self@;
                proof {
                    assert(mid =~~= (AgentView {
                        conversation: old(self)@.conversation.push(assistant_item(resp_view)),
                        client_held: true,
                        retries_used: 0,
                        ..old(self)@
                    }));
                }
                if should_run_tools {
                    self.current_stage = AgentStage::RunningTools;
                    let ghost s2 = self@;
                    proof {
                        lemma_accept_keeps_config(s2, tool_calls.deep_view());
                        assert(effects.deep_view() =~~= teff);
                    }
                    self.accept_tool_calls(&tool_calls, &mut effects);
                    let ghost after_accept = effects.deep_view();
                    let ghost s3 = self@;
                    proof {
                        assert(s3 == spec_accept_tool_calls(s2, tool_calls.deep_view()).0);
                        assert(after_accept =~~= teff + spec_accept_tool_calls(
                            s2,
                            tool_calls.deep_view(),
                        ).1);
                    }
                    if self.pending_tool_results.len() == 0 {
                        let eff = self.start_model_call();
                        effects.push(eff);
                        proof {
                            assert(effects.deep_view() =~~= after_accept + spec_start_model(s3).1);
                        }
                    }
                    proof {
                        assert(self@ =~~= spec_model_finished(old(self)@, rv).0);
                        assert(effects.deep_view() =~~= spec_model_finished(old(self)@, rv).1);
                    }
                } else {
                    self.current_stage = AgentStage::Idle;
                    self.process_next_input(&mut effects);
                    proof {
                        assert(self@ =~~= spec_model_finished(old(self)@, rv).0);
                        assert(effects.deep_view() =~~= spec_model_finished(old(self)@, rv).1);
                    }
                }
            },
        }
        effects
    }

    /// Reaps one ended child task. Returns false — an internal consistency
    /// failure that should abort this agent, and no other — when the task
    /// id is unknown.
    pub fn handle_task_ended(&mut self, task_id: u64) -> (ok: bool)
        requires
            old(self)@.wf(),
        ensures
            ok == old(self)@.running_tasks.contains(task_id),
            final(self)@ == spec_task_ended(old(self)@, task_id),
    {
        let ghost ts = old(self)@.running_tasks;
        let mut i: usize = 0;
        while i < self.running_tasks.len()
            invariant
                self@ == old(self)@,
                tasks_wf(ts, old(self).next_task_id),
                ts == old(self)@.running_tasks,
                i <= self.running_tasks.len(),
                forall|j: int| 0 <= j < i ==> ts[j] != task_id,
            decreases self.running_tasks.len() - i,
        {
            if self.running_tasks[i] == task_id {
                self.running_tasks.remove(i);
                proof {
                    assert(ts[i as int] == task_id);
                    assert(ts.contains(task_id));
                    let k = ts.index_of(task_id);
                    assert(0 <= k < ts.len() && ts[k] == task_id);
                    assert(k == i as int);
                    assert(self@ =~~= spec_task_ended(old(self)@, task_id));
                }
                return true;
            }
            i = i + 1;
        }
        proof {
            assert(!ts.contains(task_id)) by {
                if ts.contains(task_id) {
                    let k = choose|k: int| 0 <= k < ts.len() && ts[k] == task_id;
                    assert(ts[k] != task_id);
                }
            }
        }
        false
    }
}


/// The conversation item a configured system prompt starts the
/// conversation with.
pub open spec fn system_item(text: Seq<char>) -> ItemView {
    ItemView { msg: MessageView::System(text), transcript: text }
}

/// How many times a failed model call is retried before the turn is
/// abandoned, unless the builder sets another bound.
pub const DEFAULT_MAX_RETRIES: u64 = 3;

/// Builds an [`AgentCore`]: the system prompt, the tool definitions, the
/// approval gate and the retry bound are fixed here; the host attaches its
/// observers and its model provider around the built core.
pub struct AgentBuilder {
    /// The system prompt the conversation starts with, if any.
    pub system_prompt: Option<String>,
    /// The tool definitions to register.
    pub tools: Vec<ModelTool>,
    /// Whether an approval observer is registered. Without one, accepted
    /// tool calls are auto-approved.
    pub require_approval: bool,
    /// How many times a failed model call is retried.
    pub max_retries: u64,
}

impl AgentBuilder {
    /// Creates a builder with no system prompt, no tools, auto-approval,
    /// and the default retry bound.
    pub fn new() -> (r: Self)
        ensures
            r.system_prompt is None,
            r.tools.deep_view() == Seq::<ModelToolView>::empty(),
            r.require_approval == false,
            r.max_retries == DEFAULT_MAX_RETRIES,
    {
        let tools: Vec<ModelTool> = Vec::new();
        proof {
            assert(tools.deep_view() =~~= Seq::<ModelToolView>::empty());
        }
        AgentBuilder {
            system_prompt: None,
            tools,
            require_approval: false,
            max_retries: DEFAULT_MAX_RETRIES,
        }
    }

    /// Sets the system prompt for the agent.
    pub fn with_system_prompt(self, prompt: String) -> (r: Self)
        ensures
            r == (AgentBuilder { system_prompt: Some(prompt), ..self }),
    {
        AgentBuilder { system_prompt: Some(prompt), ..self }
    }

    /// Registers a tool definition.
    pub fn with_tool(self, tool: ModelTool) -> (r: Self)
        ensures
            r.tools.deep_view() == self.tools.deep_view().push(tool@),
            r.system_prompt == self.system_prompt,
            r.require_approval == self.require_approval,
            r.max_retries == self.max_retries,
    {
        let ghost tv = tool.deep_view();
        let mut tools = self.tools;
        let ghost pre = tools.deep_view();
        tools.push(tool);
        proof {
            assert(tools.deep_view() =~~= pre.push(tv));
        }
        AgentBuilder { tools, ..self }
    }

    /// Declares that an approval observer is registered: accepted tool
    /// calls then wait for an explicit approval instead of starting at
    /// once.
    pub fn with_approval_gate(self) -> (r: Self)
        ensures
            r == (AgentBuilder { require_approval: true, ..self }),
    {
        AgentBuilder { require_approval: true, ..self }
    }

    /// Sets how many times a failed model call is retried before the turn
    /// is abandoned.
    pub fn with_max_retries(self, max_retries: u64) -> (r: Self)
        ensures
            r == (AgentBuilder { max_retries: max_retries, ..self }),
    {
        AgentBuilder { max_retries: max_retries, ..self }
    }

    /// Builds the agent state: idle, with the model client in the state,
    /// an empty input queue, and a conversation holding just the system
    /// prompt when one was configured.
    pub fn build(self) -> (a: AgentCore)
        ensures
            a@.wf(),
            a@.stage == AgentStage::Idle,
            a@.conversation == match self.system_prompt {
                Some(p) => seq![system_item(p@)],
                None => Seq::<ItemView>::empty(),
            },
            a@.pending_inputs == Seq::<Seq<char>>::empty(),
            a@.pending_tools == Seq::<PendingToolView>::empty(),
            a@.client_held == true,
            forall|n: Seq<char>|
                #[trigger] knows_tool(a@.tools, n) <==> knows_tool(self.tools.deep_view(), n),
            a@.require_approval == self.require_approval,
            a@.max_retries == self.max_retries,
            a@.retries_used == 0,
            a@.running_tasks == Seq::<u64>::empty(),
    {
        let mut conversation = Conversation::new();
        match self.system_prompt {
            Some(prompt) => {
                let ghost pv = prompt@;
                let item = Item {
                    msg: ModelMessage::System(prompt.clone()),
                    transcript: prompt,
                };
                proof {
                    assert(item@ == system_item(pv));
                }
                conversation.items.push(item);
                proof {
                    assert(conversation@ =~~= seq![system_item(pv)]);
                }
            },
            None => {},
        }
        let executor = Executor::with_tools(self.tools);
        let pending_inputs: Vec<String> = Vec::new();
        let pending_tool_results: Vec<PendingTool> = Vec::new();
        let running_tasks: Vec<u64> = Vec::new();
        let a = AgentCore {
            conversation,
            current_stage: AgentStage::Idle,
            pending_inputs,
            pending_tool_results,
            model_client_held: true,
            tool_executor: executor,
            require_approval: self.require_approval,
            max_retries: self.max_retries,
            retries_used: 0,
            next_task_id: 1,
            running_tasks,
        };
        proof {
            assert(a@.pending_inputs =~~= Seq::<Seq<char>>::empty());
            assert(a@.pending_tools =~~= Seq::<PendingToolView>::empty());
            assert(a@.running_tasks =~~= Seq::<u64>::empty());
        }
        a
    }
}

impl Default for AgentBuilder {
    fn default() -> (r: Self)
        ensures
            r.system_prompt is None,
            r.tools.deep_view() == Seq::<ModelToolView>::empty(),
            r.require_approval == false,
            r.max_retries == DEFAULT_MAX_RETRIES,
    {
        AgentBuilder::new()
    }
}

impl EnqueueUserInput {
    /// Handles this message: forwards the input to
    /// [`AgentCore::enqueue_user_input`].
    pub fn handle(self, state: &mut AgentCore) -> (effects: Vec<AgentEffect>)
        requires
            old(state).next_task_id < u64::MAX,
        ensures
            final(state)@ == spec_enqueue(old(state)@, self.0@).0,
            effects.deep_view() == spec_enqueue(old(state)@, self.0@).1,
    {
        state.enqueue_user_input(self.0)
    }
}

} // verus!
