//! Assembly of streamed chat-completion chunks into model response
//! events.
//!
//! The service streams tool calls piecemeal: fragments indexed by call,
//! patched together incrementally. The assembler folds each decoded chunk
//! into its state and owes events in a fixed order — all message deltas of
//! a step ahead of the tool calls completed in it, and the completion
//! event last: [`ChunkAssembler::apply_chunk`] surfaces a delta at once,
//! and [`ChunkAssembler::next_emission`] hands out the buffered tool calls
//! before it hands out the finish reason.

use vstd::prelude::*;

use crate::model::{ModelFinishReason, ModelResponseEvent, ToolCallRequest};
use crate::openai::proto::{
    ChatCompletionChunk, Choice, Delta, FunctionToolCall, FunctionToolCallView, ToolCall,
    ToolCallView,
};

verus! {

/// Mathematical view of a [`Delta`].
#[verifier::ext_equal]
pub struct DeltaView {
    pub content: Option<Seq<char>>,
    pub tool_calls: Option<Seq<ToolCallView>>,
    pub reasoning_content: Option<Seq<char>>,
}

impl View for Delta {
    type V = DeltaView;

    open spec fn view(&self) -> DeltaView {
        DeltaView {
            content: self.content.deep_view(),
            tool_calls: match &self.tool_calls {
                Some(cs) => Some(cs.deep_view()),
                None => None,
            },
            reasoning_content: self.reasoning_content.deep_view(),
        }
    }
}

/// Mathematical view of a [`Choice`].
#[verifier::ext_equal]
pub struct ChoiceView {
    pub delta: DeltaView,
    pub finish_reason: Option<Seq<char>>,
}

impl View for Choice {
    type V = ChoiceView;

    open spec fn view(&self) -> ChoiceView {
        ChoiceView { delta: self.delta@, finish_reason: self.finish_reason.deep_view() }
    }
}

impl DeepView for Choice {
    type V = ChoiceView;

    open spec fn deep_view(&self) -> ChoiceView {
        self.view()
    }
}

/// Mathematical view of a [`ChatCompletionChunk`].
#[verifier::ext_equal]
pub struct ChunkView {
    pub id: Seq<char>,
    pub choices: Seq<ChoiceView>,
}

impl View for ChatCompletionChunk {
    type V = ChunkView;

    open spec fn view(&self) -> ChunkView {
        ChunkView { id: self.id@, choices: self.choices.deep_view() }
    }
}

/// Patching one optional text fragment onto another: a fragment appends to
/// what is there, starting from empty when nothing is.
pub open spec fn patch_text(base: Option<Seq<char>>, fragment: Option<Seq<char>>) -> Option<
    Seq<char>,
> {
    match fragment {
        None => base,
        Some(f) => match base {
            None => Some(Seq::<char>::empty() + f),
            Some(b) => Some(b + f),
        },
    }
}

/// Patching a function fragment onto a partial function call.
pub open spec fn patch_function(
    base: Option<FunctionToolCallView>,
    fragment: Option<FunctionToolCallView>,
) -> Option<FunctionToolCallView> {
    match fragment {
        None => base,
        Some(f) => match base {
            None => Some(f),
            Some(b) => Some(
                FunctionToolCallView {
                    name: patch_text(b.name, f.name),
                    arguments: patch_text(b.arguments, f.arguments),
                },
            ),
        },
    }
}

/// Patching one fragment onto the partial call it belongs to.
pub open spec fn patch_call(base: ToolCallView, fragment: ToolCallView) -> ToolCallView {
    ToolCallView {
        index: base.index,
        id: patch_text(base.id, fragment.id),
        call_type: patch_text(base.call_type, fragment.call_type),
        function: patch_function(base.function, fragment.function),
    }
}

/// Whether a partial call with this wire index exists.
pub open spec fn has_call_index(calls: Seq<ToolCallView>, index: Option<u32>) -> bool {
    exists|i: int| 0 <= i < calls.len() && calls[i].index == index
}

/// The position of the first partial call with this wire index.
pub open spec fn call_index(calls: Seq<ToolCallView>, index: Option<u32>) -> int {
    choose|i: int|
        0 <= i < calls.len() && calls[i].index == index && (forall|j: int|
            0 <= j < i ==> calls[j].index != index)
}

/// Mathematical view of a [`ChunkAssembler`].
#[verifier::ext_equal]
pub struct AssemblerView {
    pub id: Option<Seq<char>>,
    pub content: Seq<char>,
    pub reasoning_content: Option<Seq<char>>,
    pub tool_calls: Seq<ToolCallView>,
    pub pending_tool_call_idx: Seq<usize>,
    pub pending_finish_reason: Option<ModelFinishReason>,
}

/// Folding one tool call fragment into the assembler: a fragment whose
/// wire index is already known patches that partial call; a new index
/// opens a partial call and queues it for emission.
pub open spec fn apply_fragment(s: AssemblerView, f: ToolCallView) -> AssemblerView {
    if has_call_index(s.tool_calls, f.index) {
        let i = call_index(s.tool_calls, f.index);
        AssemblerView {
            tool_calls: s.tool_calls.update(i, patch_call(s.tool_calls[i], f)),
            ..s
        }
    } else {
        AssemblerView {
            pending_tool_call_idx: s.pending_tool_call_idx.push(s.tool_calls.len() as usize),
            tool_calls: s.tool_calls.push(f),
            ..s
        }
    }
}

/// Folding a sequence of fragments, left to right.
pub open spec fn apply_fragments(s: AssemblerView, fs: Seq<ToolCallView>) -> AssemblerView
    decreases fs.len(),
{
    if fs.len() == 0 {
        s
    } else {
        apply_fragment(apply_fragments(s, fs.drop_last()), fs.last())
    }
}

/// The finish reason a wire finish string stands for.
pub open spec fn finish_of(reason: Seq<char>) -> ModelFinishReason {
    if reason == "tool_calls"@ {
        ModelFinishReason::ToolCalls
    } else {
        ModelFinishReason::Stop
    }
}

/// What folding one chunk yields: the new state, and the message delta to
/// surface at once when the chunk carried text. A chunk whose id does not
/// repeat the stream's id is an error; a chunk without choices changes
/// only the recorded id. A finish reason closes the step; otherwise the
/// last choice's text, reasoning and tool call fragments are folded in.
pub open spec fn spec_apply_chunk(s: AssemblerView, chunk: ChunkView) -> Result<
    (AssemblerView, Option<Seq<char>>),
    (),
> {
    let known_id = match s.id {
        Some(id) => id,
        None => chunk.id,
    };
    if known_id != chunk.id {
        Err(())
    } else {
        let s0 = AssemblerView { id: Some(known_id), ..s };
        if chunk.choices.len() == 0 {
            Ok((s0, None))
        } else {
            let choice = chunk.choices.last();
            match choice.finish_reason {
                Some(reason) => Ok(
                    (
                        AssemblerView { pending_finish_reason: Some(finish_of(reason)), ..s0 },
                        None,
                    ),
                ),
                None => {
                    let s1 = match choice.delta.content {
                        Some(c) => AssemblerView { content: s0.content + c, ..s0 },
                        None => s0,
                    };
                    let s2 = AssemblerView {
                        reasoning_content: patch_text(
                            s1.reasoning_content,
                            choice.delta.reasoning_content,
                        ),
                        ..s1
                    };
                    let s3 = match choice.delta.tool_calls {
                        Some(fs) => apply_fragments(s2, fs),
                        None => s2,
                    };
                    Ok((s3, choice.delta.content))
                },
            }
        }
    }
}

/// The name for whether `serde_json` parses a text as JSON; the arguments
/// of an assembled tool call are surfaced only when they parse.
pub uninterp spec fn json_ok(s: Seq<char>) -> bool;

/// Relies on `serde_json::from_str::<serde_json::Value>`: whether the text
/// is well-formed JSON, a function of the text alone.
#[verifier::external_body]
fn json_parses(s: &str) -> (r: bool)
    ensures
        r == json_ok(s@),
{
    serde_json::from_str::<serde_json::Value>(s).is_ok()
}

/// The optional text, or empty when none — how the wire fields of a
/// finished call fall back when a fragment never arrived.
pub open spec fn text_or_empty(t: Option<Seq<char>>) -> Seq<char> {
    match t {
        Some(s) => s,
        None => Seq::empty(),
    }
}

/// The tool call request a finished partial call is surfaced as: absent
/// fragments fall back to empty, and arguments that are not well-formed
/// JSON fall back to `null`.
pub open spec fn surfaced_call(c: ToolCallView) -> crate::model::ToolCallRequestView {
    let raw_args = match c.function {
        Some(f) => text_or_empty(f.arguments),
        None => Seq::empty(),
    };
    crate::model::ToolCallRequestView {
        id: text_or_empty(c.id),
        name: match c.function {
            Some(f) => text_or_empty(f.name),
            None => Seq::empty(),
        },
        arguments: if json_ok(raw_args) {
            raw_args
        } else {
            "null"@
        },
    }
}

/// What the assembler owes after the buffered chunks: the queued tool
/// calls in completion order, then the pending finish reason, then
/// nothing.
pub open spec fn spec_next_emission(s: AssemblerView) -> (AssemblerView, Option<
    crate::model::ResponseEventView,
>) {
    if s.pending_tool_call_idx.len() > 0 {
        let idx = s.pending_tool_call_idx[0] as int;
        let s1 = AssemblerView {
            pending_tool_call_idx: s.pending_tool_call_idx.subrange(
                1,
                s.pending_tool_call_idx.len() as int,
            ),
            ..s
        };
        (
            s1,
            Some(
                crate::model::ResponseEventView::ToolCall(
                    surfaced_call(
                        if 0 <= idx < s.tool_calls.len() {
                            s.tool_calls[idx]
                        } else {
                            s.tool_calls[0]
                        },
                    ),
                ),
            ),
        )
    } else {
        match s.pending_finish_reason {
            Some(reason) => (
                AssemblerView { pending_finish_reason: None, ..s },
                Some(crate::model::ResponseEventView::Completed(reason)),
            ),
            None => (s, None),
        }
    }
}

/// Assembles streamed chunks into complete call records and ordered
/// response events.
pub struct ChunkAssembler {
    /// The stream id, once the first chunk carried it.
    pub id: Option<String>,
    /// The assistant text accumulated so far.
    pub content: String,
    /// The reasoning text accumulated so far, if any arrived.
    pub reasoning_content: Option<String>,
    /// The partial tool calls, in order of first appearance.
    pub tool_calls: Vec<ToolCall>,
    /// Positions of calls not yet surfaced, oldest first.
    pub pending_tool_call_idx: Vec<usize>,
    /// The finish reason received and not yet surfaced.
    pub pending_finish_reason: Option<ModelFinishReason>,
}

impl View for ChunkAssembler {
    type V = AssemblerView;

    open spec fn view(&self) -> AssemblerView {
        AssemblerView {
            id: self.id.deep_view(),
            content: self.content@,
            reasoning_content: self.reasoning_content.deep_view(),
            tool_calls: self.tool_calls.deep_view(),
            pending_tool_call_idx: self.pending_tool_call_idx.deep_view(),
            pending_finish_reason: self.pending_finish_reason,
        }
    }
}

/// The well-formedness of the assembler: every queued position points at a
/// partial call.
pub open spec fn assembler_wf(s: AssemblerView) -> bool {
    forall|k: int|
        0 <= k < s.pending_tool_call_idx.len() ==> (#[trigger] s.pending_tool_call_idx[k]) < s.tool_calls.len()
}

impl ChunkAssembler {
    /// Creates an empty assembler.
    pub fn new() -> (r: Self)
        ensures
            r@ == (AssemblerView {
                id: None,
                content: Seq::<char>::empty(),
                reasoning_content: None,
                tool_calls: Seq::<ToolCallView>::empty(),
                pending_tool_call_idx: Seq::<usize>::empty(),
                pending_finish_reason: None,
            }),
            assembler_wf(r@),
    {
        let tool_calls: Vec<ToolCall> = Vec::new();
        let pending_tool_call_idx: Vec<usize> = Vec::new();
        let r = ChunkAssembler {
            id: None,
            content: String::new(),
            reasoning_content: None,
            tool_calls,
            pending_tool_call_idx,
            pending_finish_reason: None,
        };
        proof {
            assert(r@.tool_calls =~~= Seq::<ToolCallView>::empty());
            assert(r@.pending_tool_call_idx =~~= Seq::<usize>::empty());
        }
        r
    }
}


/// Whether two wire indexes are the same.
fn same_index(a: &Option<u32>, b: &Option<u32>) -> (r: bool)
    ensures
        r == (a == b),
{
    match (a, b) {
        (Some(x), Some(y)) => *x == *y,
        (None, None) => true,
        _ => false,
    }
}

/// Patches one optional text fragment onto another.
fn patch_text_exec(base: Option<String>, fragment: Option<String>) -> (r: Option<String>)
    ensures
        r.deep_view() == patch_text(base.deep_view(), fragment.deep_view()),
{
    match fragment {
        None => base,
        Some(f) => match base {
            None => {
                let mut out = String::new();
                out.append(f.as_str());
                Some(out)
            },
            Some(mut b) => {
                b.append(f.as_str());
                Some(b)
            },
        },
    }
}

/// The deep view of an optional function fragment.
pub open spec fn function_view(f: &Option<FunctionToolCall>) -> Option<FunctionToolCallView> {
    match f {
        Some(x) => Some(x@),
        None => None,
    }
}

/// Patches a function fragment onto a partial function call.
fn patch_function_exec(
    base: Option<FunctionToolCall>,
    fragment: Option<FunctionToolCall>,
) -> (r: Option<FunctionToolCall>)
    ensures
        function_view(&r) == patch_function(function_view(&base), function_view(&fragment)),
{
    match fragment {
        None => base,
        Some(f) => match base {
            None => Some(f),
            Some(b) => Some(
                FunctionToolCall {
                    name: patch_text_exec(b.name, f.name),
                    arguments: patch_text_exec(b.arguments, f.arguments),
                },
            ),
        },
    }
}

/// The given optional text, or an empty string.
fn opt_or_empty(t: &Option<String>) -> (r: String)
    ensures
        r@ == text_or_empty(t.deep_view()),
{
    match t {
        Some(s) => s.clone(),
        None => String::new(),
    }
}

impl ChunkAssembler {
    /// Folds one fragment into the partial calls.
    fn apply_one_fragment(&mut self, fragment: ToolCall)
        requires
            assembler_wf(old(self)@),
        ensures
            final(self)@ == apply_fragment(old(self)@, fragment@),
            assembler_wf(final(self)@),
    {
        let ghost fv = fragment.deep_view();
        let mut i: usize = 0;
        while i < self.tool_calls.len()
            invariant
                self@ == old(self)@,
                assembler_wf(old(self)@),
                fv == fragment.deep_view(),
                i <= self.tool_calls.len(),
                forall|j: int| 0 <= j < i ==> old(self)@.tool_calls[j].index != fv.index,
            decreases self.tool_calls.len() - i,
        {
            if same_index(&self.tool_calls[i].index, &fragment.index) {
                proof {
                    assert(old(self)@.tool_calls[i as int].index == fv.index);
                    assert(has_call_index(old(self)@.tool_calls, fv.index));
                    let w = call_index(old(self)@.tool_calls, fv.index);
                    assert(0 <= w < old(self)@.tool_calls.len() && old(self)@.tool_calls[w].index
                        == fv.index && (forall|j: int|
                        0 <= j < w ==> old(self)@.tool_calls[j].index != fv.index));
                    assert(w == i as int);
                }
                let base = self.tool_calls[i].clone();
                let ToolCall { index, id, call_type, function } = fragment;
                let patched = ToolCall {
                    index: base.index,
                    id: patch_text_exec(base.id, id),
                    call_type: patch_text_exec(base.call_type, call_type),
                    function: patch_function_exec(base.function, function),
                };
                proof {
                    assert(patched@ == patch_call(old(self)@.tool_calls[i as int], fv));
                }
                self.tool_calls.set(i, patched);
                proof {
                    assert(self@.tool_calls =~~= old(self)@.tool_calls.update(
                        i as int,
                        patch_call(old(self)@.tool_calls[i as int], fv),
                    ));
                    assert(self@ =~~= apply_fragment(old(self)@, fv));
                    assert(self@.pending_tool_call_idx == old(self)@.pending_tool_call_idx);
                    assert(self@.tool_calls.len() == old(self)@.tool_calls.len());
                    assert(assembler_wf(self@));
                }
                return ;
            }
            i = i + 1;
        }
        proof {
            if has_call_index(old(self)@.tool_calls, fv.index) {
                let w = choose|w: int|
                    0 <= w < old(self)@.tool_calls.len() && old(self)@.tool_calls[w].index
                        == fv.index;
                assert(old(self)@.tool_calls[w].index != fv.index);
            }
        }
        let position = self.tool_calls.len();
        self.pending_tool_call_idx.push(position);
        self.tool_calls.push(fragment);
        proof {
            assert(self@.tool_calls =~~= old(self)@.tool_calls.push(fv));
            assert(self@.pending_tool_call_idx =~~= old(self)@.pending_tool_call_idx.push(
                position,
            ));
            assert(self@ =~~= apply_fragment(old(self)@, fv));
        }
    }

    /// Folds one decoded chunk into the state: implements
    /// [`spec_apply_chunk`], surfacing the chunk's message delta at once.
    pub fn apply_chunk(&mut self, chunk: ChatCompletionChunk) -> (r: Result<
        Option<String>,
        crate::openai::error::Error,
    >)
        requires
            assembler_wf(old(self)@),
        ensures
            assembler_wf(final(self)@),
            match r {
                Ok(delta) => spec_apply_chunk(old(self)@, chunk@) matches Ok(p) && final(self)@
                    == p.0 && delta.deep_view() == p.1,
                Err(_) => spec_apply_chunk(old(self)@, chunk@) is Err && final(self)@ == old(self)@,
            },
    {
        let ghost cv = chunk.view();
        let ChatCompletionChunk { id: chunk_id, choices } = chunk;
        match &self.id {
            Some(known) => {
                if !(*known == chunk_id) {
                    return Err(
                        crate::openai::error::Error::new(
                            String::from_str("chunk id mismatch"),
                            crate::model::ErrorKind::Other,
                        ),
                    );
                }
            },
            None => {
                self.id = Some(chunk_id);
            },
        }
        proof {
            assert(self@.id == Some(cv.id));
            assert(self@ =~~= (AssemblerView { id: Some(cv.id), ..old(self)@ }));
        }
        let ghost s0 = self@;
        let mut choices = choices;
        let Some(choice) = choices.pop() else {
            return Ok(None);
        };
        proof {
            assert(choice@ == cv.choices.last());
        }
        let Choice { delta, finish_reason } = choice;
        if let Some(reason) = finish_reason {
            let fr = if reason == String::from_str("tool_calls") {
                ModelFinishReason::ToolCalls
            } else {
                ModelFinishReason::Stop
            };
            self.pending_finish_reason = Some(fr);
            proof {
                assert(self@ =~~= (AssemblerView {
                    pending_finish_reason: Some(finish_of(cv.choices.last().finish_reason->0)),
                    ..s0
                }));
            }
            return Ok(None);
        }
        let Delta { content, tool_calls, reasoning_content } = delta;
        let ghost dv = cv.choices.last().delta;
        let delta_out: Option<String> = match content {
            Some(c) => {
                self.content.append(c.as_str());
                Some(c)
            },
            None => None,
        };
        let ghost s1 = self@;
        proof {
            assert(s1 =~~= (match dv.content {
                Some(c) => AssemblerView { content: s0.content + c, ..s0 },
                None => s0,
            }));
        }
        match reasoning_content {
            Some(rc) => {
                match &mut self.reasoning_content {
                    Some(base) => {
                        base.append(rc.as_str());
                    },
                    None => {
                        let mut out = String::new();
                        out.append(rc.as_str());
                        self.reasoning_content = Some(out);
                    },
                }
            },
            None => {},
        }
        proof {
            assert(self@.reasoning_content =~~= patch_text(s1.reasoning_content, dv.reasoning_content));
            assert(self@ =~~= (AssemblerView {
                reasoning_content: patch_text(s1.reasoning_content, dv.reasoning_content),
                ..s1
            }));
        }
        let ghost s2 = self@;
        if let Some(fragments) = tool_calls {
            let ghost fvs = fragments.deep_view();
            let mut k: usize = 0;
            while k < fragments.len()
                invariant
                    k <= fragments.len(),
                    fvs == fragments.deep_view(),
                    self@ == apply_fragments(s2, fvs.take(k as int)),
                    assembler_wf(self@),
                decreases fragments.len() - k,
            {
                let ghost taken = fvs.take(k as int);
                proof {
                    let ext = fvs.take(k + 1 as int);
                    assert(ext =~~= taken.push(fvs[k as int]));
                    assert(ext.drop_last() =~~= taken);
                    assert(ext.last() == fvs[k as int]);
                }
                let fragment = fragments[k].clone();
                proof {
                    assert(fragment.deep_view() == fvs[k as int]);
                }
                self.apply_one_fragment(fragment);
                k = k + 1;
            }
            proof {
                assert(fvs.take(fragments@.len() as int) =~~= fvs);
            }
        }
        proof {
            assert(spec_apply_chunk(old(self)@, cv) matches Ok(p) && self@ == p.0
                && delta_out.deep_view() == p.1);
        }
        Ok(delta_out)
    }

    /// Hands out the next owed event: the queued tool calls in completion
    /// order, then the finish reason, then nothing — implements
    /// [`spec_next_emission`].
    pub fn next_emission(&mut self) -> (r: Option<ModelResponseEvent>)
        requires
            assembler_wf(old(self)@),
        ensures
            assembler_wf(final(self)@),
            final(self)@ == spec_next_emission(old(self)@).0,
            match (r, spec_next_emission(old(self)@).1) {
                (Some(ev), Some(sv)) => ev@ == sv,
                (None, None) => true,
                _ => false,
            },
    {
        if self.pending_tool_call_idx.len() > 0 {
            let idx = self.pending_tool_call_idx.remove(0);
            proof {
                assert(old(self)@.pending_tool_call_idx[0] < old(self)@.tool_calls.len());
                assert(self@.pending_tool_call_idx =~~= old(
                    self,
                )@.pending_tool_call_idx.subrange(
                    1,
                    old(self)@.pending_tool_call_idx.len() as int,
                ));
            }
            let call = &self.tool_calls[idx];
            let id = opt_or_empty(&call.id);
            let (name, raw_args) = match &call.function {
                Some(f) => (opt_or_empty(&f.name), opt_or_empty(&f.arguments)),
                None => (String::new(), String::new()),
            };
            let arguments = if json_parses(raw_args.as_str()) {
                raw_args
            } else {
                String::from_str("null")
            };
            let request = ToolCallRequest { id, name, arguments };
            proof {
                assert(request@ == surfaced_call(old(self)@.tool_calls[idx as int]));
            }
            Some(ModelResponseEvent::ToolCall(request))
        } else {
            match self.pending_finish_reason {
                Some(reason) => {
                    self.pending_finish_reason = None;
                    Some(ModelResponseEvent::Completed(reason))
                },
                None => None,
            }
        }
    }

    /// The provider's record of the assembled assistant message, used as
    /// the opaque history entry for this turn: present once a stream id
    /// arrived, identified by that id.
    pub fn finish(&self) -> (r: Option<(String, crate::openai::proto::Message)>)
        ensures
            r is Some <==> self@.id is Some,
            r matches Some(p) ==> p.0@ == self@.id->0,
    {
        let id = match &self.id {
            Some(id) => id.clone(),
            None => {
                return None;
            },
        };
        let mut calls: Vec<ToolCall> = Vec::new();
        let mut i: usize = 0;
        while i < self.tool_calls.len()
            invariant
                i <= self.tool_calls.len(),
            decreases self.tool_calls.len() - i,
        {
            calls.push(self.tool_calls[i].clone());
            i = i + 1;
        }
        let tool_calls = if calls.len() == 0 {
            None
        } else {
            Some(calls)
        };
        let reasoning_content = match &self.reasoning_content {
            Some(rc) => Some(rc.clone()),
            None => None,
        };
        let message = crate::openai::proto::Message::Assistant {
            content: Some(self.content.clone()),
            tool_calls,
            reasoning_content,
        };
        Some((id, message))
    }
}

} // verus!
