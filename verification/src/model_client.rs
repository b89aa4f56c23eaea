//! The fully drained result of one model turn.
//!
//! A model response arrives as a stream of events. The host pulls the events
//! one by one (network I/O that stays outside this crate) and then hands the
//! complete, ordered event list to [`ModelClientResponse::from_events`],
//! which folds it into the drained response the agent consumes: the
//! orchestration layer never sees a partial response, and the conversation
//! is only touched once the full response, or an error, is known.

use vstd::prelude::*;

use crate::model::{ModelFinishReason, ModelResponseEvent, ResponseEventView, ToolCallRequest, ToolCallRequestView};
use crate::opaque::OpaqueMessage;

verus! {

/// The accumulated transcript of an event sequence: the concatenation of
/// all message deltas, in emission order.
pub open spec fn events_transcript(events: Seq<ResponseEventView>) -> Seq<char>
    decreases events.len(),
{
    if events.len() == 0 {
        Seq::empty()
    } else {
        let rest = events_transcript(events.drop_last());
        match events.last() {
            ResponseEventView::MessageDelta(s) => rest + s,
            _ => rest,
        }
    }
}

/// The message deltas of an event sequence, in emission order. Their
/// concatenation is the accumulated transcript.
pub open spec fn events_deltas(events: Seq<ResponseEventView>) -> Seq<Seq<char>>
    decreases events.len(),
{
    if events.len() == 0 {
        Seq::empty()
    } else {
        let rest = events_deltas(events.drop_last());
        match events.last() {
            ResponseEventView::MessageDelta(s) => rest.push(s),
            _ => rest,
        }
    }
}

/// LAW (the transcript is its deltas). The accumulated transcript of an
/// event sequence is exactly the concatenation of its message deltas, in
/// emission order: what a host streams to the transcript observer piece by
/// piece adds up to the transcript stored in the conversation.
pub proof fn lemma_transcript_is_delta_concat(events: Seq<ResponseEventView>)
    ensures
        events_transcript(events) == events_deltas(events).flatten(),
    decreases events.len(),
{
    if events.len() == 0 {
        assert(events_deltas(events).flatten() =~= Seq::<char>::empty());
    } else {
        lemma_transcript_is_delta_concat(events.drop_last());
        match events.last() {
            ResponseEventView::MessageDelta(s) => {
                events_deltas(events.drop_last()).lemma_flatten_push(s);
            },
            _ => {},
        }
    }
}

/// The tool calls of an event sequence, in emission order.
pub open spec fn events_tool_calls(events: Seq<ResponseEventView>) -> Seq<ToolCallRequestView>
    decreases events.len(),
{
    if events.len() == 0 {
        Seq::empty()
    } else {
        let rest = events_tool_calls(events.drop_last());
        match events.last() {
            ResponseEventView::ToolCall(t) => rest.push(t),
            _ => rest,
        }
    }
}

/// The finish reason of an event sequence: that of the last `Completed`
/// event, if any.
pub open spec fn events_finish_reason(events: Seq<ResponseEventView>) -> Option<ModelFinishReason>
    decreases events.len(),
{
    if events.len() == 0 {
        None
    } else {
        match events.last() {
            ResponseEventView::Completed(r) => Some(r),
            _ => events_finish_reason(events.drop_last()),
        }
    }
}

/// A completely received response from the model client.
pub struct ModelClientResponse {
    /// The accumulated transcript text.
    pub transcript: String,
    /// The message deltas the transcript accumulated, in emission order,
    /// kept so the transcript observer can be fed the same pieces the
    /// response streamed.
    pub deltas: Vec<String>,
    /// The provider's own representation of what it said, if it gave one.
    pub opaque_msg: Option<OpaqueMessage>,
    /// Tool calls requested by the model.
    pub tool_calls: Vec<ToolCallRequest>,
    /// The reason the model finished generating.
    pub finish_reason: Option<ModelFinishReason>,
}

/// Mathematical view of a [`ModelClientResponse`].
#[verifier::ext_equal]
pub struct ModelClientResponseView {
    pub transcript: Seq<char>,
    pub deltas: Seq<Seq<char>>,
    pub opaque_msg: Option<Seq<char>>,
    pub tool_calls: Seq<ToolCallRequestView>,
    pub finish_reason: Option<ModelFinishReason>,
}

impl View for ModelClientResponse {
    type V = ModelClientResponseView;

    open spec fn view(&self) -> ModelClientResponseView {
        ModelClientResponseView {
            transcript: self.transcript@,
            deltas: self.deltas.deep_view(),
            opaque_msg: self.opaque_msg.deep_view(),
            tool_calls: self.tool_calls.deep_view(),
            finish_reason: self.finish_reason,
        }
    }
}

impl DeepView for ModelClientResponse {
    type V = ModelClientResponseView;

    open spec fn deep_view(&self) -> ModelClientResponseView {
        self.view()
    }
}

impl ModelClientResponse {
    /// Folds a fully drained event stream, together with the opaque message
    /// the response offered after completion, into the drained response:
    /// the transcript is the concatenation of the deltas, the tool calls
    /// keep their emission order, and the finish reason is the last one
    /// completed.
    pub fn from_events(events: &Vec<ModelResponseEvent>, opaque_msg: Option<OpaqueMessage>) -> (r:
        Self)
        ensures
            r@.transcript == events_transcript(events.deep_view()),
            r@.deltas == events_deltas(events.deep_view()),
            r@.tool_calls == events_tool_calls(events.deep_view()),
            r@.finish_reason == events_finish_reason(events.deep_view()),
            r@.opaque_msg == opaque_msg.deep_view(),
    {
        let mut transcript = String::new();
        let mut deltas: Vec<String> = Vec::new();
        let mut tool_calls: Vec<ToolCallRequest> = Vec::new();
        let mut finish_reason: Option<ModelFinishReason> = None;
        let mut i: usize = 0;
        while i < events.len()
            invariant
                i <= events.len(),
                transcript@ == events_transcript(events.deep_view().take(i as int)),
                deltas.deep_view() == events_deltas(events.deep_view().take(i as int)),
                tool_calls.deep_view() == events_tool_calls(events.deep_view().take(i as int)),
                finish_reason == events_finish_reason(events.deep_view().take(i as int)),
            decreases events.len() - i,
        {
            let ghost taken = events.deep_view().take(i as int);
            let ghost evi = events.deep_view()[i as int];
            proof {
                let ext = events.deep_view().take(i + 1 as int);
                assert(ext =~~= taken.push(evi));
                assert(ext.drop_last() =~~= taken);
                assert(ext.last() == evi);
            }
            match &events[i] {
                ModelResponseEvent::MessageDelta(msg) => {
                    transcript.append(msg.as_str());
                    let ghost prev_deltas = deltas.deep_view();
                    let piece = msg.clone();
                    proof {
                        assert(piece@ == evi->MessageDelta_0);
                    }
                    deltas.push(piece);
                    proof {
                        assert(deltas.deep_view() =~~= prev_deltas.push(evi->MessageDelta_0));
                    }
                },
                ModelResponseEvent::ToolCall(req) => {
                    let ghost prev = tool_calls.deep_view();
                    let req_clone = req.clone();
                    proof {
                        assert(req_clone.deep_view() == evi->ToolCall_0);
                    }
                    tool_calls.push(req_clone);
                    proof {
                        assert(tool_calls.deep_view() =~~= prev.push(evi->ToolCall_0));
                    }
                },
                ModelResponseEvent::Completed(reason) => {
                    finish_reason = Some(*reason);
                },
            }
            i = i + 1;
        }
        proof {
            assert(events.deep_view().take(events.len() as int) =~~= events.deep_view());
        }
        ModelClientResponse { transcript, deltas, opaque_msg, tool_calls, finish_reason }
    }
}

} // verus!
