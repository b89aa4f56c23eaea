//! A local, scripted model for testing.
//!
//! Before sending requests the conversation script must be set up: it says
//! how the model answers each request. The step is selected by the number
//! of history messages in the request, so one script drives a whole
//! multi-turn conversation. A script can also make a step fail a number of
//! times before it succeeds, to exercise the retry path.

use vstd::prelude::*;

use crate::model::{
    ErrorKind, ModelFinishReason, ModelProviderError, ModelRequest, ModelResponseEvent,
    ResponseEventView, ToolCallRequest, ToolCallRequestView,
};
use crate::opaque::OpaqueMessage;

verus! {

/// The error the scripted model reports.
#[derive(Debug)]
pub struct Error {
    /// The kind of this error.
    pub kind: ErrorKind,
    /// What went wrong.
    pub message: String,
}

impl ModelProviderError for Error {
    fn kind(&self) -> (k: ErrorKind)
        ensures
            k == self.kind,
    {
        self.kind
    }
}

/// An event in a preset response.
#[derive(Debug)]
pub enum PresetEvent {
    /// A piece of assistant text.
    MessageDelta(String),
    /// A tool call request.
    ToolCall(ToolCallRequest),
}

/// Mathematical view of a [`PresetEvent`].
#[verifier::ext_equal]
pub enum PresetEventView {
    MessageDelta(Seq<char>),
    ToolCall(ToolCallRequestView),
}

impl View for PresetEvent {
    type V = PresetEventView;

    open spec fn view(&self) -> PresetEventView {
        match self {
            PresetEvent::MessageDelta(s) => PresetEventView::MessageDelta(s@),
            PresetEvent::ToolCall(t) => PresetEventView::ToolCall(t@),
        }
    }
}

impl DeepView for PresetEvent {
    type V = PresetEventView;

    open spec fn deep_view(&self) -> PresetEventView {
        self.view()
    }
}

impl Clone for PresetEvent {
    fn clone(&self) -> (r: Self)
        ensures
            r@ == self@,
    {
        match self {
            PresetEvent::MessageDelta(s) => PresetEvent::MessageDelta(s.clone()),
            PresetEvent::ToolCall(t) => PresetEvent::ToolCall(t.clone()),
        }
    }
}

/// The model response event a preset event turns into.
pub open spec fn event_of(p: PresetEventView) -> ResponseEventView {
    match p {
        PresetEventView::MessageDelta(s) => ResponseEventView::MessageDelta(s),
        PresetEventView::ToolCall(t) => ResponseEventView::ToolCall(t),
    }
}

/// Whether a preset event sequence holds a tool call; such a response
/// completes with the `ToolCalls` finish reason, any other with `Stop`.
pub open spec fn has_tool_call(events: Seq<PresetEventView>) -> bool {
    exists|i: int| 0 <= i < events.len() && events[i] is ToolCall
}

/// The preset response for an assistant step.
#[derive(Debug)]
pub struct PresetResponse {
    /// Events in this response.
    pub events: Vec<PresetEvent>,
    /// If set, the step fails in its first `failures` attempts;
    /// `Some(0)` makes it fail on every attempt.
    pub failures: Option<u64>,
}

impl PresetResponse {
    /// Creates a `PresetResponse` with the specified events.
    pub fn with_events(events: Vec<PresetEvent>) -> (r: Self)
        ensures
            r.events.deep_view() == events.deep_view(),
            r.failures is None,
    {
        PresetResponse { events, failures: None }
    }

    /// Sets how many attempts fail before a successful response; `0` makes
    /// every attempt fail.
    pub fn with_failures(self, failures: u64) -> (r: Self)
        ensures
            r.events.deep_view() == self.events.deep_view(),
            r.failures == Some(failures),
    {
        PresetResponse { failures: Some(failures), ..self }
    }
}

impl Clone for PresetResponse {
    fn clone(&self) -> (r: Self)
        ensures
            r.events.deep_view() == self.events.deep_view(),
            r.failures == self.failures,
    {
        let mut events: Vec<PresetEvent> = Vec::new();
        let mut i: usize = 0;
        while i < self.events.len()
            invariant
                i <= self.events.len(),
                events.deep_view() == self.events.deep_view().take(i as int),
            decreases self.events.len() - i,
        {
            let ghost prev = events.deep_view();
            let ev = self.events[i].clone();
            proof {
                assert(ev.deep_view() == self.events.deep_view()[i as int]);
            }
            events.push(ev);
            proof {
                assert(events.deep_view() =~~= prev.push(self.events.deep_view()[i as int]));
                assert(events.deep_view() =~~= self.events.deep_view().take(i + 1 as int));
            }
            i = i + 1;
        }
        proof {
            assert(self.events.deep_view().take(self.events.len() as int) =~~= self.events.deep_view());
        }
        PresetResponse { events, failures: self.failures }
    }
}

/// One step of the conversation script.
pub enum ConversationStep {
    /// The request's next history message should be a user input; asking
    /// the model at this point is a scripting mistake.
    UserInput,
    /// The model answers with this preset response.
    AssistantResponse(PresetResponse),
}

/// The decimal text of a digit.
pub open spec fn digit_text(d: nat) -> Seq<char> {
    if d == 0 {
        "0"@
    } else if d == 1 {
        "1"@
    } else if d == 2 {
        "2"@
    } else if d == 3 {
        "3"@
    } else if d == 4 {
        "4"@
    } else if d == 5 {
        "5"@
    } else if d == 6 {
        "6"@
    } else if d == 7 {
        "7"@
    } else if d == 8 {
        "8"@
    } else {
        "9"@
    }
}

/// The decimal text of a number.
pub open spec fn u64_text(n: nat) -> Seq<char>
    decreases n,
{
    if n < 10 {
        digit_text(n)
    } else {
        u64_text(n / 10) + digit_text(n % 10)
    }
}

/// The text of one decimal digit.
fn digit_str(d: u64) -> (r: &'static str)
    requires
        d < 10,
    ensures
        r@ == digit_text(d as nat),
{
    if d == 0 {
        "0"
    } else if d == 1 {
        "1"
    } else if d == 2 {
        "2"
    } else if d == 3 {
        "3"
    } else if d == 4 {
        "4"
    } else if d == 5 {
        "5"
    } else if d == 6 {
        "6"
    } else if d == 7 {
        "7"
    } else if d == 8 {
        "8"
    } else {
        "9"
    }
}

/// Renders a number in decimal.
pub fn u64_to_string(n: u64) -> (r: String)
    ensures
        r@ == u64_text(n as nat),
    decreases n,
{
    if n < 10 {
        digit_str(n).to_owned()
    } else {
        let mut head = u64_to_string(n / 10);
        head.append(digit_str(n % 10));
        head
    }
}

/// A streaming response of the scripted model: it hands out the preset
/// events one by one, then exactly one completion event, and nothing after
/// that — asking again after the end keeps returning "no more events".
pub struct TestModelResponse {
    /// The preset events of the step, in order.
    pub events: Vec<PresetEvent>,
    /// How many events have been handed out.
    pub event_idx: usize,
    /// Whether the completion event has been handed out.
    pub finished: bool,
    /// The script step this response answers, used to identify the opaque
    /// message.
    pub step_idx: usize,
}

impl TestModelResponse {
    /// Pulls the next event out of the response: each preset event in
    /// order, then one completion carrying `ToolCalls` exactly when the
    /// step holds a tool call and `Stop` otherwise, then `None` forever.
    pub fn next_event(&mut self) -> (r: Option<ModelResponseEvent>)
        ensures
            final(self).events.deep_view() == old(self).events.deep_view(),
            final(self).step_idx == old(self).step_idx,
            ({
                let evs = old(self).events.deep_view();
                if old(self).event_idx < evs.len() {
                    &&& r matches Some(ev) && ev@ == event_of(evs[old(self).event_idx as int])
                    &&& final(self).event_idx == old(self).event_idx + 1
                    &&& final(self).finished == old(self).finished
                } else if !old(self).finished {
                    &&& r matches Some(ev) && ev@ == ResponseEventView::Completed(
                        if has_tool_call(evs) {
                            ModelFinishReason::ToolCalls
                        } else {
                            ModelFinishReason::Stop
                        },
                    )
                    &&& final(self).finished
                    &&& final(self).event_idx == old(self).event_idx
                } else {
                    &&& r is None
                    &&& final(self).event_idx == old(self).event_idx
                    &&& final(self).finished
                }
            }),
    {
        if self.event_idx < self.events.len() {
            let ev = match &self.events[self.event_idx] {
                PresetEvent::MessageDelta(s) => ModelResponseEvent::MessageDelta(s.clone()),
                PresetEvent::ToolCall(t) => ModelResponseEvent::ToolCall(t.clone()),
            };
            proof {
                assert(ev@ == event_of(self.events.deep_view()[self.event_idx as int]));
            }
            self.event_idx = self.event_idx + 1;
            Some(ev)
        } else if !self.finished {
            self.finished = true;
            let has_call = self.scan_tool_call();
            let reason = if has_call {
                ModelFinishReason::ToolCalls
            } else {
                ModelFinishReason::Stop
            };
            Some(ModelResponseEvent::Completed(reason))
        } else {
            None
        }
    }

    /// Whether the step's events hold a tool call.
    fn scan_tool_call(&self) -> (r: bool)
        ensures
            r == has_tool_call(self.events.deep_view()),
    {
        let mut i: usize = 0;
        while i < self.events.len()
            invariant
                i <= self.events.len(),
                forall|j: int| 0 <= j < i ==> !((#[trigger] self.events.deep_view()[j]) is ToolCall),
            decreases self.events.len() - i,
        {
            match &self.events[i] {
                PresetEvent::ToolCall(_) => {
                    proof {
                        assert(self.events.deep_view()[i as int] is ToolCall);
                    }
                    return true;
                },
                PresetEvent::MessageDelta(_) => {},
            }
            i = i + 1;
        }
        false
    }

    /// Makes the opaque message standing for everything this response
    /// produced, identified by the script step it answered. It should be
    /// asked only after the events are drained, and always answers the
    /// same for one response.
    pub fn make_opaque_message(&self) -> (r: OpaqueMessage)
        ensures
            r@ == "msg:"@ + u64_text(self.step_idx as nat),
    {
        let mut id = String::from_str("msg:");
        id.append(u64_to_string(self.step_idx as u64).as_str());
        let raw = id.clone();
        OpaqueMessage::new(id.as_str(), raw)
    }
}

/// A local scripted model.
///
/// The script steps are selected by the number of history messages in the
/// request; a request beyond the script, or at a step reserved for user
/// input, is answered with an error.
pub struct TestModelProvider {
    /// The script, one step per history message.
    pub conversation_script: Vec<ConversationStep>,
    /// How often each step has been requested, parallel to the script.
    pub attempts: Vec<u64>,
    /// An optional delay, in milliseconds, that a host may insert between
    /// events to mimic streaming.
    pub delay_millis: Option<u64>,
}

impl TestModelProvider {
    /// Whether the bookkeeping matches the script.
    pub open spec fn wf(&self) -> bool {
        self.attempts.len() == self.conversation_script.len()
    }

    /// Creates a provider with an empty script.
    pub fn new() -> (r: Self)
        ensures
            r.wf(),
            r.conversation_script@.len() == 0,
            r.delay_millis is None,
    {
        let conversation_script: Vec<ConversationStep> = Vec::new();
        let attempts: Vec<u64> = Vec::new();
        TestModelProvider { conversation_script, attempts, delay_millis: None }
    }

    /// Appends an assistant response step to the script.
    pub fn add_assistant_response_step(&mut self, preset: PresetResponse)
        requires
            old(self).wf(),
        ensures
            final(self).wf(),
            final(self).conversation_script@.len() == old(self).conversation_script@.len() + 1,
    {
        self.conversation_script.push(ConversationStep::AssistantResponse(preset));
        self.attempts.push(0);
    }

    /// Appends a user input step to the script.
    pub fn add_user_input_step(&mut self)
        requires
            old(self).wf(),
        ensures
            final(self).wf(),
            final(self).conversation_script@.len() == old(self).conversation_script@.len() + 1,
    {
        self.conversation_script.push(ConversationStep::UserInput);
        self.attempts.push(0);
    }

    /// Sets the delay a host should leave between events.
    pub fn set_delay(&mut self, millis: u64)
        ensures
            final(self).delay_millis == Some(millis),
            final(self).conversation_script == old(self).conversation_script,
            final(self).attempts == old(self).attempts,
    {
        self.delay_millis = Some(millis);
    }

    /// Answers one request: picks the script step matching the number of
    /// history messages, counts the attempt, and fails while the step has
    /// configured failures left — a step beyond the script or one reserved
    /// for user input always fails.
    pub fn send_request(&mut self, req: &ModelRequest) -> (r: Result<TestModelResponse, Error>)
        requires
            old(self).wf(),
        ensures
            final(self).wf(),
            final(self).conversation_script@.len() == old(self).conversation_script@.len(),
            ({
                let step_idx = req.messages@.len();
                if step_idx >= old(self).conversation_script@.len() {
                    r matches Err(e) && e.kind == ErrorKind::RateLimitExceeded
                } else {
                    match old(self).conversation_script@[step_idx as int] {
                        ConversationStep::UserInput => r matches Err(e) && e.kind
                            == ErrorKind::Moderated,
                        ConversationStep::AssistantResponse(preset) => {
                            let made = old(self).attempts@[step_idx as int];
                            if match preset.failures {
                                Some(f) => f == 0 || made < f,
                                None => false,
                            } {
                                r matches Err(e) && e.kind == ErrorKind::Other
                            } else {
                                r matches Ok(resp) && resp.events.deep_view()
                                    == preset.events.deep_view() && resp.event_idx == 0
                                    && resp.finished == false && resp.step_idx == step_idx
                            }
                        },
                    }
                }
            }),
    {
        let step_idx = req.messages.len();
        if step_idx >= self.conversation_script.len() {
            return Err(
                Error {
                    kind: ErrorKind::RateLimitExceeded,
                    message: String::from_str("no enough steps"),
                },
            );
        }
        match &self.conversation_script[step_idx] {
            ConversationStep::UserInput => Err(
                Error {
                    kind: ErrorKind::Moderated,
                    message: String::from_str("not an assistant response step"),
                },
            ),
            ConversationStep::AssistantResponse(preset) => {
                let made = self.attempts[step_idx];
                let next_made = if made < u64::MAX {
                    made + 1
                } else {
                    made
                };
                let must_fail = match preset.failures {
                    Some(f) => f == 0 || made < f,
                    None => false,
                };
                if must_fail {
                    self.attempts.set(step_idx, next_made);
                    Err(
                        Error {
                            kind: ErrorKind::Other,
                            message: String::from_str("preset failure"),
                        },
                    )
                } else {
                    let response = TestModelResponse {
                        events: preset.events_clone(),
                        event_idx: 0,
                        finished: false,
                        step_idx,
                    };
                    self.attempts.set(step_idx, next_made);
                    Ok(response)
                }
            },
        }
    }
}

impl PresetResponse {
    /// A copy of the step's events.
    fn events_clone(&self) -> (r: Vec<PresetEvent>)
        ensures
            r.deep_view() == self.events.deep_view(),
    {
        let copy = self.clone();
        copy.events
    }
}

} // verus!
