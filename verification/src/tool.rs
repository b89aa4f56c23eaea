//! Tool call support: errors, the one-shot approval object, and the
//! executor that resolves tool call requests against registered tools.

use vstd::prelude::*;

use crate::model::{ModelTool, ModelToolView, ToolCallRequest, ToolCallRequestView};

verus! {

/// The kind of error a tool call can produce.
#[derive(Clone, Copy, Debug, PartialEq, Eq, Hash, Structural)]
pub enum ErrorKind {
    /// The input provided to the tool was invalid.
    InvalidInput,
    /// Error occurred while executing the tool.
    ExecutionError,
    /// The tool was not allowed to execute.
    PermissionDenied,
}

/// The fallback text used for an [`Error`] of the given kind that carries
/// no reason of its own.
pub open spec fn kind_text(k: ErrorKind) -> Seq<char> {
    match k {
        ErrorKind::InvalidInput => "Invalid input"@,
        ErrorKind::ExecutionError => "Execution error"@,
        ErrorKind::PermissionDenied => "Permission denied"@,
    }
}

/// Describes a tool call error.
#[derive(Debug)]
pub struct Error {
    /// The kind of this error.
    pub kind: ErrorKind,
    /// An optional free-text reason.
    pub reason: Option<String>,
}

/// Mathematical view of an [`Error`].
#[verifier::ext_equal]
pub struct ErrorView {
    pub kind: ErrorKind,
    pub reason: Option<Seq<char>>,
}

impl ErrorView {
    /// The text [`Error::reason`] returns for an error with this view.
    pub open spec fn reason_text(self) -> Seq<char> {
        match self.reason {
            Some(r) => r,
            None => kind_text(self.kind),
        }
    }
}

impl View for Error {
    type V = ErrorView;

    open spec fn view(&self) -> ErrorView {
        ErrorView { kind: self.kind, reason: self.reason.deep_view() }
    }
}

impl DeepView for Error {
    type V = ErrorView;

    open spec fn deep_view(&self) -> ErrorView {
        self.view()
    }
}

impl Error {
    /// Creates a new error with the `InvalidInput` kind.
    pub fn invalid_input() -> (r: Self)
        ensures
            r@ == (ErrorView { kind: ErrorKind::InvalidInput, reason: None }),
    {
        Error { kind: ErrorKind::InvalidInput, reason: None }
    }

    /// Creates a new error with the `ExecutionError` kind.
    pub fn execution_error() -> (r: Self)
        ensures
            r@ == (ErrorView { kind: ErrorKind::ExecutionError, reason: None }),
    {
        Error { kind: ErrorKind::ExecutionError, reason: None }
    }

    /// Creates a new error with the `PermissionDenied` kind.
    pub fn permission_denied() -> (r: Self)
        ensures
            r@ == (ErrorView { kind: ErrorKind::PermissionDenied, reason: None }),
    {
        Error { kind: ErrorKind::PermissionDenied, reason: None }
    }

    /// Attaches a reason to the error.
    pub fn with_reason(self, reason: String) -> (r: Self)
        ensures
            r@ == (ErrorView { kind: self@.kind, reason: Some(reason@) }),
    {
        Error { kind: self.kind, reason: Some(reason) }
    }

    /// Returns the kind of this error.
    pub fn kind(&self) -> (k: ErrorKind)
        ensures
            k == self@.kind,
    {
        self.kind
    }

    /// Returns the reason for the error: its own reason when one was
    /// attached, and a fixed text for its kind otherwise.
    pub fn reason(&self) -> (r: String)
        ensures
            r@ == self@.reason_text(),
    {
        match &self.reason {
            Some(reason) => reason.clone(),
            None => {
                match self.kind {
                    ErrorKind::InvalidInput => String::from_str("Invalid input"),
                    ErrorKind::ExecutionError => String::from_str("Execution error"),
                    ErrorKind::PermissionDenied => String::from_str("Permission denied"),
                }
            },
        }
    }
}

impl Clone for Error {
    fn clone(&self) -> (r: Self)
        ensures
            r@ == self@,
    {
        let reason = match &self.reason {
            Some(r) => Some(r.clone()),
            None => None,
        };
        Error { kind: self.kind, reason }
    }
}

/// The result of a tool call.
pub type ToolResult = Result<String, Error>;

/// Mathematical view of a [`ToolResult`].
pub open spec fn tool_result_view(r: ToolResult) -> Result<Seq<char>, ErrorView> {
    match r {
        Ok(s) => Ok(s@),
        Err(e) => Err(e@),
    }
}

/// The outcome of resolving an [`Approval`].
#[derive(Debug)]
pub struct ApprovalResult {
    /// Whether the request was approved.
    pub approved: bool,
    /// An optional reason, set when the request was rejected with one.
    pub why: Option<String>,
}

/// Mathematical view of an [`ApprovalResult`].
#[verifier::ext_equal]
pub struct ApprovalResultView {
    pub approved: bool,
    pub why: Option<Seq<char>>,
}

impl View for ApprovalResult {
    type V = ApprovalResultView;

    open spec fn view(&self) -> ApprovalResultView {
        ApprovalResultView { approved: self.approved, why: self.why.deep_view() }
    }
}

impl DeepView for ApprovalResult {
    type V = ApprovalResultView;

    open spec fn deep_view(&self) -> ApprovalResultView {
        self.view()
    }
}

/// Approval for a tool call request: a one-shot gate pairing a description
/// of the pending call with a single resolution.
///
/// Resolving consumes the value, so each approval is resolved at most once;
/// the host that observes approvals turns the returned [`ApprovalResult`]
/// into the agent's approval-resolved event.
#[derive(Debug)]
pub struct Approval {
    /// What the approval is for.
    pub what: String,
    /// Why the agent asks for it.
    pub justification: String,
}

/// Mathematical view of an [`Approval`].
#[verifier::ext_equal]
pub struct ApprovalView {
    pub what: Seq<char>,
    pub justification: Seq<char>,
}

impl View for Approval {
    type V = ApprovalView;

    open spec fn view(&self) -> ApprovalView {
        ApprovalView { what: self.what@, justification: self.justification@ }
    }
}

impl Approval {
    /// Creates a new approval for the described request.
    pub fn new(what: &str, justification: &str) -> (r: Self)
        ensures
            r@ == (ApprovalView { what: what@, justification: justification@ }),
    {
        Approval { what: what.to_owned(), justification: justification.to_owned() }
    }

    /// Returns what the approval is for.
    pub fn what(&self) -> (r: &str)
        ensures
            r@ == self@.what,
    {
        self.what.as_str()
    }

    /// Returns the justification for the approval.
    pub fn justification(&self) -> (r: &str)
        ensures
            r@ == self@.justification,
    {
        self.justification.as_str()
    }

    /// Approves the request, consuming the approval.
    pub fn approve(self) -> (r: ApprovalResult)
        ensures
            r@ == (ApprovalResultView { approved: true, why: None }),
    {
        ApprovalResult { approved: true, why: None }
    }

    /// Rejects the request with an optional reason, consuming the approval.
    pub fn reject(self, reason: Option<String>) -> (r: ApprovalResult)
        ensures
            r@ == (ApprovalResultView { approved: false, why: reason.deep_view() }),
    {
        ApprovalResult { approved: false, why: reason }
    }
}

/// For any sequence and predicate, filtering after appending one element
/// appends that element to the filtered sequence exactly when it satisfies
/// the predicate.
proof fn lemma_filter_push<A>(s: Seq<A>, x: A, pred: spec_fn(A) -> bool)
    ensures
        s.push(x).filter(pred) == if pred(x) {
            s.filter(pred).push(x)
        } else {
            s.filter(pred)
        },
{
    reveal_with_fuel(Seq::filter, 2);
    let ext = s.push(x);
    assert(ext.drop_last() =~= s);
    assert(ext.last() == x);
    assert(ext.len() == s.len() + 1);
}

/// Appending a tool definition extends the set of known names by exactly
/// that tool's name.
proof fn lemma_knows_tool_push(s: Seq<ModelToolView>, t: ModelToolView, n: Seq<char>)
    ensures
        knows_tool(s.push(t), n) <==> (knows_tool(s, n) || t.name == n),
{
    let ext = s.push(t);
    if knows_tool(ext, n) {
        let i = choose|i: int| 0 <= i < ext.len() && ext[i].name == n;
        if i < s.len() {
            assert(s[i] == ext[i]);
            assert(knows_tool(s, n));
        } else {
            assert(ext[i] == t);
        }
    }
    if knows_tool(s, n) {
        let i = choose|i: int| 0 <= i < s.len() && s[i].name == n;
        assert(ext[i] == s[i]);
        assert(knows_tool(ext, n));
    }
    if t.name == n {
        assert(ext[s.len() as int] == t);
        assert(knows_tool(ext, n));
    }
}

/// An executor that resolves tool call requests from the model against the
/// registered tool definitions. Registered names are unique; registering a
/// name twice keeps the later definition.
pub struct Executor {
    /// The registered tool definitions, in registration order.
    pub tools: Vec<ModelTool>,
}

/// Whether a sequence of tool definitions holds pairwise distinct names.
pub open spec fn distinct_tool_names(tools: Seq<ModelToolView>) -> bool {
    forall|i: int, j: int|
        0 <= i < j < tools.len() ==> tools[i].name != tools[j].name
}

/// Whether `tools` registers a tool under `name`.
pub open spec fn knows_tool(tools: Seq<ModelToolView>, name: Seq<char>) -> bool {
    exists|i: int| 0 <= i < tools.len() && tools[i].name == name
}

impl View for Executor {
    type V = Seq<ModelToolView>;

    open spec fn view(&self) -> Seq<ModelToolView> {
        self.tools.deep_view()
    }
}

impl Executor {
    /// Whether the registry is well formed: no two tools share a name.
    pub open spec fn wf(&self) -> bool {
        distinct_tool_names(self@)
    }

    /// Creates an executor with no registered tools.
    pub fn new() -> (r: Self)
        ensures
            r@ == Seq::<ModelToolView>::empty(),
            r.wf(),
    {
        let tools: Vec<ModelTool> = Vec::new();
        Executor { tools }
    }

    /// Creates an executor with the given tool definitions, registered in
    /// order.
    pub fn with_tools(tools: Vec<ModelTool>) -> (r: Self)
        ensures
            r.wf(),
            forall|n: Seq<char>|
                #[trigger] knows_tool(r@, n) <==> knows_tool(tools.deep_view(), n),
    {
        let mut r = Executor::new();
        let mut i: usize = 0;
        while i < tools.len()
            invariant
                i <= tools.len(),
                r.wf(),
                forall|n: Seq<char>|
                    #[trigger] knows_tool(r@, n) <==> knows_tool(
                        tools.deep_view().take(i as int),
                        n,
                    ),
            decreases tools.len() - i,
        {
            let ghost taken = tools.deep_view().take(i as int);
            let ghost dvi = tools.deep_view()[i as int];
            proof {
                assert(tools.deep_view().take(i + 1 as int) =~~= taken.push(dvi));
            }
            let def = tools[i].clone();
            proof {
                assert(def.deep_view() == dvi);
            }
            r.add_tool(def);
            proof {
                assert forall|n: Seq<char>|
                    #[trigger] knows_tool(r@, n) <==> knows_tool(
                        tools.deep_view().take(i + 1 as int),
                        n,
                    ) by {
                    lemma_knows_tool_push(taken, dvi, n);
                }
            }
            i = i + 1;
        }
        proof {
            assert(tools.deep_view().take(tools.len() as int) =~~= tools.deep_view());
        }
        r
    }

    /// Registers a tool definition, replacing any definition already
    /// registered under the same name.
    pub fn add_tool(&mut self, tool: ModelTool)
        requires
            old(self).wf(),
        ensures
            final(self).wf(),
            knows_tool(final(self)@, tool@.name),
            forall|n: Seq<char>|
                n != tool@.name ==> (#[trigger] knows_tool(final(self)@, n) <==> knows_tool(
                    old(self)@,
                    n,
                )),
    {
        let ghost pre = self.tools.deep_view();
        let ghost tv = tool.deep_view();
        let mut i: usize = 0;
        while i < self.tools.len()
            invariant
                self.tools.deep_view() == pre,
                pre == old(self)@,
                distinct_tool_names(pre),
                tv == tool.deep_view(),
                i <= self.tools.len(),
                forall|j: int| 0 <= j < i ==> pre[j].name != tv.name,
            decreases self.tools.len() - i,
        {
            if self.tools[i].name == tool.name {
                proof {
                    assert(pre[i as int].name == tv.name);
                }
                self.tools.set(i, tool);
                proof {
                    let post = self.tools.deep_view();
                    assert(post =~~= pre.update(i as int, tv));
                    assert forall|k: int| 0 <= k < post.len() implies post[k].name
                        == pre[k].name by {}
                    assert forall|n: Seq<char>| #[trigger] knows_tool(post, n) implies knows_tool(
                        pre,
                        n,
                    ) by {
                        let k = choose|k: int| 0 <= k < post.len() && post[k].name == n;
                        assert(pre[k].name == n);
                    }
                    assert forall|n: Seq<char>| knows_tool(pre, n) implies #[trigger] knows_tool(
                        post,
                        n,
                    ) by {
                        let k = choose|k: int| 0 <= k < pre.len() && pre[k].name == n;
                        assert(post[k].name == n);
                    }
                    assert(knows_tool(pre, tv.name));
                }
                return ;
            }
            i = i + 1;
        }
        self.tools.push(tool);
        proof {
            let post = self.tools.deep_view();
            assert(post =~~= pre.push(tv));
            assert forall|n: Seq<char>| #[trigger] knows_tool(post, n) <==> (knows_tool(pre, n)
                || tv.name == n) by {
                lemma_knows_tool_push(pre, tv, n);
            }
            assert forall|j: int, k: int| 0 <= j < k < post.len() implies post[j].name
                != post[k].name by {
                if k < pre.len() {
                    assert(post[j] == pre[j] && post[k] == pre[k]);
                } else {
                    assert(post[k] == tv && post[j] == pre[j]);
                }
            }
        }
    }

    /// Returns the registered tool definitions.
    pub fn definitions(&self) -> (r: Vec<ModelTool>)
        ensures
            r.deep_view() == self@,
    {
        let mut out: Vec<ModelTool> = Vec::new();
        let mut i: usize = 0;
        while i < self.tools.len()
            invariant
                i <= self.tools.len(),
                out.deep_view() == self.tools.deep_view().take(i as int),
            decreases self.tools.len() - i,
        {
            let ghost prev = out.deep_view();
            let def = self.tools[i].clone();
            proof {
                assert(def.deep_view() == self.tools.deep_view()[i as int]);
            }
            out.push(def);
            proof {
                assert(out.deep_view() =~~= prev.push(self.tools.deep_view()[i as int]));
                assert(out.deep_view() =~~= self.tools.deep_view().take(i + 1 as int));
            }
            i = i + 1;
        }
        proof {
            assert(self.tools.deep_view().take(self.tools.len() as int) =~~= self.tools.deep_view());
        }
        out
    }

    /// Whether a tool is registered under `name`.
    pub fn resolves(&self, name: &String) -> (r: bool)
        ensures
            r == knows_tool(self@, name@),
    {
        let mut i: usize = 0;
        while i < self.tools.len()
            invariant
                i <= self.tools.len(),
                forall|j: int| 0 <= j < i ==> self.tools.deep_view()[j].name != name@,
            decreases self.tools.len() - i,
        {
            if self.tools[i].name == *name {
                proof {
                    assert(self.tools.deep_view()[i as int].name == name@);
                }
                return true;
            }
            i = i + 1;
        }
        false
    }

    /// Splits the given requests into those whose names resolve to a
    /// registered tool, in order, and those that do not. An unresolved
    /// request is dropped from execution; the caller may report it.
    pub fn handle_requests(&self, requests: &Vec<ToolCallRequest>) -> (r: (
        Vec<ToolCallRequest>,
        Vec<ToolCallRequest>,
    ))
        ensures
            r.0.deep_view() == requests.deep_view().filter(
                |q: ToolCallRequestView| knows_tool(self@, q.name),
            ),
            r.1.deep_view() == requests.deep_view().filter(
                |q: ToolCallRequestView| !knows_tool(self@, q.name),
            ),
    {
        let mut known: Vec<ToolCallRequest> = Vec::new();
        let mut unknown: Vec<ToolCallRequest> = Vec::new();
        let mut i: usize = 0;
        while i < requests.len()
            invariant
                i <= requests.len(),
                known.deep_view() == requests.deep_view().take(i as int).filter(
                    |q: ToolCallRequestView| knows_tool(self@, q.name),
                ),
                unknown.deep_view() == requests.deep_view().take(i as int).filter(
                    |q: ToolCallRequestView| !knows_tool(self@, q.name),
                ),
            decreases requests.len() - i,
        {
            let ghost taken = requests.deep_view().take(i as int);
            proof {
                assert(requests.deep_view().take(i + 1 as int) =~~=
                    taken.push(requests.deep_view()[i as int]));
                lemma_filter_push(taken, requests.deep_view()[i as int],
                    |x: ToolCallRequestView| knows_tool(self@, x.name));
                lemma_filter_push(taken, requests.deep_view()[i as int],
                    |x: ToolCallRequestView| !knows_tool(self@, x.name));
            }
            let q = &requests[i];
            let resolved = self.resolves(&q.name);
            let ghost prev_known = known.deep_view();
            let ghost prev_unknown = unknown.deep_view();
            let q_clone = q.clone();
            proof {
                assert(q_clone.deep_view() == requests.deep_view()[i as int]);
            }
            if resolved {
                known.push(q_clone);
                proof {
                    assert(known.deep_view() =~~= prev_known.push(requests.deep_view()[i as int]));
                }
            } else {
                unknown.push(q_clone);
                proof {
                    assert(unknown.deep_view() =~~= prev_unknown.push(requests.deep_view()[i as int]));
                }
            }
            i = i + 1;
        }
        proof {
            assert(requests.deep_view().take(requests.len() as int) =~~= requests.deep_view());
        }
        (known, unknown)
    }
}

} // verus!
