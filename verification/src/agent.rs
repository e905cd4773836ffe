//! The decisions of the agent's tool-call loop.
//!
//! The loop alternates two kinds of outside work, a completion request to the
//! model and the execution of the requested tools; both are performed by the
//! caller.  This module decides everything in between: whether another step
//! may run, what a response does to the conversation, which tool answers a
//! call, and how the executed results are recorded.
use vstd::prelude::*;
use crate::error::FerroError;
use crate::message::{ConversationHistory, Message, MessageContent, Role, ToolCall, ToolResult};
use crate::provider::LlmResponse;
use crate::message::clone_vec;
use crate::registry::{lookup, require_tool, ToolContext, ToolRegistry};

verus! {

/// What the loop does after a model response.
#[derive(Debug)]
pub enum StepOutcome {
    /// The model replied with plain text: the run ends with this reply.
    Finish(String),
    /// The model asked for these tools: execute them, in order, and record
    /// the results.
    RunTools(Vec<ToolCall>),
}

/// Runs the agent tool-call loop until the model produces a plain-text reply
/// or `max_steps` is exceeded.
pub struct AgentLoop<'a, T> {
    pub registry: &'a ToolRegistry<T>,
    pub max_steps: usize,
    pub ctx: ToolContext,
}

/// The text a finished run returns: the model's text, or `(empty response)`
/// when it sent none.
pub open spec fn final_reply(text: Option<String>) -> Seq<char> {
    match text {
        Some(t) => t@,
        None => "(empty response)"@,
    }
}

/// `r` is the executed result `o` answering the call `c`: it carries the
/// call's id and tool name, and the execution's output and error flag.
pub open spec fn answers(c: ToolCall, o: ToolResult, r: ToolResult) -> bool {
    &&& r.tool_call_id == c.id
    &&& r.tool_name == c.name
    &&& r.output == o.output
    &&& r.is_error == o.is_error
}

/// The outcomes before position `k` all succeeded.
pub open spec fn all_ok_before(outcomes: Seq<Result<ToolResult, FerroError>>, k: int) -> bool {
    forall|j: int| 0 <= j < k ==> (#[trigger] outcomes[j]) is Ok
}

/// How many model calls a run has made, against the number it may make.
#[derive(Debug)]
pub struct StepCounter {
    taken: usize,
    limit: usize,
}

impl StepCounter {
    /// A run never makes more calls than it may.
    #[verifier::type_invariant]
    spec fn within_limit(self) -> bool {
        self.taken <= self.limit
    }

    /// The model calls made so far.
    pub closed spec fn taken(&self) -> usize {
        self.taken
    }

    /// The model calls the run may make.
    pub closed spec fn limit(&self) -> usize {
        self.limit
    }

    /// Starts the next step: the model may be called when fewer than
    /// `limit` calls were made, and the call is counted; otherwise the run
    /// fails with `MaxStepsExceeded(limit)` and nothing changes.  The count
    /// never passes the limit, so a run calls the model at most `limit`
    /// times.
    pub fn begin_step(&mut self) -> (res: Result<(), FerroError>)
        ensures
            old(self).taken() < old(self).limit() <==> res is Ok,
            res is Ok ==> final(self).taken() == old(self).taken() + 1,
            res is Err ==> final(self).taken() == old(self).taken(),
            res matches Err(e) ==> e == FerroError::MaxStepsExceeded(old(self).limit()),
            final(self).limit() == old(self).limit(),
            final(self).taken() <= final(self).limit(),
    {
        proof {
            use_type_invariant(&*self);
        }
        if self.taken < self.limit {
            self.taken = self.taken + 1;
            Ok(())
        } else {
            Err(FerroError::MaxStepsExceeded(self.limit))
        }
    }
}

impl<'a, T> AgentLoop<'a, T> {
    /// A loop over the tools of `registry`, allowed `max_steps` model calls.
    pub fn new(registry: &'a ToolRegistry<T>, max_steps: usize) -> (res: Self)
        ensures
            res.registry == registry,
            res.max_steps == max_steps,
            res.ctx.cwd is None,
    {
        AgentLoop { registry, max_steps, ctx: ToolContext::default() }
    }

    /// The same loop, running its tools in the directory `cwd`.
    pub fn with_cwd(self, cwd: String) -> (res: Self)
        ensures
            res.registry == self.registry,
            res.max_steps == self.max_steps,
            res.ctx.cwd == Some(cwd),
    {
        let mut me = self;
        me.ctx.cwd = Some(cwd);
        me
    }

    /// The step state of a new run of this loop: no model call made yet,
    /// `max_steps` allowed.
    pub fn steps(&self) -> (res: StepCounter)
        ensures
            res.taken() == 0,
            res.limit() == self.max_steps,
    {
        StepCounter { taken: 0, limit: self.max_steps }
    }

    /// Handles a model response.  A response with tool calls appends the
    /// assistant's tool-call message to the history and asks for those calls
    /// to run; any other response ends the run with its text.
    pub fn handle_response(&self, history: &mut ConversationHistory, response: LlmResponse) -> (res: StepOutcome)
        ensures
            response.tool_calls@.len() > 0 ==> {
                &&& res matches StepOutcome::RunTools(calls) && calls@ == response.tool_calls@
                &&& final(history).messages@.len() == old(history).messages@.len() + 1
                &&& final(history).messages@.subrange(0, old(history).messages@.len() as int)
                    == old(history).messages@
                &&& final(history).messages@.last().role == Role::Assistant
                &&& final(history).messages@.last().content matches MessageContent::ToolCalls(cs)
                    && cs@ == response.tool_calls@
            },
            response.tool_calls@.len() == 0 ==> {
                &&& res matches StepOutcome::Finish(t) && t@ == final_reply(response.text)
                &&& final(history).messages@ == old(history).messages@
            },
    {
        if response.is_tool_call() {
            let calls = response.tool_calls;
            let recorded = clone_vec(&calls);
            let ghost before = history.messages@;
            history.push(Message::assistant_tool_calls(recorded));
            assert(history.messages@.subrange(0, before.len() as int) =~= before);
            StepOutcome::RunTools(calls)
        } else {
            let text = match response.text {
                Some(t) => t,
                None => "(empty response)".to_owned(),
            };
            StepOutcome::Finish(text)
        }
    }

    /// The tool that answers `call`, or `ToolNotFound` naming the call's tool.
    pub fn resolve(&self, call: &ToolCall) -> (res: Result<&'a T, FerroError>)
        ensures
            match res {
                Ok(t) => lookup(self.registry@, call.name@) == Some(*t),
                Err(e) => lookup(self.registry@, call.name@) is None && (e matches FerroError::ToolNotFound(n) && n@ == call.name@),
            },
    {
        require_tool(self.registry, call.name.as_str())
    }

    /// Records the outcomes of executing `calls` (one outcome per call, in
    /// call order).  The first failed outcome, in call order, is the error of
    /// the run and the history is left as it is; when all succeeded, the
    /// results, each stamped with its call's id and tool name, are appended
    /// as one tool message.
    pub fn record_results(
        &self,
        history: &mut ConversationHistory,
        calls: &Vec<ToolCall>,
        outcomes: Vec<Result<ToolResult, FerroError>>,
    ) -> (res: Result<(), FerroError>)
        requires
            outcomes@.len() == calls@.len(),
        ensures
            res is Ok <==> all_ok_before(outcomes@, outcomes@.len() as int),
            res matches Err(e) ==> exists|k: int|
                0 <= k < outcomes@.len() && all_ok_before(outcomes@, k) && outcomes@[k] == Err::<ToolResult, FerroError>(e),
            res is Err ==> final(history).messages@ == old(history).messages@,
            res is Ok ==> {
                &&& final(history).messages@.len() == old(history).messages@.len() + 1
                &&& final(history).messages@.subrange(0, old(history).messages@.len() as int)
                    == old(history).messages@
                &&& final(history).messages@.last().role == Role::Tool
                &&& final(history).messages@.last().content matches MessageContent::ToolResults(rs)
                    && rs@.len() == calls@.len() && forall|k: int|
                    0 <= k < calls@.len() ==> (outcomes@[k] matches Ok(o) && answers(calls@[k], o, #[trigger] rs@[k])
                    && rs@[k].output == o.output && rs@[k].is_error == o.is_error
                    && rs@[k].tool_call_id == calls@[k].id && rs@[k].tool_name == calls@[k].name)
            },
    {
        let ghost all = outcomes@;
        let mut rest = outcomes;
        let mut results: Vec<ToolResult> = Vec::new();
        let mut k: usize = 0;
        while k < calls.len()
            invariant
                all == outcomes@,
                all.len() == calls@.len(),
                k <= calls@.len(),
                rest@ == all.subrange(k as int, all.len() as int),
                all_ok_before(all, k as int),
                results@.len() == k,
                forall|m: int| 0 <= m < k ==> (all[m] matches Ok(o) && answers(calls@[m], o, #[trigger] results@[m])),
                history.messages@ == old(history).messages@,
            decreases calls.len() - k,
        {
            let outcome = rest.remove(0);
            assert(outcome == all[k as int]);
            match outcome {
                Ok(mut r) => {
                    r.tool_call_id = calls[k].id.clone();
                    r.tool_name = calls[k].name.clone();
                    results.push(r);
                },
                Err(e) => {
                    assert(!all_ok_before(all, all.len() as int)) by {
                        assert(all[k as int] is Err);
                    }
                    assert(all_ok_before(all, k as int) && all[k as int] == Err::<ToolResult, FerroError>(e));
                    return Err(e);
                },
            }
            assert(rest@ =~= all.subrange(k as int + 1, all.len() as int));
            k = k + 1;
        }
        let ghost before = history.messages@;
        history.push(Message::tool_results(results));
        assert(history.messages@.subrange(0, before.len() as int) =~= before);
        Ok(())
    }
}

/// A recorded result keeps exactly what its execution produced, its output
/// and its error flag, failed or not; only its call id and tool name are
/// taken from the call it answers.
pub proof fn law_recorded_results_keep_outputs(c: ToolCall, o: ToolResult, r: ToolResult)
    requires
        answers(c, o, r),
    ensures
        r.output@ == o.output@,
        r.output@.len() == o.output@.len(),
        r.is_error == o.is_error,
        r.tool_call_id@ == c.id@,
        r.tool_name@ == c.name@,
{
}

} // verus!
