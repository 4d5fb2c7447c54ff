use crate::error::XzardgzError;
use crate::json::{JsonSpec, JsonValue};
use vstd::prelude::*;

pub mod executor;
pub mod file_ops;
pub mod git_ops;
pub mod registry;

verus! {

/// The discriminated outcome of a tool invocation: output text on success, an
/// error text on failure — never both. A failing tool does not abort the agent
/// loop; its failure text is fed back to the model.
#[derive(Debug)]
pub struct ToolResult {
    pub output: String,
    pub error: Option<String>,
}

impl ToolResult {
    /// A successful outcome carrying the given output.
    pub fn success(output: &str) -> (r: ToolResult)
        ensures
            r.output@ == output@,
            r.error is None,
    {
        ToolResult { output: output.to_owned(), error: None }
    }

    /// A failed outcome carrying the given error text; the output is empty.
    pub fn failure(error: &str) -> (r: ToolResult)
        ensures
            r.output@ == Seq::<char>::empty(),
            r.error matches Some(e) && e@ == error@,
    {
        ToolResult { output: String::new(), error: Some(error.to_owned()) }
    }

    /// The text fed back into the conversation: the output on success, the
    /// error text on failure.
    pub fn feedback(self) -> (r: String)
        ensures
            r@ == self.spec_feedback(),
    {
        match self.error {
            Some(e) => e,
            None => self.output,
        }
    }

    /// What `feedback` returns.
    pub open spec fn spec_feedback(&self) -> Seq<char> {
        match self.error {
            Some(e) => e@,
            None => self.output@,
        }
    }
}

/// A callable tool implementation. Implementations live outside this library;
/// each models itself as an oracle whose outcome and successor state are
/// functions of its current state and the decoded parameters, so two calls may
/// answer differently. Domain failures are encoded in the returned
/// `ToolResult`, not raised as errors.
pub trait ToolExecutor: Sized {
    /// What the executor returns, as a function of its state and the
    /// parameters.
    spec fn outcome(&self, params: JsonSpec) -> Result<ToolResult, XzardgzError>;

    /// The executor's state after the call.
    spec fn post_state(&self, params: JsonSpec) -> Self;

    /// Runs the tool on decoded parameters.
    fn execute(&mut self, params: JsonValue) -> (r: Result<ToolResult, XzardgzError>)
        ensures
            r == old(self).outcome(params@),
            *final(self) == old(self).post_state(params@),
    ;
}

} // verus!
