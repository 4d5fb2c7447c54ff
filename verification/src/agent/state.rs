use crate::agent::context::ConversationContext;
use vstd::prelude::*;

verus! {

/// Bookkeeping for an agent run: the conversation it owns and how many
/// iterations of the loop have been spent against the ceiling.
#[derive(Debug)]
pub struct AgentState {
    pub conversation: ConversationContext,
    pub iterations: usize,
    pub max_iterations: usize,
}

impl AgentState {
    /// A fresh state: no iterations spent yet.
    pub fn new(conversation: ConversationContext, max_iterations: usize) -> (r: AgentState)
        ensures
            r.conversation == conversation,
            r.iterations == 0,
            r.max_iterations == max_iterations,
    {
        AgentState { conversation, iterations: 0, max_iterations }
    }

    /// Records one more spent iteration.
    pub fn increment_iteration(&mut self)
        requires
            old(self).iterations < usize::MAX,
        ensures
            final(self).iterations == old(self).iterations + 1,
            final(self).conversation == old(self).conversation,
            final(self).max_iterations == old(self).max_iterations,
    {
        self.iterations = self.iterations + 1;
    }

    /// Whether the iteration ceiling has been reached.
    pub fn is_at_max_iterations(&self) -> (r: bool)
        ensures
            r == (self.iterations >= self.max_iterations),
    {
        self.iterations >= self.max_iterations
    }

    /// Starts counting from zero again.
    pub fn reset_iterations(&mut self)
        ensures
            final(self).iterations == 0,
            final(self).conversation == old(self).conversation,
            final(self).max_iterations == old(self).max_iterations,
    {
        self.iterations = 0;
    }
}

} // verus!
