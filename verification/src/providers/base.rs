use crate::error::{ProviderError, ProviderErrorV};
use crate::providers::types::{msgs_view, tools_view, Message, MessageV, Tool, ToolV};
use vstd::prelude::*;

verus! {

/// The model sequences the provider's ghost members range over; the alias
/// keeps implementations outside this library free of verifier paths.
pub type ModelSeq<T> = Seq<T>;

/// Whether an executable completion result denotes the modelled one.
pub open spec fn completion_matches(
    r: Result<Message, ProviderError>,
    s: Result<MessageV, ProviderErrorV>,
) -> bool {
    match r {
        Ok(m) => s matches Ok(mv) && m@ == mv,
        Err(e) => s matches Err(ev) && e@ == ev,
    }
}

/// The language-model backend abstraction consumed by the agent loop.
/// Implementations live outside this library; each models itself as an oracle
/// whose response and successor state are functions of its current state and
/// of the conversation it is shown, so two calls may answer differently.
pub trait Provider: Sized {
    /// What the provider answers, as a function of its state and of the
    /// snapshot it is shown.
    spec fn completion(&self, messages: Seq<MessageV>, tools: Seq<ToolV>) -> Result<
        MessageV,
        ProviderErrorV,
    >;

    /// The provider's state after answering.
    spec fn post_state(&self, messages: Seq<MessageV>, tools: Seq<ToolV>) -> Self;

    /// Ask for one assistant message given the full history and the advertised
    /// tools.
    fn complete(&mut self, messages: &Vec<Message>, tools: &Vec<Tool>) -> (r: Result<
        Message,
        ProviderError,
    >)
        ensures
            completion_matches(r, old(self).completion(msgs_view(messages@), tools_view(tools@))),
            *final(self) == old(self).post_state(msgs_view(messages@), tools_view(tools@)),
    ;
}

} // verus!
