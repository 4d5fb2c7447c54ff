use crate::error::XzardgzError;
use crate::providers::types::{msgs_view, Message, MessageV};
use crate::text::char_count;
use vstd::prelude::*;

verus! {

/// An ordered message log with a token budget. The system prompt is held
/// outside the sequence: it is never counted toward the estimate and never
/// evicted.
#[derive(Debug)]
pub struct ConversationContext {
    pub messages: Vec<Message>,
    pub system_prompt: String,
    pub max_tokens: usize,
}

/// The number of characters held by the messages, all contents summed.
pub open spec fn total_content_len(msgs: Seq<MessageV>) -> nat
    decreases msgs.len(),
{
    if msgs.len() == 0 {
        0
    } else {
        total_content_len(msgs.drop_last()) + msgs.last().content.len()
    }
}

/// The token estimate: one token per four characters. A coarse heuristic, not
/// a real tokenizer; the division rounds down.
pub open spec fn estimated_tokens(msgs: Seq<MessageV>) -> nat {
    total_content_len(msgs) / 4
}

/// What eviction leaves: the oldest messages are dropped, one at a time, until
/// the estimate fits the budget or nothing is left.
pub open spec fn spec_compact(msgs: Seq<MessageV>, budget: nat) -> Seq<MessageV>
    decreases msgs.len(),
{
    if msgs.len() == 0 || estimated_tokens(msgs) <= budget {
        msgs
    } else {
        spec_compact(msgs.drop_first(), budget)
    }
}

/// Dropping the oldest message cannot raise the character total.
pub proof fn lemma_total_content_len_drop_first(msgs: Seq<MessageV>)
    requires
        msgs.len() > 0,
    ensures
        total_content_len(msgs.drop_first()) <= total_content_len(msgs),
    decreases msgs.len(),
{
    if msgs.len() == 1 {
        assert(msgs.drop_first() =~= Seq::<MessageV>::empty());
    } else {
        lemma_total_content_len_drop_first(msgs.drop_last());
        assert(msgs.drop_first().drop_last() =~= msgs.drop_last().drop_first());
        assert(msgs.drop_first().last() == msgs.last());
    }
}

/// A prefix of the log holds at most as many characters as the whole log.
pub proof fn lemma_total_content_len_prefix(msgs: Seq<MessageV>, i: int)
    requires
        0 <= i <= msgs.len(),
    ensures
        total_content_len(msgs.subrange(0, i)) <= total_content_len(msgs),
    decreases msgs.len() - i,
{
    if i == msgs.len() {
        assert(msgs.subrange(0, i) =~= msgs);
    } else {
        lemma_total_content_len_prefix(msgs, i + 1);
        assert(msgs.subrange(0, i + 1).drop_last() =~= msgs.subrange(0, i));
        assert(total_content_len(msgs.subrange(0, i)) <= total_content_len(
            msgs.subrange(0, i + 1),
        ));
    }
}

impl ConversationContext {
    /// The models of the held messages, in order.
    pub open spec fn messages_view(&self) -> Seq<MessageV> {
        msgs_view(self.messages@)
    }

    /// A fresh, empty context with the given system prompt and budget.
    pub fn new(system_prompt: String, max_tokens: usize) -> (r: ConversationContext)
        ensures
            r.messages_view() =~= Seq::<MessageV>::empty(),
            r.system_prompt@ == system_prompt@,
            r.max_tokens == max_tokens,
    {
        ConversationContext { messages: Vec::new(), system_prompt, max_tokens }
    }

    /// Appends unconditionally; no budget check is performed here.
    pub fn add_message(&mut self, message: Message)
        ensures
            final(self).messages_view() =~= old(self).messages_view().push(message@),
            final(self).system_prompt == old(self).system_prompt,
            final(self).max_tokens == old(self).max_tokens,
    {
        self.messages.push(message);
    }

    /// The full ordered sequence, read-only.
    pub fn get_messages(&self) -> (r: &Vec<Message>)
        ensures
            r@ == self.messages@,
    {
        &self.messages
    }

    /// Empties the sequence; the system prompt and the budget are retained.
    pub fn clear(&mut self)
        ensures
            final(self).messages_view() =~= Seq::<MessageV>::empty(),
            final(self).system_prompt == old(self).system_prompt,
            final(self).max_tokens == old(self).max_tokens,
    {
        self.messages.clear();
    }

    /// The token estimate of the held messages: the summed character count of
    /// their contents, divided by four.
    pub fn current_tokens(&self) -> (r: usize)
        requires
            total_content_len(self.messages_view()) <= usize::MAX,
        ensures
            r == estimated_tokens(self.messages_view()),
    {
        let ghost all = self.messages_view();
        let mut sum: usize = 0;
        let mut i: usize = 0;
        while i < self.messages.len()
            invariant
                i <= self.messages.len(),
                all == self.messages_view(),
                total_content_len(all) <= usize::MAX,
                sum == total_content_len(all.subrange(0, i as int)),
            decreases self.messages.len() - i,
        {
            let n = char_count(self.messages[i].content.as_str());
            proof {
                lemma_total_content_len_prefix(all, i + 1);
                assert(all.subrange(0, i + 1 as int).drop_last() =~= all.subrange(0, i as int));
                assert(all.subrange(0, i + 1 as int).last() == all[i as int]);
                assert(all[i as int] == self.messages@[i as int]@);
            }
            sum = sum + n;
            i = i + 1;
        }
        proof {
            assert(all.subrange(0, self.messages@.len() as int) =~= all);
        }
        sum / 4
    }

    /// If the estimate is over the budget, removes the oldest message until the
    /// estimate fits or the sequence is empty; returns whether it was over.
    /// A single oversized message is evicted like any other: messages are
    /// atomic units, so eviction may empty the sequence entirely.
    pub fn compact_if_needed(&mut self) -> (r: Result<bool, XzardgzError>)
        requires
            total_content_len(old(self).messages_view()) <= usize::MAX,
        ensures
            final(self).messages_view() =~= spec_compact(
                old(self).messages_view(),
                old(self).max_tokens as nat,
            ),
            r == Ok::<bool, XzardgzError>(
                estimated_tokens(old(self).messages_view()) > old(self).max_tokens,
            ),
            final(self).system_prompt == old(self).system_prompt,
            final(self).max_tokens == old(self).max_tokens,
    {
        let ghost orig = self.messages_view();
        let ghost budget = self.max_tokens as nat;
        let over = self.current_tokens() > self.max_tokens;
        if !over {
            proof {
                assert(spec_compact(orig, budget) =~= orig);
            }
            return Ok(false);
        }
        while self.current_tokens() > self.max_tokens && self.messages.len() > 0
            invariant
                total_content_len(self.messages_view()) <= usize::MAX,
                self.system_prompt == old(self).system_prompt,
                self.max_tokens == old(self).max_tokens,
                self.max_tokens as nat == budget,
                spec_compact(self.messages_view(), budget) == spec_compact(orig, budget),
            decreases self.messages@.len(),
        {
            proof {
                lemma_total_content_len_drop_first(self.messages_view());
                assert(self.messages_view().drop_first() =~= msgs_view(
                    self.messages@.drop_first(),
                ));
            }
            self.messages.remove(0);
        }
        Ok(true)
    }
}

/// Compaction is idempotent: within budget, it removes nothing.
pub proof fn lemma_compact_within_budget(msgs: Seq<MessageV>, budget: nat)
    requires
        estimated_tokens(msgs) <= budget,
    ensures
        spec_compact(msgs, budget) == msgs,
{
}

/// Compaction converges: on a log over budget it strictly decreases the
/// message count, and afterwards the estimate fits the budget or the log is
/// empty.
pub proof fn lemma_compact_converges(msgs: Seq<MessageV>, budget: nat)
    requires
        estimated_tokens(msgs) > budget,
    ensures
        spec_compact(msgs, budget).len() < msgs.len(),
        estimated_tokens(spec_compact(msgs, budget)) <= budget || spec_compact(
            msgs,
            budget,
        ).len() == 0,
    decreases msgs.len(),
{
    if msgs.len() == 0 {
        assert(total_content_len(msgs) == 0);
    } else {
        let rest = msgs.drop_first();
        if rest.len() == 0 || estimated_tokens(rest) <= budget {
            assert(spec_compact(rest, budget) == rest);
        } else {
            lemma_compact_converges(rest, budget);
        }
    }
}

} // verus!
