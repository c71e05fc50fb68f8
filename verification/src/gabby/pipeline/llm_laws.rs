//! What a conversation keeps, and what is said where there is no answer.

use crate::gabby::pipeline::llm::{
    surplus, trimmed_history, with_message, ChatReply, MessageView,
};
use vstd::prelude::*;

verus! {

/// As many of the oldest messages go as are too many, and one more where their number would be
/// odd; where none may stay, all go.
pub proof fn lemma_surplus(n: nat, max: nat)
    ensures
        n <= max ==> surplus(n, max) == 0,
        n > max && (n - max) % 2 == 0 ==> surplus(n, max) == n - max,
        n > max && (n - max) % 2 == 1 && max > 0 ==> surplus(n, max) == n - max + 1,
        max == 0 ==> surplus(n, max) == n,
{
}

/// A message is added behind the others, and where two or more may stay it is there afterwards, as
/// the last one; those in front of it are the latest of the earlier ones, in their order.
pub proof fn lemma_message_added(
    history: Seq<MessageView>,
    max: nat,
    role: Seq<char>,
    content: Seq<char>,
    i: int,
)
    requires
        max >= 2,
    ensures
        with_message(history, max, role, content).len() > 0,
        with_message(history, max, role, content).len() <= max,
        with_message(history, max, role, content).last().role == role,
        with_message(history, max, role, content).last().content == content,
        history.len() < max ==> with_message(history, max, role, content).len() == history.len() + 1,
        1 < i <= with_message(history, max, role, content).len() && i - 2 < history.len()
            ==> with_message(history, max, role, content)[with_message(
            history,
            max,
            role,
            content,
        ).len() - i] == history[history.len() - i + 1],
{
}

/// Trimming takes from the front alone.
pub proof fn lemma_trimmed_front(history: Seq<MessageView>, max: nat, i: int)
    requires
        0 <= i < trimmed_history(history, max).len(),
    ensures
        trimmed_history(history, max).len() == history.len() - surplus(history.len(), max),
        trimmed_history(history, max)[i] == history[surplus(history.len(), max) + i],
{
}

/// What is said: the answer, or an apology of its own for each way of having none. Everything that
/// is said becomes part of the conversation, but for a refusal and an empty answer.
pub proof fn lemma_said(reply: ChatReply)
    ensures
        reply is Text ==> reply.spoken() == reply->Text_0@,
        reply is Refused ==> reply.spoken() == "I'm having trouble thinking right now."@,
        reply is Unreadable ==> reply.spoken() == "I'm having trouble understanding the response."@,
        reply is Unreachable ==> reply.spoken() == "I'm having trouble connecting right now."@,
        reply is Refused ==> !reply.remembered(),
        reply is Unreadable || reply is Unreachable ==> reply.remembered(),
        reply is Text ==> (reply.remembered() <==> reply->Text_0@.len() > 0),
{
    reveal_strlit("I'm having trouble understanding the response.");
    reveal_strlit("I'm having trouble connecting right now.");
}

} // verus!
