use vstd::prelude::*;

use crate::chat::{
    answered, awaits, fresh, lemma_answered_well_formed, lemma_sent_well_formed, placeholder_message,
    sent, user_message, well_formed, ChatView,
};
use crate::conversation::rows_of;
use crate::message::MessageView;

verus! {

/// Sending text to a session of `n` messages gives `n + 2` messages: the
/// earlier ones unchanged, then the user's message with that text, then a
/// placeholder that awaits its answer. This holds of the empty text too.
pub proof fn lemma_send_appends_two(c: ChatView, text: Seq<char>)
    requires
        well_formed(c),
    ensures
        ({
            let s = sent(c, text);
            let n = c.messages.len() as int;
            &&& s.messages.len() == n + 2
            &&& s.messages.take(n) == c.messages
            &&& s.messages[n] == user_message(text)
            &&& s.messages[n + 1] == placeholder_message()
            &&& awaits(s, n + 1)
        }),
{
    let s = sent(c, text);
    assert(s.messages.take(c.messages.len() as int) =~= c.messages);
}

/// Once the answer `reply` of a send arrives, the session still has the same
/// `n + 2` messages, all as before but the last, which is an assistant message
/// holding `reply` and no longer waits.
pub proof fn lemma_answer_replaces_placeholder(c: ChatView, text: Seq<char>, reply: Seq<char>)
    requires
        well_formed(c),
    ensures
        ({
            let s = sent(c, text);
            let n = c.messages.len() as int;
            let a = answered(s, n + 1, reply);
            &&& a.messages.len() == n + 2
            &&& a.messages.take(n + 1) == s.messages.take(n + 1)
            &&& a.messages.last() == (MessageView { text: reply, user: false })
            &&& !awaits(a, n + 1)
        }),
{
    let s = sent(c, text);
    let n = c.messages.len() as int;
    let a = answered(s, n + 1, reply);
    assert(a.messages.take(n + 1) =~= s.messages.take(n + 1));
}

/// The session after sending each of `texts` in turn, each send answered by
/// the matching entry of `replies` before the next begins.
pub open spec fn one_at_a_time(texts: Seq<Seq<char>>, replies: Seq<Seq<char>>) -> ChatView
    decreases texts.len(),
{
    if texts.len() == 0 {
        fresh()
    } else {
        let before = one_at_a_time(texts.drop_last(), replies.drop_last());
        answered(sent(before, texts.last()), before.messages.len() as int + 1, replies.last())
    }
}

/// Sends made one at a time, each answered before the next, leave twice as
/// many messages as sends, alternating between user and assistant and
/// starting with the user, with nothing left waiting.
pub proof fn lemma_sequential_sends_alternate(texts: Seq<Seq<char>>, replies: Seq<Seq<char>>)
    requires
        texts.len() == replies.len(),
    ensures
        ({
            let c = one_at_a_time(texts, replies);
            &&& well_formed(c)
            &&& c.messages.len() == 2 * texts.len()
            &&& forall|i: int| 0 <= i < c.messages.len() ==> (#[trigger] c.messages[i].user <==> i % 2 == 0)
            &&& forall|i: int| 0 <= i < c.messages.len() ==> !awaits(c, i)
        }),
    decreases texts.len(),
{
    if texts.len() > 0 {
        let before = one_at_a_time(texts.drop_last(), replies.drop_last());
        lemma_sequential_sends_alternate(texts.drop_last(), replies.drop_last());
        let n = before.messages.len() as int;
        let s = sent(before, texts.last());
        lemma_sent_well_formed(before, texts.last());
        lemma_answered_well_formed(s, n + 1, replies.last());
        let c = answered(s, n + 1, replies.last());
        assert forall|i: int| 0 <= i < c.messages.len() implies !awaits(c, i) by {
            if i < n {
                assert(c.waiting[i] == before.waiting[i]);
                assert(!awaits(before, i));
            }
        }
    } else {
        assert(well_formed(fresh()));
    }
}

/// Any mix of sends and answers, in any order, keeps a session well formed:
/// entries alternate between user and assistant, starting with the user.
pub proof fn lemma_sends_and_answers_alternate(c: ChatView, text: Seq<char>, id: int, reply: Seq<char>)
    requires
        well_formed(c),
    ensures
        well_formed(sent(c, text)),
        well_formed(answered(c, id, reply)),
        forall|i: int|
            0 <= i < sent(c, text).messages.len() ==> (#[trigger] sent(c, text).messages[i].user <==> i
                % 2 == 0),
        forall|i: int|
            0 <= i < answered(c, id, reply).messages.len() ==> (#[trigger] answered(
                c,
                id,
                reply,
            ).messages[i].user <==> i % 2 == 0),
{
    lemma_sent_well_formed(c, text);
    lemma_answered_well_formed(c, id, reply);
}

/// Two sends made before either is answered: whichever answer arrives first,
/// each placeholder ends up holding its own reply, the two user messages stay
/// as sent, and an answer delivered a second time changes nothing.
pub proof fn lemma_overlapping_sends(
    c: ChatView,
    first: Seq<char>,
    second: Seq<char>,
    first_reply: Seq<char>,
    second_reply: Seq<char>,
)
    requires
        well_formed(c),
    ensures
        ({
            let n = c.messages.len() as int;
            let s = sent(sent(c, first), second);
            let in_order = answered(answered(s, n + 1, first_reply), n + 3, second_reply);
            let reversed = answered(answered(s, n + 3, second_reply), n + 1, first_reply);
            &&& in_order == reversed
            &&& in_order.messages.len() == n + 4
            &&& in_order.messages.take(n) == c.messages
            &&& in_order.messages[n] == user_message(first)
            &&& in_order.messages[n + 1] == (MessageView { text: first_reply, user: false })
            &&& in_order.messages[n + 2] == user_message(second)
            &&& in_order.messages[n + 3] == (MessageView { text: second_reply, user: false })
            &&& answered(in_order, n + 1, second_reply) == in_order
            &&& answered(in_order, n + 3, first_reply) == in_order
        }),
{
    let n = c.messages.len() as int;
    let s = sent(sent(c, first), second);
    let in_order = answered(answered(s, n + 1, first_reply), n + 3, second_reply);
    let reversed = answered(answered(s, n + 3, second_reply), n + 1, first_reply);
    assert(in_order.messages =~= reversed.messages);
    assert(in_order.waiting =~= reversed.waiting);
    assert(in_order.messages.take(n) =~= c.messages);
}

/// The rendered transcript depends on the messages alone: two conversations
/// that hold the same messages render to the same rows.
pub proof fn lemma_render_depends_on_messages_alone(a: Seq<MessageView>, b: Seq<MessageView>)
    requires
        a == b,
    ensures
        rows_of(a) == rows_of(b),
{
}

} // verus!
