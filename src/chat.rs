use vstd::prelude::*;

use crate::conversation::Conversation;
use crate::message::{failure_text, placeholder_text, Message, MessageView, FAILURE};

verus! {

/// Why the conversation service gave no answer.
#[derive(Clone, Copy, Debug, PartialEq, Eq, Structural)]
pub enum ApiError {
    /// The service could not be reached.
    Network,
    /// The service answered with something that is not a reply.
    InvalidResponse,
}

/// A chat session as the contracts see it: the transcript, and for each of
/// its entries whether it is a placeholder that still awaits its answer.
pub struct ChatView {
    pub messages: Seq<MessageView>,
    pub waiting: Seq<bool>,
}

/// A session with nothing sent yet.
pub open spec fn fresh() -> ChatView {
    ChatView { messages: Seq::empty(), waiting: Seq::empty() }
}

pub open spec fn user_message(text: Seq<char>) -> MessageView {
    MessageView { text, user: true }
}

pub open spec fn placeholder_message() -> MessageView {
    MessageView { text: placeholder_text(), user: false }
}

/// The text that an answer puts in place of its placeholder.
pub open spec fn reply_text(reply: Result<String, ApiError>) -> Seq<char> {
    match reply {
        Ok(s) => s@,
        Err(_) => failure_text(),
    }
}

/// Sending `text`: the user's message, then a placeholder that awaits the
/// answer, are appended.
pub open spec fn sent(c: ChatView, text: Seq<char>) -> ChatView {
    ChatView {
        messages: c.messages.push(user_message(text)).push(placeholder_message()),
        waiting: c.waiting.push(false).push(true),
    }
}

/// Entry `id` is a placeholder whose answer has not come yet.
pub open spec fn awaits(c: ChatView, id: int) -> bool {
    0 <= id < c.waiting.len() && c.waiting[id]
}

/// An answer for the placeholder at `id`: its text becomes `text` and it no
/// longer waits. An answer for anything else changes nothing.
pub open spec fn answered(c: ChatView, id: int, text: Seq<char>) -> ChatView {
    if awaits(c, id) {
        ChatView {
            messages: c.messages.update(id, MessageView { text, user: false }),
            waiting: c.waiting.update(id, false),
        }
    } else {
        c
    }
}

/// Entries alternate between the user and the assistant, starting with the
/// user, and only assistant entries showing the placeholder can wait.
pub open spec fn well_formed(c: ChatView) -> bool {
    &&& c.messages.len() == c.waiting.len()
    &&& c.messages.len() % 2 == 0
    &&& forall|i: int| 0 <= i < c.messages.len() ==> (#[trigger] c.messages[i].user <==> i % 2 == 0)
    &&& forall|i: int|
        0 <= i < c.waiting.len() && #[trigger] c.waiting[i] ==> c.messages[i] == placeholder_message()
}

/// Sending keeps a session well formed.
pub proof fn lemma_sent_well_formed(c: ChatView, text: Seq<char>)
    requires
        well_formed(c),
    ensures
        well_formed(sent(c, text)),
{
    let s = sent(c, text);
    let n = c.messages.len();
    assert forall|i: int| 0 <= i < s.messages.len() implies (#[trigger] s.messages[i].user <==> i
        % 2 == 0) by {
        if i < n {
            assert(s.messages[i] == c.messages[i]);
        }
    }
    assert forall|i: int| 0 <= i < s.waiting.len() && #[trigger] s.waiting[i] implies s.messages[i]
        == placeholder_message() by {
        if i < n {
            assert(s.waiting[i] == c.waiting[i]);
            assert(s.messages[i] == c.messages[i]);
        }
    }
}

/// An answer, for whatever entry, keeps a session well formed.
pub proof fn lemma_answered_well_formed(c: ChatView, id: int, text: Seq<char>)
    requires
        well_formed(c),
    ensures
        well_formed(answered(c, id, text)),
{
    if awaits(c, id) {
        let a = answered(c, id, text);
        assert(c.messages[id] == placeholder_message());
        assert forall|i: int| 0 <= i < a.messages.len() implies (#[trigger] a.messages[i].user
            <==> i % 2 == 0) by {
            if i != id {
                assert(a.messages[i] == c.messages[i]);
            } else {
                assert(!c.messages[i].user);
            }
        }
        assert forall|i: int| 0 <= i < a.waiting.len() && #[trigger] a.waiting[i] implies a.messages[i]
            == placeholder_message() by {
            assert(i != id);
            assert(a.waiting[i] == c.waiting[i]);
            assert(a.messages[i] == c.messages[i]);
        }
    }
}

/// What the session hands to the conversation service for one send.
pub struct PendingSend {
    /// The position of the placeholder that the answer replaces.
    pub id: usize,
    /// The transcript up to and including the message just sent.
    pub request: Conversation,
}

/// A chat session. Every placeholder is addressed by its position, which
/// never changes since entries are only appended, so answers may arrive in
/// any order.
pub struct Chat {
    conversation: Conversation,
    waiting: Vec<bool>,
}

impl View for Chat {
    type V = ChatView;

    closed spec fn view(&self) -> ChatView {
        ChatView { messages: self.conversation@, waiting: self.waiting@ }
    }
}

impl Chat {
    pub open spec fn wf(&self) -> bool {
        well_formed(self@)
    }

    /// A session with an empty transcript.
    pub fn new() -> (r: Chat)
        ensures
            r.wf(),
            r@ == fresh(),
    {
        let r = Chat { conversation: Conversation::new(), waiting: Vec::new() };
        assert(r@.waiting =~= Seq::<bool>::empty());
        r
    }

    /// The transcript as it stands.
    pub fn conversation(&self) -> (r: &Conversation)
        ensures
            r@ == self@.messages,
    {
        &self.conversation
    }

    /// Whether the entry at `id` is a placeholder still awaiting its answer.
    pub fn is_waiting(&self, id: usize) -> (r: bool)
        requires
            self.wf(),
        ensures
            r == awaits(self@, id as int),
    {
        id < self.waiting.len() && self.waiting[id]
    }

    /// Sends `text`, which may be empty: appends the user's message and a
    /// placeholder, and returns what to ask the conversation service.
    pub fn begin_send(&mut self, text: String) -> (r: PendingSend)
        requires
            old(self).wf(),
        ensures
            final(self).wf(),
            final(self)@ == sent(old(self)@, text@),
            r.id == old(self)@.messages.len() + 1,
            r.request@ == old(self)@.messages.push(user_message(text@)),
    {
        proof {
            lemma_sent_well_formed(old(self)@, text@);
        }
        self.conversation.push(Message::from_user(text));
        self.waiting.push(false);
        let id = self.conversation.len();
        let request = self.conversation.prefix(id);
        self.conversation.push(Message::placeholder());
        self.waiting.push(true);
        assert(request@ =~= old(self)@.messages.push(user_message(text@)));
        assert(self@.messages =~= sent(old(self)@, text@).messages);
        assert(self@.waiting =~= sent(old(self)@, text@).waiting);
        PendingSend { id, request }
    }

    /// Puts the outcome of the send whose placeholder is at `id` in place of
    /// that placeholder: the reply's text, or a notice of the failure. Returns
    /// false, changing nothing, where `id` names no waiting placeholder.
    pub fn finish_send(&mut self, id: usize, reply: Result<String, ApiError>) -> (r: bool)
        requires
            old(self).wf(),
        ensures
            final(self).wf(),
            final(self)@ == answered(old(self)@, id as int, reply_text(reply)),
            r == awaits(old(self)@, id as int),
    {
        if !self.is_waiting(id) {
            return false;
        }
        let text = match reply {
            Ok(s) => s,
            Err(_) => FAILURE.to_string(),
        };
        self.conversation.messages[id] = Message::from_assistant(text);
        self.waiting[id] = false;
        let ghost want = answered(old(self)@, id as int, reply_text(reply));
        proof {
            lemma_answered_well_formed(old(self)@, id as int, reply_text(reply));
        }
        assert(self@.messages =~= want.messages);
        assert(self@.waiting =~= want.waiting);
        true
    }
}

} // verus!
