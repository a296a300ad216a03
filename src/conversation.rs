use vstd::prelude::*;

use crate::message::{Message, MessageView};

verus! {

/// The ordered transcript of one chat session, oldest message first.
#[derive(Clone, Debug, PartialEq, Eq)]
pub struct Conversation {
    pub messages: Vec<Message>,
}

impl View for Conversation {
    type V = Seq<MessageView>;

    open spec fn view(&self) -> Seq<MessageView> {
        self.messages@.map_values(|m: Message| m@)
    }
}

/// Who wrote a transcript row; it decides how the row is styled.
#[derive(Clone, Copy, Debug, PartialEq, Eq, Structural)]
pub enum Speaker {
    User,
    Assistant,
}

/// One row of the rendered transcript.
#[derive(Clone, Debug, PartialEq, Eq)]
pub struct TranscriptRow {
    pub text: String,
    pub speaker: Speaker,
}

pub struct RowView {
    pub text: Seq<char>,
    pub speaker: Speaker,
}

impl View for TranscriptRow {
    type V = RowView;

    open spec fn view(&self) -> RowView {
        RowView { text: self.text@, speaker: self.speaker }
    }
}

pub open spec fn speaker_of(m: MessageView) -> Speaker {
    if m.user {
        Speaker::User
    } else {
        Speaker::Assistant
    }
}

pub open spec fn row_of(m: MessageView) -> RowView {
    RowView { text: m.text, speaker: speaker_of(m) }
}

/// The rendered transcript: one row per message, in order.
pub open spec fn rows_of(s: Seq<MessageView>) -> Seq<RowView> {
    s.map_values(|m: MessageView| row_of(m))
}

impl Conversation {
    /// An empty conversation.
    pub fn new() -> (r: Conversation)
        ensures
            r@ == Seq::<MessageView>::empty(),
    {
        let r = Conversation { messages: Vec::new() };
        assert(r@ =~= Seq::<MessageView>::empty());
        r
    }

    pub fn len(&self) -> (r: usize)
        ensures
            r == self@.len(),
    {
        self.messages.len()
    }

    /// Appends a message at the end.
    pub fn push(&mut self, m: Message)
        ensures
            final(self)@ == old(self)@.push(m@),
    {
        self.messages.push(m);
        assert(self@ =~= old(self)@.push(m@));
    }

    /// A copy of the first `n` messages.
    pub fn prefix(&self, n: usize) -> (r: Conversation)
        requires
            n <= self@.len(),
        ensures
            r@ == self@.take(n as int),
    {
        let mut messages: Vec<Message> = Vec::new();
        let mut i: usize = 0;
        while i < n
            invariant
                n <= self.messages@.len(),
                i <= n,
                messages@.len() == i,
                forall|j: int| 0 <= j < i ==> #[trigger] messages@[j]@ == self.messages@[j]@,
            decreases n - i,
        {
            messages.push(self.messages[i].duplicate());
            i = i + 1;
        }
        let r = Conversation { messages };
        assert(r@ =~= self@.take(n as int));
        r
    }

    /// The transcript as rows to display. It depends on the messages alone.
    pub fn render(&self) -> (r: Vec<TranscriptRow>)
        ensures
            r@.map_values(|row: TranscriptRow| row@) == rows_of(self@),
    {
        let mut rows: Vec<TranscriptRow> = Vec::new();
        let mut i: usize = 0;
        while i < self.messages.len()
            invariant
                i <= self.messages@.len(),
                rows@.len() == i,
                forall|j: int| 0 <= j < i ==> #[trigger] rows@[j]@ == row_of(self.messages@[j]@),
            decreases self.messages@.len() - i,
        {
            let m = &self.messages[i];
            let speaker = if m.user {
                Speaker::User
            } else {
                Speaker::Assistant
            };
            rows.push(TranscriptRow { text: m.text.clone(), speaker });
            i = i + 1;
        }
        assert(rows@.map_values(|row: TranscriptRow| row@) =~= rows_of(self@));
        rows
    }
}

} // verus!
