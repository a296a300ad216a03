use vstd::prelude::*;

verus! {

/// The text shown in an assistant entry while its answer is awaited.
pub const PLACEHOLDER: &'static str = "...";

/// The text shown in an assistant entry whose answer could not be had.
pub const FAILURE: &'static str = "Something went wrong. Please try again.";

pub open spec fn placeholder_text() -> Seq<char> {
    seq!['.', '.', '.']
}

pub open spec fn failure_text() -> Seq<char> {
    FAILURE@
}

/// What a message is, as the contracts see it.
pub struct MessageView {
    pub text: Seq<char>,
    pub user: bool,
}

/// One entry of a chat transcript.
#[derive(Clone, Debug, PartialEq, Eq)]
pub struct Message {
    pub text: String,
    pub user: bool,
}

impl View for Message {
    type V = MessageView;

    open spec fn view(&self) -> MessageView {
        MessageView { text: self.text@, user: self.user }
    }
}

impl Message {
    /// A message written by the person at the keyboard.
    pub fn from_user(text: String) -> (r: Message)
        ensures
            r@ == (MessageView { text: text@, user: true }),
    {
        Message { text, user: true }
    }

    /// An assistant message with the given text.
    pub fn from_assistant(text: String) -> (r: Message)
        ensures
            r@ == (MessageView { text: text@, user: false }),
    {
        Message { text, user: false }
    }

    /// The provisional assistant message shown while an answer is awaited.
    pub fn placeholder() -> (r: Message)
        ensures
            r@ == (MessageView { text: placeholder_text(), user: false }),
    {
        let text = PLACEHOLDER.to_string();
        proof {
            reveal_strlit("...");
            assert(text@ =~= placeholder_text());
        }
        Message { text, user: false }
    }

    /// A copy of this message, field by field.
    pub fn duplicate(&self) -> (r: Message)
        ensures
            r@ == self@,
    {
        Message { text: self.text.clone(), user: self.user }
    }
}

} // verus!
