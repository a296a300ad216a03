use rusty_llama::chat::{ApiError, Chat};
use rusty_llama::conversation::{Conversation, Speaker, TranscriptRow};
use rusty_llama::message::{Message, FAILURE, PLACEHOLDER};

fn user(text: &str) -> Message {
    Message { text: text.to_string(), user: true }
}

fn assistant(text: &str) -> Message {
    Message { text: text.to_string(), user: false }
}

#[test]
fn new_chat_is_empty() {
    let chat = Chat::new();
    assert_eq!(chat.conversation().len(), 0);
    assert!(chat.conversation().render().is_empty());
}

#[test]
fn send_appends_user_message_and_placeholder() {
    let mut chat = Chat::new();
    let first = chat.begin_send("hello".to_string());
    chat.finish_send(first.id, Ok("hi there".to_string()));
    let pending = chat.begin_send("how are you".to_string());
    assert_eq!(chat.conversation().len(), 4);
    assert_eq!(chat.conversation().messages[2], user("how are you"));
    assert_eq!(chat.conversation().messages[3], assistant("..."));
    assert_eq!(pending.id, 3);
    assert!(chat.is_waiting(3));
    assert!(!chat.is_waiting(1));
}

#[test]
fn request_holds_transcript_through_the_new_message() {
    let mut chat = Chat::new();
    let first = chat.begin_send("hello".to_string());
    assert_eq!(first.request.messages, vec![user("hello")]);
    chat.finish_send(first.id, Ok("hi".to_string()));
    let second = chat.begin_send("again".to_string());
    assert_eq!(
        second.request.messages,
        vec![user("hello"), assistant("hi"), user("again")]
    );
}

#[test]
fn answer_replaces_the_placeholder() {
    let mut chat = Chat::new();
    let pending = chat.begin_send("ping".to_string());
    assert!(chat.finish_send(pending.id, Ok("pong".to_string())));
    assert_eq!(chat.conversation().messages, vec![user("ping"), assistant("pong")]);
    assert!(!chat.is_waiting(pending.id));
}

#[test]
fn failure_shows_a_notice() {
    let mut chat = Chat::new();
    let a = chat.begin_send("one".to_string());
    assert!(chat.finish_send(a.id, Err(ApiError::Network)));
    let b = chat.begin_send("two".to_string());
    assert!(chat.finish_send(b.id, Err(ApiError::InvalidResponse)));
    assert_eq!(
        chat.conversation().messages,
        vec![user("one"), assistant(FAILURE), user("two"), assistant(FAILURE)]
    );
    assert_ne!(FAILURE, PLACEHOLDER);
}

#[test]
fn sequential_sends_alternate() {
    let mut chat = Chat::new();
    let texts = ["a", "b", "c", "d"];
    for t in texts.iter() {
        let p = chat.begin_send(t.to_string());
        assert!(chat.finish_send(p.id, Ok(format!("re: {}", t))));
    }
    let messages = &chat.conversation().messages;
    assert_eq!(messages.len(), 2 * texts.len());
    for (i, m) in messages.iter().enumerate() {
        assert_eq!(m.user, i % 2 == 0);
    }
    assert_eq!(messages[7], assistant("re: d"));
}

#[test]
fn empty_text_is_sent_as_is() {
    let mut chat = Chat::new();
    let p = chat.begin_send(String::new());
    assert_eq!(chat.conversation().messages, vec![user(""), assistant("...")]);
    assert_eq!(p.id, 1);
}

#[test]
fn empty_reply_is_kept() {
    let mut chat = Chat::new();
    let p = chat.begin_send("x".to_string());
    assert!(chat.finish_send(p.id, Ok(String::new())));
    assert_eq!(chat.conversation().messages, vec![user("x"), assistant("")]);
}

#[test]
fn overlapping_sends_answered_out_of_order() {
    let mut chat = Chat::new();
    let first = chat.begin_send("first".to_string());
    let second = chat.begin_send("second".to_string());
    assert_eq!(
        chat.conversation().messages,
        vec![user("first"), assistant("..."), user("second"), assistant("...")]
    );
    assert!(chat.finish_send(second.id, Ok("answer two".to_string())));
    assert!(chat.finish_send(first.id, Ok("answer one".to_string())));
    assert_eq!(
        chat.conversation().messages,
        vec![
            user("first"),
            assistant("answer one"),
            user("second"),
            assistant("answer two")
        ]
    );
}

#[test]
fn answer_for_no_waiting_placeholder_changes_nothing() {
    let mut chat = Chat::new();
    let p = chat.begin_send("q".to_string());
    assert!(chat.finish_send(p.id, Ok("a".to_string())));
    assert!(!chat.finish_send(p.id, Ok("again".to_string())));
    assert!(!chat.finish_send(0, Ok("user slot".to_string())));
    assert!(!chat.finish_send(99, Err(ApiError::Network)));
    assert_eq!(chat.conversation().messages, vec![user("q"), assistant("a")]);
}

#[test]
fn render_marks_speakers() {
    let mut c = Conversation::new();
    c.push(user("hi"));
    c.push(assistant("hello"));
    assert_eq!(
        c.render(),
        vec![
            TranscriptRow { text: "hi".to_string(), speaker: Speaker::User },
            TranscriptRow { text: "hello".to_string(), speaker: Speaker::Assistant },
        ]
    );
}

#[test]
fn render_twice_gives_the_same_rows() {
    let mut chat = Chat::new();
    let p = chat.begin_send("one".to_string());
    chat.begin_send("two".to_string());
    chat.finish_send(p.id, Ok("uno".to_string()));
    let a = chat.conversation().render();
    let b = chat.conversation().render();
    assert_eq!(a, b);
    assert_eq!(a.len(), 4);
    assert_eq!(a[3], TranscriptRow { text: "...".to_string(), speaker: Speaker::Assistant });
}

#[test]
fn prefix_copies_leading_messages() {
    let mut c = Conversation::new();
    c.push(user("a"));
    c.push(assistant("b"));
    c.push(user("c"));
    assert_eq!(c.prefix(2).messages, vec![user("a"), assistant("b")]);
    assert_eq!(c.prefix(0).messages, Vec::<Message>::new());
}

#[test]
fn message_constructors() {
    assert_eq!(Message::from_user("x".to_string()), user("x"));
    assert_eq!(Message::from_assistant("y".to_string()), assistant("y"));
    assert_eq!(Message::placeholder(), assistant(PLACEHOLDER));
    let m = user("z");
    assert_eq!(m.duplicate(), m);
}
