use ollama_rust::generation::chat::history::History;
use ollama_rust::generation::chat::message::{Message, Role};
use ollama_rust::generation::tools::{ToolCall, ToolCallFunction};
use std::collections::HashMap;

fn assistant(content: &str, done: bool) -> Message {
    Message {
        role: Role::Assistant,
        content: content.to_string(),
        thinking: None,
        images: vec![],
        tool_calls: vec![],
        done,
    }
}

fn call(name: &str) -> ToolCall {
    ToolCall {
        function: ToolCallFunction { index: 0, name: name.to_string(), arguments: HashMap::new() },
    }
}

#[test]
fn push_merges_unfinished_assistant_fragments() {
    let mut history = History::default();
    history.push(&assistant("Hel", false));
    history.push(&assistant("lo", true));
    let all = history.messages();
    assert_eq!(all.len(), 1);
    assert_eq!(all[0].content, "Hello");
    assert!(all[0].done);
    assert_eq!(all[0].role, Role::Assistant);
}

#[test]
fn merge_concatenates_tool_calls_and_takes_done_from_the_later() {
    let mut a = assistant("a", false);
    a.tool_calls = vec![call("first")];
    let mut b = assistant("b", true);
    b.tool_calls = vec![call("second"), call("third")];
    let mut history = History::default();
    history.push(&a);
    history.push(&b);
    let all = history.messages();
    assert_eq!(all.len(), 1);
    assert_eq!(all[0].content, "ab");
    assert!(all[0].done);
    let names: Vec<&str> = all[0].tool_calls.iter().map(|c| c.function.name.as_str()).collect();
    assert_eq!(names, vec!["first", "second", "third"]);
}

#[test]
fn merge_applies_to_every_role() {
    let mut history = History::default();
    history.push(&Message::user("one "));
    history.push(&Message::user("two"));
    let all = history.messages();
    assert_eq!(all.len(), 1);
    assert_eq!(all[0].content, "one two");
    assert_eq!(all[0].role, Role::User);
    assert!(!all[0].done);
}

#[test]
fn role_change_starts_a_new_entry() {
    let mut history = History::default();
    history.push(&assistant("answer", false));
    history.push(&Message::user("question"));
    let all = history.messages();
    assert_eq!(all.len(), 2);
    assert_eq!(all[0].role, Role::Assistant);
    assert_eq!(all[0].content, "answer");
    assert_eq!(all[1].role, Role::User);
    assert_eq!(all[1].content, "question");
}

#[test]
fn completed_predecessor_starts_a_new_entry() {
    let mut history = History::default();
    history.push(&assistant("first", true));
    history.push(&assistant("second", false));
    let all = history.messages();
    assert_eq!(all.len(), 2);
    assert_eq!(all[0].content, "first");
    assert!(all[0].done);
    assert_eq!(all[1].content, "second");
    assert!(!all[1].done);
}

#[test]
fn completed_entry_is_never_changed_again() {
    let mut history = History::default();
    history.push(&assistant("kept", true));
    history.push(&assistant("x", false));
    history.push(&assistant("y", false));
    history.push(&Message::user("z"));
    let all = history.messages();
    assert_eq!(all.len(), 3);
    assert_eq!(all[0].content, "kept");
    assert!(all[0].done);
    assert_eq!(all[1].content, "xy");
}

#[test]
fn fragments_give_the_same_log_as_the_whole_message() {
    let mut streamed = History::new(vec![Message::user("hi")]);
    streamed.push(&assistant("Hel", false));
    streamed.push(&assistant("lo", true));
    let mut whole = History::new(vec![Message::user("hi")]);
    whole.push(&assistant("Hello", true));
    let a = streamed.messages();
    let b = whole.messages();
    assert_eq!(a.len(), b.len());
    assert_eq!(a.len(), 2);
    for i in 0..a.len() {
        assert_eq!(a[i].role, b[i].role);
        assert_eq!(a[i].content, b[i].content);
        assert_eq!(a[i].thinking, b[i].thinking);
        assert_eq!(a[i].images, b[i].images);
        assert_eq!(a[i].tool_calls.len(), b[i].tool_calls.len());
        assert_eq!(a[i].done, b[i].done);
    }
}

#[test]
fn extend_is_repeated_push() {
    let batch = vec![
        Message::system("s"),
        Message::user("a"),
        Message::user("b"),
        assistant("c", true),
        assistant("d", false),
    ];
    let mut extended = History::default();
    extended.extend(&batch);
    let mut pushed = History::default();
    for m in &batch {
        pushed.push(m);
    }
    let a = extended.messages();
    let b = pushed.messages();
    assert_eq!(a.len(), 4);
    assert_eq!(a.len(), b.len());
    for i in 0..a.len() {
        assert_eq!(a[i].role, b[i].role);
        assert_eq!(a[i].content, b[i].content);
        assert_eq!(a[i].done, b[i].done);
    }
    assert_eq!(a[1].content, "ab");
}

#[test]
fn extend_with_nothing_changes_nothing() {
    let mut history = History::new(vec![Message::user("only")]);
    history.extend(&[]);
    assert_eq!(history.messages().len(), 1);
}

#[test]
fn new_takes_messages_as_they_are() {
    let history = History::new(vec![Message::user("a"), Message::user("b")]);
    let all = history.messages();
    assert_eq!(all.len(), 2);
    assert_eq!(all[0].content, "a");
    assert_eq!(all[1].content, "b");
}

#[test]
fn last_of_empty_history_is_none() {
    let history = History::default();
    assert!(history.last().is_none());
    assert!(history.messages().is_empty());
}

#[test]
fn last_is_a_copy_of_the_trailing_entry() {
    let mut history = History::default();
    history.push(&Message::system("s"));
    history.push(&Message::user("u"));
    let mut last = history.last().unwrap();
    assert_eq!(last.role, Role::User);
    assert_eq!(last.content, "u");
    last.content.push_str(" changed");
    assert_eq!(history.last().unwrap().content, "u");
}

#[test]
fn push_keeps_a_copy_of_its_own() {
    let mut message = Message::user("before");
    let mut history = History::default();
    history.push(&message);
    message.content.push_str(" after");
    assert_eq!(history.messages()[0].content, "before");
}

#[test]
fn snapshot_is_independent_of_the_log() {
    let mut history = History::default();
    history.push(&Message::user("u"));
    let mut snapshot = history.messages();
    snapshot.clear();
    assert_eq!(history.messages().len(), 1);
}

#[test]
fn clear_empties_the_log() {
    let mut history = History::new(vec![Message::user("a"), Message::system("b")]);
    history.clear();
    assert!(history.messages().is_empty());
    assert!(history.last().is_none());
    history.push(&Message::user("again"));
    assert_eq!(history.messages().len(), 1);
}

#[test]
fn messages_mut_gives_the_stored_messages() {
    let mut history = History::new(vec![Message::user("a")]);
    history.messages_mut().push(Message::user("b"));
    let all = history.messages();
    assert_eq!(all.len(), 2);
    assert_eq!(all[1].content, "b");
}

#[test]
fn clone_is_independent() {
    let mut history = History::new(vec![Message::user("a")]);
    let copy = history.clone();
    history.push(&Message::system("b"));
    assert_eq!(copy.messages().len(), 1);
    assert_eq!(history.messages().len(), 2);
}
