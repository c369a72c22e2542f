use ollama_rust::generation::chat::history::History;
use ollama_rust::generation::chat::message::{Message, Role};
use ollama_rust::generation::chat::response::ChatResponse;
use ollama_rust::generation::chat::session::{Action, Event, Phase, Session};
use ollama_rust::generation::tools::{
    describe, Tool, ToolCall, ToolCallArguments, ToolCallFunction, ToolFunction, ToolRegistry,
};
use ollama_rust::OllamaError;
use std::collections::HashMap;

fn frame(content: &str, done: bool) -> ChatResponse {
    ChatResponse {
        model: "m".to_string(),
        remote_model: None,
        remote_host: None,
        created_at: "2024-01-01T00:00:00Z".to_string(),
        message: Message {
            role: Role::Assistant,
            content: content.to_string(),
            thinking: None,
            images: vec![],
            tool_calls: vec![],
            done: false,
        },
        done,
        done_reason: None,
        debug_info: None,
        total_duration: None,
        load_duration: None,
        prompt_eval_count: None,
        prompt_eval_duration: None,
        eval_count: None,
        eval_duration: None,
    }
}

fn call(name: &str, arguments: &[(&str, &str)]) -> ToolCall {
    let mut map = HashMap::new();
    for (k, v) in arguments {
        map.insert(k.to_string(), v.to_string());
    }
    ToolCall { function: ToolCallFunction { index: 0, name: name.to_string(), arguments: map } }
}

fn frame_with_calls(calls: Vec<ToolCall>) -> ChatResponse {
    let mut f = frame("", true);
    f.message.tool_calls = calls;
    f
}

fn registry(names: &[&str]) -> ToolRegistry {
    let mut registry = ToolRegistry::new();
    for name in names {
        registry.register(ToolFunction::new(name, "a tool"));
    }
    registry
}

fn started(tools: &[&str], history: &mut History) -> Session {
    let mut session = Session::new(registry(tools), vec![Message::user("hi")]);
    assert!(matches!(session.step(history, Event::Begin), Action::Send { .. }));
    assert!(matches!(session.step(history, Event::Accepted), Action::Read));
    session
}

fn decode(bytes: &[u8]) -> Option<ChatResponse> {
    let value: serde_json::Value = serde_json::from_slice(bytes).ok()?;
    let message = value.get("message")?;
    let role = match message.get("role")?.as_str()? {
        "system" => Role::System,
        "user" => Role::User,
        "assistant" => Role::Assistant,
        "tool" => Role::Tool,
        _ => return None,
    };
    let mut response = frame(message.get("content")?.as_str()?, value.get("done")?.as_bool()?);
    response.message.role = role;
    Some(response)
}

#[test]
fn new_session_is_idle() {
    let session = Session::new(ToolRegistry::new(), vec![Message::user("hi")]);
    assert_eq!(session.phase(), Phase::Idle);
    assert!(!session.is_terminal());
}

#[test]
fn empty_batch_ends_without_a_request() {
    let mut history = History::new(vec![Message::user("earlier")]);
    let mut session = Session::new(registry(&["a"]), vec![]);
    let action = session.step(&mut history, Event::Begin);
    assert!(matches!(action, Action::Close));
    assert!(session.is_terminal());
    assert_eq!(history.messages().len(), 1);
}

#[test]
fn begin_appends_the_batch_and_sends_the_conversation() {
    let mut history = History::new(vec![{
        let mut m = Message::user("old answer");
        m.role = Role::Assistant;
        m.done = true;
        m
    }]);
    let mut session =
        Session::new(ToolRegistry::new(), vec![Message::system("s"), Message::user("u")]);
    match session.step(&mut history, Event::Begin) {
        Action::Send { delta, messages } => {
            assert_eq!(delta.len(), 2);
            assert_eq!(delta[0].content, "s");
            assert_eq!(delta[1].content, "u");
            assert_eq!(messages.len(), 3);
            assert_eq!(messages[0].content, "old answer");
            assert_eq!(messages[1].role, Role::System);
            assert_eq!(messages[2].role, Role::User);
        }
        other => panic!("unexpected action {:?}", other),
    }
    assert_eq!(session.phase(), Phase::Sending);
    assert_eq!(history.messages().len(), 3);
}

#[test]
fn accepted_starts_streaming() {
    let mut history = History::default();
    let session = started(&[], &mut history);
    assert_eq!(session.phase(), Phase::Streaming);
}

#[test]
fn rejected_ends_with_the_status_and_body() {
    let mut history = History::default();
    let mut session = Session::new(ToolRegistry::new(), vec![Message::user("hi")]);
    session.step(&mut history, Event::Begin);
    let action = session.step(
        &mut history,
        Event::Rejected {
            status: "400 Bad Request".to_string(),
            body: "model does not support thinking".to_string(),
        },
    );
    match action {
        Action::Fail(OllamaError::Other(text)) => {
            assert_eq!(text, "Error 400 Bad Request:\nmodel does not support thinking")
        }
        other => panic!("unexpected action {:?}", other),
    }
    assert!(session.is_terminal());
    assert_eq!(history.messages().len(), 1);
    assert!(matches!(session.step(&mut history, Event::Accepted), Action::Close));
}

#[test]
fn each_frame_is_merged_and_yielded_once() {
    let mut history = History::default();
    let mut session = started(&[], &mut history);
    match session.step(&mut history, Event::Frame(frame("Hel", false))) {
        Action::Yield(r) => {
            assert_eq!(r.message.content, "Hel");
            assert!(!r.message.done);
            assert!(!r.done);
        }
        other => panic!("unexpected action {:?}", other),
    }
    assert!(matches!(session.step(&mut history, Event::Resumed), Action::Read));
    match session.step(&mut history, Event::Frame(frame("lo", true))) {
        Action::Yield(r) => {
            assert_eq!(r.message.content, "lo");
            assert!(r.message.done);
            assert!(r.done);
        }
        other => panic!("unexpected action {:?}", other),
    }
    let all = history.messages();
    assert_eq!(all.len(), 2);
    assert_eq!(all[1].content, "Hello");
    assert!(all[1].done);
    assert_eq!(session.phase(), Phase::Streaming);
}

/// Feeds `chunks` to the session as a driver would and returns how many
/// frames were yielded and how many were found undecodable.
fn stream(session: &mut Session, history: &mut History, chunks: &[&[u8]]) -> (usize, usize) {
    let mut yielded = 0;
    let mut dropped = 0;
    for chunk in chunks {
        let mut action = session.step(history, Event::Chunk(chunk.to_vec()));
        loop {
            action = match action {
                Action::Decode(bytes) => match decode(&bytes) {
                    Some(response) => session.step(history, Event::Frame(response)),
                    None => {
                        dropped += 1;
                        session.step(history, Event::Undecodable)
                    }
                },
                Action::Yield(_) => {
                    yielded += 1;
                    session.step(history, Event::Resumed)
                }
                Action::Read => break,
                Action::Close => return (yielded, dropped),
                other => panic!("unexpected action {:?}", other),
            };
        }
    }
    (yielded, dropped)
}

#[test]
fn streamed_fragments_equal_the_whole_frame() {
    let bytes: &[u8] = b"{\"model\":\"m\",\"message\":{\"role\":\"assistant\",\"content\":\"Hel\"},\"done\":false}\n{\"model\":\"m\",\"message\":{\"role\":\"assistant\",\"content\":\"lo\"},\"done\":true}\n";
    let mut direct_history = History::default();
    let mut direct = started(&[], &mut direct_history);
    direct.step(&mut direct_history, Event::Frame(frame("Hello", true)));
    let expected = direct_history.last().unwrap();
    assert_eq!(expected.content, "Hello");

    for cut in 0..=bytes.len() {
        let mut history = History::default();
        let mut session = started(&[], &mut history);
        let (yielded, dropped) = stream(&mut session, &mut history, &[&bytes[..cut], &bytes[cut..]]);
        assert_eq!(yielded, 2, "cut at {}", cut);
        assert_eq!(dropped, 0);
        assert!(session.is_terminal());
        let got = history.last().unwrap();
        assert_eq!(history.messages().len(), direct_history.messages().len());
        assert_eq!(got.role, expected.role);
        assert_eq!(got.content, expected.content);
        assert_eq!(got.thinking, expected.thinking);
        assert_eq!(got.images, expected.images);
        assert_eq!(got.tool_calls.len(), expected.tool_calls.len());
        assert_eq!(got.done, expected.done);
    }
}

#[test]
fn chunk_without_a_complete_frame_asks_for_more() {
    let mut history = History::default();
    let mut session = started(&[], &mut history);
    let action = session.step(&mut history, Event::Chunk(b"{\"message\":{\"role\"".to_vec()));
    assert!(matches!(action, Action::Read));
    assert_eq!(history.messages().len(), 1);
    assert_eq!(session.phase(), Phase::Streaming);
}

#[test]
fn frames_of_one_chunk_are_decoded_in_arrival_order() {
    let mut history = History::default();
    let mut session = started(&[], &mut history);
    let action = session.step(&mut history, Event::Chunk(b"{\"a\":1}\n{\"b\":2}\n{\"c\":".to_vec()));
    match action {
        Action::Decode(bytes) => assert_eq!(bytes, b"{\"a\":1}".to_vec()),
        other => panic!("unexpected action {:?}", other),
    }
    match session.step(&mut history, Event::Undecodable) {
        Action::Decode(bytes) => assert_eq!(bytes, b"\n{\"b\":2}".to_vec()),
        other => panic!("unexpected action {:?}", other),
    }
    assert!(matches!(session.step(&mut history, Event::Undecodable), Action::Read));
    match session.step(&mut history, Event::Chunk(b"3}".to_vec())) {
        Action::Decode(bytes) => assert_eq!(bytes, b"{\"c\":3}".to_vec()),
        other => panic!("unexpected action {:?}", other),
    }
    assert_eq!(history.messages().len(), 1);
}

#[test]
fn undecodable_frames_are_dropped_and_the_rest_goes_on() {
    let bytes: &[u8] = b"{\"error\":\"not a response\"}\n{\"model\":\"m\",\"message\":{\"role\":\"assistant\",\"content\":\"ok\"},\"done\":true}\n";
    let mut history = History::default();
    let mut session = started(&[], &mut history);
    let (yielded, dropped) = stream(&mut session, &mut history, &[bytes]);
    assert_eq!(yielded, 1);
    assert_eq!(dropped, 1);
    assert_eq!(history.last().unwrap().content, "ok");
    assert!(session.is_terminal());
}

#[test]
fn frames_after_the_final_frame_are_not_read() {
    let bytes: &[u8] = b"{\"model\":\"m\",\"message\":{\"role\":\"assistant\",\"content\":\"end\"},\"done\":true}\n{\"model\":\"m\",\"message\":{\"role\":\"assistant\",\"content\":\"late\"},\"done\":false}\n";
    let mut history = History::default();
    let mut session = started(&[], &mut history);
    let (yielded, _) = stream(&mut session, &mut history, &[bytes]);
    assert_eq!(yielded, 1);
    assert!(session.is_terminal());
    assert_eq!(history.messages().len(), 2);
    assert_eq!(history.last().unwrap().content, "end");
}

#[test]
fn a_new_response_starts_with_an_empty_buffer() {
    let mut history = History::default();
    let mut session = started(&["t"], &mut history);
    session.step(&mut history, Event::Frame(frame_with_calls(vec![call("t", &[])])));
    assert!(matches!(
        session.step(&mut history, Event::Chunk(b"{\"left\":".to_vec())),
        Action::Read
    ));
    assert!(matches!(session.step(&mut history, Event::StreamEnded), Action::Invoke(_)));
    assert!(matches!(
        session.step(&mut history, Event::ToolFinished(Ok("r".to_string()))),
        Action::Send { .. }
    ));
    assert!(matches!(session.step(&mut history, Event::Accepted), Action::Read));
    match session.step(&mut history, Event::Chunk(b"{\"x\":1}".to_vec())) {
        Action::Decode(bytes) => assert_eq!(bytes, b"{\"x\":1}".to_vec()),
        other => panic!("unexpected action {:?}", other),
    }
}

#[test]
fn answer_without_tool_calls_ends_the_session() {
    let mut history = History::default();
    let mut session = started(&["date_time_info"], &mut history);
    session.step(&mut history, Event::Frame(frame("just text", true)));
    let before = history.messages().len();
    let action = session.step(&mut history, Event::StreamEnded);
    assert!(matches!(action, Action::Close));
    assert!(session.is_terminal());
    assert_eq!(history.messages().len(), before);
}

#[test]
fn final_frame_ends_the_reading() {
    let mut history = History::default();
    let mut session = started(&[], &mut history);
    session.step(&mut history, Event::Frame(frame("all", true)));
    let action = session.step(&mut history, Event::Resumed);
    assert!(matches!(action, Action::Close));
    assert!(session.is_terminal());
}

#[test]
fn stream_end_on_empty_history_ends_the_session() {
    let mut history = History::default();
    let mut session = started(&["a"], &mut history);
    history.clear();
    assert!(matches!(session.step(&mut history, Event::StreamEnded), Action::Close));
    assert!(session.is_terminal());
}

#[test]
fn matched_tool_is_invoked_once_and_its_result_is_the_next_delta() {
    let mut history = History::default();
    let mut session = started(&["date_time_info"], &mut history);
    session.step(&mut history, Event::Frame(frame_with_calls(vec![call("date_time_info", &[])])));
    let action = session.step(&mut history, Event::StreamEnded);
    match action {
        Action::Invoke(invocation) => {
            assert_eq!(invocation.call, 0);
            assert_eq!(invocation.tool, 0);
            assert!(invocation.arguments.is_empty());
        }
        other => panic!("unexpected action {:?}", other),
    }
    assert_eq!(session.phase(), Phase::Deciding);
    let action = session.step(
        &mut history,
        Event::ToolFinished(Ok("Tue, 1 Jul 2003 10:52:37 +0200".to_string())),
    );
    match action {
        Action::Send { delta, messages } => {
            assert_eq!(delta.len(), 1);
            assert_eq!(delta[0].role, Role::Tool);
            assert_eq!(delta[0].content, "Tue, 1 Jul 2003 10:52:37 +0200");
            assert_eq!(messages.len(), 3);
            assert_eq!(messages[0].role, Role::User);
            assert_eq!(messages[1].role, Role::Assistant);
            assert_eq!(messages[2].role, Role::Tool);
            assert_eq!(messages[2].content, "Tue, 1 Jul 2003 10:52:37 +0200");
        }
        other => panic!("unexpected action {:?}", other),
    }
    assert_eq!(session.phase(), Phase::Sending);
    assert_eq!(history.messages().len(), 3);
    assert!(matches!(session.step(&mut history, Event::Accepted), Action::Read));
    session.step(&mut history, Event::Frame(frame("It is Tuesday.", true)));
    assert!(matches!(session.step(&mut history, Event::Resumed), Action::Close));
    assert!(session.is_terminal());
    assert_eq!(history.messages().len(), 4);
}

#[test]
fn tool_failure_is_sent_as_a_tool_message() {
    let mut history = History::default();
    let mut session = started(&["t"], &mut history);
    session.step(&mut history, Event::Frame(frame_with_calls(vec![call("t", &[])])));
    assert!(matches!(session.step(&mut history, Event::StreamEnded), Action::Invoke(_)));
    match session.step(&mut history, Event::ToolFinished(Err("it broke".to_string()))) {
        Action::Send { delta, .. } => {
            assert_eq!(delta.len(), 1);
            assert_eq!(delta[0].role, Role::Tool);
            assert_eq!(delta[0].content, "it broke");
        }
        other => panic!("unexpected action {:?}", other),
    }
    assert!(!session.is_terminal());
}

#[test]
fn unmatched_tool_call_invokes_nothing_and_ends() {
    let mut history = History::default();
    let mut session = started(&["date_time_info"], &mut history);
    session.step(&mut history, Event::Frame(frame_with_calls(vec![call("weather", &[])])));
    let action = session.step(&mut history, Event::StreamEnded);
    assert!(matches!(action, Action::Close));
    assert!(session.is_terminal());
    assert_eq!(history.messages().len(), 2);
}

#[test]
fn every_matching_tool_runs_in_call_then_registration_order() {
    let mut history = History::default();
    let mut session = started(&["a", "b", "a"], &mut history);
    let calls = vec![call("b", &[("n", "1")]), call("zzz", &[]), call("a", &[("n", "2")])];
    session.step(&mut history, Event::Frame(frame_with_calls(calls)));
    let mut seen = vec![];
    let mut action = session.step(&mut history, Event::StreamEnded);
    let mut round = 0;
    loop {
        match action {
            Action::Invoke(invocation) => {
                seen.push((invocation.call, invocation.tool, invocation.arguments.get("n").cloned()));
                round += 1;
                action = session.step(&mut history, Event::ToolFinished(Ok(format!("r{}", round))));
            }
            Action::Send { delta, .. } => {
                let contents: Vec<&str> = delta.iter().map(|m| m.content.as_str()).collect();
                assert_eq!(contents, vec!["r1", "r2", "r3"]);
                assert!(delta.iter().all(|m| m.role == Role::Tool));
                break;
            }
            other => panic!("unexpected action {:?}", other),
        }
    }
    assert_eq!(
        seen,
        vec![
            (0, 1, Some("1".to_string())),
            (2, 0, Some("2".to_string())),
            (2, 2, Some("2".to_string()))
        ]
    );
    let all = history.messages();
    assert_eq!(all.last().unwrap().role, Role::Tool);
    assert_eq!(all.last().unwrap().content, "r1r2r3");
}

#[test]
fn stream_failure_is_forwarded_and_ends_the_session() {
    let mut history = History::default();
    let mut session = started(&[], &mut history);
    session.step(&mut history, Event::Frame(frame("partial", false)));
    let action = session.step(&mut history, Event::StreamFailed("connection reset".to_string()));
    match action {
        Action::Fail(OllamaError::Other(text)) => {
            assert_eq!(text, "Failed to parse response: connection reset")
        }
        other => panic!("unexpected action {:?}", other),
    }
    assert!(session.is_terminal());
    assert_eq!(history.last().unwrap().content, "partial");
}

#[test]
fn driver_failure_is_forwarded_as_it_is() {
    let mut history = History::default();
    let mut session = Session::new(ToolRegistry::new(), vec![Message::user("hi")]);
    session.step(&mut history, Event::Begin);
    let action = session
        .step(&mut history, Event::Failed(OllamaError::NetworkError("refused".to_string())));
    match action {
        Action::Fail(OllamaError::NetworkError(detail)) => assert_eq!(detail, "refused"),
        other => panic!("unexpected action {:?}", other),
    }
    assert!(session.is_terminal());
}

#[test]
fn cancel_stops_reading() {
    let mut history = History::default();
    let mut session = started(&["t"], &mut history);
    assert!(matches!(
        session.step(&mut history, Event::Frame(frame("one", false))),
        Action::Yield(_)
    ));
    assert!(matches!(session.step(&mut history, Event::Cancelled), Action::Close));
    assert!(session.is_terminal());
    let before = history.messages().len();
    assert!(matches!(session.step(&mut history, Event::Resumed), Action::Close));
    assert!(matches!(
        session.step(&mut history, Event::Frame(frame("two", true))),
        Action::Close
    ));
    assert!(matches!(session.step(&mut history, Event::StreamEnded), Action::Close));
    assert_eq!(history.messages().len(), before);
    assert_eq!(history.last().unwrap().content, "one");
}

#[test]
fn cancel_discards_the_tool_that_was_running() {
    let mut history = History::default();
    let mut session = started(&["t"], &mut history);
    session.step(&mut history, Event::Frame(frame_with_calls(vec![call("t", &[]), call("t", &[])])));
    assert!(matches!(session.step(&mut history, Event::StreamEnded), Action::Invoke(_)));
    assert!(matches!(session.step(&mut history, Event::Cancelled), Action::Close));
    let before = history.messages().len();
    assert!(matches!(
        session.step(&mut history, Event::ToolFinished(Ok("late".to_string()))),
        Action::Close
    ));
    assert_eq!(history.messages().len(), before);
    assert_ne!(history.last().unwrap().role, Role::Tool);
}

#[test]
fn event_out_of_order_ends_with_an_error() {
    let mut history = History::default();
    let mut session = Session::new(ToolRegistry::new(), vec![Message::user("hi")]);
    let action = session.step(&mut history, Event::Frame(frame("early", false)));
    match action {
        Action::Fail(OllamaError::Other(text)) => assert_eq!(text, "event out of order"),
        other => panic!("unexpected action {:?}", other),
    }
    assert!(session.is_terminal());
    assert!(history.messages().is_empty());
}

#[test]
fn every_phase_refuses_what_it_does_not_wait_for() {
    let mut history = History::default();
    let mut session = Session::new(ToolRegistry::new(), vec![Message::user("hi")]);
    session.step(&mut history, Event::Begin);
    assert!(matches!(session.step(&mut history, Event::Begin), Action::Fail(_)));
    assert!(session.is_terminal());

    let mut history = History::default();
    let mut session = started(&[], &mut history);
    assert!(matches!(
        session.step(&mut history, Event::ToolFinished(Ok("x".to_string()))),
        Action::Fail(_)
    ));
    assert!(session.is_terminal());

    let mut history = History::default();
    let mut session = started(&["t"], &mut history);
    session.step(&mut history, Event::Frame(frame_with_calls(vec![call("t", &[])])));
    session.step(&mut history, Event::StreamEnded);
    assert!(matches!(session.step(&mut history, Event::StreamEnded), Action::Fail(_)));
    assert!(session.is_terminal());
}

struct Fixed(&'static str, Result<&'static str, &'static str>);

impl Tool for Fixed {
    fn tool_function(&self) -> ToolFunction {
        ToolFunction::new(self.0, "answers always the same")
    }

    fn execute(&self, _: ToolCallArguments) -> Result<String, String> {
        match self.1 {
            Ok(text) => Ok(text.to_string()),
            Err(text) => Err(text.to_string()),
        }
    }
}

fn toolbox(tools: Vec<Fixed>) -> (ToolRegistry, Vec<Fixed>) {
    let mut registry = ToolRegistry::new();
    for tool in &tools {
        registry.register(describe(tool).function);
    }
    (registry, tools)
}

#[test]
fn run_tools_serves_every_planned_tool_and_returns_the_request() {
    let (registry, tools) =
        toolbox(vec![Fixed("a", Ok("first")), Fixed("b", Err("second failed")), Fixed("a", Ok("third"))]);
    let mut history = History::default();
    let mut session = Session::new(registry, vec![Message::user("hi")]);
    session.step(&mut history, Event::Begin);
    session.step(&mut history, Event::Accepted);
    session.step(
        &mut history,
        Event::Frame(frame_with_calls(vec![call("a", &[]), call("none", &[]), call("b", &[])])),
    );
    let asked = session.step(&mut history, Event::StreamEnded);
    assert!(matches!(asked, Action::Invoke(_)));
    match session.run_tools(&mut history, &tools, asked) {
        Action::Send { delta, messages } => {
            let contents: Vec<&str> = delta.iter().map(|m| m.content.as_str()).collect();
            assert_eq!(contents, vec!["first", "third", "second failed"]);
            assert_eq!(messages.last().unwrap().role, Role::Tool);
        }
        other => panic!("unexpected action {:?}", other),
    }
    assert_eq!(session.phase(), Phase::Sending);
}

#[test]
fn run_tools_hands_back_what_is_no_invocation() {
    let (registry, tools) = toolbox(vec![Fixed("a", Ok("x"))]);
    let mut history = History::default();
    let mut session = Session::new(registry, vec![Message::user("hi")]);
    let asked = session.step(&mut history, Event::Begin);
    assert!(matches!(asked, Action::Send { .. }));
    let next = session.run_tools(&mut history, &tools, asked);
    assert!(matches!(next, Action::Send { .. }));
    assert_eq!(session.phase(), Phase::Sending);
    assert_eq!(history.messages().len(), 1);
    assert!(matches!(session.run_tools(&mut history, &tools, Action::Read), Action::Read));
}

#[test]
fn run_tools_counts_a_missing_tool_as_failed() {
    let (registry, _) = toolbox(vec![Fixed("a", Ok("x"))]);
    let none: Vec<Fixed> = vec![];
    let mut history = History::default();
    let mut session = Session::new(registry, vec![Message::user("hi")]);
    session.step(&mut history, Event::Begin);
    session.step(&mut history, Event::Accepted);
    session.step(&mut history, Event::Frame(frame_with_calls(vec![call("a", &[])])));
    let asked = session.step(&mut history, Event::StreamEnded);
    match session.run_tools(&mut history, &none, asked) {
        Action::Send { delta, .. } => {
            assert_eq!(delta.len(), 1);
            assert_eq!(delta[0].content, "tool is not available");
            assert_eq!(delta[0].role, Role::Tool);
        }
        other => panic!("unexpected action {:?}", other),
    }
}

#[test]
fn run_tools_on_a_session_that_waits_for_no_tool_ends_it() {
    let (registry, tools) = toolbox(vec![Fixed("a", Ok("x"))]);
    let mut history = History::default();
    let mut session = Session::new(registry.clone(), vec![Message::user("hi")]);
    let plan = registry.plan(&vec![call("a", &[])]);
    let stray = Action::Invoke(plan[0].clone());
    let next = session.run_tools(&mut history, &tools, stray);
    assert!(matches!(next, Action::Fail(_)));
    assert!(session.is_terminal());
    assert!(history.messages().is_empty());
}
