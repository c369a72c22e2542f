use ollama_rust::generation::chat::message::{Message, Role};
use ollama_rust::generation::chat::response::ChatResponse;
use ollama_rust::generation::embed::request::EmbedInput;
use ollama_rust::generation::parameters::{KeepAlive, Think, WireValue};
use ollama_rust::generation::rerank::request::RerankRequest;
use ollama_rust::generation::rerank::rerank_prompt;
use ollama_rust::OllamaError;

fn texts(items: &[&str]) -> Vec<String> {
    items.iter().map(|s| s.to_string()).collect()
}

#[test]
fn error_messages() {
    assert_eq!(OllamaError::NetworkError("x".to_string()).message(), "Network Error");
    assert_eq!(OllamaError::UrlError("y".to_string()).message(), "URL Error");
    assert_eq!(OllamaError::Other("something else".to_string()).message(), "something else");
}

#[test]
fn rejected_error_names_status_and_body() {
    let e = OllamaError::rejected("404 Not Found", "model 'x' not found");
    assert_eq!(e.message(), "Error 404 Not Found:\nmodel 'x' not found");
    assert!(matches!(e, OllamaError::Other(_)));
    assert_eq!(OllamaError::rejected("500 Internal Server Error", "").message(), "Error 500 Internal Server Error:\n");
}

#[test]
fn stream_failure_error_names_the_cause() {
    let e = OllamaError::stream_failure("error decoding response body");
    assert_eq!(e.message(), "Failed to parse response: error decoding response body");
    assert!(matches!(e, OllamaError::Other(_)));
}

#[test]
fn history_poisoned_error_names_the_cause() {
    let e = OllamaError::history_poisoned("poisoned lock: another task failed inside");
    assert_eq!(e.message(), "History lock poisoned: poisoned lock: another task failed inside");
    assert!(matches!(e, OllamaError::Other(_)));
}

#[test]
fn error_clone_keeps_the_variant() {
    let e = OllamaError::UrlError("relative URL without a base".to_string());
    match e.clone() {
        OllamaError::UrlError(detail) => assert_eq!(detail, "relative URL without a base"),
        other => panic!("unexpected {:?}", other),
    }
}

#[test]
fn keep_alive_on_the_wire() {
    assert!(matches!(KeepAlive::Forever.wire(), WireValue::Integer(-1)));
    assert!(matches!(KeepAlive::UntilCompletion.wire(), WireValue::Integer(0)));
    match KeepAlive::Custom("30s".to_string()).wire() {
        WireValue::Text(t) => assert_eq!(t, "30s"),
        other => panic!("unexpected {:?}", other),
    }
}

#[test]
fn think_on_the_wire() {
    assert!(matches!(Think::Enabled.wire(), WireValue::Flag(true)));
    assert!(matches!(Think::Disabled.wire(), WireValue::Flag(false)));
    for (level, name) in [(Think::High, "high"), (Think::Medium, "medium"), (Think::Low, "low")] {
        match level.wire() {
            WireValue::Text(t) => assert_eq!(t, name),
            other => panic!("unexpected {:?}", other),
        }
    }
}

#[test]
fn seal_carries_done_to_the_message() {
    let response = |done: bool, message_done: bool| ChatResponse {
        model: "m".to_string(),
        remote_model: Some("rm".to_string()),
        remote_host: None,
        created_at: "now".to_string(),
        message: Message {
            role: Role::Assistant,
            content: "c".to_string(),
            thinking: Some("t".to_string()),
            images: vec![],
            tool_calls: vec![],
            done: message_done,
        },
        done,
        done_reason: Some("stop".to_string()),
        debug_info: None,
        total_duration: Some(5),
        load_duration: None,
        prompt_eval_count: None,
        prompt_eval_duration: None,
        eval_count: Some(7),
        eval_duration: None,
    };
    let sealed = response(true, false).seal();
    assert!(sealed.message.done);
    assert!(sealed.done);
    assert_eq!(sealed.message.content, "c");
    assert_eq!(sealed.message.thinking, Some("t".to_string()));
    assert_eq!(sealed.model, "m");
    assert_eq!(sealed.remote_model, Some("rm".to_string()));
    assert_eq!(sealed.done_reason, Some("stop".to_string()));
    assert_eq!(sealed.total_duration, Some(5));
    assert_eq!(sealed.eval_count, Some(7));
    let open = response(false, true).seal();
    assert!(!open.message.done);
    assert!(!open.done);
}

#[test]
fn rerank_prompt_embeds_query_and_document() {
    let prompt = rerank_prompt("capital of France", "Paris is the capital of France.");
    assert_eq!(
        prompt,
        "\n<|im_start|>system\nJudge whether the Document meets the requirements based on the Query and the Instruct provided.\nThe answer can ONLY be \"yes\" or \"no\", nothing else.\n<|im_end|>\n\n<|im_start|>user\n<Instruct>: Is this document relevant to the query?\n<Query>: capital of France\n<Document>: Paris is the capital of France.\n<|im_end|>\n\n<|im_start|>assistant\n\n<think>\n\n\n\n</think>\n\n"
    );
}

#[test]
fn rerank_prompt_with_empty_parts() {
    let prompt = rerank_prompt("", "");
    assert!(prompt.contains("<Query>: \n<Document>: \n<|im_end|>"));
    assert!(prompt.starts_with("\n<|im_start|>system\n"));
    assert!(prompt.ends_with("</think>\n\n"));
}

#[test]
fn rerank_request_new() {
    let r = RerankRequest::new("m", "q", texts(&["a", "b"]));
    assert_eq!(r.model, "m");
    assert_eq!(r.query, "q");
    assert_eq!(r.documents, vec!["a", "b"]);
    assert_eq!(r.top_n, None);
}

#[test]
fn rerank_request_new_single() {
    let r = RerankRequest::new_single("m", "q", "only");
    assert_eq!(r.model, "m");
    assert_eq!(r.query, "q");
    assert_eq!(r.documents, vec!["only"]);
    assert_eq!(r.top_n, None);
}

#[test]
fn rerank_request_top_n() {
    let r = RerankRequest::new("m", "q", texts(&["a", "b", "c"])).top_n(2);
    assert_eq!(r.top_n, Some(2));
    assert_eq!(r.documents.len(), 3);
    assert_eq!(r.model, "m");
    assert_eq!(r.top_n(0).top_n, Some(0));
}

#[test]
fn embed_input_from() {
    assert!(matches!(EmbedInput::from("a"), EmbedInput::Single(s) if s == "a"));
    assert!(matches!(EmbedInput::from("b".to_string()), EmbedInput::Single(s) if s == "b"));
    assert!(
        matches!(EmbedInput::from(texts(&["a", "b"])), EmbedInput::Multiple(v) if v == vec!["a", "b"])
    );
}

#[test]
fn embed_input_into_iter_and_into_vec() {
    let single: Vec<String> = EmbedInput::from("a").into_iter().collect();
    assert_eq!(single, vec!["a"]);
    let many: Vec<String> = EmbedInput::from(texts(&["a", "b", "c"])).into_iter().collect();
    assert_eq!(many, vec!["a", "b", "c"]);
    assert_eq!(EmbedInput::from("x").into_vec(), vec!["x"]);
    assert_eq!(EmbedInput::from(texts(&["y", "z"])).into_vec(), vec!["y", "z"]);
    assert!(EmbedInput::from(texts(&[])).into_vec().is_empty());
}

#[test]
fn chunks_of_a_single_text() {
    assert_eq!(EmbedInput::from("a").chunks(3), vec![vec!["a"]]);
    assert_eq!(EmbedInput::from("a").chunks(0), vec![vec!["a"]]);
}

#[test]
fn chunks_cut_in_order_with_a_shorter_last_batch() {
    let input = EmbedInput::from(texts(&["a", "b", "c", "d", "e"]));
    assert_eq!(input.chunks(2), vec![vec!["a", "b"], vec!["c", "d"], vec!["e"]]);
    assert_eq!(input.chunks(5), vec![vec!["a", "b", "c", "d", "e"]]);
    assert_eq!(input.chunks(6), vec![vec!["a", "b", "c", "d", "e"]]);
    assert_eq!(input.chunks(usize::MAX), vec![vec!["a", "b", "c", "d", "e"]]);
    assert_eq!(
        input.chunks(1),
        vec![vec!["a"], vec!["b"], vec!["c"], vec!["d"], vec!["e"]]
    );
}

#[test]
fn chunks_of_an_exact_multiple() {
    let input = EmbedInput::from(texts(&["a", "b", "c", "d"]));
    assert_eq!(input.chunks(2), vec![vec!["a", "b"], vec!["c", "d"]]);
}

#[test]
fn chunks_of_no_texts_are_none() {
    let input = EmbedInput::from(texts(&[]));
    assert!(input.chunks(4).is_empty());
}
