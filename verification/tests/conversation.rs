use sleet::llm::conversation::{best_response, ConversationHistory};
use sleet::llm::errors::LLMError;
use sleet::llm::manager::ConversationConfig;

fn history(max: usize) -> ConversationHistory {
    ConversationHistory::new(ConversationConfig {
        max_history_length: max,
        context_window_tokens: 4000,
        preserve_system_messages: true,
    })
}

#[test]
fn history_keeps_the_latest_messages() {
    let mut h = history(2);
    h.add_message("user", "one", 1);
    h.add_message("assistant", "two", 2);
    h.add_message("user", "three", 3);
    let kept: Vec<&str> = h.get_history().iter().map(|e| e.content.as_str()).collect();
    assert_eq!(kept, vec!["two", "three"]);
    assert_eq!(h.get_history()[1].timestamp, 3);
    h.clear_history();
    assert!(h.get_history().is_empty());
}

#[test]
fn a_history_of_no_length_keeps_nothing() {
    let mut h = history(0);
    h.add_message("user", "hi", 1);
    assert!(h.get_history().is_empty());
    assert_eq!(h.build_context(None), "");
}

#[test]
fn context_lists_roles_in_capitals() {
    let mut h = history(10);
    h.add_message("user", "hello", 1);
    h.add_message("assistant", "hi there", 2);
    h.add_message("user", "bye", 3);
    assert_eq!(h.build_context(None), "USER: hello\nASSISTANT: hi there\nUSER: bye");
    assert_eq!(h.build_context(Some(2)), "ASSISTANT: hi there\nUSER: bye");
    assert_eq!(h.build_context(Some(0)), "");
    assert_eq!(h.build_context(Some(9)), "USER: hello\nASSISTANT: hi there\nUSER: bye");
}

#[test]
fn the_best_reply_is_the_longest_and_the_last_of_equals() {
    let r = best_response(vec![
        Ok("abc".to_string()),
        Err("timeout".to_string()),
        Ok("xyz".to_string()),
        Ok("no".to_string()),
    ]);
    assert_eq!(r.unwrap(), "xyz");
    let r = best_response(vec![Ok("a".to_string()), Ok("longest".to_string())]);
    assert_eq!(r.unwrap(), "longest");
}

#[test]
fn no_successful_reply_is_an_error() {
    match best_response(vec![Err("a".to_string()), Err("b".to_string())]) {
        Err(LLMError::ApiError(m)) => assert_eq!(m, "No successful responses were generated"),
        other => panic!("unexpected {other:?}"),
    }
    assert!(best_response(Vec::new()).is_err());
}
