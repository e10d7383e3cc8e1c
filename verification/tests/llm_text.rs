use sleet::llm::errors::LLMError;
use sleet::llm::manager::{
    exhausted_message, manager_status, next_attempt, AdapterStrategy, ConversationConfig,
};
use sleet::llm::utils::{
    chunk_text, clean_text, estimate_token_count, extract_between_delimiters, extract_code_blocks,
    find_json_delimiters,
};

#[test]
fn token_estimate_is_a_quarter_of_the_bytes() {
    assert_eq!(estimate_token_count(""), 0);
    assert_eq!(estimate_token_count("abcdefg"), 1);
    assert_eq!(estimate_token_count("abcdefgh"), 2);
    assert_eq!(estimate_token_count("ééé"), 1);
}

#[test]
fn text_between_delimiters() {
    assert_eq!(extract_between_delimiters("a <b>text</b> c", "<b>", "</b>"), Some("text".to_string()));
    assert_eq!(extract_between_delimiters("no start here", "<b>", "</b>"), None);
    assert_eq!(extract_between_delimiters("<b>open only", "<b>", "</b>"), None);
    assert_eq!(extract_between_delimiters("[x][y]", "[", "]"), Some("x".to_string()));
    assert_eq!(extract_between_delimiters("ünï<ß>", "<", ">"), Some("ß".to_string()));
}

#[test]
fn balanced_json_spans() {
    assert_eq!(
        find_json_delimiters("reply: {\"a\": {\"b\": 1}} trailing }", '{', '}'),
        Some("{\"a\": {\"b\": 1}}".to_string())
    );
    assert_eq!(find_json_delimiters("list [1, [2], 3] end", '[', ']'), Some("[1, [2], 3]".to_string()));
    assert_eq!(find_json_delimiters("unbalanced {", '{', '}'), None);
    assert_eq!(find_json_delimiters("} then {x}", '{', '}'), None);
}

#[test]
fn cleaning_text() {
    assert_eq!(clean_text("  first line \n\n   second\t\r\n third  "), "first line second third");
    assert_eq!(clean_text(""), "");
    assert_eq!(clean_text(" \n \n"), "");
}

#[test]
fn chunking_text() {
    assert_eq!(chunk_text("one two three four", 9), vec!["one two", "three", "four"]);
    assert_eq!(chunk_text("a b c", 100), vec!["a b c"]);
    assert_eq!(chunk_text("   ", 10), Vec::<String>::new());
    assert_eq!(chunk_text("supercalifragilistic x", 5), vec!["supercalifragilistic", "x"]);
}

#[test]
fn code_blocks() {
    let text = "intro\n```json\n{\"a\": 1}\n```\nmiddle\n```\nplain\n\nmore\n```\n```rust\nfn main() {}";
    let blocks = extract_code_blocks(text);
    assert_eq!(
        blocks,
        vec![
            (Some("json".to_string()), "{\"a\": 1}".to_string()),
            (None, "plain\n\nmore".to_string()),
            (Some("rust".to_string()), "fn main() {}".to_string()),
        ]
    );
    assert!(extract_code_blocks("no fences").is_empty());
    assert_eq!(extract_code_blocks("```\n\nx\r\n```"), vec![(None, "x".to_string())]);
}

#[test]
fn llm_errors() {
    assert_eq!(LLMError::from_box_error("boom".to_string()).message(), "API error: boom");
    assert_eq!(LLMError::TimeoutError { seconds: 9 }.message(), "Timeout error: request timed out after 9 seconds");
    assert_eq!(LLMError::RateLimitError("slow down".to_string()).message(), "Rate limit exceeded: slow down");
}

#[test]
fn manager_configuration_defaults() {
    let s = manager_status(true, 2);
    assert_eq!(s.total_adapters, 4);
    let conversation = ConversationConfig::default();
    assert_eq!(conversation.max_history_length, 50);
}

#[test]
fn fallback_schedule() {
    let mut tries = Vec::new();
    let mut prev = None;
    loop {
        match next_attempt(true, 2, true, 2, prev) {
            Some(t) => {
                tries.push(t);
                prev = Some(t);
            },
            None => break,
        }
    }
    assert_eq!(
        tries,
        vec![
            (AdapterStrategy::Preferred, 1),
            (AdapterStrategy::Preferred, 2),
            (AdapterStrategy::Primary, 1),
            (AdapterStrategy::Primary, 2),
            (AdapterStrategy::Fallback(0), 1),
            (AdapterStrategy::Fallback(0), 2),
            (AdapterStrategy::Fallback(1), 1),
            (AdapterStrategy::Fallback(1), 2),
        ]
    );
    assert_eq!(next_attempt(false, 1, false, 3, None), Some((AdapterStrategy::Primary, 1)));
    assert_eq!(next_attempt(false, 1, false, 3, Some((AdapterStrategy::Primary, 1))), None);
    assert_eq!(next_attempt(true, 0, true, 3, None), None);
    assert_eq!(
        exhausted_message(),
        "All adapters exhausted. Operation failed across all available LLM providers."
    );
}

#[test]
fn the_json_in_a_reply_is_picked_in_order() {
    use_extract();
}

fn use_extract() {
    let pick = sleet::llm::utils::extract_json_text;
    assert_eq!(pick("{\"a\":1}"), Some("{\"a\":1}".to_string()));
    assert_eq!(pick("Here:\n```json\n[1, 2]\n```\nbye"), Some("[1, 2]".to_string()));
    assert_eq!(pick("```python\nx = {}\n```\n```\n{\"b\": 2}\n```"), Some("{\"b\": 2}".to_string()));
    assert_eq!(pick("Answer: {\"ok\": true} done"), Some("{\"ok\": true}".to_string()));
    assert_eq!(pick("bad {oops} list [1,2] end"), Some("[1,2]".to_string()));
    assert_eq!(pick("no json here"), None);
    assert_eq!(pick(" 42 "), Some(" 42 ".to_string()));
}

#[test]
fn cleaning_twice_is_cleaning_once() {
    let once = sleet::llm::utils::clean_text("  hello \n\n  world  \r\n");
    assert_eq!(once, "hello world");
    assert_eq!(sleet::llm::utils::clean_text(&once), once);
}
