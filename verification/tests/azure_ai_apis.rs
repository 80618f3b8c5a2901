use kafka_repo::azure_ai_apis::{ai_search_request, completion_request, completion_text, search_url};
use kafka_repo::entities::ErrorKind;
use kafka_repo::entities_ai::{Choice, Message, OpenAICompletionResult};

fn completion(choices: Option<Vec<Choice>>) -> OpenAICompletionResult {
    OpenAICompletionResult { id: None, object: None, created: None, model: None, choices, usage: None }
}

fn choice(content: Option<&str>) -> Choice {
    Choice {
        index: None,
        message: Some(Message { role: Some("assistant".to_string()), content: content.map(String::from) }),
        finish_reason: None,
    }
}

#[test]
fn search_address_names_the_index() {
    assert_eq!(
        search_url("https://s.example", "idx-1"),
        "https://s.example/indexes('idx-1')/docs/search?api-version=2024-05-01-preview"
    );
}

#[test]
fn search_body_is_semantic_and_extractive() {
    let body = ai_search_request("conf", "a,b", "what?");
    assert_eq!(body.search, "what?");
    assert_eq!(body.query_type, "semantic");
    assert_eq!(body.semantic_configuration, "conf");
    assert_eq!(body.captions, "extractive");
    assert_eq!(body.answers, "extractive|count-5");
    assert_eq!(body.query_language, "en-US");
    assert_eq!(body.select, "a,b");
}

#[test]
fn completion_request_has_three_messages() {
    let r = completion_request("frame", "know", "ask");
    let seen: Vec<(String, String)> =
        r.messages.iter().map(|m| (m.role.clone(), m.content.clone())).collect();
    assert_eq!(
        seen,
        vec![
            ("assistant".to_string(), "frame".to_string()),
            ("system".to_string(), "know".to_string()),
            ("user".to_string(), "ask".to_string()),
        ]
    );
    assert_eq!(r.max_tokens, 1000);
    assert_eq!(r.temperature, 70);
    assert_eq!(r.top_p, 100);
    assert_eq!(r.stop, None);
}

#[test]
fn completion_without_choices_is_empty() {
    assert_eq!(completion_text(&completion(None)), Err(ErrorKind::EmptyResult));
    assert_eq!(completion_text(&completion(Some(vec![]))), Err(ErrorKind::EmptyResult));
}

#[test]
fn completion_text_joins_the_choices() {
    let c = completion(Some(vec![
        choice(Some("one ")),
        choice(None),
        Choice { index: Some(2), message: None, finish_reason: None },
        choice(Some("two")),
    ]));
    assert_eq!(completion_text(&c), Ok("one two".to_string()));
    assert_eq!(completion_text(&completion(Some(vec![choice(None)]))), Ok(String::new()));
}
