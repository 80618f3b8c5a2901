//! What the semantic retriever and the completion client exchange with
//! this service. Every field that the wire may leave out is optional.
//!
//! Relevance scores are carried as ordered keys: of two scores the higher
//! has the higher key, and key 0 stands for the least score, 0.0.

use vstd::prelude::*;

verus! {

/// A caption: a snippet of a matching document and its highlighted form.
#[derive(Debug, Clone, PartialEq)]
pub struct AISearchResultCaption {
    pub text: Option<String>,
    pub highlights: Option<String>,
}

/// The parameters under which a further page of results can be asked for.
#[derive(Debug, Clone, PartialEq)]
pub struct AISearchNextPageParameters {
    pub search: Option<String>,
    pub query_type: Option<String>,
    pub semantic_configuration: Option<String>,
    pub captions: Option<String>,
    pub answers: Option<String>,
    pub query_language: Option<String>,
    pub skip: Option<i64>,
}

/// An extractive answer.
#[derive(Debug, Clone, PartialEq)]
pub struct AISearchAnswerValue {
    pub text: Option<String>,
    pub key: Option<String>,
    pub highlights: Option<String>,
    pub score: Option<u64>,
}

/// A candidate document with its scores, its captions and its fields.
#[derive(Debug, Clone, PartialEq)]
pub struct AISearchResultValue {
    pub search_score: Option<u64>,
    pub search_reranker_score: Option<u64>,
    pub search_captions: Option<Vec<AISearchResultCaption>>,
    pub id: Option<String>,
    pub app_owner: Option<String>,
    pub topic_name: Option<String>,
    pub mq_topic: Option<String>,
    pub consumer_group_id: Option<String>,
    pub consumer_app: Option<String>,
    pub description: Option<String>,
    pub note: Option<String>,
    pub full_application_name: Option<String>,
    pub application_id: Option<String>,
    pub business_application_name: Option<String>,
    pub application_level: Option<String>,
    pub company_or_subsidiary_name: Option<String>,
    pub service: Option<String>,
    pub app_category: Option<String>,
}

/// The answer of a semantic index to one query.
#[derive(Debug, Clone, PartialEq)]
pub struct AISearchResult {
    pub odata_context: Option<String>,
    pub search_answers: Option<Vec<AISearchAnswerValue>>,
    pub search_next_parameters: Option<AISearchNextPageParameters>,
    pub value: Option<Vec<AISearchResultValue>>,
}

/// One message of a completion request.
#[derive(Debug, Clone, PartialEq)]
pub struct OpenAICompleteRequestMessage {
    pub role: String,
    pub content: String,
}

impl OpenAICompleteRequestMessage {
    pub fn new(role: &str, content: &str) -> (m: OpenAICompleteRequestMessage)
        ensures
            m.role@ == role@,
            m.content@ == content@,
    {
        OpenAICompleteRequestMessage { role: role.to_owned(), content: content.to_owned() }
    }
}

/// A completion request. `temperature` and `top_p` are in hundredths.
#[derive(Debug, Clone, PartialEq)]
pub struct OpenAICompleteRequest {
    pub messages: Vec<OpenAICompleteRequestMessage>,
    pub max_tokens: i64,
    pub temperature: u32,
    pub top_p: u32,
    pub stop: Option<Vec<String>>,
}

/// The message of a completion choice.
#[derive(Debug, Clone, PartialEq)]
pub struct Message {
    pub role: Option<String>,
    pub content: Option<String>,
}

/// One choice of a completion.
#[derive(Debug, Clone, PartialEq)]
pub struct Choice {
    pub index: Option<u32>,
    pub message: Option<Message>,
    pub finish_reason: Option<String>,
}

/// The token counts of a completion.
#[derive(Debug, Clone, PartialEq)]
pub struct Usage {
    pub prompt_tokens: Option<u32>,
    pub completion_tokens: Option<u32>,
    pub total_tokens: Option<u32>,
}

/// The answer of the completion client.
#[derive(Debug, Clone, PartialEq)]
pub struct OpenAICompletionResult {
    pub id: Option<String>,
    pub object: Option<String>,
    pub created: Option<u64>,
    pub model: Option<String>,
    pub choices: Option<Vec<Choice>>,
    pub usage: Option<Usage>,
}

/// A semantic configuration of an index and the fields to select under it.
#[derive(Debug, Clone, PartialEq)]
pub struct AISearchSemantics {
    pub select_fields: String,
    pub name: String,
}

/// A semantic index and its configurations.
#[derive(Debug, Clone, PartialEq)]
pub struct AISearchIndex {
    pub index_name: String,
    pub semantics: Option<Vec<AISearchSemantics>>,
}

/// The text of an optional field, empty where the field is absent.
pub open spec fn text_or_empty(field: Option<String>) -> Seq<char> {
    match field {
        Some(s) => s@,
        None => Seq::empty(),
    }
}

/// The score by which a document is ranked: absent counts as the least.
pub open spec fn score_of(doc: AISearchResultValue) -> u64 {
    match doc.search_score {
        Some(s) => s,
        None => 0,
    }
}

/// The score by which a document is ranked.
pub fn score(doc: &AISearchResultValue) -> (s: u64)
    ensures
        s == score_of(*doc),
{
    match doc.search_score {
        Some(s) => s,
        None => 0,
    }
}

} // verus!
