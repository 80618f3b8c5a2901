//! The wire mapping of the two outside services: what is sent to a
//! semantic index and to the completion client, and how the completion
//! client's answer is read.

use vstd::prelude::*;
use vstd::string::*;
use crate::entities::ErrorKind;
use crate::entities_ai::{
    text_or_empty, Choice, OpenAICompleteRequest, OpenAICompleteRequestMessage,
    OpenAICompletionResult,
};

verus! {

/// The address under which an index of the search service answers queries.
pub open spec fn search_url_of(endpoint: Seq<char>, index_name: Seq<char>) -> Seq<char> {
    endpoint + "/indexes('"@ + index_name + "')/docs/search?api-version=2024-05-01-preview"@
}

/// The address under which an index of the search service answers queries.
pub fn search_url(endpoint: &str, index_name: &str) -> (url: String)
    ensures
        url@ == search_url_of(endpoint@, index_name@),
{
    let mut url = endpoint.to_owned();
    url.append("/indexes('");
    url.append(index_name);
    url.append("')/docs/search?api-version=2024-05-01-preview");
    url
}

/// The body of a semantic query.
#[derive(Debug, Clone, PartialEq)]
pub struct AISearchRequest {
    pub search: String,
    pub query_type: String,
    pub semantic_configuration: String,
    pub captions: String,
    pub answers: String,
    pub query_language: String,
    pub select: String,
}

/// The body of the semantic query for `query_message`: extractive
/// captions, up to five extractive answers, in English.
pub fn ai_search_request(
    semantics_configuration: &str,
    select_fields: &str,
    query_message: &str,
) -> (body: AISearchRequest)
    ensures
        body.search@ == query_message@,
        body.query_type@ == "semantic"@,
        body.semantic_configuration@ == semantics_configuration@,
        body.captions@ == "extractive"@,
        body.answers@ == "extractive|count-5"@,
        body.query_language@ == "en-US"@,
        body.select@ == select_fields@,
{
    AISearchRequest {
        search: query_message.to_owned(),
        query_type: "semantic".to_owned(),
        semantic_configuration: semantics_configuration.to_owned(),
        captions: "extractive".to_owned(),
        answers: "extractive|count-5".to_owned(),
        query_language: "en-US".to_owned(),
        select: select_fields.to_owned(),
    }
}

/// The framing under which the completion client answers a query.
pub open spec fn answer_framing() -> Seq<char> {
    "You are a world-class technical documentation writer. Use the following knowledge to answer the user's query."@
}

/// The framing under which the completion client decomposes a query.
pub open spec fn decomposition_framing() -> Seq<char> {
    "Partition the user's text. Answer with the header **Questions:** and below it the questions as an enumerated list, then with the header **Non-Questions:** and below it every other statement as an enumerated list."@
}

/// The request that carries a framing, the knowledge and the user's text
/// to the completion client: three messages, in this order, from the
/// assistant, the system and the user; at most 1000 tokens, temperature
/// 0.70 and top-p 1.00.
pub fn completion_request(framing: &str, knowledge: &str, input: &str) -> (request:
    OpenAICompleteRequest)
    ensures
        request.messages@.len() == 3,
        request.messages@[0].role@ == "assistant"@,
        request.messages@[0].content@ == framing@,
        request.messages@[1].role@ == "system"@,
        request.messages@[1].content@ == knowledge@,
        request.messages@[2].role@ == "user"@,
        request.messages@[2].content@ == input@,
        request.max_tokens == 1000,
        request.temperature == 70,
        request.top_p == 100,
        request.stop is None,
{
    let mut messages: Vec<OpenAICompleteRequestMessage> = Vec::new();
    messages.push(OpenAICompleteRequestMessage::new("assistant", framing));
    messages.push(OpenAICompleteRequestMessage::new("system", knowledge));
    messages.push(OpenAICompleteRequestMessage::new("user", input));
    OpenAICompleteRequest { messages, max_tokens: 1000, temperature: 70, top_p: 100, stop: None }
}

/// The text of one choice: the content of its message, empty where the
/// message or the content is absent.
pub open spec fn choice_text(choice: Choice) -> Seq<char> {
    match choice.message {
        Some(m) => text_or_empty(m.content),
        None => Seq::empty(),
    }
}

/// The texts of the choices, one after another.
pub open spec fn choices_text(choices: Seq<Choice>) -> Seq<char>
    decreases choices.len(),
{
    if choices.len() == 0 {
        Seq::empty()
    } else {
        choices_text(choices.drop_last()) + choice_text(choices.last())
    }
}

/// What a completion says: the text of its choices, or `EmptyResult`
/// where it has no choice.
pub open spec fn completion_text_of(result: OpenAICompletionResult) -> Result<Seq<char>, ErrorKind> {
    match result.choices {
        Some(choices) => if choices@.len() == 0 {
            Err(ErrorKind::EmptyResult)
        } else {
            Ok(choices_text(choices@))
        },
        None => Err(ErrorKind::EmptyResult),
    }
}

/// The view of a text or of the failure in its place.
pub open spec fn text_result(r: Result<String, ErrorKind>) -> Result<Seq<char>, ErrorKind> {
    match r {
        Ok(s) => Ok(s@),
        Err(e) => Err(e),
    }
}

/// What a completion says: the text of its choices one after another. A
/// completion without any choice is the failure `EmptyResult`.
pub fn completion_text(result: &OpenAICompletionResult) -> (text: Result<String, ErrorKind>)
    ensures
        text_result(text) == completion_text_of(*result),
{
    match &result.choices {
        None => Err(ErrorKind::EmptyResult),
        Some(choices) => {
            if choices.len() == 0 {
                return Err(ErrorKind::EmptyResult);
            }
            let mut text = String::new();
            let mut i: usize = 0;
            while i < choices.len()
                invariant
                    i <= choices.len(),
                    text@ == choices_text(choices@.take(i as int)),
                decreases choices.len() - i,
            {
                assert(choices@.take(i + 1).drop_last() =~= choices@.take(i as int));
                assert(choices@.take(i + 1).last() == choices@[i as int]);
                assert(text@ + Seq::<char>::empty() =~= text@);
                match &choices[i].message {
                    Some(m) => match &m.content {
                        Some(c) => {
                            text.append(c.as_str());
                        },
                        None => {},
                    },
                    None => {},
                }
                i += 1;
            }
            assert(choices@.take(choices.len() as int) =~= choices@);
            Ok(text)
        },
    }
}

} // verus!
