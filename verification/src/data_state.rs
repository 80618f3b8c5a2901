//! The configuration that is built once at start-up and then only read.

use vstd::prelude::*;
use crate::data_service::{ConsumerRecord, TopicRecord, UserRecord};
use crate::entities_ai::{AISearchIndex, AISearchSemantics};

verus! {

/// How the completion client is reached.
#[derive(Debug, Clone, PartialEq)]
pub struct OpenAiSettings {
    pub api_base: String,
    pub api_key: String,
    pub api_version: String,
    pub deployment_id: String,
}

/// The settings of the completion client at the given address: interface
/// version `2023-03-15-preview`, deployment `gpt-4`.
pub fn create_openai(open_ai_url: &str, open_ai_key: &str) -> (settings: OpenAiSettings)
    ensures
        settings.api_base@ == open_ai_url@,
        settings.api_key@ == open_ai_key@,
        settings.api_version@ == "2023-03-15-preview"@,
        settings.deployment_id@ == "gpt-4"@,
{
    OpenAiSettings {
        api_base: open_ai_url.to_owned(),
        api_key: open_ai_key.to_owned(),
        api_version: "2023-03-15-preview".to_owned(),
        deployment_id: "gpt-4".to_owned(),
    }
}

/// A semantic index under one of its configurations.
#[derive(Debug, PartialEq)]
pub struct RetrievalTarget {
    pub index_name: String,
    pub semantic_configuration: String,
    pub select_fields: String,
}

pub struct TargetView {
    pub index_name: Seq<char>,
    pub semantic_configuration: Seq<char>,
    pub select_fields: Seq<char>,
}

impl View for RetrievalTarget {
    type V = TargetView;

    open spec fn view(&self) -> TargetView {
        TargetView {
            index_name: self.index_name@,
            semantic_configuration: self.semantic_configuration@,
            select_fields: self.select_fields@,
        }
    }
}

impl Clone for RetrievalTarget {
    fn clone(&self) -> (t: RetrievalTarget)
        ensures
            t@ == self@,
    {
        RetrievalTarget {
            index_name: self.index_name.clone(),
            semantic_configuration: self.semantic_configuration.clone(),
            select_fields: self.select_fields.clone(),
        }
    }
}

pub open spec fn target_views(ts: Seq<RetrievalTarget>) -> Seq<TargetView> {
    ts.map_values(|t: RetrievalTarget| t@)
}

/// The targets that one index offers: one for each of its semantic
/// configurations.
pub open spec fn targets_of_index(index: AISearchIndex) -> Seq<TargetView> {
    match index.semantics {
        Some(semantics) => semantics@.map_values(
            |s: AISearchSemantics|
                TargetView {
                    index_name: index.index_name@,
                    semantic_configuration: s.name@,
                    select_fields: s.select_fields@,
                },
        ),
        None => Seq::empty(),
    }
}

/// Every pair of a configured index and one of its semantic
/// configurations, index after index.
pub open spec fn targets_of(indexes: Seq<AISearchIndex>) -> Seq<TargetView>
    decreases indexes.len(),
{
    if indexes.len() == 0 {
        Seq::empty()
    } else {
        targets_of(indexes.drop_last()) + targets_of_index(indexes.last())
    }
}

/// Every pair of a configured index and one of its semantic
/// configurations, index after index.
pub fn retrieval_targets(indexes: &Vec<AISearchIndex>) -> (targets: Vec<RetrievalTarget>)
    ensures
        target_views(targets@) == targets_of(indexes@),
{
    let mut targets: Vec<RetrievalTarget> = Vec::new();
    let mut i: usize = 0;
    assert(target_views(targets@) =~= targets_of(indexes@.take(0)));
    while i < indexes.len()
        invariant
            i <= indexes.len(),
            target_views(targets@) == targets_of(indexes@.take(i as int)),
        decreases indexes.len() - i,
    {
        let index = &indexes[i];
        let ghost before = target_views(targets@);
        assert(indexes@.take(i + 1).drop_last() =~= indexes@.take(i as int));
        assert(indexes@.take(i + 1).last() == *index);
        match &index.semantics {
            Some(semantics) => {
                let mut j: usize = 0;
                assert(target_views(targets@) =~= before + targets_of_index(*index).take(0));
                while j < semantics.len()
                    invariant
                        j <= semantics.len(),
                        index.semantics == Some(*semantics),
                        target_views(targets@) == before + targets_of_index(*index).take(j as int),
                    decreases semantics.len() - j,
                {
                    let ghost prev = target_views(targets@);
                    let t = RetrievalTarget {
                        index_name: index.index_name.clone(),
                        semantic_configuration: semantics[j].name.clone(),
                        select_fields: semantics[j].select_fields.clone(),
                    };
                    targets.push(t);
                    assert(target_views(targets@) =~= prev.push(t@));
                    assert(targets_of_index(*index).take(j + 1) =~= targets_of_index(*index).take(
                        j as int,
                    ).push(t@));
                    assert(before + targets_of_index(*index).take(j as int).push(t@) =~= (before
                        + targets_of_index(*index).take(j as int)).push(t@));
                    j += 1;
                }
                assert(targets_of_index(*index).take(semantics.len() as int) =~= targets_of_index(
                    *index,
                ));
            },
            None => {
                assert(before + targets_of_index(*index) =~= before);
            },
        }
        i += 1;
    }
    assert(indexes@.take(indexes.len() as int) =~= indexes@);
    targets
}

/// Everything the service is configured with. A dataset or a list that
/// was not loaded is absent.
#[derive(Debug, Clone, PartialEq)]
pub struct AppState {
    pub kafka_inventory: Option<Vec<TopicRecord>>,
    pub kafka_consumer: Option<Vec<ConsumerRecord>>,
    pub user_authentication: Option<Vec<UserRecord>>,
    pub jwt_secret: String,
    pub azure_ai_search_url: Option<String>,
    pub azure_ai_search_key: Option<String>,
    pub azure_ai_search_indexes: Option<Vec<AISearchIndex>>,
    pub azure_ai_search_use_semantics: bool,
    /// The index that holds the application information, and how to ask
    /// it. The answering pipeline requires it.
    pub application_info: Option<RetrievalTarget>,
    /// The static domain knowledge.
    pub knowledge: Option<String>,
    /// The most characters that the gathered knowledge may have.
    pub knowledge_budget: usize,
    pub open_ai_config: OpenAiSettings,
}

} // verus!
