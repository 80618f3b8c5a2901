//! The answering pipeline as a state machine. A run decomposes the query,
//! retrieves for every question from every configured index, looks the
//! entities it met up in the application information, assembles the
//! knowledge and has the completion client answer. The machine decides;
//! its caller performs each action and hands back what came of it.

use vstd::prelude::*;
use vstd::string::*;
use crate::azure_ai_apis::{
    answer_framing, completion_text, completion_text_of, decomposition_framing,
};
use crate::data_state::{
    retrieval_targets, target_views, targets_of, AppState, RetrievalTarget, TargetView,
};
use crate::decomposition::{decomposition, split_questions_and_non_questions};
use crate::entities::{opt_view, ErrorKind, SearchKafkaRequest};
use crate::entities_ai::{
    AISearchAnswerValue, AISearchResult, AISearchResultValue, OpenAICompletionResult,
};
use crate::knowledge::{
    assemble, assembled, lemma_context_within_budget, KnowledgeBlock, KnowledgeBlockView,
};
use crate::ranking::{sort_ai_search_result_by_score_get_n_top, top_n};
use crate::retrieval::{
    add_distinct, answer_fragments, answer_fragments_of, application_fragments,
    application_fragments_of, collect_entities, combined_query, combined_query_of, entity_query,
    entity_query_of, entity_values, filter_terms, filters_of, summary_fragments,
    summary_fragments_of,
};
use crate::text::views;

verus! {

/// The number of documents of one retrieval that are folded into the
/// knowledge.
pub const TOP: usize = 3;

/// Where a run stands. In the first four stages it waits for the outcome
/// of the action it asked for; the last two are final.
#[derive(Clone, Copy, Debug, PartialEq, Eq, Structural)]
pub enum Stage {
    Decompose,
    PerQuestionRetrieve,
    EntityEnrich,
    Complete,
    Done,
    Failed,
}

/// What the caller is to do next.
#[derive(Debug, Clone, PartialEq)]
pub enum Action {
    /// Call the completion client with these three messages.
    Complete { system: String, knowledge: String, user: String },
    /// Ask this index this query.
    Retrieve { target: RetrievalTarget, query: String },
    /// Return the answer: the run is done.
    Finish { answer: String },
    /// Report the failure: the run has failed and nothing of it is kept.
    Fail { kind: ErrorKind },
    /// Nothing: the run was over before.
    Halt,
}

pub enum ActionView {
    Complete { system: Seq<char>, knowledge: Seq<char>, user: Seq<char> },
    Retrieve { target: TargetView, query: Seq<char> },
    Finish { answer: Seq<char> },
    Fail { kind: ErrorKind },
    Halt,
}

impl View for Action {
    type V = ActionView;

    open spec fn view(&self) -> ActionView {
        match self {
            Action::Complete { system, knowledge, user } => ActionView::Complete {
                system: system@,
                knowledge: knowledge@,
                user: user@,
            },
            Action::Retrieve { target, query } => ActionView::Retrieve {
                target: target@,
                query: query@,
            },
            Action::Finish { answer } => ActionView::Finish { answer: answer@ },
            Action::Fail { kind } => ActionView::Fail { kind: *kind },
            Action::Halt => ActionView::Halt,
        }
    }
}

/// What came of the last action.
#[derive(Debug, Clone, PartialEq)]
pub enum Event {
    /// The completion client answered.
    Completed(OpenAICompletionResult),
    /// The semantic index answered.
    Retrieved(AISearchResult),
    /// The call failed.
    Failed,
}

/// A run of the pipeline.
#[derive(Debug, PartialEq)]
pub struct Orchestration {
    run: Run,
}

#[derive(Debug, PartialEq)]
struct Run {
    stage: Stage,
    query: String,
    filters: Vec<String>,
    targets: Vec<RetrievalTarget>,
    app_info: RetrievalTarget,
    static_knowledge: String,
    work: Vec<String>,
    question: usize,
    target: usize,
    block: KnowledgeBlock,
    entities: Vec<String>,
}

pub struct RunView {
    pub stage: Stage,
    /// The query as it was asked.
    pub query: Seq<char>,
    /// The structured filters of the request, each as field and value.
    pub filters: Seq<Seq<char>>,
    /// The indexes to ask, each under each of its configurations.
    pub targets: Seq<TargetView>,
    /// The index of the application information.
    pub app_info: TargetView,
    pub static_knowledge: Seq<char>,
    /// The questions and then the non-questions of the query.
    pub work: Seq<Seq<char>>,
    /// The question and the target that are asked next.
    pub question: nat,
    pub target: nat,
    pub block: KnowledgeBlockView,
    /// The entities met so far, each once.
    pub entities: Seq<Seq<char>>,
}

impl View for Orchestration {
    type V = RunView;

    closed spec fn view(&self) -> RunView {
        self.run@
    }
}

impl View for Run {
    type V = RunView;

    closed spec fn view(&self) -> RunView {
        RunView {
            stage: self.stage,
            query: self.query@,
            filters: views(self.filters@),
            targets: target_views(self.targets@),
            app_info: self.app_info@,
            static_knowledge: self.static_knowledge@,
            work: views(self.work@),
            question: self.question as nat,
            target: self.target as nat,
            block: self.block@,
            entities: views(self.entities@),
        }
    }
}

/// The extractive answers of a retrieval, none where the field is absent.
pub open spec fn answers_in(r: AISearchResult) -> Seq<AISearchAnswerValue> {
    match r.search_answers {
        Some(a) => a@,
        None => Seq::empty(),
    }
}

/// The documents of a retrieval, none where the field is absent.
pub open spec fn docs_in(r: AISearchResult) -> Seq<AISearchResultValue> {
    match r.value {
        Some(d) => d@,
        None => Seq::empty(),
    }
}

impl RunView {
    /// The run as it begins on a request with the given query, with the
    /// given index of the application information.
    pub open spec fn initial(
        config: AppState,
        request: SearchKafkaRequest,
        query: Seq<char>,
        app_info: TargetView,
    ) -> RunView {
        RunView {
            stage: Stage::Decompose,
            query,
            filters: filter_terms(request.filter()),
            targets: match config.azure_ai_search_indexes {
                Some(indexes) => targets_of(indexes@),
                None => Seq::empty(),
            },
            app_info,
            static_knowledge: match config.knowledge {
                Some(k) => k@,
                None => Seq::empty(),
            },
            work: Seq::empty(),
            question: 0,
            target: 0,
            block: KnowledgeBlockView {
                fragments: Seq::empty(),
                budget: config.knowledge_budget as nat,
            },
            entities: Seq::empty(),
        }
    }

    /// The run has failed.
    pub open spec fn fail(self, kind: ErrorKind) -> (RunView, ActionView) {
        (RunView { stage: Stage::Failed, ..self }, ActionView::Fail { kind })
    }

    /// The completion client is asked for the answer, with the static
    /// knowledge and the gathered knowledge as its context.
    pub open spec fn complete(self) -> (RunView, ActionView) {
        (
            RunView { stage: Stage::Complete, ..self },
            ActionView::Complete {
                system: answer_framing(),
                knowledge: assembled(self.static_knowledge, self.block),
                user: self.query,
            },
        )
    }

    /// Where entities were met, they are looked up in the application
    /// information in one query; else the run goes on to complete.
    pub open spec fn enrich(self) -> (RunView, ActionView) {
        if self.entities.len() > 0 {
            (
                RunView { stage: Stage::EntityEnrich, ..self },
                ActionView::Retrieve {
                    target: self.app_info,
                    query: entity_query_of(self.entities),
                },
            )
        } else {
            self.complete()
        }
    }

    /// The next question is asked of the next target; when none is left
    /// the run goes on to the entities.
    pub open spec fn ask(self) -> (RunView, ActionView) {
        if self.question < self.work.len() && self.target < self.targets.len() {
            (
                RunView { stage: Stage::PerQuestionRetrieve, ..self },
                ActionView::Retrieve {
                    target: self.targets[self.target as int],
                    query: combined_query_of(self.filters, self.work[self.question as int]),
                },
            )
        } else {
            self.enrich()
        }
    }

    /// The run after the answer of an index to a question is folded in:
    /// the answers, then the summaries of the best documents, are appended
    /// to the knowledge; the entities of those documents are added; and
    /// the position moves on to the next target or the next question.
    pub open spec fn folded(self, r: AISearchResult) -> RunView {
        let top = top_n(docs_in(r), TOP as nat);
        let last = self.target + 1 >= self.targets.len();
        RunView {
            block: KnowledgeBlockView {
                fragments: self.block.fragments + answer_fragments_of(answers_in(r))
                    + summary_fragments_of(top),
                budget: self.block.budget,
            },
            entities: add_distinct(self.entities, entity_values(top)),
            question: if last {
                self.question + 1
            } else {
                self.question
            },
            target: if last {
                0
            } else {
                self.target + 1
            },
            ..self
        }
    }

    /// The run after the application information is folded in: one
    /// fragment for each of the best documents.
    pub open spec fn enriched(self, r: AISearchResult) -> RunView {
        RunView {
            block: KnowledgeBlockView {
                fragments: self.block.fragments + application_fragments_of(
                    top_n(docs_in(r), TOP as nat),
                ),
                budget: self.block.budget,
            },
            ..self
        }
    }

    /// The work list set from the decomposition of the query.
    pub open spec fn decomposed(self, text: Seq<char>) -> RunView {
        RunView {
            work: decomposition(text).0 + decomposition(text).1,
            question: 0,
            target: 0,
            ..self
        }
    }

    /// The transition of the machine: the run and the action that follow
    /// on an event. Any event that is not the answer the stage waits for
    /// is an upstream failure. A run that is over stays as it is.
    pub open spec fn next(self, event: Event) -> (RunView, ActionView) {
        match self.stage {
            Stage::Decompose => match event {
                Event::Completed(c) => match completion_text_of(c) {
                    Ok(text) => self.decomposed(text).ask(),
                    Err(kind) => self.fail(kind),
                },
                _ => self.fail(ErrorKind::UpstreamFailure),
            },
            Stage::PerQuestionRetrieve => match event {
                Event::Retrieved(r) => self.folded(r).ask(),
                _ => self.fail(ErrorKind::UpstreamFailure),
            },
            Stage::EntityEnrich => match event {
                Event::Retrieved(r) => self.enriched(r).complete(),
                _ => self.fail(ErrorKind::UpstreamFailure),
            },
            Stage::Complete => match event {
                Event::Completed(c) => match completion_text_of(c) {
                    Ok(text) => (
                        RunView { stage: Stage::Done, ..self },
                        ActionView::Finish { answer: text },
                    ),
                    Err(kind) => self.fail(kind),
                },
                _ => self.fail(ErrorKind::UpstreamFailure),
            },
            Stage::Done => (self, ActionView::Halt),
            Stage::Failed => (self, ActionView::Halt),
        }
    }
}

/// A failed call fails the run, whatever was gathered: in each of the four
/// stages that wait for an outcome, the event `Failed` leads to the stage
/// `Failed` with the action to report an upstream failure, and the action
/// carries nothing of the knowledge.
pub proof fn lemma_failed_call_fails_the_run(run: RunView)
    requires
        run.stage != Stage::Done,
        run.stage != Stage::Failed,
    ensures
        run.next(Event::Failed).0.stage == Stage::Failed,
        run.next(Event::Failed).1 == (ActionView::Fail { kind: ErrorKind::UpstreamFailure }),
{
}

/// A run that is over stays over: no event moves it, and nothing is left
/// to do.
pub proof fn lemma_over_is_final(run: RunView, event: Event)
    requires
        run.stage == Stage::Done || run.stage == Stage::Failed,
    ensures
        run.next(event) == (run, ActionView::Halt),
{
}

/// The completion client is asked for the answer with the framing of
/// answers, the assembled knowledge and the query as it was asked, and
/// only on entering the stage `Complete`.
pub proof fn lemma_answer_is_asked_on_completing(run: RunView, event: Event)
    ensures
        run.next(event).1 is Complete ==> run.next(event).0.stage == Stage::Complete
            && run.next(event).1 == (ActionView::Complete {
            system: answer_framing(),
            knowledge: assembled(run.next(event).0.static_knowledge, run.next(event).0.block),
            user: run.query,
        }),
        run.next(event).0.stage == Stage::Complete ==> run.next(event).1 is Complete,
        run.next(event).0.query == run.query,
{
}

/// The context that is handed to the completion client never exceeds the
/// budget: whatever the stage and the event, where the action that follows
/// asks for a completion, its knowledge has at most as many characters as
/// the budget of the run, static knowledge and line break counted. The
/// budget of a run never changes.
pub proof fn lemma_handed_context_within_budget(run: RunView, event: Event)
    ensures
        run.next(event).0.block.budget == run.block.budget,
        run.next(event).1 matches ActionView::Complete { knowledge, .. } ==> knowledge.len()
            <= run.block.budget,
{
    let after = run.next(event).0;
    let _ = lemma_context_within_budget(after.static_knowledge, after.block);
}

/// Whether a request can be answered under a configuration, and if not,
/// why: it must carry a query, and the search service, its key, its list
/// of indexes and the index of the application information must all be
/// configured. Nothing that is required is passed over in silence: a run
/// begins only where every index it may ask is there.
pub open spec fn refusal(config: AppState, request: SearchKafkaRequest) -> Option<ErrorKind> {
    if request.ai_search_query is None {
        Some(ErrorKind::QueryFailed)
    } else if config.azure_ai_search_url is None || config.azure_ai_search_key is None
        || config.azure_ai_search_indexes is None || config.application_info is None {
        Some(ErrorKind::NotConfigured)
    } else {
        None
    }
}

impl Run {
    fn fail(self, kind: ErrorKind) -> (r: (Run, Action))
        ensures
            (r.0@, r.1@) == self@.fail(kind),
    {
        (Run { stage: Stage::Failed, ..self }, Action::Fail { kind })
    }

    fn complete(self) -> (r: (Run, Action))
        ensures
            (r.0@, r.1@) == self@.complete(),
    {
        let action = Action::Complete {
            system: "You are a world-class technical documentation writer. Use the following knowledge to answer the user's query.".to_owned(),
            knowledge: assemble(self.static_knowledge.as_str(), &self.block),
            user: self.query.clone(),
        };
        (Run { stage: Stage::Complete, ..self }, action)
    }

    fn enrich(self) -> (r: (Run, Action))
        ensures
            (r.0@, r.1@) == self@.enrich(),
    {
        if self.entities.len() == 0 {
            return self.complete();
        }
        let action = Action::Retrieve {
            target: self.app_info.clone(),
            query: entity_query(&self.entities),
        };
        (Run { stage: Stage::EntityEnrich, ..self }, action)
    }

    fn ask(self) -> (r: (Run, Action))
        ensures
            (r.0@, r.1@) == self@.ask(),
    {
        if self.question >= self.work.len() || self.target >= self.targets.len() {
            return self.enrich();
        }
        let action = Action::Retrieve {
            target: self.targets[self.target].clone(),
            query: combined_query(&self.filters, self.work[self.question].as_str()),
        };
        (Run { stage: Stage::PerQuestionRetrieve, ..self }, action)
    }

    fn decomposed(self, text: &str) -> (r: Run)
        ensures
            r@ == self@.decomposed(text@),
    {
        let (mut work, mut non_questions) = split_questions_and_non_questions(text);
        let ghost first = views(work@);
        let ghost second = views(non_questions@);
        work.append(&mut non_questions);
        assert(views(work@) =~= first + second);
        Run { work, question: 0, target: 0, ..self }
    }

    fn folded(self, result: AISearchResult) -> (r: Run)
        requires
            self.question < self.work.len(),
            self.target < self.targets.len(),
        ensures
            r@ == self@.folded(result),
    {
        let answers = match result.search_answers {
            Some(a) => a,
            None => Vec::new(),
        };
        let docs = match result.value {
            Some(d) => d,
            None => Vec::new(),
        };
        let top = sort_ai_search_result_by_score_get_n_top(docs, TOP);
        let last = self.target + 1 >= self.targets.len();
        let (question, target) = if last {
            (self.question + 1, 0)
        } else {
            (self.question, self.target + 1)
        };
        let mut block = self.block;
        let mut entities = self.entities;
        block.extend(answer_fragments(&answers));
        block.extend(summary_fragments(&top));
        collect_entities(&mut entities, &top);
        Run { question, target, block, entities, ..self }
    }

    fn enriched(self, result: AISearchResult) -> (r: Run)
        ensures
            r@ == self@.enriched(result),
    {
        let docs = match result.value {
            Some(d) => d,
            None => Vec::new(),
        };
        let top = sort_ai_search_result_by_score_get_n_top(docs, TOP);
        let mut block = self.block;
        block.extend(application_fragments(&top));
        Run { block, ..self }
    }

    fn finish(self, answer: String) -> (r: (Run, Action))
        ensures
            r.0@ == (RunView { stage: Stage::Done, ..self@ }),
            r.1@ == (ActionView::Finish { answer: answer@ }),
    {
        (Run { stage: Stage::Done, ..self }, Action::Finish { answer })
    }
}

impl Orchestration {
    #[verifier::type_invariant]
    spec fn positioned(self) -> bool {
        self.run.stage == Stage::PerQuestionRetrieve ==> self.run.question < self.run.work.len()
            && self.run.target < self.run.targets.len()
    }

    /// Where the run stands.
    pub fn stage(&self) -> (stage: Stage)
        ensures
            stage == self@.stage,
    {
        self.run.stage
    }

    /// Whether the run is over.
    pub fn is_over(&self) -> (over: bool)
        ensures
            over == (self@.stage == Stage::Done || self@.stage == Stage::Failed),
    {
        match self.run.stage {
            Stage::Done => true,
            Stage::Failed => true,
            _ => false,
        }
    }

    /// Begins a run. Where the request cannot be answered the result is
    /// the reason. Else the run waits in `Decompose`, and the first action
    /// sends the query to the completion client under the decomposition
    /// framing, with no knowledge.
    pub fn start(config: &AppState, request: &SearchKafkaRequest) -> (begun: Result<
        (Orchestration, Action),
        ErrorKind,
    >)
        ensures
            match begun {
                Ok((run, action)) => {
                    &&& refusal(*config, *request) is None
                    &&& run@ == RunView::initial(
                        *config,
                        *request,
                        opt_view(request.ai_search_query)->0,
                        config.application_info->0@,
                    )
                    &&& action@ == (ActionView::Complete {
                        system: decomposition_framing(),
                        knowledge: Seq::empty(),
                        user: run@.query,
                    })
                },
                Err(kind) => refusal(*config, *request) == Some(kind),
            },
    {
        let query = match &request.ai_search_query {
            Some(q) => q.clone(),
            None => {
                return Err(ErrorKind::QueryFailed);
            },
        };
        if config.azure_ai_search_url.is_none() || config.azure_ai_search_key.is_none() {
            return Err(ErrorKind::NotConfigured);
        }
        let targets = match &config.azure_ai_search_indexes {
            Some(indexes) => retrieval_targets(indexes),
            None => {
                return Err(ErrorKind::NotConfigured);
            },
        };
        let app_info = match &config.application_info {
            Some(t) => t.clone(),
            None => {
                return Err(ErrorKind::NotConfigured);
            },
        };
        let static_knowledge = match &config.knowledge {
            Some(k) => k.clone(),
            None => String::new(),
        };
        let run = Run {
            stage: Stage::Decompose,
            query: query.clone(),
            filters: filters_of(request),
            targets,
            app_info,
            static_knowledge,
            work: Vec::new(),
            question: 0,
            target: 0,
            block: KnowledgeBlock::new(config.knowledge_budget),
            entities: Vec::new(),
        };
        assert(run@.work =~= Seq::empty());
        assert(run@.entities =~= Seq::empty());
        let action = Action::Complete {
            system: "Partition the user's text. Answer with the header **Questions:** and below it the questions as an enumerated list, then with the header **Non-Questions:** and below it every other statement as an enumerated list.".to_owned(),
            knowledge: String::new(),
            user: query,
        };
        Ok((Orchestration { run }, action))
    }

    /// Takes the outcome of the last action and says what follows: the
    /// run as `next` gives it, and the action to perform. Where that
    /// action asks for a completion, the knowledge it carries is within
    /// the budget.
    pub fn step(self, event: Event) -> (r: (Orchestration, Action))
        ensures
            (r.0@, r.1@) == self@.next(event),
            r.1@ matches ActionView::Complete { knowledge, .. } ==> knowledge.len()
                <= self@.block.budget,
    {
        proof {
            use_type_invariant(&self);
            lemma_handed_context_within_budget(self@, event);
        }
        let run = self.run;
        let (run, action) = match run.stage {
            Stage::Decompose => match event {
                Event::Completed(c) => match completion_text(&c) {
                    Ok(text) => run.decomposed(text.as_str()).ask(),
                    Err(kind) => run.fail(kind),
                },
                _ => run.fail(ErrorKind::UpstreamFailure),
            },
            Stage::PerQuestionRetrieve => match event {
                Event::Retrieved(r) => run.folded(r).ask(),
                _ => run.fail(ErrorKind::UpstreamFailure),
            },
            Stage::EntityEnrich => match event {
                Event::Retrieved(r) => run.enriched(r).complete(),
                _ => run.fail(ErrorKind::UpstreamFailure),
            },
            Stage::Complete => match event {
                Event::Completed(c) => match completion_text(&c) {
                    Ok(text) => run.finish(text),
                    Err(kind) => run.fail(kind),
                },
                _ => run.fail(ErrorKind::UpstreamFailure),
            },
            Stage::Done => (run, Action::Halt),
            Stage::Failed => (run, Action::Halt),
        };
        (Orchestration { run }, action)
    }
}

} // verus!
