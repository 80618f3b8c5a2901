//! What the answering pipeline asks of a semantic index and what it takes
//! from the answer: the combined query, the fragments of knowledge and the
//! entities that are looked up afterwards.

use vstd::prelude::*;
use vstd::string::*;
use crate::entities::{SearchFilter, SearchKafkaRequest};
use crate::entities_ai::{
    score, score_of, text_or_empty, AISearchAnswerValue, AISearchResultCaption,
    AISearchResultValue,
};
use crate::knowledge::{fragment_views, Fragment, FragmentView};
use crate::text::{join, join_strings, views};

verus! {

/// The text of an optional field, empty where the field is absent.
pub fn text_of(field: &Option<String>) -> (text: &str)
    ensures
        text@ == text_or_empty(*field),
{
    match field {
        Some(s) => s.as_str(),
        None => {
            proof {
                reveal_strlit("");
            }
            assert(""@ =~= Seq::<char>::empty());
            ""
        },
    }
}

/// A filter rendered as `label` and value, where it is set.
pub open spec fn term(label: Seq<char>, value: Option<Seq<char>>) -> Seq<Seq<char>> {
    match value {
        Some(v) => seq![label + v],
        None => Seq::empty(),
    }
}

/// The structured filters of a request that are set, each rendered as
/// field and value: owner, topic, consumer.
pub open spec fn filter_terms(f: SearchFilter) -> Seq<Seq<char>> {
    term("App_owner: "@, f.owner) + term("Topic_name: "@, f.topic) + term(
        "Consumer_app: "@,
        f.consumer_app,
    )
}

/// The query that a semantic index is asked for one question: the
/// filters that are set and then the question itself, joined by the word
/// `and`.
pub open spec fn combined_query_of(filters: Seq<Seq<char>>, question: Seq<char>) -> Seq<char> {
    join(filters.push(question), " and "@)
}

fn push_term(terms: &mut Vec<String>, label: &str, value: &Option<String>)
    ensures
        views(final(terms)@) == views(old(terms)@) + term(label@, crate::entities::opt_view(*value)),
{
    let ghost before = views(terms@);
    match value {
        Some(v) => {
            let mut t = label.to_owned();
            t.append(v.as_str());
            terms.push(t);
            assert(views(terms@) =~= before + seq![label@ + v@]);
        },
        None => {
            assert(views(terms@) =~= before + Seq::<Seq<char>>::empty());
        },
    }
}

/// The structured filters that a request sets, each rendered as field and
/// value.
pub fn filters_of(request: &SearchKafkaRequest) -> (terms: Vec<String>)
    ensures
        views(terms@) == filter_terms(request.filter()),
{
    let mut terms: Vec<String> = Vec::new();
    assert(views(terms@) =~= Seq::<Seq<char>>::empty());
    push_term(&mut terms, "App_owner: ", &request.app_owner);
    push_term(&mut terms, "Topic_name: ", &request.topic_name);
    push_term(&mut terms, "Consumer_app: ", &request.consumer_app);
    assert(views(terms@) =~= filter_terms(request.filter()));
    terms
}

/// The query that a semantic index is asked for one question.
pub fn combined_query(filters: &Vec<String>, question: &str) -> (query: String)
    ensures
        query@ == combined_query_of(views(filters@), question@),
{
    let mut parts: Vec<String> = Vec::new();
    let mut i: usize = 0;
    while i < filters.len()
        invariant
            i <= filters.len(),
            views(parts@) == views(filters@).take(i as int),
        decreases filters.len() - i,
    {
        let ghost before = views(parts@);
        let term = filters[i].clone();
        parts.push(term);
        assert(views(parts@) =~= before.push(filters@[i as int]@));
        assert(views(filters@).take(i + 1) =~= views(filters@).take(i as int).push(
            filters@[i as int]@,
        ));
        i += 1;
    }
    assert(views(filters@).take(filters.len() as int) =~= views(filters@));
    let ghost terms = views(parts@);
    let last = question.to_owned();
    parts.push(last);
    assert(views(parts@) =~= terms.push(question@));
    join_strings(&parts, " and ")
}

/// The rank of an extractive answer: its score, the least where it has
/// none.
pub open spec fn answer_rank(a: AISearchAnswerValue) -> u64 {
    match a.score {
        Some(s) => s,
        None => 0,
    }
}

/// The fragment of an extractive answer: the line `Answer: ` and its text.
pub open spec fn answer_fragment(a: AISearchAnswerValue) -> FragmentView {
    FragmentView { rank: answer_rank(a), text: "Answer: "@ + text_or_empty(a.text) + "\n"@ }
}

/// The fragments of the extractive answers, in their order.
pub open spec fn answer_fragments_of(answers: Seq<AISearchAnswerValue>) -> Seq<FragmentView> {
    answers.map_values(|a: AISearchAnswerValue| answer_fragment(a))
}

/// The fragments of the extractive answers, in their order.
pub fn answer_fragments(answers: &Vec<AISearchAnswerValue>) -> (fragments: Vec<Fragment>)
    ensures
        fragment_views(fragments@) == answer_fragments_of(answers@),
{
    let mut fragments: Vec<Fragment> = Vec::new();
    let mut i: usize = 0;
    while i < answers.len()
        invariant
            i <= answers.len(),
            fragment_views(fragments@) == answer_fragments_of(answers@).take(i as int),
        decreases answers.len() - i,
    {
        let ghost prev = fragment_views(fragments@);
        let a = &answers[i];
        let mut text = "Answer: ".to_owned();
        text.append(text_of(&a.text));
        text.append("\n");
        let rank = match a.score {
            Some(s) => s,
            None => 0,
        };
        let f = Fragment { rank, text };
        fragments.push(f);
        assert(fragment_views(fragments@) =~= prev.push(f@));
        assert(answer_fragments_of(answers@).take(i + 1) =~= answer_fragments_of(answers@).take(
            i as int,
        ).push(answer_fragment(answers@[i as int])));
        i += 1;
    }
    assert(answer_fragments_of(answers@).take(answers.len() as int) =~= answer_fragments_of(
        answers@,
    ));
    fragments
}

/// A caption that is folded into the knowledge: one with text and with
/// highlights.
pub open spec fn usable(c: AISearchResultCaption) -> bool {
    text_or_empty(c.text).len() > 0 && text_or_empty(c.highlights).len() > 0
}

/// The summary lines of the usable captions, one `Summary: ` line each.
pub open spec fn summary_of(captions: Seq<AISearchResultCaption>) -> Seq<char>
    decreases captions.len(),
{
    if captions.len() == 0 {
        Seq::empty()
    } else if usable(captions.last()) {
        summary_of(captions.drop_last()) + "Summary: "@ + text_or_empty(captions.last().text)
            + "\n"@
    } else {
        summary_of(captions.drop_last())
    }
}

/// The captions of a document, none where the field is absent.
pub open spec fn captions_of(doc: AISearchResultValue) -> Seq<AISearchResultCaption> {
    match doc.search_captions {
        Some(c) => c@,
        None => Seq::empty(),
    }
}

/// The summary fragments of the documents: for each document with a
/// usable caption its summary lines, ranked by the document's score. A
/// document without a usable caption gives no fragment.
pub open spec fn summary_fragments_of(docs: Seq<AISearchResultValue>) -> Seq<FragmentView>
    decreases docs.len(),
{
    if docs.len() == 0 {
        Seq::empty()
    } else if summary_of(captions_of(docs.last())).len() > 0 {
        summary_fragments_of(docs.drop_last()).push(
            FragmentView {
                rank: score_of(docs.last()),
                text: summary_of(captions_of(docs.last())),
            },
        )
    } else {
        summary_fragments_of(docs.drop_last())
    }
}

/// The summary lines of the usable captions.
pub fn summary(captions: &Vec<AISearchResultCaption>) -> (text: String)
    ensures
        text@ == summary_of(captions@),
{
    let mut text = String::new();
    let mut i: usize = 0;
    while i < captions.len()
        invariant
            i <= captions.len(),
            text@ == summary_of(captions@.take(i as int)),
        decreases captions.len() - i,
    {
        let c = &captions[i];
        assert(captions@.take(i + 1).drop_last() =~= captions@.take(i as int));
        assert(captions@.take(i + 1).last() == *c);
        if text_of(&c.text).unicode_len() > 0 && text_of(&c.highlights).unicode_len() > 0 {
            text.append("Summary: ");
            text.append(text_of(&c.text));
            text.append("\n");
        }
        i += 1;
    }
    assert(captions@.take(captions.len() as int) =~= captions@);
    text
}

/// The summary fragments of the documents.
pub fn summary_fragments(docs: &Vec<AISearchResultValue>) -> (fragments: Vec<Fragment>)
    ensures
        fragment_views(fragments@) == summary_fragments_of(docs@),
{
    let mut fragments: Vec<Fragment> = Vec::new();
    let mut i: usize = 0;
    assert(fragment_views(fragments@) =~= summary_fragments_of(docs@.take(0)));
    while i < docs.len()
        invariant
            i <= docs.len(),
            fragment_views(fragments@) == summary_fragments_of(docs@.take(i as int)),
        decreases docs.len() - i,
    {
        let d = &docs[i];
        let ghost prev = fragment_views(fragments@);
        assert(docs@.take(i + 1).drop_last() =~= docs@.take(i as int));
        assert(docs@.take(i + 1).last() == *d);
        let text = match &d.search_captions {
            Some(c) => summary(c),
            None => String::new(),
        };
        if text.as_str().unicode_len() > 0 {
            let f = Fragment { rank: score(d), text };
            fragments.push(f);
            assert(fragment_views(fragments@) =~= prev.push(f@));
        }
        i += 1;
    }
    assert(docs@.take(docs.len() as int) =~= docs@);
    fragments
}

/// The value of an entity field, where it is present.
pub open spec fn present(field: Option<String>) -> Seq<Seq<char>> {
    match field {
        Some(s) => seq![s@],
        None => Seq::empty(),
    }
}

/// The entity values of the documents: of each its consumer and its
/// owner, where present.
pub open spec fn entity_values(docs: Seq<AISearchResultValue>) -> Seq<Seq<char>>
    decreases docs.len(),
{
    if docs.len() == 0 {
        Seq::empty()
    } else {
        entity_values(docs.drop_last()) + present(docs.last().consumer_app) + present(
            docs.last().app_owner,
        )
    }
}

/// `set` with each of the values added that it does not hold yet.
pub open spec fn add_distinct(set: Seq<Seq<char>>, values: Seq<Seq<char>>) -> Seq<Seq<char>>
    decreases values.len(),
{
    if values.len() == 0 {
        set
    } else {
        let s = add_distinct(set, values.drop_last());
        if s.contains(values.last()) {
            s
        } else {
            s.push(values.last())
        }
    }
}

/// Adding values one run after another is adding them as one run.
pub proof fn lemma_add_distinct_concat(set: Seq<Seq<char>>, a: Seq<Seq<char>>, b: Seq<Seq<char>>)
    ensures
        add_distinct(set, a + b) == add_distinct(add_distinct(set, a), b),
    decreases b.len(),
{
    if b.len() == 0 {
        assert(a + b =~= a);
    } else {
        assert((a + b).drop_last() =~= a + b.drop_last());
        lemma_add_distinct_concat(set, a, b.drop_last());
    }
}

/// No text occurs twice.
pub open spec fn distinct(set: Seq<Seq<char>>) -> bool {
    forall|i: int, j: int| 0 <= i < j < set.len() ==> set[i] != set[j]
}

/// Adding distinct values keeps a set free of repetitions, keeps what it
/// held, and adds exactly the values.
pub proof fn lemma_add_distinct(set: Seq<Seq<char>>, values: Seq<Seq<char>>)
    requires
        distinct(set),
    ensures
        distinct(add_distinct(set, values)),
        forall|v: Seq<char>|
            add_distinct(set, values).contains(v) <==> set.contains(v) || values.contains(v),
    decreases values.len(),
{
    let out = add_distinct(set, values);
    if values.len() > 0 {
        let rest = values.drop_last();
        let s = add_distinct(set, rest);
        lemma_add_distinct(set, rest);
        assert forall|v: Seq<char>| out.contains(v) <==> set.contains(v) || values.contains(
            v,
        ) by {
            if values.contains(v) {
                let i = choose|i: int| 0 <= i < values.len() && values[i] == v;
                if i < rest.len() {
                    assert(rest[i] == v);
                    assert(rest.contains(v));
                }
            }
            if rest.contains(v) {
                let i = choose|i: int| 0 <= i < rest.len() && rest[i] == v;
                assert(values[i] == v);
            }
            if s.contains(v) {
                let i = choose|i: int| 0 <= i < s.len() && s[i] == v;
                assert(out[i] == v);
            }
            if !s.contains(values.last()) {
                assert(out[out.len() - 1] == values.last());
                if out.contains(v) {
                    let i = choose|i: int| 0 <= i < out.len() && out[i] == v;
                    if i < s.len() {
                        assert(s[i] == v);
                    }
                }
            }
            assert(values[values.len() - 1] == values.last());
        }
        if !s.contains(values.last()) {
            assert forall|i: int, j: int| 0 <= i < j < out.len() implies out[i] != out[j] by {
                if j == out.len() - 1 {
                    assert(s[i] == out[i]);
                    assert(s.contains(s[i]));
                } else {
                    assert(s[i] != s[j]);
                }
            }
        }
    }
}

fn holds(set: &Vec<String>, value: &String) -> (found: bool)
    ensures
        found == views(set@).contains(value@),
{
    let mut i: usize = 0;
    while i < set.len()
        invariant
            i <= set.len(),
            forall|k: int| 0 <= k < i ==> views(set@)[k] != value@,
        decreases set.len() - i,
    {
        if set[i] == *value {
            assert(views(set@)[i as int] == value@);
            return true;
        }
        i += 1;
    }
    false
}

fn add_entity(entities: &mut Vec<String>, field: &Option<String>)
    ensures
        views(final(entities)@) == add_distinct(views(old(entities)@), present(*field)),
{
    let ghost before = views(entities@);
    match field {
        Some(v) => {
            assert(present(*field).drop_last() =~= Seq::<Seq<char>>::empty());
            assert(present(*field).last() == v@);
            assert(add_distinct(before, Seq::<Seq<char>>::empty()) == before);
            if !holds(entities, v) {
                entities.push(v.clone());
                assert(views(entities@) =~= before.push(v@));
            }
        },
        None => {},
    }
}

/// Adds the entity values of the documents that the set does not hold yet.
pub fn collect_entities(entities: &mut Vec<String>, docs: &Vec<AISearchResultValue>)
    ensures
        views(final(entities)@) == add_distinct(views(old(entities)@), entity_values(docs@)),
{
    let ghost start = views(entities@);
    let mut i: usize = 0;
    while i < docs.len()
        invariant
            i <= docs.len(),
            views(entities@) == add_distinct(start, entity_values(docs@.take(i as int))),
        decreases docs.len() - i,
    {
        let d = &docs[i];
        assert(docs@.take(i + 1).drop_last() =~= docs@.take(i as int));
        assert(docs@.take(i + 1).last() == *d);
        proof {
            let done = entity_values(docs@.take(i as int));
            lemma_add_distinct_concat(start, done, present(d.consumer_app));
            lemma_add_distinct_concat(start, done + present(d.consumer_app), present(d.app_owner));
        }
        add_entity(entities, &d.consumer_app);
        add_entity(entities, &d.app_owner);
        i += 1;
    }
    assert(docs@.take(docs.len() as int) =~= docs@);
}

/// The query that looks the entities up in the application information:
/// each of them as a full name or as a business name.
pub open spec fn entity_query_of(entities: Seq<Seq<char>>) -> Seq<char> {
    "(full_name: ("@ + join(entities, " or "@) + ") or business_name: ("@ + join(
        entities,
        " or "@,
    ) + "))"@
}

/// The query that looks the entities up in the application information.
pub fn entity_query(entities: &Vec<String>) -> (query: String)
    ensures
        query@ == entity_query_of(views(entities@)),
{
    let names = join_strings(entities, " or ");
    let mut query = "(full_name: (".to_owned();
    query.append(names.as_str());
    query.append(") or business_name: (");
    query.append(names.as_str());
    query.append("))");
    query
}

/// The text that describes one application: a line for each of its
/// fields, empty where the field is absent.
pub open spec fn application_text(doc: AISearchResultValue) -> Seq<char> {
    "Application Information Full Name: "@ + text_or_empty(doc.full_application_name) + "\n"@
        + "Application ID: "@ + text_or_empty(doc.application_id) + "\n"@
        + "Business Application Name: "@ + text_or_empty(doc.business_application_name) + "\n"@
        + "Application Level: "@ + text_or_empty(doc.application_level) + "\n"@
        + "Company or Subsidiary Name: "@ + text_or_empty(doc.company_or_subsidiary_name) + "\n"@
        + "Service: "@ + text_or_empty(doc.service) + "\n"@ + "Application Category: "@
        + text_or_empty(doc.app_category) + "\n"@
}

/// The fragment that describes one application, ranked by its score.
pub open spec fn application_fragment(doc: AISearchResultValue) -> FragmentView {
    FragmentView { rank: score_of(doc), text: application_text(doc) }
}

/// One fragment for each application, in the documents' order.
pub open spec fn application_fragments_of(docs: Seq<AISearchResultValue>) -> Seq<FragmentView> {
    docs.map_values(|d: AISearchResultValue| application_fragment(d))
}

/// The text that describes one application.
pub fn application_lines(doc: &AISearchResultValue) -> (text: String)
    ensures
        text@ == application_text(*doc),
{
    let mut text = "Application Information Full Name: ".to_owned();
    text.append(text_of(&doc.full_application_name));
    text.append("\n");
    text.append("Application ID: ");
    text.append(text_of(&doc.application_id));
    text.append("\n");
    text.append("Business Application Name: ");
    text.append(text_of(&doc.business_application_name));
    text.append("\n");
    text.append("Application Level: ");
    text.append(text_of(&doc.application_level));
    text.append("\n");
    text.append("Company or Subsidiary Name: ");
    text.append(text_of(&doc.company_or_subsidiary_name));
    text.append("\n");
    text.append("Service: ");
    text.append(text_of(&doc.service));
    text.append("\n");
    text.append("Application Category: ");
    text.append(text_of(&doc.app_category));
    text.append("\n");
    text
}

/// One fragment for each application, in the documents' order.
pub fn application_fragments(docs: &Vec<AISearchResultValue>) -> (fragments: Vec<Fragment>)
    ensures
        fragment_views(fragments@) == application_fragments_of(docs@),
{
    let mut fragments: Vec<Fragment> = Vec::new();
    let mut i: usize = 0;
    while i < docs.len()
        invariant
            i <= docs.len(),
            fragment_views(fragments@) == application_fragments_of(docs@).take(i as int),
        decreases docs.len() - i,
    {
        let ghost prev = fragment_views(fragments@);
        let d = &docs[i];
        let f = Fragment { rank: score(d), text: application_lines(d) };
        fragments.push(f);
        assert(fragment_views(fragments@) =~= prev.push(f@));
        assert(application_fragments_of(docs@).take(i + 1) =~= application_fragments_of(
            docs@,
        ).take(i as int).push(application_fragment(docs@[i as int])));
        i += 1;
    }
    assert(application_fragments_of(docs@).take(docs.len() as int) =~= application_fragments_of(
        docs@,
    ));
    fragments
}

} // verus!
