//! The record store: the topic inventory, the consumer registrations and
//! the authentication table, with the listings, the left join and the
//! conjunctive filter over them.

use vstd::prelude::*;
use crate::entities::{SearchFilter, SearchKafkaRequest, SearchKafkaResponse, SearchRowView};
use crate::text::{chars_of, compare, lemma_lex_lt_transitive, lex_lt, string_of, vec_views, views, Order};

verus! {

/// One produced topic and the project that owns it.
#[derive(Debug, Clone, PartialEq)]
pub struct TopicRecord {
    pub owner: String,
    pub topic: String,
}

pub struct TopicView {
    pub owner: Seq<char>,
    pub topic: Seq<char>,
}

impl View for TopicRecord {
    type V = TopicView;

    open spec fn view(&self) -> TopicView {
        TopicView { owner: self.owner@, topic: self.topic@ }
    }
}

/// One registration of a consumer on a topic. `owner` is the project as
/// the table shows it, and the listing's key. The topic and the consuming
/// application are absent where the table has no value for them: a
/// registration without a topic joins nothing, and one without an
/// application gives a row without a consumer.
#[derive(Debug, Clone, PartialEq)]
pub struct ConsumerRecord {
    pub owner: String,
    pub consumed_topic: Option<String>,
    pub consumer_group: String,
    pub consumer_app: Option<String>,
}

pub struct ConsumerView {
    pub owner: Seq<char>,
    pub consumed_topic: Option<Seq<char>>,
    pub consumer_group: Seq<char>,
    pub consumer_app: Option<Seq<char>>,
}

impl View for ConsumerRecord {
    type V = ConsumerView;

    open spec fn view(&self) -> ConsumerView {
        ConsumerView {
            owner: self.owner@,
            consumed_topic: crate::entities::opt_view(self.consumed_topic),
            consumer_group: self.consumer_group@,
            consumer_app: crate::entities::opt_view(self.consumer_app),
        }
    }
}

/// One row of the authentication table.
#[derive(Debug, Clone, PartialEq)]
pub struct UserRecord {
    pub user_id: String,
    pub password: String,
}

/// One row of the left join of the consumers onto the topics. The consumer
/// side is absent where nobody consumes the topic.
#[derive(Debug, Clone, PartialEq)]
pub struct JoinedRecord {
    pub owner: String,
    pub topic: String,
    pub consumer_group: Option<String>,
    pub consumer_app: Option<String>,
}

pub struct JoinedRow {
    pub owner: Seq<char>,
    pub topic: Seq<char>,
    pub consumer_group: Option<Seq<char>>,
    pub consumer_app: Option<Seq<char>>,
}

impl View for JoinedRecord {
    type V = JoinedRow;

    open spec fn view(&self) -> JoinedRow {
        JoinedRow {
            owner: self.owner@,
            topic: self.topic@,
            consumer_group: crate::entities::opt_view(self.consumer_group),
            consumer_app: crate::entities::opt_view(self.consumer_app),
        }
    }
}

pub open spec fn topic_views(s: Seq<TopicRecord>) -> Seq<TopicView> {
    s.map_values(|r: TopicRecord| r@)
}

pub open spec fn consumer_views(s: Seq<ConsumerRecord>) -> Seq<ConsumerView> {
    s.map_values(|r: ConsumerRecord| r@)
}

pub open spec fn joined_views(s: Seq<JoinedRecord>) -> Seq<JoinedRow> {
    s.map_values(|r: JoinedRecord| r@)
}

pub open spec fn row_views(s: Seq<SearchKafkaResponse>) -> Seq<SearchRowView> {
    s.map_values(|r: SearchKafkaResponse| r@)
}

/// The joined row of a topic and one of its consumers.
pub open spec fn matched(t: TopicView, c: ConsumerView) -> JoinedRow {
    JoinedRow {
        owner: t.owner,
        topic: t.topic,
        consumer_group: Some(c.consumer_group),
        consumer_app: c.consumer_app,
    }
}

/// The joined row of a topic that nobody consumes.
pub open spec fn unmatched(t: TopicView) -> JoinedRow {
    JoinedRow { owner: t.owner, topic: t.topic, consumer_group: None, consumer_app: None }
}

/// The rows of a topic with each of its consumers, in the consumers' order.
pub open spec fn matches_of(t: TopicView, cs: Seq<ConsumerView>) -> Seq<JoinedRow>
    decreases cs.len(),
{
    if cs.len() == 0 {
        Seq::empty()
    } else if cs.last().consumed_topic == Some(t.topic) {
        matches_of(t, cs.drop_last()).push(matched(t, cs.last()))
    } else {
        matches_of(t, cs.drop_last())
    }
}

/// The rows that one topic contributes to the left join.
pub open spec fn rows_of(t: TopicView, cs: Seq<ConsumerView>) -> Seq<JoinedRow> {
    if matches_of(t, cs).len() == 0 {
        seq![unmatched(t)]
    } else {
        matches_of(t, cs)
    }
}

/// The left outer join of the consumers onto the topics on
/// `consumed_topic == topic`: topic after topic in the inventory's order.
pub open spec fn left_join(ts: Seq<TopicView>, cs: Seq<ConsumerView>) -> Seq<JoinedRow>
    decreases ts.len(),
{
    if ts.len() == 0 {
        Seq::empty()
    } else {
        left_join(ts.drop_last(), cs) + rows_of(ts.last(), cs)
    }
}

/// The inner join: the rows of every topic with each of its consumers.
pub open spec fn inner_join(ts: Seq<TopicView>, cs: Seq<ConsumerView>) -> Seq<JoinedRow>
    decreases ts.len(),
{
    if ts.len() == 0 {
        Seq::empty()
    } else {
        inner_join(ts.drop_last(), cs) + matches_of(ts.last(), cs)
    }
}

impl SearchFilter {
    /// The filter with no predicate set.
    pub open spec fn none() -> SearchFilter {
        SearchFilter { owner: None, topic: None, consumer_app: None }
    }

    /// Whether a joined row passes: its consumer side is there, and every
    /// predicate that is set holds of it.
    pub open spec fn admits(self, row: JoinedRow) -> bool {
        &&& row.consumer_app is Some
        &&& self.owner matches Some(o) ==> row.owner == o
        &&& self.topic matches Some(t) ==> row.topic == t
        &&& self.consumer_app matches Some(c) ==> row.consumer_app == Some(c)
    }

    /// Whether `self` asks no more than `other`: each predicate of `self`
    /// is unset or is the same predicate of `other`.
    pub open spec fn relaxes(self, other: SearchFilter) -> bool {
        &&& self.owner is Some ==> self.owner == other.owner
        &&& self.topic is Some ==> self.topic == other.topic
        &&& self.consumer_app is Some ==> self.consumer_app == other.consumer_app
    }
}

/// The rows that pass the filter, in their order.
pub open spec fn select(rows: Seq<JoinedRow>, f: SearchFilter) -> Seq<JoinedRow>
    decreases rows.len(),
{
    if rows.len() == 0 {
        Seq::empty()
    } else if f.admits(rows.last()) {
        select(rows.drop_last(), f).push(rows.last())
    } else {
        select(rows.drop_last(), f)
    }
}

/// The flat shape in which a joined row is handed out.
pub open spec fn flat(row: JoinedRow) -> SearchRowView {
    SearchRowView {
        app_owner: row.owner,
        topic_name: row.topic,
        consumer_group_id: match row.consumer_group {
            Some(g) => g,
            None => Seq::empty(),
        },
        consumer_app: match row.consumer_app {
            Some(a) => a,
            None => Seq::empty(),
        },
        description: Seq::empty(),
    }
}

/// What a structured search returns: the rows of the left join that pass
/// the filter, flattened.
pub open spec fn search_rows(ts: Seq<TopicView>, cs: Seq<ConsumerView>, f: SearchFilter) -> Seq<
    SearchRowView,
> {
    select(left_join(ts, cs), f).map_values(|r: JoinedRow| flat(r))
}

fn clone_opt(s: &Option<String>) -> (r: Option<String>)
    ensures
        crate::entities::opt_view(r) == crate::entities::opt_view(*s),
{
    match s {
        Some(t) => Some(t.clone()),
        None => None,
    }
}

/// The left outer join of the consumers onto the inventory.
pub fn join(ds_inventory: &Vec<TopicRecord>, ds_consumer: &Vec<ConsumerRecord>) -> (joined: Vec<
    JoinedRecord,
>)
    ensures
        joined_views(joined@) == left_join(topic_views(ds_inventory@), consumer_views(ds_consumer@)),
{
    let ghost ts = topic_views(ds_inventory@);
    let ghost cs = consumer_views(ds_consumer@);
    let mut joined: Vec<JoinedRecord> = Vec::new();
    let mut i: usize = 0;
    assert(joined_views(joined@) =~= left_join(ts.take(0), cs));
    while i < ds_inventory.len()
        invariant
            i <= ds_inventory.len(),
            ts == topic_views(ds_inventory@),
            cs == consumer_views(ds_consumer@),
            joined_views(joined@) == left_join(ts.take(i as int), cs),
        decreases ds_inventory.len() - i,
    {
        let t = &ds_inventory[i];
        let ghost before = joined@;
        let mut found = false;
        let mut j: usize = 0;
        assert(joined_views(joined@) =~= joined_views(before) + matches_of(t@, cs.take(0)));
        while j < ds_consumer.len()
            invariant
                j <= ds_consumer.len(),
                cs == consumer_views(ds_consumer@),
                joined_views(joined@) == joined_views(before) + matches_of(t@, cs.take(j as int)),
                found == (matches_of(t@, cs.take(j as int)).len() > 0),
            decreases ds_consumer.len() - j,
        {
            let c = &ds_consumer[j];
            let ghost prev = joined@;
            assert(cs.take(j + 1).drop_last() =~= cs.take(j as int));
            assert(cs.take(j + 1).last() == c@);
            if text_matches(&c.consumed_topic, &t.topic) && c.consumed_topic.is_some() {
                let row = JoinedRecord {
                    owner: t.owner.clone(),
                    topic: t.topic.clone(),
                    consumer_group: Some(c.consumer_group.clone()),
                    consumer_app: clone_opt(&c.consumer_app),
                };
                assert(row@ == matched(t@, c@));
                joined.push(row);
                found = true;
                assert(joined_views(joined@) =~= joined_views(prev).push(matched(t@, c@)));
                assert(joined_views(joined@) =~= joined_views(before) + matches_of(
                    t@,
                    cs.take(j + 1),
                ));
            }
            j += 1;
        }
        assert(cs.take(ds_consumer.len() as int) =~= cs);
        if !found {
            let row = JoinedRecord {
                owner: t.owner.clone(),
                topic: t.topic.clone(),
                consumer_group: None,
                consumer_app: None,
            };
            assert(row@ == unmatched(t@));
            let ghost prev = joined@;
            joined.push(row);
            assert(joined_views(joined@) =~= joined_views(before) + seq![unmatched(t@)]);
        }
        assert(joined_views(joined@) == joined_views(before) + rows_of(t@, cs));
        assert(ts.take(i + 1).drop_last() =~= ts.take(i as int));
        assert(ts.take(i + 1).last() == t@);
        i += 1;
    }
    assert(ts.take(ds_inventory.len() as int) =~= ts);
    joined
}

fn text_matches(wanted: &Option<String>, actual: &String) -> (r: bool)
    ensures
        r == (crate::entities::opt_view(*wanted) matches Some(w) ==> actual@ == w),
{
    match wanted {
        Some(w) => *w == *actual,
        None => true,
    }
}

/// Whether a joined row passes the predicates of a request.
pub fn admits(search_request: &SearchKafkaRequest, row: &JoinedRecord) -> (r: bool)
    ensures
        r == search_request.filter().admits(row@),
{
    match &row.consumer_app {
        None => false,
        Some(app) => text_matches(&search_request.app_owner, &row.owner) && text_matches(
            &search_request.topic_name,
            &row.topic,
        ) && text_matches(&search_request.consumer_app, app),
    }
}

/// The structured search: the rows of the left join of the consumers onto
/// the inventory that have a consumer and match every field that the
/// request sets, in the join's order.
pub fn search(
    ds_inventory: &Vec<TopicRecord>,
    ds_consumer: &Vec<ConsumerRecord>,
    search_request: &SearchKafkaRequest,
) -> (result: Vec<SearchKafkaResponse>)
    ensures
        row_views(result@) == search_rows(
            topic_views(ds_inventory@),
            consumer_views(ds_consumer@),
            search_request.filter(),
        ),
{
    let joined = join(ds_inventory, ds_consumer);
    let ghost rows = joined_views(joined@);
    let ghost f = search_request.filter();
    let mut result: Vec<SearchKafkaResponse> = Vec::new();
    let mut i: usize = 0;
    assert(row_views(result@) =~= select(rows.take(0), f).map_values(|r: JoinedRow| flat(r)));
    while i < joined.len()
        invariant
            i <= joined.len(),
            rows == joined_views(joined@),
            f == search_request.filter(),
            row_views(result@) == select(rows.take(i as int), f).map_values(|r: JoinedRow| flat(r)),
        decreases joined.len() - i,
    {
        let row = &joined[i];
        let ghost prev = result@;
        assert(rows.take(i + 1).drop_last() =~= rows.take(i as int));
        assert(rows.take(i + 1).last() == row@);
        if admits(search_request, row) {
            let out = SearchKafkaResponse {
                app_owner: row.owner.clone(),
                topic_name: row.topic.clone(),
                consumer_group_id: match &row.consumer_group {
                    Some(g) => g.clone(),
                    None => String::new(),
                },
                consumer_app: match &row.consumer_app {
                    Some(a) => a.clone(),
                    None => String::new(),
                },
                description: String::new(),
            };
            assert(out@ == flat(row@));
            result.push(out);
            assert(row_views(result@) =~= row_views(prev).push(flat(row@)));
            assert(select(rows.take(i + 1), f).map_values(|r: JoinedRow| flat(r)) =~= select(
                rows.take(i as int),
                f,
            ).map_values(|r: JoinedRow| flat(r)).push(flat(row@)));
        }
        i += 1;
    }
    assert(rows.take(joined.len() as int) =~= rows);
    result
}

/// Selecting distributes over concatenation.
pub proof fn lemma_select_concat(a: Seq<JoinedRow>, b: Seq<JoinedRow>, f: SearchFilter)
    ensures
        select(a + b, f) == select(a, f) + select(b, f),
    decreases b.len(),
{
    if b.len() == 0 {
        assert(a + b =~= a);
        assert(select(a, f) + select(b, f) =~= select(a, f));
    } else {
        assert((a + b).drop_last() =~= a + b.drop_last());
        assert((a + b).last() == b.last());
        lemma_select_concat(a, b.drop_last(), f);
        if f.admits(b.last()) {
            assert(select(a, f) + select(b.drop_last(), f).push(b.last()) =~= (select(a, f)
                + select(b.drop_last(), f)).push(b.last()));
        }
    }
}

/// With no predicate set, a search keeps exactly the rows of the join that
/// have a consumer side, in the join's order. A topic that nobody consumes
/// gives none, so they are the rows of the inner join that have one.
pub proof fn lemma_unfiltered_search_is_inner_join(ts: Seq<TopicView>, cs: Seq<ConsumerView>)
    ensures
        select(left_join(ts, cs), SearchFilter::none()) == select(
            inner_join(ts, cs),
            SearchFilter::none(),
        ),
        search_rows(ts, cs, SearchFilter::none()) == select(
            inner_join(ts, cs),
            SearchFilter::none(),
        ).map_values(|r: JoinedRow| flat(r)),
        forall|row: JoinedRow|
            SearchFilter::none().admits(row) <==> row.consumer_app is Some,
    decreases ts.len(),
{
    let none = SearchFilter::none();
    if ts.len() > 0 {
        lemma_unfiltered_search_is_inner_join(ts.drop_last(), cs);
        lemma_select_concat(left_join(ts.drop_last(), cs), rows_of(ts.last(), cs), none);
        lemma_select_concat(inner_join(ts.drop_last(), cs), matches_of(ts.last(), cs), none);
        if matches_of(ts.last(), cs).len() == 0 {
            let one = seq![unmatched(ts.last())];
            let nothing = Seq::<JoinedRow>::empty();
            assert(one.drop_last() =~= nothing);
            assert(one.last() == unmatched(ts.last()));
            assert(!none.admits(one.last()));
            assert(select(nothing, none) =~= nothing);
            assert(select(one, none) =~= nothing);
            assert(matches_of(ts.last(), cs) =~= nothing);
            assert(rows_of(ts.last(), cs) == one);
        }
    }
}

/// A search on an unchanged store finds the same rows again: what it
/// returns is a function of the two tables and the filter.
pub proof fn lemma_search_is_repeatable(
    ts: Seq<TopicView>,
    cs: Seq<ConsumerView>,
    f: SearchFilter,
    first: Seq<SearchRowView>,
    second: Seq<SearchRowView>,
)
    requires
        first == search_rows(ts, cs, f),
        second == search_rows(ts, cs, f),
    ensures
        first == second,
{
}

/// Every row that a search keeps passes the filter: it has its consumer
/// side and meets each predicate that is set. And every kept row is a row
/// of the input.
pub proof fn lemma_selected_rows_pass(rows: Seq<JoinedRow>, f: SearchFilter)
    ensures
        forall|i: int| 0 <= i < select(rows, f).len() ==> f.admits(#[trigger] select(rows, f)[i]),
        forall|i: int|
            0 <= i < select(rows, f).len() ==> rows.contains(#[trigger] select(rows, f)[i]),
        select(rows, f).len() <= rows.len(),
    decreases rows.len(),
{
    if rows.len() > 0 {
        lemma_selected_rows_pass(rows.drop_last(), f);
        let kept = select(rows, f);
        assert forall|i: int| 0 <= i < kept.len() implies rows.contains(#[trigger] kept[i]) by {
            if f.admits(rows.last()) && i == kept.len() - 1 {
                assert(rows[rows.len() - 1] == kept[i]);
            } else {
                let r = select(rows.drop_last(), f)[i];
                assert(rows.drop_last().contains(r));
                let k = choose|k: int| 0 <= k < rows.drop_last().len() && rows.drop_last()[k] == r;
                assert(rows[k] == r);
            }
        }
    }
}

/// A row of the input that passes the filter is kept.
pub proof fn lemma_passing_rows_selected(rows: Seq<JoinedRow>, f: SearchFilter, k: int)
    requires
        0 <= k < rows.len(),
        f.admits(rows[k]),
    ensures
        select(rows, f).contains(rows[k]),
    decreases rows.len(),
{
    if k == rows.len() - 1 {
        assert(select(rows, f)[select(rows, f).len() - 1] == rows[k]);
    } else {
        lemma_passing_rows_selected(rows.drop_last(), f, k);
        let kept = select(rows.drop_last(), f);
        let j = choose|j: int| 0 <= j < kept.len() && kept[j] == rows[k];
        assert(select(rows, f)[j] == rows[k]);
    }
}

/// Selecting by a filter after selecting by one that asks no more gives
/// what selecting by the stricter filter alone gives.
pub proof fn lemma_select_after_relaxed(rows: Seq<JoinedRow>, f: SearchFilter, g: SearchFilter)
    requires
        g.relaxes(f),
    ensures
        select(select(rows, g), f) == select(rows, f),
    decreases rows.len(),
{
    if rows.len() > 0 {
        lemma_select_after_relaxed(rows.drop_last(), f, g);
        if g.admits(rows.last()) {
            assert(select(rows, g).drop_last() =~= select(rows.drop_last(), g));
        }
    }
}

/// Taking a predicate away never loses a row: where `relaxed` asks no more
/// than `strict`, every row found under `strict` is found under `relaxed`,
/// which finds at least as many.
pub proof fn lemma_relaxing_never_shrinks(
    ts: Seq<TopicView>,
    cs: Seq<ConsumerView>,
    strict: SearchFilter,
    relaxed: SearchFilter,
)
    requires
        relaxed.relaxes(strict),
    ensures
        select(left_join(ts, cs), strict) == select(select(left_join(ts, cs), relaxed), strict),
        forall|i: int|
            0 <= i < search_rows(ts, cs, strict).len() ==> search_rows(ts, cs, relaxed).contains(
                #[trigger] search_rows(ts, cs, strict)[i],
            ),
        search_rows(ts, cs, strict).len() <= search_rows(ts, cs, relaxed).len(),
{
    let rows = left_join(ts, cs);
    let wide = select(rows, relaxed);
    lemma_select_after_relaxed(rows, strict, relaxed);
    lemma_selected_rows_pass(wide, strict);
    assert forall|i: int| 0 <= i < search_rows(ts, cs, strict).len() implies search_rows(
        ts,
        cs,
        relaxed,
    ).contains(#[trigger] search_rows(ts, cs, strict)[i]) by {
        let kept = select(wide, strict)[i];
        assert(wide.contains(kept));
        let j = choose|j: int| 0 <= j < wide.len() && wide[j] == kept;
        assert(search_rows(ts, cs, relaxed)[j] == flat(kept));
    }
}

impl SearchFilter {
    /// Whether a returned row meets every predicate that is set, with
    /// equality.
    pub open spec fn met_by(self, row: SearchRowView) -> bool {
        &&& self.owner matches Some(o) ==> row.app_owner == o
        &&& self.topic matches Some(t) ==> row.topic_name == t
        &&& self.consumer_app matches Some(c) ==> row.consumer_app == c
    }
}

/// Every row that a search returns meets each predicate that the filter
/// sets, and is the flat form of a row of the join that has a consumer.
pub proof fn lemma_search_has_no_false_positive(
    ts: Seq<TopicView>,
    cs: Seq<ConsumerView>,
    f: SearchFilter,
)
    ensures
        forall|i: int|
            0 <= i < search_rows(ts, cs, f).len() ==> f.met_by(#[trigger] search_rows(ts, cs, f)[i]),
        forall|i: int|
            0 <= i < search_rows(ts, cs, f).len() ==> {
                &&& (#[trigger] select(left_join(ts, cs), f)[i]).consumer_app is Some
                &&& left_join(ts, cs).contains(select(left_join(ts, cs), f)[i])
                &&& search_rows(ts, cs, f)[i] == flat(select(left_join(ts, cs), f)[i])
            },
{
    let rows = left_join(ts, cs);
    lemma_selected_rows_pass(rows, f);
    assert forall|i: int| 0 <= i < search_rows(ts, cs, f).len() implies f.met_by(
        #[trigger] search_rows(ts, cs, f)[i],
    ) by {
        let kept = select(rows, f)[i];
        assert(f.admits(kept));
        assert(search_rows(ts, cs, f)[i] == flat(kept));
    }
    assert forall|i: int| 0 <= i < search_rows(ts, cs, f).len() implies {
        &&& (#[trigger] select(left_join(ts, cs), f)[i]).consumer_app is Some
        &&& left_join(ts, cs).contains(select(left_join(ts, cs), f)[i])
        &&& search_rows(ts, cs, f)[i] == flat(select(left_join(ts, cs), f)[i])
    } by {
        let kept = select(rows, f)[i];
        assert(f.admits(kept));
    }
}

/// Whether the table holds a row with this user and this password.
pub open spec fn has_user(users: Seq<UserRecord>, user_name: Seq<char>, password: Seq<char>) -> bool {
    exists|i: int|
        0 <= i < users.len() && (#[trigger] users[i]).user_id@ == user_name && users[i].password@
            == password
}

/// Whether the authentication table holds a row with this user and this
/// password. The two are compared as they stand.
pub fn post_login(ds: &Vec<UserRecord>, user_name: &String, password: &String) -> (found: bool)
    ensures
        found == has_user(ds@, user_name@, password@),
{
    let mut i: usize = 0;
    while i < ds.len()
        invariant
            i <= ds.len(),
            forall|k: int|
                0 <= k < i ==> !((#[trigger] ds@[k]).user_id@ == user_name@ && ds@[k].password@
                    == password@),
        decreases ds.len() - i,
    {
        if ds[i].user_id == *user_name && ds[i].password == *password {
            return true;
        }
        i += 1;
    }
    false
}

/// Each text comes strictly before the next in dictionary order, so none
/// occurs twice.
pub open spec fn strictly_ascending(v: Seq<Seq<char>>) -> bool {
    forall|i: int, j: int| 0 <= i < j < v.len() ==> lex_lt(#[trigger] v[i], #[trigger] v[j])
}

/// `out` lists the texts of `keys` in ascending order, each once.
pub open spec fn is_sorted_listing(out: Seq<Seq<char>>, keys: Seq<Seq<char>>) -> bool {
    &&& strictly_ascending(out)
    &&& forall|k: Seq<char>| out.contains(k) <==> keys.contains(k)
}

/// Two ascending listings of the same texts are the same listing.
pub proof fn lemma_ascending_same_texts(a: Seq<Seq<char>>, b: Seq<Seq<char>>)
    requires
        strictly_ascending(a),
        strictly_ascending(b),
        forall|k: Seq<char>| a.contains(k) <==> b.contains(k),
    ensures
        a == b,
    decreases a.len(),
{
    if a.len() == 0 {
        if b.len() > 0 {
            assert(b.contains(b[0]));
        }
        assert(a =~= b);
    } else if b.len() == 0 {
        assert(a.contains(a[0]));
    } else {
        let x = a.last();
        let y = b.last();
        assert(a.contains(x));
        assert(b.contains(y));
        let i = choose|i: int| 0 <= i < b.len() && b[i] == x;
        let j = choose|j: int| 0 <= j < a.len() && a[j] == y;
        crate::text::lemma_lex_lt_total(x, y);
        if x != y {
            if i < b.len() - 1 {
                assert(lex_lt(b[i], b[b.len() - 1]));
            }
            if j < a.len() - 1 {
                assert(lex_lt(a[j], a[a.len() - 1]));
            }
        }
        assert(x == y);
        let a0 = a.drop_last();
        let b0 = b.drop_last();
        assert(strictly_ascending(a0)) by {
            assert forall|i: int, j: int| 0 <= i < j < a0.len() implies lex_lt(
                #[trigger] a0[i],
                #[trigger] a0[j],
            ) by {
                assert(lex_lt(a[i], a[j]));
            }
        }
        assert(strictly_ascending(b0)) by {
            assert forall|i: int, j: int| 0 <= i < j < b0.len() implies lex_lt(
                #[trigger] b0[i],
                #[trigger] b0[j],
            ) by {
                assert(lex_lt(b[i], b[j]));
            }
        }
        assert forall|k: Seq<char>| a0.contains(k) <==> b0.contains(k) by {
            lemma_ascending_front(a, b, k);
            lemma_ascending_front(b, a, k);
        }
        lemma_ascending_same_texts(a0, b0);
        assert(a =~= a0.push(x));
        assert(b =~= b0.push(y));
    }
}

proof fn lemma_ascending_front(a: Seq<Seq<char>>, b: Seq<Seq<char>>, k: Seq<char>)
    requires
        strictly_ascending(a),
        strictly_ascending(b),
        forall|t: Seq<char>| a.contains(t) <==> b.contains(t),
        a.len() > 0,
        b.len() > 0,
        a.last() == b.last(),
    ensures
        a.drop_last().contains(k) ==> b.drop_last().contains(k),
{
    let a0 = a.drop_last();
    if a0.contains(k) {
        let i = choose|i: int| 0 <= i < a0.len() && a0[i] == k;
        assert(a[i] == k);
        assert(a.contains(k));
        assert(lex_lt(a[i], a[a.len() - 1]));
        crate::text::lemma_lex_lt_irreflexive(k);
        assert(b.contains(k));
        let m = choose|m: int| 0 <= m < b.len() && b[m] == k;
        assert(m < b.len() - 1);
        assert(b.drop_last()[m] == k);
    }
}

/// The sorted listing of given keys is unique: the contract of a listing
/// leaves its result no freedom.
pub proof fn lemma_sorted_listing_unique(a: Seq<Seq<char>>, b: Seq<Seq<char>>, keys: Seq<Seq<char>>)
    requires
        is_sorted_listing(a, keys),
        is_sorted_listing(b, keys),
    ensures
        a == b,
{
    lemma_ascending_same_texts(a, b);
}

/// The given keys in ascending dictionary order, each once.
pub fn sorted_distinct(keys: &Vec<String>) -> (out: Vec<String>)
    ensures
        is_sorted_listing(views(out@), views(keys@)),
{
    let mut acc: Vec<Vec<char>> = Vec::new();
    let mut i: usize = 0;
    while i < keys.len()
        invariant
            i <= keys.len(),
            strictly_ascending(vec_views(acc@)),
            forall|k: Seq<char>|
                vec_views(acc@).contains(k) <==> views(keys@).take(i as int).contains(k),
        decreases keys.len() - i,
    {
        let key = chars_of(keys[i].as_str());
        let ghost before = vec_views(acc@);
        let ghost seen = views(keys@).take(i as int);
        let ghost next = views(keys@).take(i + 1);
        assert(next =~= seen.push(key@));
        let mut at: usize = 0;
        while at < acc.len() && matches!(compare(&acc[at], &key), Order::Before)
            invariant
                at <= acc.len(),
                before == vec_views(acc@),
                forall|k: int| 0 <= k < at ==> lex_lt(#[trigger] before[k], key@),
            decreases acc.len() - at,
        {
            at += 1;
        }
        let present = at < acc.len() && matches!(compare(&acc[at], &key), Order::Same);
        if present {
            assert(before[at as int] == key@);
            assert forall|k: Seq<char>| before.contains(k) <==> next.contains(k) by {
                if next.contains(k) {
                    let j = choose|j: int| 0 <= j < next.len() && next[j] == k;
                    if j < seen.len() {
                        assert(seen[j] == k);
                        assert(seen.contains(k));
                    } else {
                        assert(before.contains(k));
                    }
                }
                if before.contains(k) {
                    assert(seen.contains(k));
                    let j = choose|j: int| 0 <= j < seen.len() && seen[j] == k;
                    assert(next[j] == k);
                }
            }
        } else {
            proof {
                if at < acc.len() {
                    assert(lex_lt(key@, before[at as int]));
                    assert forall|k: int| at < k < before.len() implies lex_lt(
                        key@,
                        #[trigger] before[k],
                    ) by {
                        assert(lex_lt(before[at as int], before[k]));
                        lemma_lex_lt_transitive(key@, before[at as int], before[k]);
                    }
                }
            }
            acc.insert(at, key);
            let ghost after = vec_views(acc@);
            assert(after =~= before.insert(at as int, key@));
            assert forall|a: int, b: int| 0 <= a < b < after.len() implies lex_lt(
                #[trigger] after[a],
                #[trigger] after[b],
            ) by {
                if a < at && b > at {
                    assert(lex_lt(before[a], before[b - 1]));
                } else if a < at && b < at {
                    assert(lex_lt(before[a], before[b]));
                } else if a > at {
                    assert(lex_lt(before[a - 1], before[b - 1]));
                } else if a == at {
                    assert(after[b] == before[b - 1]);
                } else {
                    assert(after[a] == before[a]);
                }
            }
            assert forall|k: Seq<char>| after.contains(k) <==> next.contains(k) by {
                if next.contains(k) {
                    let j = choose|j: int| 0 <= j < next.len() && next[j] == k;
                    if j < seen.len() {
                        assert(seen[j] == k);
                        assert(seen.contains(k));
                        assert(before.contains(k));
                        let m = choose|m: int| 0 <= m < before.len() && before[m] == k;
                        if m < at {
                            assert(after[m] == k);
                        } else {
                            assert(after[m + 1] == k);
                        }
                    } else {
                        assert(after[at as int] == k);
                    }
                }
                if after.contains(k) {
                    let m = choose|m: int| 0 <= m < after.len() && after[m] == k;
                    if m == at {
                        assert(next[i as int] == k);
                    } else {
                        if m < at {
                            assert(before[m] == k);
                        } else {
                            assert(before[m - 1] == k);
                        }
                        assert(before.contains(k));
                        assert(seen.contains(k));
                        let j = choose|j: int| 0 <= j < seen.len() && seen[j] == k;
                        assert(next[j] == k);
                    }
                }
            }
        }
        i += 1;
    }
    assert(views(keys@).take(keys.len() as int) =~= views(keys@));
    let mut out: Vec<String> = Vec::new();
    let mut j: usize = 0;
    while j < acc.len()
        invariant
            j <= acc.len(),
            views(out@) == vec_views(acc@).take(j as int),
        decreases acc.len() - j,
    {
        let s = string_of(&acc[j]);
        let ghost prev = views(out@);
        out.push(s);
        assert(views(out@) =~= prev.push(s@));
        assert(vec_views(acc@).take(j + 1) =~= vec_views(acc@).take(j as int).push(acc@[j as int]@));
        j += 1;
    }
    assert(vec_views(acc@).take(acc.len() as int) =~= vec_views(acc@));
    out
}

/// The owners of the inventory's rows, row by row.
pub open spec fn owners_of(ts: Seq<TopicView>) -> Seq<Seq<char>> {
    ts.map_values(|t: TopicView| t.owner)
}

/// The topics of the rows that `owner` owns, in the inventory's order.
pub open spec fn topics_of(ts: Seq<TopicView>, owner: Seq<char>) -> Seq<Seq<char>>
    decreases ts.len(),
{
    if ts.len() == 0 {
        Seq::empty()
    } else if ts.last().owner == owner {
        topics_of(ts.drop_last(), owner).push(ts.last().topic)
    } else {
        topics_of(ts.drop_last(), owner)
    }
}

/// The projects of the registrations, row by row: the consumers as the
/// table names them.
pub open spec fn consumers_of(cs: Seq<ConsumerView>) -> Seq<Seq<char>> {
    cs.map_values(|c: ConsumerView| c.owner)
}

/// The owners in the inventory: ascending, each once.
pub fn get_app_list(ds: &Vec<TopicRecord>) -> (apps: Vec<String>)
    ensures
        is_sorted_listing(views(apps@), owners_of(topic_views(ds@))),
{
    let mut keys: Vec<String> = Vec::new();
    let mut i: usize = 0;
    while i < ds.len()
        invariant
            i <= ds.len(),
            views(keys@) == owners_of(topic_views(ds@)).take(i as int),
        decreases ds.len() - i,
    {
        let ghost prev = views(keys@);
        let k = ds[i].owner.clone();
        keys.push(k);
        assert(views(keys@) =~= prev.push(ds@[i as int].owner@));
        assert(owners_of(topic_views(ds@)).take(i + 1) =~= owners_of(topic_views(ds@)).take(
            i as int,
        ).push(ds@[i as int].owner@));
        i += 1;
    }
    assert(owners_of(topic_views(ds@)).take(ds.len() as int) =~= owners_of(topic_views(ds@)));
    sorted_distinct(&keys)
}

/// The topics that `app_name` owns: ascending, each once.
pub fn get_topic_list(ds: &Vec<TopicRecord>, app_name: &String) -> (topics: Vec<String>)
    ensures
        is_sorted_listing(views(topics@), topics_of(topic_views(ds@), app_name@)),
{
    let ghost ts = topic_views(ds@);
    let mut keys: Vec<String> = Vec::new();
    let mut i: usize = 0;
    assert(views(keys@) =~= topics_of(ts.take(0), app_name@));
    while i < ds.len()
        invariant
            i <= ds.len(),
            ts == topic_views(ds@),
            views(keys@) == topics_of(ts.take(i as int), app_name@),
        decreases ds.len() - i,
    {
        let ghost prev = views(keys@);
        assert(ts.take(i + 1).drop_last() =~= ts.take(i as int));
        assert(ts.take(i + 1).last() == ds@[i as int]@);
        if ds[i].owner == *app_name {
            let k = ds[i].topic.clone();
            keys.push(k);
            assert(views(keys@) =~= prev.push(ds@[i as int].topic@));
        }
        i += 1;
    }
    assert(ts.take(ds.len() as int) =~= ts);
    sorted_distinct(&keys)
}

/// The consumers among the registrations, by project: ascending, each
/// once.
pub fn get_consumer_list(ds: &Vec<ConsumerRecord>) -> (consumers: Vec<String>)
    ensures
        is_sorted_listing(views(consumers@), consumers_of(consumer_views(ds@))),
{
    let mut keys: Vec<String> = Vec::new();
    let mut i: usize = 0;
    while i < ds.len()
        invariant
            i <= ds.len(),
            views(keys@) == consumers_of(consumer_views(ds@)).take(i as int),
        decreases ds.len() - i,
    {
        let ghost prev = views(keys@);
        let k = ds[i].owner.clone();
        keys.push(k);
        assert(views(keys@) =~= prev.push(ds@[i as int].owner@));
        assert(consumers_of(consumer_views(ds@)).take(i + 1) =~= consumers_of(
            consumer_views(ds@),
        ).take(i as int).push(ds@[i as int].owner@));
        i += 1;
    }
    assert(consumers_of(consumer_views(ds@)).take(ds.len() as int) =~= consumers_of(
        consumer_views(ds@),
    ));
    sorted_distinct(&keys)
}

} // verus!
