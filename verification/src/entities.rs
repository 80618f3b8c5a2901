//! The values that cross the service's boundary: logins, credentials,
//! structured search requests and rows, flow chart items and errors.

use vstd::prelude::*;
use vstd::string::*;
use crate::clock::unix_now;
use crate::text::{chars_of, string_of};

verus! {

/// The seconds a credential stays valid after it is issued.
pub const TOKEN_LIFETIME: usize = 3600;

/// A login attempt.
#[derive(Debug, Clone, PartialEq)]
pub struct UserLogin {
    pub username: String,
    pub password: String,
}

/// What a successful login hands back.
#[derive(Debug, Clone, PartialEq)]
pub struct JwtResponse {
    pub token: String,
    pub token_type: String,
    pub expires_in: usize,
}

pub struct JwtResponseView {
    pub token: Seq<char>,
    pub token_type: Seq<char>,
    pub expires_in: nat,
}

impl View for JwtResponse {
    type V = JwtResponseView;

    open spec fn view(&self) -> JwtResponseView {
        JwtResponseView {
            token: self.token@,
            token_type: self.token_type@,
            expires_in: self.expires_in as nat,
        }
    }
}

/// Why the token guard turns a request away.
#[derive(Clone, Copy, Debug, PartialEq, Eq, Structural)]
pub enum AuthError {
    Unauthorized,
}

impl AuthError {
    pub open spec fn text(self) -> Seq<char> {
        "Unauthorized"@
    }

    /// The message shown for this error.
    pub fn message(&self) -> (s: String)
        ensures
            s@ == self.text(),
    {
        "Unauthorized".to_owned()
    }

    /// The kind of failure that this error is reported as.
    pub fn kind(&self) -> (kind: ErrorKind)
        ensures
            kind == ErrorKind::Unauthorized,
    {
        ErrorKind::Unauthorized
    }
}

/// The kinds of failure that a request can end in.
#[derive(Clone, Copy, Debug, PartialEq, Eq, Structural)]
pub enum ErrorKind {
    /// A dataset or index that the request needs was never loaded.
    NotConfigured,
    /// No row of the authentication table has this user and password.
    InvalidCredentials,
    /// The bearer token is missing, malformed, forged or expired.
    Unauthorized,
    /// The semantic retriever or the completion client failed.
    UpstreamFailure,
    /// The completion client answered with no choice at all.
    EmptyResult,
    /// The query could not be run, or the request carries none.
    QueryFailed,
    /// A credential could not be minted.
    SigningFailed,
}

impl ErrorKind {
    pub open spec fn text(self) -> Seq<char> {
        match self {
            ErrorKind::NotConfigured => "required dataset or index is not configured"@,
            ErrorKind::InvalidCredentials => "Invalid username or password"@,
            ErrorKind::Unauthorized => "Unauthorized"@,
            ErrorKind::UpstreamFailure => "upstream service failed"@,
            ErrorKind::EmptyResult => "completion result is empty"@,
            ErrorKind::QueryFailed => "query failed"@,
            ErrorKind::SigningFailed => "Failed to encode jwt token"@,
        }
    }

    /// The single message under which this kind of failure is reported.
    pub fn message(&self) -> (s: String)
        ensures
            s@ == self.text(),
    {
        match self {
            ErrorKind::NotConfigured => "required dataset or index is not configured".to_owned(),
            ErrorKind::InvalidCredentials => "Invalid username or password".to_owned(),
            ErrorKind::Unauthorized => "Unauthorized".to_owned(),
            ErrorKind::UpstreamFailure => "upstream service failed".to_owned(),
            ErrorKind::EmptyResult => "completion result is empty".to_owned(),
            ErrorKind::QueryFailed => "query failed".to_owned(),
            ErrorKind::SigningFailed => "Failed to encode jwt token".to_owned(),
        }
    }

    /// The error that the caller is shown for this kind of failure.
    pub fn to_error(&self) -> (e: APIError)
        ensures
            e@ == self.text(),
    {
        APIError { error: self.message() }
    }
}

/// The opaque error that every failed request is answered with.
#[derive(Debug, Clone, PartialEq)]
pub struct APIError {
    error: String,
}

impl View for APIError {
    type V = Seq<char>;

    closed spec fn view(&self) -> Seq<char> {
        self.error@
    }
}

impl APIError {
    pub fn new(error: &str) -> (e: APIError)
        ensures
            e@ == error@,
    {
        APIError { error: error.to_owned() }
    }

    /// The message of this error.
    pub fn message(&self) -> (s: String)
        ensures
            s@ == self@,
    {
        self.error.clone()
    }
}

/// The envelope of every successful answer.
#[derive(Debug, Clone, PartialEq)]
pub struct APIResponse<T> {
    pub data: T,
}

/// The payload of a credential.
#[derive(Debug, PartialEq)]
pub struct Claims {
    sub: String,
    exp: usize,
    iat: usize,
    iss: String,
    aud: String,
}

pub struct ClaimsView {
    pub sub: Seq<char>,
    pub exp: nat,
    pub iat: nat,
    pub iss: Seq<char>,
    pub aud: Seq<char>,
}

impl View for Claims {
    type V = ClaimsView;

    closed spec fn view(&self) -> ClaimsView {
        ClaimsView {
            sub: self.sub@,
            exp: self.exp as nat,
            iat: self.iat as nat,
            iss: self.iss@,
            aud: self.aud@,
        }
    }
}

impl Clone for Claims {
    fn clone(&self) -> (c: Claims)
        ensures
            c@ == self@,
    {
        Claims {
            sub: self.sub.clone(),
            exp: self.exp,
            iat: self.iat,
            iss: self.iss.clone(),
            aud: self.aud.clone(),
        }
    }
}

impl Claims {
    /// Claims issued now: every field but `iat` is as given, and `iat` is
    /// what the system clock reads.
    pub fn new(sub: String, exp: usize, iss: String, aud: String) -> (c: Claims)
        ensures
            c@.sub == sub@,
            c@.exp == exp,
            c@.iss == iss@,
            c@.aud == aud@,
    {
        Claims::issued_at(sub, exp, unix_now(), iss, aud)
    }

    /// Claims issued at the second `iat`.
    pub fn issued_at(sub: String, exp: usize, iat: usize, iss: String, aud: String) -> (c: Claims)
        ensures
            c@ == (ClaimsView { sub: sub@, exp: exp as nat, iat: iat as nat, iss: iss@, aud: aud@ }),
    {
        Claims { sub, exp, iat, iss, aud }
    }

    pub fn sub(&self) -> (s: &String)
        ensures
            s@ == self@.sub,
    {
        &self.sub
    }

    pub fn exp(&self) -> (t: usize)
        ensures
            t == self@.exp,
    {
        self.exp
    }

    pub fn iat(&self) -> (t: usize)
        ensures
            t == self@.iat,
    {
        self.iat
    }

    pub fn iss(&self) -> (s: &String)
        ensures
            s@ == self@.iss,
    {
        &self.iss
    }

    pub fn aud(&self) -> (s: &String)
        ensures
            s@ == self@.aud,
    {
        &self.aud
    }
}

/// A structured search: every field that is present must match, and the
/// free-text question, where there is one, goes to the answering pipeline.
#[derive(Debug, Clone, PartialEq)]
pub struct SearchKafkaRequest {
    pub app_owner: Option<String>,
    pub topic_name: Option<String>,
    pub consumer_app: Option<String>,
    pub search_all_text: Option<String>,
    pub ai_search_query: Option<String>,
}

/// The view of an optional string.
pub open spec fn opt_view(s: Option<String>) -> Option<Seq<char>> {
    match s {
        Some(t) => Some(t@),
        None => None,
    }
}

/// The three equality predicates of a structured search.
pub struct SearchFilter {
    pub owner: Option<Seq<char>>,
    pub topic: Option<Seq<char>>,
    pub consumer_app: Option<Seq<char>>,
}

impl SearchKafkaRequest {
    /// The predicates that this request puts on the joined rows.
    pub open spec fn filter(&self) -> SearchFilter {
        SearchFilter {
            owner: opt_view(self.app_owner),
            topic: opt_view(self.topic_name),
            consumer_app: opt_view(self.consumer_app),
        }
    }
}

/// One row of a structured search result.
#[derive(Debug, PartialEq)]
pub struct SearchKafkaResponse {
    pub app_owner: String,
    pub topic_name: String,
    pub consumer_group_id: String,
    pub consumer_app: String,
    pub description: String,
}

pub struct SearchRowView {
    pub app_owner: Seq<char>,
    pub topic_name: Seq<char>,
    pub consumer_group_id: Seq<char>,
    pub consumer_app: Seq<char>,
    pub description: Seq<char>,
}

impl View for SearchKafkaResponse {
    type V = SearchRowView;

    open spec fn view(&self) -> SearchRowView {
        SearchRowView {
            app_owner: self.app_owner@,
            topic_name: self.topic_name@,
            consumer_group_id: self.consumer_group_id@,
            consumer_app: self.consumer_app@,
            description: self.description@,
        }
    }
}

impl Clone for SearchKafkaResponse {
    fn clone(&self) -> (r: SearchKafkaResponse)
        ensures
            r@ == self@,
    {
        SearchKafkaResponse {
            app_owner: self.app_owner.clone(),
            topic_name: self.topic_name.clone(),
            consumer_group_id: self.consumer_group_id.clone(),
            consumer_app: self.consumer_app.clone(),
            description: self.description.clone(),
        }
    }
}

impl Default for SearchKafkaResponse {
    fn default() -> (r: SearchKafkaResponse)
        ensures
            r@ == (SearchRowView {
                app_owner: Seq::empty(),
                topic_name: Seq::empty(),
                consumer_group_id: Seq::empty(),
                consumer_app: Seq::empty(),
                description: Seq::empty(),
            }),
    {
        SearchKafkaResponse {
            app_owner: String::new(),
            topic_name: String::new(),
            consumer_group_id: String::new(),
            consumer_app: String::new(),
            description: String::new(),
        }
    }
}

/// The lower-case form that `str::to_lowercase` gives a text.
pub uninterp spec fn lowercase(text: Seq<char>) -> Seq<char>;

/// `str::to_lowercase`: the lower-case form of `s` by the Unicode rules,
/// a function of the text alone.
#[verifier::external_body]
fn to_lowercase(s: &str) -> (r: String)
    ensures
        r@ == lowercase(s@),
{
    s.to_lowercase()
}

/// The text with each space replaced by an underscore.
pub open spec fn underscored(s: Seq<char>) -> Seq<char> {
    s.map_values(|c: char| if c == ' ' { '_' } else { c })
}

/// The node name under which a project appears in a flow chart.
pub open spec fn alias_of(name: Seq<char>) -> Seq<char> {
    lowercase(underscored(name))
}

/// The text with each space replaced by an underscore.
pub fn replace_spaces(s: &str) -> (r: String)
    ensures
        r@ == underscored(s@),
{
    let v = chars_of(s);
    let mut out: Vec<char> = Vec::new();
    let mut i: usize = 0;
    while i < v.len()
        invariant
            i <= v.len(),
            out@ == underscored(v@.take(i as int)),
        decreases v.len() - i,
    {
        let c = v[i];
        out.push(if c == ' ' { '_' } else { c });
        assert(underscored(v@.take(i + 1)) =~= underscored(v@.take(i as int)).push(
            if c == ' ' { '_' } else { c },
        ));
        i += 1;
    }
    assert(v@.take(v.len() as int) =~= v@);
    string_of(&out)
}

/// One producer, topic, consumer group and consumer of a flow chart.
#[derive(Debug, Clone, PartialEq)]
pub struct FlowChartItem {
    project_name_owner_alias: String,
    project_name_owner: String,
    pub kafka_topic: String,
    pub consumer_group: String,
    project_name_consume: String,
    project_name_consume_alias: String,
}

pub struct FlowChartItemView {
    pub project_name_owner_alias: Seq<char>,
    pub project_name_owner: Seq<char>,
    pub kafka_topic: Seq<char>,
    pub consumer_group: Seq<char>,
    pub project_name_consume: Seq<char>,
    pub project_name_consume_alias: Seq<char>,
}

impl View for FlowChartItem {
    type V = FlowChartItemView;

    closed spec fn view(&self) -> FlowChartItemView {
        FlowChartItemView {
            project_name_owner_alias: self.project_name_owner_alias@,
            project_name_owner: self.project_name_owner@,
            kafka_topic: self.kafka_topic@,
            consumer_group: self.consumer_group@,
            project_name_consume: self.project_name_consume@,
            project_name_consume_alias: self.project_name_consume_alias@,
        }
    }
}

impl FlowChartItemView {
    /// The line that draws this item:
    /// `alias[owner] ---> topic ---> group ---> alias[consumer]`.
    pub open spec fn line(self) -> Seq<char> {
        self.project_name_owner_alias + "["@ + self.project_name_owner + "] ---> "@
            + self.kafka_topic + " ---> "@ + self.consumer_group + " ---> "@
            + self.project_name_consume_alias + "["@ + self.project_name_consume + "]"@
    }
}

impl FlowChartItem {
    /// The item of a search row: the projects under their own names and
    /// under their aliases.
    pub open spec fn of_row(row: SearchRowView) -> FlowChartItemView {
        FlowChartItemView {
            project_name_owner_alias: alias_of(row.app_owner),
            project_name_owner: row.app_owner,
            kafka_topic: row.topic_name,
            consumer_group: row.consumer_group_id,
            project_name_consume: row.consumer_app,
            project_name_consume_alias: alias_of(row.consumer_app),
        }
    }

    /// An item with the given names and aliases.
    pub fn with_aliases(
        owner_alias: String,
        owner: String,
        kafka_topic: String,
        consumer_group: String,
        consumer: String,
        consumer_alias: String,
    ) -> (item: FlowChartItem)
        ensures
            item@ == (FlowChartItemView {
                project_name_owner_alias: owner_alias@,
                project_name_owner: owner@,
                kafka_topic: kafka_topic@,
                consumer_group: consumer_group@,
                project_name_consume: consumer@,
                project_name_consume_alias: consumer_alias@,
            }),
    {
        FlowChartItem {
            project_name_owner_alias: owner_alias,
            project_name_owner: owner,
            kafka_topic,
            consumer_group,
            project_name_consume: consumer,
            project_name_consume_alias: consumer_alias,
        }
    }

    /// The item of a search row.
    pub fn from_row(row: SearchKafkaResponse) -> (item: FlowChartItem)
        ensures
            item@ == FlowChartItem::of_row(row@),
    {
        let owner_alias = to_lowercase(replace_spaces(row.app_owner.as_str()).as_str());
        let consumer_alias = to_lowercase(replace_spaces(row.consumer_app.as_str()).as_str());
        FlowChartItem::with_aliases(
            owner_alias,
            row.app_owner,
            row.topic_name,
            row.consumer_group_id,
            row.consumer_app,
            consumer_alias,
        )
    }

    /// The search row of an item: its names without the aliases, and no
    /// description.
    pub fn into_row(self) -> (row: SearchKafkaResponse)
        ensures
            row@ == (SearchRowView {
                app_owner: self@.project_name_owner,
                topic_name: self@.kafka_topic,
                consumer_group_id: self@.consumer_group,
                consumer_app: self@.project_name_consume,
                description: Seq::empty(),
            }),
    {
        SearchKafkaResponse {
            app_owner: self.project_name_owner,
            topic_name: self.kafka_topic,
            consumer_group_id: self.consumer_group,
            consumer_app: self.project_name_consume,
            description: String::new(),
        }
    }

    /// The topic of this item.
    pub fn topic(&self) -> (s: &String)
        ensures
            s@ == self@.kafka_topic,
    {
        &self.kafka_topic
    }

    /// The consumer group of this item.
    pub fn group(&self) -> (s: &String)
        ensures
            s@ == self@.consumer_group,
    {
        &self.consumer_group
    }

    /// The line that draws this item.
    pub fn to_print_string(&self) -> (s: String)
        ensures
            s@ == self@.line(),
    {
        let mut s = self.project_name_owner_alias.clone();
        s.append("[");
        s.append(self.project_name_owner.as_str());
        s.append("] ---> ");
        s.append(self.kafka_topic.as_str());
        s.append(" ---> ");
        s.append(self.consumer_group.as_str());
        s.append(" ---> ");
        s.append(self.project_name_consume_alias.as_str());
        s.append("[");
        s.append(self.project_name_consume.as_str());
        s.append("]");
        s
    }
}

/// What a flow chart can be drawn of.
pub trait FlowChartSource {
    /// The item that this value stands for.
    spec fn item(&self) -> FlowChartItemView;

    /// The item that this value stands for.
    fn into_item(self) -> (item: FlowChartItem)
        ensures
            item@ == self.item(),
    ;
}

impl FlowChartSource for FlowChartItem {
    open spec fn item(&self) -> FlowChartItemView {
        self@
    }

    fn into_item(self) -> (item: FlowChartItem) {
        self
    }
}

impl FlowChartSource for SearchKafkaResponse {
    open spec fn item(&self) -> FlowChartItemView {
        FlowChartItem::of_row(self@)
    }

    fn into_item(self) -> (item: FlowChartItem) {
        FlowChartItem::from_row(self)
    }
}

} // verus!

