//! What each route of the service answers, given the configuration and
//! the request.

use vstd::prelude::*;
use crate::clock::unix_now;
use crate::data_service::{
    consumer_views, consumers_of, get_app_list, get_consumer_list, get_topic_list,
    is_sorted_listing, owners_of, row_views, search, search_rows, topic_views, topics_of,
};
use crate::data_state::AppState;
use crate::entities::{
    ErrorKind, FlowChartItem, JwtResponse, JwtResponseView, SearchKafkaRequest,
    SearchKafkaResponse, SearchRowView, UserLogin, TOKEN_LIFETIME,
};
use crate::export::{chart_of, export_mm_file, items_of};
use crate::jwt_middleware::{issue, issue_outcome, response_result, sign, token_answer};
use crate::orchestrator::{Action, Orchestration};
use crate::text::views;

verus! {

/// What a login at the second `now` is answered with. Without the
/// authentication table it is `NotConfigured`. A user or password that
/// the table does not hold is `InvalidCredentials`. Else the answer is a
/// bearer token that expires in 3600 seconds: the token of the claims
/// minted at `now`, signed with the configured secret. Only a clock so far
/// on that the expiry is no `usize` mints nothing.
pub open spec fn login_answer(data: AppState, user_login: UserLogin, now: nat) -> Result<
    JwtResponseView,
    ErrorKind,
> {
    match data.user_authentication {
        None => Err(ErrorKind::NotConfigured),
        Some(users) => match issue_outcome(users@, user_login.username@, user_login.password@, now) {
            Ok(claims) => Ok(token_answer(claims, data.jwt_secret@)),
            Err(kind) => Err(kind),
        },
    }
}

/// A login that the table holds is answered with a bearer token that
/// expires in 3600 seconds and carries the claims minted at `now`: the
/// user as subject, issued at `now`, expiring at `now + 3600`. This holds
/// at every second whose expiry is a `usize`.
pub proof fn lemma_valid_login_is_answered(data: AppState, user_login: UserLogin, now: nat)
    requires
        data.user_authentication matches Some(users) && crate::data_service::has_user(
            users@,
            user_login.username@,
            user_login.password@,
        ),
        now + TOKEN_LIFETIME <= usize::MAX,
    ensures
        login_answer(data, user_login, now) == Ok::<JwtResponseView, ErrorKind>(
            token_answer(
                crate::jwt_middleware::minted(user_login.username@, now),
                data.jwt_secret@,
            ),
        ),
        token_answer(
            crate::jwt_middleware::minted(user_login.username@, now),
            data.jwt_secret@,
        ).token_type == "Bearer"@,
        token_answer(
            crate::jwt_middleware::minted(user_login.username@, now),
            data.jwt_secret@,
        ).expires_in == 3600,
{
}

/// A login that the table does not hold is refused at every second.
pub proof fn lemma_unknown_login_is_refused(data: AppState, user_login: UserLogin, now: nat)
    requires
        data.user_authentication matches Some(users) && !crate::data_service::has_user(
            users@,
            user_login.username@,
            user_login.password@,
        ),
    ensures
        login_answer(data, user_login, now) == Err::<JwtResponseView, ErrorKind>(
            ErrorKind::InvalidCredentials,
        ),
{
}

/// Answers a login at the second `now`.
pub fn login_at(data: &AppState, user_login: &UserLogin, now: usize) -> (response: Result<
    JwtResponse,
    ErrorKind,
>)
    ensures
        response_result(response) == login_answer(*data, *user_login, now as nat),
{
    let users = match &data.user_authentication {
        Some(users) => users,
        None => {
            return Err(ErrorKind::NotConfigured);
        },
    };
    match issue(users, &user_login.username, &user_login.password, now) {
        Ok(claims) => sign(&claims, data.jwt_secret.as_str()),
        Err(kind) => Err(kind),
    }
}

/// Answers a login now, by the system clock: the answer is the one for
/// the second that the clock read. Whatever it read, a missing table is
/// `NotConfigured`, a user or password that the table does not hold is
/// `InvalidCredentials`, and a login that the table holds is answered
/// with a bearer token that expires in 3600 seconds, unless the clock
/// stands so far on that the expiry is no `usize`.
pub fn login(data: &AppState, user_login: &UserLogin) -> (response: Result<JwtResponse, ErrorKind>)
    ensures
        exists|now: nat|
            response_result(response) == #[trigger] login_answer(*data, *user_login, now),
        data.user_authentication is None ==> response_result(response) == Err::<
            JwtResponseView,
            ErrorKind,
        >(ErrorKind::NotConfigured),
        data.user_authentication matches Some(users) && !crate::data_service::has_user(
            users@,
            user_login.username@,
            user_login.password@,
        ) ==> response_result(response) == Err::<JwtResponseView, ErrorKind>(
            ErrorKind::InvalidCredentials,
        ),
        data.user_authentication matches Some(users) && crate::data_service::has_user(
            users@,
            user_login.username@,
            user_login.password@,
        ) ==> match response {
            Ok(r) => r@.token_type == "Bearer"@ && r@.expires_in == TOKEN_LIFETIME,
            Err(kind) => kind == ErrorKind::SigningFailed,
        },
{
    let now = unix_now();
    let response = login_at(data, user_login, now);
    assert(response_result(response) == login_answer(*data, *user_login, now as nat));
    response
}

/// The owners in the inventory, ascending and each once, or
/// `NotConfigured` where the inventory was not loaded.
pub fn get_apps(data: &AppState) -> (apps: Result<Vec<String>, ErrorKind>)
    ensures
        match data.kafka_inventory {
            Some(ds) => apps matches Ok(list) && is_sorted_listing(
                views(list@),
                owners_of(topic_views(ds@)),
            ),
            None => apps == Err::<Vec<String>, ErrorKind>(ErrorKind::NotConfigured),
        },
{
    match &data.kafka_inventory {
        Some(ds) => Ok(get_app_list(ds)),
        None => Err(ErrorKind::NotConfigured),
    }
}

/// The topics that `app_name` owns, ascending and each once, or
/// `NotConfigured` where the inventory was not loaded.
pub fn get_topics(data: &AppState, app_name: &String) -> (topics: Result<Vec<String>, ErrorKind>)
    ensures
        match data.kafka_inventory {
            Some(ds) => topics matches Ok(list) && is_sorted_listing(
                views(list@),
                topics_of(topic_views(ds@), app_name@),
            ),
            None => topics == Err::<Vec<String>, ErrorKind>(ErrorKind::NotConfigured),
        },
{
    match &data.kafka_inventory {
        Some(ds) => Ok(get_topic_list(ds, app_name)),
        None => Err(ErrorKind::NotConfigured),
    }
}

/// The consuming applications, ascending and each once, or
/// `NotConfigured` where the registrations were not loaded.
pub fn get_consumers(data: &AppState) -> (consumers: Result<Vec<String>, ErrorKind>)
    ensures
        match data.kafka_consumer {
            Some(ds) => consumers matches Ok(list) && is_sorted_listing(
                views(list@),
                consumers_of(consumer_views(ds@)),
            ),
            None => consumers == Err::<Vec<String>, ErrorKind>(ErrorKind::NotConfigured),
        },
{
    match &data.kafka_consumer {
        Some(ds) => Ok(get_consumer_list(ds)),
        None => Err(ErrorKind::NotConfigured),
    }
}

/// The rows that a structured search finds under a configuration, or
/// nothing where one of the two tables was not loaded.
pub open spec fn found_rows(data: AppState, request: SearchKafkaRequest) -> Option<
    Seq<SearchRowView>,
> {
    match (data.kafka_inventory, data.kafka_consumer) {
        (Some(inventory), Some(consumer)) => Some(
            search_rows(topic_views(inventory@), consumer_views(consumer@), request.filter()),
        ),
        _ => None,
    }
}

/// The structured search, or `NotConfigured` where one of the two tables
/// was not loaded.
pub fn post_search_kafka(data: &AppState, search_request: &SearchKafkaRequest) -> (rows: Result<
    Vec<SearchKafkaResponse>,
    ErrorKind,
>)
    ensures
        match found_rows(*data, *search_request) {
            Some(found) => rows matches Ok(list) && row_views(list@) == found,
            None => rows == Err::<Vec<SearchKafkaResponse>, ErrorKind>(ErrorKind::NotConfigured),
        },
{
    match (&data.kafka_inventory, &data.kafka_consumer) {
        (Some(inventory), Some(consumer)) => Ok(search(inventory, consumer, search_request)),
        _ => Err(ErrorKind::NotConfigured),
    }
}

/// The flow chart of what a structured search finds, or `NotConfigured`
/// where one of the two tables was not loaded.
pub fn post_topic_kafka_relation_render(data: &AppState, search_request: &SearchKafkaRequest) -> (chart:
    Result<String, ErrorKind>)
    ensures
        match found_rows(*data, *search_request) {
            Some(found) => chart matches Ok(text) && text@ == chart_of(
                found.map_values(|row: SearchRowView| FlowChartItem::of_row(row)),
            ),
            None => chart == Err::<String, ErrorKind>(ErrorKind::NotConfigured),
        },
{
    match post_search_kafka(data, search_request) {
        Ok(rows) => {
            assert(items_of(rows@) =~= row_views(rows@).map_values(
                |row: SearchRowView| FlowChartItem::of_row(row),
            ));
            Ok(export_mm_file(rows, "flowchart.mmd"))
        },
        Err(kind) => Err(kind),
    }
}

/// Begins the answering of a free-text query: the run of the pipeline
/// and its first action, or the reason why the request cannot be answered.
pub fn post_ai_search(data: &AppState, search_request: &SearchKafkaRequest) -> (begun: Result<
    (Orchestration, Action),
    ErrorKind,
>)
    ensures
        match begun {
            Ok((run, action)) => {
                &&& crate::orchestrator::refusal(*data, *search_request) is None
                &&& run@ == crate::orchestrator::RunView::initial(
                    *data,
                    *search_request,
                    crate::entities::opt_view(search_request.ai_search_query)->0,
                    data.application_info->0@,
                )
                &&& action@ == (crate::orchestrator::ActionView::Complete {
                    system: crate::azure_ai_apis::decomposition_framing(),
                    knowledge: Seq::empty(),
                    user: run@.query,
                })
            },
            Err(kind) => crate::orchestrator::refusal(*data, *search_request) == Some(kind),
        },
{
    Orchestration::start(data, search_request)
}

} // verus!
