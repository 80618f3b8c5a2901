use kafka_repo::data_service::{
    get_app_list, get_consumer_list, get_topic_list, join, post_login, search, sorted_distinct,
    ConsumerRecord, JoinedRecord, TopicRecord, UserRecord,
};
use kafka_repo::entities::{SearchKafkaRequest, SearchKafkaResponse};

fn topic(owner: &str, topic: &str) -> TopicRecord {
    TopicRecord { owner: owner.to_string(), topic: topic.to_string() }
}

fn consumer(app: &str, topic: &str, group: &str) -> ConsumerRecord {
    ConsumerRecord {
        owner: app.to_string(),
        consumed_topic: Some(topic.to_string()),
        consumer_group: group.to_string(),
        consumer_app: Some(app.to_string()),
    }
}

fn inventory() -> Vec<TopicRecord> {
    vec![
        topic("teamB", "t3"),
        topic("teamA", "t1"),
        topic("teamA", "t2"),
        topic("teamC", "t4"),
        topic("teamA", "t1"),
    ]
}

fn consumers() -> Vec<ConsumerRecord> {
    vec![consumer("appY", "t1", "g2"), consumer("appX", "t1", "g1"), consumer("appX", "t3", "g3")]
}

fn request(owner: Option<&str>, topic: Option<&str>, app: Option<&str>) -> SearchKafkaRequest {
    SearchKafkaRequest {
        app_owner: owner.map(String::from),
        topic_name: topic.map(String::from),
        consumer_app: app.map(String::from),
        search_all_text: None,
        ai_search_query: None,
    }
}

fn row(owner: &str, topic: &str, group: &str, app: &str) -> SearchKafkaResponse {
    SearchKafkaResponse {
        app_owner: owner.to_string(),
        topic_name: topic.to_string(),
        consumer_group_id: group.to_string(),
        consumer_app: app.to_string(),
        description: String::new(),
    }
}

fn joined(owner: &str, topic: &str, consumer: Option<(&str, &str)>) -> JoinedRecord {
    JoinedRecord {
        owner: owner.to_string(),
        topic: topic.to_string(),
        consumer_group: consumer.map(|c| c.0.to_string()),
        consumer_app: consumer.map(|c| c.1.to_string()),
    }
}

#[test]
fn left_join_keeps_topics_without_consumers() {
    let rows = join(&inventory(), &consumers());
    assert_eq!(
        rows,
        vec![
            joined("teamB", "t3", Some(("g3", "appX"))),
            joined("teamA", "t1", Some(("g2", "appY"))),
            joined("teamA", "t1", Some(("g1", "appX"))),
            joined("teamA", "t2", None),
            joined("teamC", "t4", None),
            joined("teamA", "t1", Some(("g2", "appY"))),
            joined("teamA", "t1", Some(("g1", "appX"))),
        ]
    );
}

#[test]
fn left_join_of_empty_tables() {
    assert_eq!(join(&vec![], &consumers()), vec![]);
    assert_eq!(join(&vec![topic("a", "t")], &vec![]), vec![joined("a", "t", None)]);
}

#[test]
fn empty_filter_returns_rows_with_a_consumer() {
    let found = search(&inventory(), &consumers(), &request(None, None, None));
    assert_eq!(
        found,
        vec![
            row("teamB", "t3", "g3", "appX"),
            row("teamA", "t1", "g2", "appY"),
            row("teamA", "t1", "g1", "appX"),
            row("teamA", "t1", "g2", "appY"),
            row("teamA", "t1", "g1", "appX"),
        ]
    );
}

#[test]
fn search_is_idempotent() {
    let first = search(&inventory(), &consumers(), &request(Some("teamA"), None, None));
    let second = search(&inventory(), &consumers(), &request(Some("teamA"), None, None));
    assert_eq!(first, second);
}

#[test]
fn every_set_predicate_holds_of_every_row() {
    let found = search(&inventory(), &consumers(), &request(Some("teamA"), Some("t1"), Some("appX")));
    assert_eq!(found, vec![row("teamA", "t1", "g1", "appX"), row("teamA", "t1", "g1", "appX")]);
    let by_app = search(&inventory(), &consumers(), &request(None, None, Some("appX")));
    assert_eq!(
        by_app,
        vec![
            row("teamB", "t3", "g3", "appX"),
            row("teamA", "t1", "g1", "appX"),
            row("teamA", "t1", "g1", "appX"),
        ]
    );
    let by_topic = search(&inventory(), &consumers(), &request(None, Some("t3"), None));
    assert_eq!(by_topic, vec![row("teamB", "t3", "g3", "appX")]);
}

#[test]
fn no_match_gives_no_rows() {
    assert!(search(&inventory(), &consumers(), &request(Some("teamC"), None, None)).is_empty());
    assert!(search(&inventory(), &consumers(), &request(Some("teama"), None, None)).is_empty());
    assert!(search(&inventory(), &consumers(), &request(None, Some("t2"), None)).is_empty());
}

#[test]
fn removing_a_predicate_never_shrinks_the_result() {
    let strict = search(&inventory(), &consumers(), &request(Some("teamA"), Some("t1"), Some("appY")));
    let relaxed = search(&inventory(), &consumers(), &request(Some("teamA"), None, Some("appY")));
    let loosest = search(&inventory(), &consumers(), &request(None, None, None));
    assert!(strict.len() <= relaxed.len());
    assert!(relaxed.len() <= loosest.len());
    for r in &strict {
        assert!(relaxed.contains(r));
    }
    for r in &relaxed {
        assert!(loosest.contains(r));
    }
}

#[test]
fn registration_without_topic_or_application() {
    let no_topic = ConsumerRecord {
        owner: "appN".to_string(),
        consumed_topic: None,
        consumer_group: "gn".to_string(),
        consumer_app: Some("appN".to_string()),
    };
    let no_app = ConsumerRecord {
        owner: "null".to_string(),
        consumed_topic: Some("t2".to_string()),
        consumer_group: "g0".to_string(),
        consumer_app: None,
    };
    let mut cs = consumers();
    cs.push(no_topic);
    cs.push(no_app);
    let rows = join(&vec![topic("teamA", "t2"), topic("teamA", "t1")], &cs);
    assert_eq!(
        rows,
        vec![
            JoinedRecord {
                owner: "teamA".to_string(),
                topic: "t2".to_string(),
                consumer_group: Some("g0".to_string()),
                consumer_app: None,
            },
            joined("teamA", "t1", Some(("g2", "appY"))),
            joined("teamA", "t1", Some(("g1", "appX"))),
        ]
    );
    let found = search(&vec![topic("teamA", "t2"), topic("teamA", "t1")], &cs, &request(None, None, None));
    assert_eq!(found, vec![row("teamA", "t1", "g2", "appY"), row("teamA", "t1", "g1", "appX")]);
    assert_eq!(get_consumer_list(&cs), vec!["appN", "appX", "appY", "null"]);
}

#[test]
fn owners_are_listed_sorted_and_once() {
    assert_eq!(get_app_list(&inventory()), vec!["teamA", "teamB", "teamC"]);
    assert!(get_app_list(&vec![]).is_empty());
}

#[test]
fn topics_of_an_owner_are_listed_sorted_and_once() {
    assert_eq!(get_topic_list(&inventory(), &"teamA".to_string()), vec!["t1", "t2"]);
    assert!(get_topic_list(&inventory(), &"nobody".to_string()).is_empty());
}

#[test]
fn consumers_are_listed_sorted_and_once() {
    assert_eq!(get_consumer_list(&consumers()), vec!["appX", "appY"]);
}

#[test]
fn listing_orders_by_code_point() {
    let keys: Vec<String> =
        ["b", "a", "B", "ab", "", "a", "é", "z", "aa"].iter().map(|s| s.to_string()).collect();
    assert_eq!(sorted_distinct(&keys), vec!["", "B", "a", "aa", "ab", "b", "z", "é"]);
}

#[test]
fn login_lookup_compares_both_fields_exactly() {
    let users = vec![
        UserRecord { user_id: "alice".to_string(), password: "secret".to_string() },
        UserRecord { user_id: "bob".to_string(), password: "hunter2".to_string() },
    ];
    assert!(post_login(&users, &"alice".to_string(), &"secret".to_string()));
    assert!(post_login(&users, &"bob".to_string(), &"hunter2".to_string()));
    assert!(!post_login(&users, &"alice".to_string(), &"wrong".to_string()));
    assert!(!post_login(&users, &"alice".to_string(), &"hunter2".to_string()));
    assert!(!post_login(&users, &"Alice".to_string(), &"secret".to_string()));
    assert!(!post_login(&vec![], &"alice".to_string(), &"secret".to_string()));
}
