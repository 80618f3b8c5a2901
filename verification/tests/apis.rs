use kafka_repo::apis::{
    get_apps, get_consumers, get_topics, post_search_kafka, post_topic_kafka_relation_render,
};
use kafka_repo::data_service::{ConsumerRecord, TopicRecord};
use kafka_repo::data_state::{create_openai, AppState};
use kafka_repo::entities::{ErrorKind, SearchKafkaRequest, SearchKafkaResponse};

fn state(inventory: bool, consumer: bool) -> AppState {
    AppState {
        kafka_inventory: if inventory {
            Some(vec![
                TopicRecord { owner: "Team B".to_string(), topic: "t2".to_string() },
                TopicRecord { owner: "Team A".to_string(), topic: "t1".to_string() },
            ])
        } else {
            None
        },
        kafka_consumer: if consumer {
            Some(vec![ConsumerRecord {
                owner: "App X".to_string(),
                consumed_topic: Some("t1".to_string()),
                consumer_group: "g1".to_string(),
                consumer_app: Some("App X".to_string()),
            }])
        } else {
            None
        },
        user_authentication: None,
        jwt_secret: String::new(),
        azure_ai_search_url: None,
        azure_ai_search_key: None,
        azure_ai_search_indexes: None,
        azure_ai_search_use_semantics: false,
        application_info: None,
        knowledge: None,
        knowledge_budget: 0,
        open_ai_config: create_openai("", ""),
    }
}

fn any() -> SearchKafkaRequest {
    SearchKafkaRequest {
        app_owner: None,
        topic_name: None,
        consumer_app: None,
        search_all_text: None,
        ai_search_query: None,
    }
}

#[test]
fn listings_need_their_table() {
    assert_eq!(get_apps(&state(false, true)), Err(ErrorKind::NotConfigured));
    assert_eq!(get_topics(&state(false, true), &"Team A".to_string()), Err(ErrorKind::NotConfigured));
    assert_eq!(get_consumers(&state(true, false)), Err(ErrorKind::NotConfigured));
    assert_eq!(get_apps(&state(true, false)), Ok(vec!["Team A".to_string(), "Team B".to_string()]));
    assert_eq!(get_topics(&state(true, false), &"Team A".to_string()), Ok(vec!["t1".to_string()]));
    assert_eq!(get_consumers(&state(false, true)), Ok(vec!["App X".to_string()]));
}

#[test]
fn search_needs_both_tables() {
    assert_eq!(post_search_kafka(&state(false, true), &any()), Err(ErrorKind::NotConfigured));
    assert_eq!(post_search_kafka(&state(true, false), &any()), Err(ErrorKind::NotConfigured));
    assert_eq!(post_search_kafka(&state(false, false), &any()), Err(ErrorKind::NotConfigured));
    assert_eq!(
        post_search_kafka(&state(true, true), &any()),
        Ok(vec![SearchKafkaResponse {
            app_owner: "Team A".to_string(),
            topic_name: "t1".to_string(),
            consumer_group_id: "g1".to_string(),
            consumer_app: "App X".to_string(),
            description: String::new(),
        }])
    );
}

#[test]
fn render_draws_what_search_finds() {
    assert_eq!(
        post_topic_kafka_relation_render(&state(true, true), &any()),
        Ok("flowchart LR;\n  team_a[Team A] ---> t1 ---> g1 ---> app_x[App X];\nstyle t1 fill:#f9f,stroke:#333,stroke-width:2px,color:#fff;\nstyle g1 fill:#bbf,stroke:#333,stroke-width:2px,color:#000;\n".to_string())
    );
    assert_eq!(
        post_topic_kafka_relation_render(&state(true, false), &any()),
        Err(ErrorKind::NotConfigured)
    );
    let mut none = any();
    none.app_owner = Some("nobody".to_string());
    assert_eq!(
        post_topic_kafka_relation_render(&state(true, true), &none),
        Ok("flowchart LR;\n".to_string())
    );
}
