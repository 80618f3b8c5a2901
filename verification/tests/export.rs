use kafka_repo::entities::{FlowChartItem, SearchKafkaResponse};
use kafka_repo::export::{entry, export_mm_file};

fn row(owner: &str, topic: &str, group: &str, app: &str) -> SearchKafkaResponse {
    SearchKafkaResponse {
        app_owner: owner.to_string(),
        topic_name: topic.to_string(),
        consumer_group_id: group.to_string(),
        consumer_app: app.to_string(),
        description: "ignored".to_string(),
    }
}

#[test]
fn empty_chart_is_the_header() {
    assert_eq!(export_mm_file(Vec::<SearchKafkaResponse>::new(), "flowchart.mmd"), "flowchart LR;\n");
}

#[test]
fn chart_has_three_lines_for_each_row() {
    let chart = export_mm_file(
        vec![row("Team A", "orders", "g1", "App X"), row("ÄB c", "t 2", "g 2", "y")],
        "unused",
    );
    let expected = "flowchart LR;\n\
\x20 team_a[Team A] ---> orders ---> g1 ---> app_x[App X];\n\
style orders fill:#f9f,stroke:#333,stroke-width:2px,color:#fff;\n\
style g1 fill:#bbf,stroke:#333,stroke-width:2px,color:#000;\n\
\x20 äb_c[ÄB c] ---> t 2 ---> g 2 ---> y[y];\n\
style t 2 fill:#f9f,stroke:#333,stroke-width:2px,color:#fff;\n\
style g 2 fill:#bbf,stroke:#333,stroke-width:2px,color:#000;\n";
    assert_eq!(chart, expected);
}

#[test]
fn items_are_drawn_as_they_are() {
    let item = FlowChartItem::with_aliases(
        "a".to_string(),
        "A".to_string(),
        "t".to_string(),
        "g".to_string(),
        "C".to_string(),
        "c".to_string(),
    );
    assert_eq!(item.to_print_string(), "a[A] ---> t ---> g ---> c[C]");
    assert_eq!(
        entry(&item),
        "  a[A] ---> t ---> g ---> c[C];\nstyle t fill:#f9f,stroke:#333,stroke-width:2px,color:#fff;\nstyle g fill:#bbf,stroke:#333,stroke-width:2px,color:#000;\n"
    );
    assert_eq!(
        export_mm_file(vec![item], ""),
        "flowchart LR;\n  a[A] ---> t ---> g ---> c[C];\nstyle t fill:#f9f,stroke:#333,stroke-width:2px,color:#fff;\nstyle g fill:#bbf,stroke:#333,stroke-width:2px,color:#000;\n"
    );
}
