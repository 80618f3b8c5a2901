use kafka_repo::knowledge::{
    assemble, render_fragments, render_mq_knowledge, weakest_index, Fragment, KnowledgeBlock,
    MQDataDescription, MQTopicDescription,
};

fn fragment(rank: u64, text: &str) -> Fragment {
    Fragment { rank, text: text.to_string() }
}

fn block(budget: usize, fragments: &[(u64, &str)]) -> KnowledgeBlock {
    let mut b = KnowledgeBlock::new(budget);
    for (rank, text) in fragments {
        b.push(*rank, text.to_string());
    }
    b
}

#[test]
fn everything_is_kept_where_it_fits() {
    let b = block(10, &[(1, "aaa"), (9, "bbb"), (5, "cccc")]);
    assert_eq!(b.text(), "aaabbbcccc");
    assert_eq!(b.len(), 3);
    assert_eq!(b.budget(), 10);
    assert_eq!(b.retained(), vec![fragment(1, "aaa"), fragment(9, "bbb"), fragment(5, "cccc")]);
}

#[test]
fn lowest_ranked_fragments_are_dropped_first_and_whole() {
    let b = block(10, &[(2, "aaaaaaaaaa"), (3, "bbbbb"), (1, "ccccc")]);
    assert_eq!(b.text(), "bbbbb");
    let c = block(9, &[(1, "aaa"), (9, "bbb"), (5, "cccc")]);
    assert_eq!(c.text(), "bbbcccc");
    let d = block(6, &[(1, "aaa"), (9, "bbb"), (5, "cccc")]);
    assert_eq!(d.text(), "bbb");
    let e = block(2, &[(1, "aaa"), (9, "bbb"), (5, "cccc")]);
    assert_eq!(e.text(), "");
}

#[test]
fn among_equal_ranks_the_latest_goes_first() {
    let b = block(6, &[(4, "one"), (4, "two"), (4, "six")]);
    assert_eq!(b.text(), "onetwo");
    let frags = vec![fragment(4, "a"), fragment(2, "b"), fragment(7, "c"), fragment(2, "d")];
    assert_eq!(weakest_index(&frags), 3);
    assert_eq!(weakest_index(&vec![fragment(0, "x")]), 0);
}

#[test]
fn the_budget_counts_characters() {
    let b = block(3, &[(1, "ééé")]);
    assert_eq!(b.text(), "ééé");
    let c = block(2, &[(1, "ééé")]);
    assert_eq!(c.text(), "");
}

#[test]
fn the_text_never_exceeds_the_budget() {
    let texts = ["alpha", "", "be", "gamma-delta", "e", "zeta zeta"];
    for budget in 0..40 {
        let mut b = KnowledgeBlock::new(budget);
        for (i, t) in texts.iter().enumerate() {
            b.push(((i * 7) % 5) as u64, t.to_string());
        }
        let text = b.text();
        assert!(text.chars().count() <= budget);
        let kept = b.retained();
        let mut at = 0;
        for f in &kept {
            let found = texts[at..].iter().position(|t| *t == f.text);
            assert!(found.is_some());
            at += found.unwrap() + 1;
        }
    }
}

#[test]
fn assembly_does_not_depend_on_grouping() {
    let a = vec![fragment(3, "a1"), fragment(1, "a2")];
    let b = vec![fragment(2, "b1")];
    let c = vec![fragment(5, "c1"), fragment(1, "c2")];
    for budget in [0, 3, 4, 6, 8, 100] {
        let mut left = KnowledgeBlock::new(budget);
        let mut ab = a.clone();
        ab.extend(b.clone());
        left.extend(ab);
        left.extend(c.clone());
        let mut right = KnowledgeBlock::new(budget);
        right.extend(a.clone());
        let mut bc = b.clone();
        bc.extend(c.clone());
        right.extend(bc);
        let mut single = KnowledgeBlock::new(budget);
        for f in a.iter().chain(b.iter()).chain(c.iter()) {
            single.push(f.rank, f.text.clone());
        }
        assert_eq!(left, right);
        assert_eq!(left, single);
        assert_eq!(left.text(), right.text());
        assert_eq!(left.text(), single.text());
    }
}

#[test]
fn fragments_render_in_order() {
    assert_eq!(render_fragments(&vec![fragment(1, "x"), fragment(0, ""), fragment(9, "yz")]), "xyz");
    assert_eq!(render_fragments(&vec![]), "");
}

#[test]
fn static_knowledge_comes_first() {
    let b = block(100, &[(1, "Answer: 42\n")]);
    assert_eq!(assemble("background", &b), "background\nAnswer: 42\n");
    assert_eq!(assemble("", &KnowledgeBlock::new(5)), "\n");
}

#[test]
fn the_context_is_held_to_the_budget_as_a_whole() {
    assert_eq!(assemble("", &block(3, &[(1, "abc")])), "\n");
    assert_eq!(assemble("", &block(4, &[(1, "abc")])), "\nabc");
    assert_eq!(assemble("abc", &block(4, &[(1, "dropped")])), "abc\n");
    assert_eq!(assemble("abc", &block(12, &[(1, "one"), (9, "three"), (5, "five")])), "abc\nthree");
    assert_eq!(assemble("abc", &block(13, &[(1, "one"), (9, "three"), (5, "five")])), "abc\nthreefive");
    assert_eq!(assemble("abc", &block(16, &[(1, "one"), (9, "three"), (5, "five")])), "abc\nonethreefive");
}

#[test]
fn static_knowledge_is_dropped_last_and_whole() {
    assert_eq!(assemble("abc", &block(3, &[(1, "x")])), "");
    assert_eq!(assemble("abcd", &block(3, &[])), "");
    assert_eq!(assemble("abc", &block(0, &[(1, "dropped")])), "");
    assert_eq!(assemble("abc", &block(4, &[(u64::MAX, "x")])), "abc\n");
    assert_eq!(assemble("abc", &block(5, &[(u64::MAX, "x")])), "abc\nx");
    for budget in 0..20 {
        let b = block(budget, &[(1, "one"), (2, "three"), (3, "five")]);
        let context = assemble("abc", &b);
        assert!(context.chars().count() <= budget);
        assert_eq!(context.is_empty(), budget < 4);
        assert!(context.is_empty() || context.starts_with("abc\n"));
    }
}

#[test]
fn message_queue_knowledge_is_rendered_line_by_line() {
    let d = MQDataDescription {
        mq_descriptions: "BG".to_string(),
        mq_data_current_state: "STATE".to_string(),
        mq_technology: "TECH".to_string(),
        mq_pub_sub_topics: vec![
            MQTopicDescription {
                business_module: "billing".to_string(),
                topic_name: "bill/#".to_string(),
                publisher: "core".to_string(),
                remark: "none".to_string(),
            },
            MQTopicDescription {
                business_module: "m2".to_string(),
                topic_name: "t2".to_string(),
                publisher: "p2".to_string(),
                remark: "".to_string(),
            },
        ],
    };
    let expected = "Here is the knowledge about Message sync MQ Pub/Sub :\nBG\n\
Here is the knowledge about Message sync MQ Pub/Sub Current State :\nSTATE\n\
Here is the knowledge about Message sync MQ Pub/Sub Technology :\nTECH\n\
Here is the knowledge about Message sync MQ Pub/Sub Topics :\n\
Business Module: billing\nTopic Name or Topic String: bill/#\nPublisher: core\nRemark: none\n\
Business Module: m2\nTopic Name or Topic String: t2\nPublisher: p2\nRemark: \n\n";
    assert_eq!(render_mq_knowledge(&d), expected);
}
