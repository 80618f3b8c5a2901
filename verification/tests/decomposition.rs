use kafka_repo::decomposition::{section_items, split_questions_and_non_questions, strip_ordinal};

fn chars(s: &str) -> Vec<char> {
    s.chars().collect()
}

#[test]
fn splits_questions_and_non_questions() {
    let (questions, non_questions) = split_questions_and_non_questions(
        "**Questions:**\n1. What is X?\n**Non-Questions:**\n1. FYI about Y",
    );
    assert_eq!(questions, vec!["What is X?".to_string()]);
    assert_eq!(non_questions, vec!["FYI about Y".to_string()]);
}

#[test]
fn missing_non_questions_header_gives_empty_lists() {
    let (questions, non_questions) =
        split_questions_and_non_questions("**Questions:**\n1. What is X?\n1. And Y?");
    assert!(questions.is_empty());
    assert!(non_questions.is_empty());
}

#[test]
fn duplicated_non_questions_header_gives_empty_lists() {
    let (questions, non_questions) = split_questions_and_non_questions(
        "**Questions:**\n1. A\n**Non-Questions:**\n1. B\n**Non-Questions:**\n1. C",
    );
    assert!(questions.is_empty());
    assert!(non_questions.is_empty());
}

#[test]
fn missing_questions_header_gives_only_non_questions() {
    let (questions, non_questions) =
        split_questions_and_non_questions("1. A\n**Non-Questions:**\n1. B");
    assert!(questions.is_empty());
    assert_eq!(non_questions, vec!["B".to_string()]);
}

#[test]
fn text_before_the_questions_header_is_left_out() {
    let (questions, non_questions) = split_questions_and_non_questions(
        "Here you are:\n**Questions:**\n1. A\n1. B\n\n**Non-Questions:**\n",
    );
    assert_eq!(questions, vec!["A".to_string(), "B".to_string()]);
    assert!(non_questions.is_empty());
}

#[test]
fn blank_lines_and_line_endings() {
    let (questions, non_questions) = split_questions_and_non_questions(
        "**Questions:**\r\n1. A?\r\n   \r\n\t\r\n1.B?\r\n**Non-Questions:**\r\n\r\n1.  C \u{a0}\r\n",
    );
    assert_eq!(questions, vec!["A?".to_string(), "B?".to_string()]);
    assert_eq!(non_questions, vec!["C".to_string()]);
}

#[test]
fn every_ordinal_marker_is_taken_off() {
    let (questions, non_questions) = split_questions_and_non_questions(
        "**Questions:**\n1. A\n2. B\n**Non-Questions:**\n1. C",
    );
    assert_eq!(questions, vec!["A".to_string(), "B".to_string()]);
    assert_eq!(non_questions, vec!["C".to_string()]);
}

#[test]
fn one_leading_marker_is_taken_off() {
    assert_eq!(
        section_items(&chars(
            "2. second\n12. twelve\n007.x\n1.1. twice\n 1. indented\nplain 1. inside\n1.\n3 no stop\n. dot\n\u{663}. other digit"
        )),
        vec![
            "second",
            "twelve",
            "x",
            "1. twice",
            "1. indented",
            "plain 1. inside",
            "",
            "3 no stop",
            ". dot",
            "\u{663}. other digit"
        ]
    );
}

#[test]
fn marker_is_digits_and_a_full_stop() {
    let text = |v: Vec<char>| -> String { v.into_iter().collect() };
    assert_eq!(text(strip_ordinal(&chars("10. ten"))), " ten");
    assert_eq!(text(strip_ordinal(&chars("10"))), "10");
    assert_eq!(text(strip_ordinal(&chars("10,"))), "10,");
    assert_eq!(text(strip_ordinal(&chars(".5"))), ".5");
    assert_eq!(text(strip_ordinal(&chars("1."))), "");
    assert_eq!(text(strip_ordinal(&chars(""))), "");
    assert_eq!(text(strip_ordinal(&chars("a1."))), "a1.");
}

#[test]
fn empty_section_has_no_items() {
    assert!(section_items(&chars("")).is_empty());
    assert!(section_items(&chars("\n\n  \n")).is_empty());
}
