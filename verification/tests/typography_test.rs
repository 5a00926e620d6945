use networking::typography::{
    BidiClass, BidirectionalProcessor, LineBreakOpportunity, LineBreakPriority, LineBreakType, LineBreaker,
    TextDirection, UnicodeBidiAlgorithm, UnicodeLineBreakingAlgorithm,
};

#[test]
fn bidi_left_to_right_text_is_one_run() {
    let mut processor = BidirectionalProcessor::new();
    let runs = processor.process_bidirectional_text("abc def", TextDirection::LeftToRight).unwrap();
    assert_eq!(runs.len(), 1);
    assert_eq!(runs[0].text, "abc def");
    assert_eq!(runs[0].direction, TextDirection::LeftToRight);
    assert_eq!(runs[0].embedding_level, 0);
    assert_eq!(runs[0].start_index, 0);
    assert_eq!(runs[0].end_index, 7);
}

#[test]
fn bidi_hebrew_letters_form_a_right_to_left_run() {
    let mut processor = BidirectionalProcessor::new();
    let text = "ab\u{05D0}\u{05D1}cd";
    let runs = processor.process_bidirectional_text(text, TextDirection::LeftToRight).unwrap();
    assert_eq!(runs.len(), 3);
    assert_eq!(runs[0].text, "ab");
    assert_eq!((runs[0].start_index, runs[0].end_index), (0, 2));
    assert_eq!(runs[1].text, "\u{05D0}\u{05D1}");
    assert_eq!(runs[1].direction, TextDirection::RightToLeft);
    assert_eq!(runs[1].embedding_level, 1);
    assert_eq!((runs[1].start_index, runs[1].end_index), (2, 4));
    assert_eq!(runs[2].text, "cd");
    assert_eq!((runs[2].start_index, runs[2].end_index), (4, 6));
}

#[test]
fn bidi_text_starting_with_arabic() {
    let mut processor = BidirectionalProcessor::new();
    let runs = processor.process_bidirectional_text("\u{0627}\u{0628} x", TextDirection::RightToLeft).unwrap();
    assert_eq!(runs.len(), 2);
    assert_eq!(runs[0].embedding_level, 1);
    assert_eq!((runs[0].start_index, runs[0].end_index), (0, 2));
    assert_eq!(runs[1].text, " x");
    assert_eq!(runs[1].embedding_level, 0);
}

#[test]
fn bidi_empty_text_has_no_runs() {
    let mut processor = BidirectionalProcessor::new();
    let runs = processor.process_bidirectional_text("", TextDirection::LeftToRight).unwrap();
    assert!(runs.is_empty());
}

#[test]
fn embedding_levels_raise_right_to_left_classes() {
    let mut algorithm = UnicodeBidiAlgorithm::new();
    let classes = [BidiClass::L, BidiClass::R, BidiClass::AL, BidiClass::EN, BidiClass::WS, BidiClass::ON];
    let levels = algorithm.compute_embedding_levels(&classes, TextDirection::RightToLeft).unwrap();
    assert_eq!(levels, vec![0, 1, 1, 0, 0, 0]);
}

#[test]
fn line_breaks_around_spaces() {
    let mut algorithm = UnicodeLineBreakingAlgorithm::new();
    let ops = algorithm.get_breaking_opportunities("Hello world").unwrap();
    assert_eq!(ops.len(), 2);
    assert_eq!(ops[0].position, 5);
    assert_eq!(ops[0].break_type, LineBreakType::Optional);
    assert_eq!(ops[0].priority, LineBreakPriority::Medium);
    assert_eq!(ops[1].position, 6);
}

#[test]
fn line_feed_forces_a_break() {
    let mut algorithm = UnicodeLineBreakingAlgorithm::new();
    let ops = algorithm.get_breaking_opportunities("a\nb").unwrap();
    assert_eq!(ops.len(), 1);
    assert_eq!(ops[0].position, 2);
    assert_eq!(ops[0].break_type, LineBreakType::Mandatory);
    assert_eq!(ops[0].priority, LineBreakPriority::High);
}

#[test]
fn no_break_inside_a_word_or_after_an_opening_bracket() {
    let mut algorithm = UnicodeLineBreakingAlgorithm::new();
    let ops = algorithm.get_breaking_opportunities("(ab-cd)").unwrap();
    assert!(ops.is_empty());
}

#[test]
fn opportunities_accumulate_over_texts() {
    let mut algorithm = UnicodeLineBreakingAlgorithm::new();
    let first = algorithm.get_breaking_opportunities("a b").unwrap();
    assert_eq!(first.len(), 2);
    let second = algorithm.get_breaking_opportunities("c d").unwrap();
    assert_eq!(second.len(), 4);
    assert_eq!(second[2].position, 1);
}

#[test]
fn best_break_is_the_last_one_before_the_position() {
    let breaker = LineBreaker::new();
    let op = |position: usize| LineBreakOpportunity {
        position,
        break_type: LineBreakType::Optional,
        priority: LineBreakPriority::Medium,
    };
    let ops = vec![op(2), op(5), op(9)];
    assert_eq!(breaker.find_best_break_opportunity(&ops, 7).unwrap(), 5);
    assert_eq!(breaker.find_best_break_opportunity(&ops, 9).unwrap(), 9);
    assert_eq!(breaker.find_best_break_opportunity(&ops, 1).unwrap(), 1);
    assert_eq!(breaker.find_best_break_opportunity(&[], 4).unwrap(), 4);
}
