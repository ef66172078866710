use parser_lib::{
    ChoiceMatcher, CreateParseResult, FileCharReader, Location, MatchStr, MatchToken, Matcher,
    MemorySource, NotMatcher, OptionalMatcher, ParseInfo, ParseResult, ParserError, RangeMatcher,
    RepetitionMatcher, Rule, SequentialMatcher, Span, StrMatcher, Stream, StringCharReader,
    TokenMatcher, UntilMatcher,
};
use std::rc::Rc;

fn word(text: &'static str) -> Rc<Matcher> {
    Rc::new(Matcher::Str(StrMatcher::new(text)))
}

fn range(start: char, end: char) -> Rc<Matcher> {
    Rc::new(Matcher::Range(RangeMatcher::new(start, end)))
}

fn seq(children: Vec<Rc<Matcher>>) -> Rc<Matcher> {
    Rc::new(Matcher::Sequential(SequentialMatcher::new(children)))
}

fn file_reader(text: &str, capacity: usize) -> FileCharReader<MemorySource> {
    FileCharReader::new(MemorySource::new(text.as_bytes().to_vec()), capacity)
}

fn found(start: Location, end: Location) -> ParseResult {
    Ok(Some(ParseInfo::new(Span::new(start, end), end.index() - start.index())))
}

#[test]
fn literal_matches_where_its_text_stands() {
    let text = "abcabc";
    let rule = StrMatcher::new("bc");
    for index in 0..8 {
        let mut reader = StringCharReader::new(text);
        let loc = Location::new(1, index + 1, index);
        let expected =
            if index == 1 || index == 4 { found(loc, loc + 2) } else { Ok(None) };
        assert_eq!(rule.test(&loc, &mut reader), expected);
    }
}

#[test]
fn literal_with_line_breaks_moves_to_the_last_line() {
    let rule = StrMatcher::new("ab\ncd\nefg");
    let mut reader = StringCharReader::new("xab\ncd\nefgh");
    let loc = Location::new(3, 7, 1);
    assert_eq!(
        rule.test(&loc, &mut reader),
        Ok(Some(ParseInfo::new(Span::new(loc, Location::new(5, 4, 10)), 9)))
    );
    assert_eq!(rule.width(), 9);
    assert_eq!(rule.value(), "ab\ncd\nefg");

    let rule = StrMatcher::new("\n");
    assert_eq!(
        rule.test(&Location::new(1, 4, 3), &mut reader),
        Ok(Some(ParseInfo::new(Span::new(Location::new(1, 4, 3), Location::new(2, 1, 4)), 1)))
    );
}

#[test]
fn literal_counts_chars_not_bytes() {
    let rule = StrMatcher::new("é😎");
    let mut reader = StringCharReader::new("aé😎b");
    let loc = Location::new(1, 2, 1);
    assert_eq!(rule.test(&loc, &mut reader), found(loc, Location::new(1, 4, 3)));
    assert_eq!(StrMatcher::new("b").test(&Location::new(1, 4, 3), &mut reader).unwrap().is_some(), true);
}

#[test]
fn empty_literal_matches_everywhere() {
    let rule = StrMatcher::new("");
    let mut reader = StringCharReader::new("ab");
    for index in [0, 1, 2, 3, 1000] {
        let loc = Location::new(1, 1, index);
        assert_eq!(rule.test(&loc, &mut reader), Ok(Some(ParseInfo::new(Span::new(loc, loc), 0))));
    }
}

#[test]
fn range_counts_between_its_bounds() {
    let text = "abc1def";
    for (min, max) in [(0, 0), (0, 2), (1, 1), (2, 0), (3, 3), (4, 0), (4, 9)] {
        let rule = RangeMatcher::repeat_between('a', 'z', min, max);
        let mut reader = StringCharReader::new(text);
        let loc = Location::beginning();
        // Three chars are in range at the start
        let count = if max == 0 { 3 } else { std::cmp::min(3, max as usize) };
        let expected = if count >= min as usize { found(loc, loc + count) } else { Ok(None) };
        assert_eq!(rule.test(&loc, &mut reader), expected);
    }
    // At the digit nothing is in range
    let mut reader = StringCharReader::new(text);
    let loc = Location::new(1, 4, 3);
    assert_eq!(RangeMatcher::new('a', 'z').test(&loc, &mut reader), Ok(None));
    assert_eq!(RangeMatcher::at_least_n('a', 'z', 0).test(&loc, &mut reader), found(loc, loc));
}

#[test]
fn choice_takes_the_first_match_not_the_longest() {
    let rule = ChoiceMatcher::new(vec![word("ab"), word("abcd")]);
    let mut reader = StringCharReader::new("abcd");
    let loc = Location::beginning();
    assert_eq!(rule.test(&loc, &mut reader), found(loc, Location::new(1, 3, 2)));

    let rule = ChoiceMatcher::new(vec![word("abcd"), word("ab")]);
    assert_eq!(rule.test(&loc, &mut reader), found(loc, Location::new(1, 5, 4)));

    let rule = ChoiceMatcher::new(vec![]);
    assert_eq!(rule.test(&loc, &mut reader), Ok(None));
    assert_eq!(rule.to_string(), "()");
}

#[test]
fn errors_of_the_reader_pass_through_every_matcher() {
    let error = Err(ParserError::NoLookBehind(0));
    let loc = Location::beginning();
    let mut reader = StringCharReader::new("abcdef");
    assert_eq!(reader.consume(), Some('a'));

    assert_eq!(StrMatcher::new("a").test(&loc, &mut reader), error);
    assert_eq!(RangeMatcher::new('a', 'z').test(&loc, &mut reader), error);
    assert_eq!(OptionalMatcher::new(word("a")).test(&loc, &mut reader), error);
    assert_eq!(NotMatcher::new(word("a")).test(&loc, &mut reader), error);
    assert_eq!(RepetitionMatcher::new(word("a"), 0).test(&loc, &mut reader), error);
    assert_eq!(UntilMatcher::new(word("a"), 0).test(&loc, &mut reader), error);
    assert_eq!(TokenMatcher::new(word("a")).test(&loc, &mut reader), error);
    assert_eq!(SequentialMatcher::new(vec![word("a")]).test(&loc, &mut reader), error);
    assert_eq!(ChoiceMatcher::new(vec![word("x"), word("a")]).test(&loc, &mut reader), error);
    assert_eq!(reader.low_water_mark(), 1);

    // Looking too far ahead stops a repetition with an error as well
    let mut reader = file_reader("aaaaaaaaaaaa", 4);
    assert_eq!(
        RepetitionMatcher::new(word("a"), 0).test(&loc, &mut reader),
        Err(ParserError::LookAheadBufferOverflow(4))
    );
    assert_eq!(
        UntilMatcher::new(word("b"), 0).test(&loc, &mut reader),
        Err(ParserError::LookAheadBufferOverflow(4))
    );
    assert_eq!(
        RangeMatcher::at_least_n('a', 'z', 0).test(&loc, &mut reader),
        Err(ParserError::LookAheadBufferOverflow(4))
    );
}

#[test]
fn optional_never_gives_no_match() {
    let loc = Location::new(1, 2, 1);
    let mut reader = StringCharReader::new("abc");
    let rule = OptionalMatcher::new(Rc::new(Matcher::Not(NotMatcher::new(word("x")))));
    assert_eq!(rule.test(&loc, &mut reader), found(loc, loc));
    let rule = OptionalMatcher::new(Rc::new(Matcher::Choice(ChoiceMatcher::new(vec![]))));
    assert_eq!(rule.test(&loc, &mut reader), found(loc, loc));
    let rule = OptionalMatcher::new(word("bc"));
    assert_eq!(rule.test(&loc, &mut reader), found(loc, Location::new(1, 4, 3)));
}

#[test]
fn repetition_needs_its_minimum_of_rounds() {
    let loc = Location::beginning();
    for (min, text, rounds) in
        [(0u8, "", 0), (1, "", 0), (2, "ab", 1), (2, "abab", 2), (3, "ababab", 3), (3, "ababa", 2)]
    {
        let rule = RepetitionMatcher::new(word("ab"), min);
        let mut reader = StringCharReader::new(text);
        let expected = if rounds >= min as usize { found(loc, loc + 2 * rounds) } else { Ok(None) };
        assert_eq!(rule.test(&loc, &mut reader), expected);
    }
}

#[test]
fn repetition_of_an_empty_match_ends() {
    let loc = Location::beginning();
    let mut reader = StringCharReader::new("aab");
    // The optional matcher matches nothing after the two a: the repetition stops there
    let inner = Rc::new(Matcher::Optional(OptionalMatcher::new(word("a"))));
    assert_eq!(
        RepetitionMatcher::new(inner.clone(), 0).test(&loc, &mut reader),
        found(loc, Location::new(1, 3, 2))
    );
    // It could go on for ever, so any minimum is met
    assert_eq!(
        RepetitionMatcher::new(inner, 200).test(&loc, &mut reader),
        found(loc, Location::new(1, 3, 2))
    );
    assert_eq!(
        RepetitionMatcher::new(word(""), 3).test(&loc, &mut reader),
        found(loc, loc)
    );
}

#[test]
fn repetition_counts_more_rounds_than_a_byte_holds() {
    let text = "a".repeat(300);
    let mut reader = StringCharReader::new(&text);
    let loc = Location::beginning();
    assert_eq!(
        RepetitionMatcher::new(word("a"), 255).test(&loc, &mut reader),
        found(loc, Location::new(1, 301, 300))
    );
    assert_eq!(
        RangeMatcher::at_least_n('a', 'a', 255).test(&loc, &mut reader),
        found(loc, Location::new(1, 301, 300))
    );
}

#[test]
fn sequence_is_associative() {
    let a = word("ab");
    let b = Rc::new(Matcher::Optional(OptionalMatcher::new(word("c"))));
    let c = Rc::new(Matcher::Repetition(RepetitionMatcher::new(range('0', '9'), 1)));
    let left = seq(vec![seq(vec![a.clone(), b.clone()]), c.clone()]);
    let right = seq(vec![a, seq(vec![b, c])]);
    for text in ["abc12", "ab12x", "abc", "ab", "xab1", ""] {
        for index in 0..2 {
            let loc = Location::new(1, 1, index);
            let mut first = StringCharReader::new(text);
            let mut second = StringCharReader::new(text);
            assert_eq!(left.test(&loc, &mut first), right.test(&loc, &mut second));
        }
    }
    let mut reader = StringCharReader::new("abc12");
    let loc = Location::beginning();
    assert_eq!(left.test(&loc, &mut reader), found(loc, Location::new(1, 6, 5)));
    assert_eq!(left.to_string(), "((\"ab\" \"c\"?) [0-9]+)");
    assert_eq!(right.to_string(), "(\"ab\" (\"c\"? [0-9]+))");
}

#[test]
fn sequence_without_children_matches_nothing() {
    let rule = SequentialMatcher::new(vec![]);
    let mut reader = StringCharReader::new("abc");
    let loc = Location::new(4, 2, 1);
    assert_eq!(rule.test(&loc, &mut reader), found(loc, loc));
    assert_eq!(rule.to_string(), "()");
}

#[test]
fn token_moves_the_cursor_to_the_end_of_each_match() {
    let rule = TokenMatcher::new(word("ab"));
    let mut reader = StringCharReader::new("ababx");

    let loc = Location::beginning();
    assert_eq!(rule.test(&loc, &mut reader), found(loc, loc + 2));
    assert_eq!(reader.low_water_mark(), 2);

    // A second match advances a second time
    let loc = loc + 2;
    assert_eq!(rule.test(&loc, &mut reader), found(loc, loc + 2));
    assert_eq!(reader.low_water_mark(), 4);
    assert_eq!(reader.peek(), Some('x'));

    // Where the inner matcher does not match, the cursor stays
    let loc = loc + 2;
    assert_eq!(rule.test(&loc, &mut reader), found(loc, loc));
    assert_eq!(reader.low_water_mark(), 4);
    assert_eq!(reader.peek(), Some('x'));
    assert_eq!(rule.to_string(), "\"ab\"");
}

#[test]
fn token_ahead_of_the_cursor_consumes_up_to_its_end() {
    let rule = TokenMatcher::new(word("cd"));
    let mut reader = file_reader("abcdef", 6);
    let loc = Location::new(1, 3, 2);
    assert_eq!(rule.test(&loc, &mut reader), found(loc, loc + 2));
    assert_eq!(reader.low_water_mark(), 4);
    assert_eq!(reader.peek(), Some('e'));
    // What lies behind the cursor is gone
    assert_eq!(rule.test(&loc, &mut reader), Err(ParserError::NoLookBehind(2)));
}

#[test]
fn until_passes_over_line_breaks() {
    let rule = UntilMatcher::new(word("*/"), 0);
    let mut reader = StringCharReader::new("ab\ncd\n\ne*/");
    let loc = Location::beginning();
    assert_eq!(
        rule.test(&loc, &mut reader),
        Ok(Some(ParseInfo::new(Span::new(loc, Location::new(4, 2, 8)), 8)))
    );
    // Without its end the matcher runs to the end of the input
    let mut reader = StringCharReader::new("ab\n");
    assert_eq!(
        rule.test(&loc, &mut reader),
        Ok(Some(ParseInfo::new(Span::new(loc, Location::new(2, 1, 3)), 3)))
    );
    let rule = UntilMatcher::new(word("*/"), 4);
    assert_eq!(rule.test(&loc, &mut reader), Ok(None));
    assert_eq!(rule.to_string(), "(!\"*/\"){4,...}");
    assert_eq!(UntilMatcher::new(word("a"), 0).to_string(), "(!\"a\")*");
    assert_eq!(UntilMatcher::new(word("a"), 1).to_string(), "(!\"a\")+");
}

#[test]
fn matchers_work_on_a_chunked_reader() {
    let digit = Rule::range('0', '9');
    let integer = digit.at_least(1);
    let operator = Rule::choice(vec![&Rule::word("+"), &Rule::word("-")]);
    let tail = Rule::seq(vec![&operator, &integer]).at_least(0);
    let expression = Rule::seq(vec![&integer, &tail]);
    assert_eq!(expression.to_string(), "([0-9]+ ((\"+\" | \"-\") [0-9]+)*)");

    let mut reader = FileCharReader::new(
        MemorySource::with_chunk_size("22+13-4;".as_bytes().to_vec(), 2),
        16,
    );
    let loc = Location::beginning();
    assert_eq!(expression.test(&loc, &mut reader), found(loc, Location::new(1, 8, 7)));
    assert_eq!(reader.low_water_mark(), 0);
}

#[test]
fn literals_are_written_with_escapes() {
    assert_eq!(StrMatcher::new("\n").to_string(), "\"\\n\"");
    assert_eq!(StrMatcher::new("\r").to_string(), "\"\\r\"");
    assert_eq!(StrMatcher::new("\t").to_string(), "\"\\t\"");
    assert_eq!(StrMatcher::new("\0").to_string(), "\"\\0\"");
    assert_eq!(StrMatcher::new("\"").to_string(), "\"\\\"\"");
    assert_eq!(StrMatcher::new("\\").to_string(), "\"\\\\\"");
    assert_eq!(StrMatcher::new("a\"b\nc").to_string(), "\"a\\\"b\\nc\"");
    assert_eq!(StrMatcher::new("").to_string(), "\"\"");
    assert_eq!(StrMatcher::new("é").to_string(), "\"é\"");
}

#[test]
fn repetitions_are_written_with_their_minimum() {
    let x = Rule::word("X");
    assert_eq!(x.at_least(0).to_string(), "\"X\"*");
    assert_eq!(x.at_least(1).to_string(), "\"X\"+");
    assert_eq!(x.at_least(10).to_string(), "\"X\"{10,...}");
    assert_eq!(x.at_least(255).to_string(), "\"X\"{255,...}");
    assert_eq!(
        UntilMatcher::new(x.matcher.clone(), 1234567890).to_string(),
        "(!\"X\"){1234567890,...}"
    );
}

#[test]
fn locations_and_errors_are_written() {
    let loc = Location::new(12, 7, 340);
    assert_eq!(loc.to_string(), "12:7");
    let span = Span::new(Location::beginning(), loc);
    assert_eq!(span.to_string(), "1:1-12:7");
    assert_eq!(ParseInfo::new(span, 340).to_string(), "1:1-12:7");
    assert_eq!(
        ParserError::NoLookBehind(0).to_string(),
        "Invalid search index: 0. Unable to look behind cursor."
    );
    assert_eq!(
        ParserError::LookAheadBufferOverflow(48).to_string(),
        "Could not look ahead char at index 48: char read buffer capacity is too small."
    );
}

#[test]
fn location_arithmetic() {
    let loc = Location::new(3, 9, 40);
    assert_eq!(loc.add_delta(0, 0, 0), loc);
    assert_eq!(loc.add_delta(0, 4, 4), Location::new(3, 13, 44));
    assert_eq!(loc.add_delta(2, 4, 10), Location::new(5, 5, 50));
    assert_eq!(loc.add_delta(1, 0, 1), Location::new(4, 1, 41));
    assert_eq!(loc.add_line(), Location::new(4, 1, 41));
    assert_eq!(loc + 0, loc);
    assert_eq!(Location::beginning(), Location::new(1, 1, 0));
}

#[test]
fn parse_results_are_made_from_their_parts() {
    let start = Location::new(1, 3, 2);
    let end = Location::new(2, 4, 9);
    let info = ParseInfo::new(Span::new(start, end), 7);
    assert_eq!(info.len(), 7);
    assert_eq!(info.span().start(), &start);
    assert_eq!(info.span().end(), &end);
    assert_eq!(<ParseResult as CreateParseResult>::new(Span::new(start, end), 3), Ok(Some(ParseInfo::new(Span::new(start, end), 3))));
    assert_eq!(ParseResult::matches(start, end), Ok(Some(info)));
    assert_eq!(ParseResult::no_match(), Ok(None));
    assert_eq!(ParseResult::error(ParserError::NoGrammarDefined), Err(ParserError::NoGrammarDefined));
    assert_eq!(ParseResult::empty(start), Ok(Some(ParseInfo::new(Span::new(start, start), 0))));
}

#[test]
fn every_matcher_is_tested_through_the_same_trait() {
    fn check<M: MatchToken>(matcher: &M, text: &str) -> ParseResult {
        let mut reader = StringCharReader::new(text);
        MatchToken::test(matcher, &Location::beginning(), &mut reader)
    }
    let loc = Location::beginning();
    assert_eq!(check(&StrMatcher::new("ab"), "abc"), found(loc, loc + 2));
    assert_eq!(check(&RangeMatcher::new('a', 'c'), "abc"), found(loc, loc + 1));
    assert_eq!(check(&SequentialMatcher::new(vec![word("a"), word("b")]), "abc"), found(loc, loc + 2));
    assert_eq!(check(&ChoiceMatcher::new(vec![word("b"), word("a")]), "abc"), found(loc, loc + 1));
    assert_eq!(check(&OptionalMatcher::new(word("b")), "abc"), found(loc, loc));
    assert_eq!(check(&RepetitionMatcher::new(range('a', 'b'), 2), "abc"), found(loc, loc + 2));
    assert_eq!(check(&NotMatcher::new(word("a")), "abc"), Ok(None));
    assert_eq!(check(&UntilMatcher::new(word("c"), 0), "abc"), found(loc, loc + 2));
    assert_eq!(check(&TokenMatcher::new(word("abc")), "abc"), found(loc, loc + 3));
    assert_eq!(check(&Matcher::Str(StrMatcher::new("abc")), "abc"), found(loc, loc + 3));
    assert_eq!(check(&Rule::word("abcd"), "abc"), Ok(None));
}
