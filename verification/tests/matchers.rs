use parser_lib::{
    ChoiceMatcher, Location, Matcher, NotMatcher, OptionalMatcher, ParseInfo, RangeMatcher,
    RepetitionMatcher, SequentialMatcher, Span, StrMatcher, Stream, StringCharReader, TokenMatcher,
    UntilMatcher,
};
use std::cmp::min;
use std::rc::Rc;

fn word(text: &'static str) -> Rc<Matcher> {
    Rc::new(Matcher::Str(StrMatcher::new(text)))
}

#[test]
fn test_choice_matcher() {
    let rule = ChoiceMatcher::new(vec![word("hey "), word("world")]);

    // First matches but not the second
    let mut reader = StringCharReader::new("hey you");

    let info = ParseInfo::new(Span::new(Location::beginning(), Location::new(1, 5, 4)), 4);
    let loc = Location::beginning();
    assert_eq!(rule.test(&loc, &mut reader).is_ok(), true);
    assert_eq!(rule.test(&loc, &mut reader).unwrap(), Some(info));

    // Second matches but not the first
    reader = StringCharReader::new("world you");

    let info = ParseInfo::new(Span::new(Location::beginning(), Location::new(1, 6, 5)), 5);
    let loc = Location::beginning();
    assert_eq!(rule.test(&loc, &mut reader).is_ok(), true);
    assert_eq!(rule.test(&loc, &mut reader).unwrap(), Some(info));

    // None match
    reader = StringCharReader::new("hello you");

    assert_eq!(rule.test(&loc, &mut reader).is_ok(), true);
    assert_eq!(rule.test(&loc, &mut reader).unwrap(), None);

    // If both are one after the other, it should only match the first (its not a repetition, just a choice)
    reader = StringCharReader::new("hey world");

    let info = ParseInfo::new(Span::new(Location::beginning(), Location::new(1, 5, 4)), 4);
    let loc = Location::beginning();
    assert_eq!(rule.test(&loc, &mut reader).is_ok(), true);
    assert_eq!(rule.test(&loc, &mut reader).unwrap(), Some(info));

    // String representation should be "(hey |world)"
    assert_eq!(rule.to_string(), "(\"hey \" | \"world\")");
}

#[test]
fn test_not_matcher() {
    let rule = NotMatcher::new(word("hello"));

    let mut reader = StringCharReader::new("hello world");

    // Test rule
    let loc = Location::beginning();
    // Shouldn't match
    assert_eq!(rule.test(&loc, &mut reader).is_ok(), true);
    assert_eq!(rule.test(&loc, &mut reader).unwrap(), None);

    // Should match empty string if there is no match
    let loc2 = loc + 1;
    let info2 = ParseInfo::new(Span::new(loc2, loc2), 0);
    assert_eq!(rule.test(&loc2, &mut reader).is_ok(), true);
    assert_eq!(rule.test(&loc2, &mut reader).unwrap(), Some(info2));

    // String representation should be "(!\"hello\"")"
    assert_eq!(rule.to_string(), "(!\"hello\")");
}

#[test]
fn test_optional_matcher() {
    let rule = OptionalMatcher::new(word("hello"));

    let mut reader = StringCharReader::new("hello world");

    // Test rule
    let loc = Location::beginning();
    let info = ParseInfo::new(Span::new(loc, Location::new(1, 6, 5)), 5);
    assert_eq!(rule.test(&loc, &mut reader).is_ok(), true);
    assert_eq!(rule.test(&loc, &mut reader).unwrap(), Some(info));

    // If it does not match, should still match the empty string
    let loc2 = loc + 1;
    let info2 = ParseInfo::new(Span::new(loc2, loc2), 0);
    assert_eq!(rule.test(&loc2, &mut reader).is_ok(), true);
    assert_eq!(rule.test(&loc2, &mut reader).unwrap(), Some(info2));

    let loc3 = loc + 6;
    let info3 = ParseInfo::new(Span::new(loc3, loc3), 0);
    assert_eq!(rule.test(&loc3, &mut reader).is_ok(), true);
    assert_eq!(rule.test(&loc3, &mut reader).unwrap(), Some(info3));

    // String representation should be "hello?"
    assert_eq!(rule.to_string(), "\"hello\"?".to_string());
}

#[test]
fn test_range_match() {
    let rule = RangeMatcher::new('a', 'z');

    let mut reader = StringCharReader::new("abcdefghijklmnopqrstuvwxyzA");

    let mut loc = Location::beginning();

    // They must all succeed
    for _ in 0..26 {
        let info = ParseInfo::new(Span::new(loc, loc + 1), 1);
        assert_eq!(rule.test(&loc, &mut reader).is_ok(), true);
        assert_eq!(rule.test(&loc, &mut reader).unwrap(), Some(info));

        // Increment loc
        loc = loc + 1;
    }

    // But the next one must fail
    assert_eq!(rule.test(&loc, &mut reader).is_ok(), true);
    assert_eq!(rule.test(&loc, &mut reader).unwrap(), None);

    // String representation should be "[a-z]"
    assert_eq!(rule.to_string(), "[a-z]");
}

#[test]
fn test_at_least_range() {
    let rule = RangeMatcher::at_least_n('a', 'z', 5);

    let mut reader = StringCharReader::new("abcdefghijklmnopqrstuvwxyzA");

    let mut loc = Location::beginning();
    let end_loc = loc + 26;

    // They must all succeed and match the whole range starting from loc, except the last 5 because of the min
    for i in 0..22 {
        let info = ParseInfo::new(Span::new(loc, end_loc), 26 - i);
        assert_eq!(rule.test(&loc, &mut reader).is_ok(), true);
        assert_eq!(rule.test(&loc, &mut reader).unwrap(), Some(info));

        // Increment loc
        loc = loc + 1;
    }

    // But the next one must fail
    assert_eq!(rule.test(&loc, &mut reader).is_ok(), true);
    assert_eq!(rule.test(&loc, &mut reader).unwrap(), None);
}

#[test]
fn test_between_range() {
    let rule = RangeMatcher::repeat_between('a', 'z', 5, 10);

    let mut reader = StringCharReader::new("abcdefghijklmnopqrstuvwxyzA");

    let mut loc = Location::beginning();

    // They must all succeed and match the whole range starting from loc, except the last 5 because of the min
    // For the max, the first ones will be 10 char longs, but the last one will be less
    for i in 0..22 {
        let size = min(26 - i, 10);
        let info = ParseInfo::new(Span::new(loc, loc + size), size);
        assert_eq!(rule.test(&loc, &mut reader).is_ok(), true);
        assert_eq!(rule.test(&loc, &mut reader).unwrap(), Some(info));

        // Increment loc
        loc = loc + 1;
    }

    // But the next one must fail
    assert_eq!(rule.test(&loc, &mut reader).is_ok(), true);
    assert_eq!(rule.test(&loc, &mut reader).unwrap(), None);
}

#[test]
fn test_repetition_matcher() {
    let rule = RepetitionMatcher::new(word("a"), 1);

    let mut reader = StringCharReader::new("aaaallo");

    // Test rule
    let loc = Location::beginning();
    let info = ParseInfo::new(Span::new(loc, Location::new(1, 5, 4)), 4);
    assert_eq!(rule.test(&loc, &mut reader).is_ok(), true);
    assert_eq!(rule.test(&loc, &mut reader).unwrap(), Some(info));

    // It should match less if it starts later
    let loc2 = loc + 1;
    let info2 = ParseInfo::new(Span::new(loc2, Location::new(1, 5, 4)), 3);
    assert_eq!(rule.test(&loc2, &mut reader).is_ok(), true);
    assert_eq!(rule.test(&loc2, &mut reader).unwrap(), Some(info2));

    // But since min is 1, it should not match
    let mut reader = StringCharReader::new("hello");
    assert_eq!(rule.test(&loc, &mut reader).is_ok(), true);
    assert_eq!(rule.test(&loc, &mut reader).unwrap(), None);

    let rule = RepetitionMatcher::new(word("a"), 0);

    // If we modify the rule to have a min 0, it should match
    let info2 = ParseInfo::new(Span::new(loc, loc), 0);
    assert_eq!(rule.test(&loc, &mut reader).is_ok(), true);
    assert_eq!(rule.test(&loc, &mut reader).unwrap(), Some(info2));

    let rule = RepetitionMatcher::new(word("aa"), 2);

    let mut reader = StringCharReader::new("aaaaallo");

    // Min can also be greater than 1, and string matcher can be greater as well. Here, we should match the same as first time
    let info3 = ParseInfo::new(Span::new(loc, Location::new(1, 5, 4)), 4);
    assert_eq!(rule.test(&loc, &mut reader).is_ok(), true);
    assert_eq!(rule.test(&loc, &mut reader).unwrap(), Some(info3));

    let mut reader = StringCharReader::new("aaallo");

    // But if we have a string that is smaller than min, it should not match
    assert_eq!(rule.test(&loc, &mut reader).is_ok(), true);
    assert_eq!(rule.test(&loc, &mut reader).unwrap(), None);
}

#[test]
fn test_list() {
    // Some fancy grammar can already be defined:
    let x = word("X");
    let space = word(" ");
    let comma = word(",");
    let ws = Rc::new(Matcher::Repetition(RepetitionMatcher::new(space, 0)));
    let param = Rc::new(Matcher::Sequential(SequentialMatcher::new(vec![x, ws.clone()])));
    let comma_ws = Rc::new(Matcher::Sequential(SequentialMatcher::new(vec![comma, ws])));
    let second_param =
        Rc::new(Matcher::Sequential(SequentialMatcher::new(vec![comma_ws, param.clone()])));
    let second_params = Rc::new(Matcher::Repetition(RepetitionMatcher::new(second_param, 0)));
    let params = Rc::new(Matcher::Sequential(SequentialMatcher::new(vec![param, second_params])));

    let mut reader = StringCharReader::new("X, X, X");

    // Test rule
    let loc = Location::beginning();
    let info = ParseInfo::new(Span::new(loc, Location::new(1, 8, 7)), 7);
    assert_eq!(params.test(&loc, &mut reader).is_ok(), true);
    assert_eq!(params.test(&loc, &mut reader).unwrap(), Some(info));

    // Should work starting from the second X
    let loc2 = loc + 3;
    let info2 = ParseInfo::new(Span::new(loc2, Location::new(1, 8, 7)), 4);
    assert_eq!(params.test(&loc2, &mut reader).is_ok(), true);
    assert_eq!(params.test(&loc2, &mut reader).unwrap(), Some(info2));

    let mut reader = StringCharReader::new("X  ,    X    ,    X");

    // It should ignore spaces
    let info3 = ParseInfo::new(Span::new(loc, Location::new(1, 20, 19)), 19);
    assert_eq!(params.test(&loc, &mut reader).is_ok(), true);
    assert_eq!(params.test(&loc, &mut reader).unwrap(), Some(info3));

    // Even support when there is no space at all
    let mut reader = StringCharReader::new("X,X,X");
    let info4 = ParseInfo::new(Span::new(loc, Location::new(1, 6, 5)), 5);
    assert_eq!(params.test(&loc, &mut reader).is_ok(), true);
    assert_eq!(params.test(&loc, &mut reader).unwrap(), Some(info4));

    // But if there is no comma, it should just match the first X
    let mut reader = StringCharReader::new("X X X");
    let info5 = ParseInfo::new(Span::new(loc, Location::new(1, 3, 2)), 2);
    assert_eq!(params.test(&loc, &mut reader).is_ok(), true);
    assert_eq!(params.test(&loc, &mut reader).unwrap(), Some(info5));
}

#[test]
fn test_sequential_matcher() {
    let rule = SequentialMatcher::new(vec![word("hello "), word("world")]);

    let mut reader = StringCharReader::new("hello world");

    // Test rule
    let info = ParseInfo::new(Span::new(Location::beginning(), Location::new(1, 12, 11)), 11);
    let loc = Location::beginning();
    assert_eq!(rule.test(&loc, &mut reader).is_ok(), true);
    assert_eq!(rule.test(&loc, &mut reader).unwrap(), Some(info));

    let loc2 = loc + 1;
    assert_eq!(rule.test(&loc2, &mut reader).is_ok(), true);
    assert_eq!(rule.test(&loc2, &mut reader).unwrap(), None);

    // Now, try with a different input string
    let mut reader = StringCharReader::new("hello how are you?");
    assert_eq!(rule.test(&loc, &mut reader).is_ok(), true);
    assert_eq!(rule.test(&loc, &mut reader).unwrap(), None);

    // Let's try to combine it with optional
    let rule2 = SequentialMatcher::new(vec![
        Rc::new(Matcher::Optional(OptionalMatcher::new(word("hello ")))),
        word("world"),
    ]);

    let mut reader = StringCharReader::new("hello world");

    // Should be able to match the whole string
    let info = ParseInfo::new(Span::new(Location::beginning(), Location::new(1, 12, 11)), 11);
    assert_eq!(rule2.test(&loc, &mut reader).is_ok(), true);
    assert_eq!(rule2.test(&loc, &mut reader).unwrap(), Some(info));

    // Should also be able to just match the end
    let loc3 = loc + 6;
    let info = ParseInfo::new(Span::new(loc3, Location::new(1, 12, 11)), 5);
    assert_eq!(rule2.test(&loc3, &mut reader).is_ok(), true);
    assert_eq!(rule2.test(&loc3, &mut reader).unwrap(), Some(info));

    let mut reader = StringCharReader::new("world news");
    let info = ParseInfo::new(Span::new(loc, Location::new(1, 6, 5)), 5);
    assert_eq!(rule2.test(&loc, &mut reader).is_ok(), true);
    assert_eq!(rule2.test(&loc, &mut reader).unwrap(), Some(info));

    // But just the beginning won't work
    let mut reader = StringCharReader::new("hello how are you?");
    assert_eq!(rule.test(&loc, &mut reader).is_ok(), true);
    assert_eq!(rule.test(&loc, &mut reader).unwrap(), None);
}

#[test]
fn test_deltas() {
    // No new line
    let rule = StrMatcher::new("hello");
    assert_eq!(rule.delta_lines(), 0);
    assert_eq!(rule.delta_columns(), 5);

    // New line
    let rule = StrMatcher::new("\nhello");
    assert_eq!(rule.delta_lines(), 1);
    assert_eq!(rule.delta_columns(), 5);

    // New line in the middle
    let rule = StrMatcher::new("hello\nworld");
    assert_eq!(rule.delta_lines(), 1);
    assert_eq!(rule.delta_columns(), 5);

    // New line at the end
    let rule = StrMatcher::new("hello\n");
    assert_eq!(rule.delta_lines(), 1);
    assert_eq!(rule.delta_columns(), 0);

    // Empty string
    let rule = StrMatcher::new("");
    assert_eq!(rule.delta_lines(), 0);
    assert_eq!(rule.delta_columns(), 0);

    // String representation should be "\"hello\""
    let rule = StrMatcher::new("hello");
    assert_eq!(rule.to_string(), "\"hello\"");
}

#[test]
fn test_str_matcher() {
    let rule = StrMatcher::new("hello");
    let rule2 = StrMatcher::new("world");

    let mut reader = StringCharReader::new("hello world");

    // Rule 1
    let loc = Location::beginning();
    let info = ParseInfo::new(Span::new(loc, Location::new(1, 6, 5)), 5);
    assert_eq!(rule.test(&loc, &mut reader).is_ok(), true);
    assert_eq!(rule.test(&loc, &mut reader).unwrap(), Some(info));

    let loc2 = loc + 1;
    assert_eq!(rule.test(&loc2, &mut reader).is_ok(), true);
    assert_eq!(rule.test(&loc2, &mut reader).unwrap(), None);

    let loc3 = loc + 6;
    assert_eq!(rule.test(&loc3, &mut reader).is_ok(), true);
    assert_eq!(rule.test(&loc3, &mut reader).unwrap(), None);

    // Rule 2
    assert_eq!(rule2.test(&loc, &mut reader).is_ok(), true);
    assert_eq!(rule2.test(&loc, &mut reader).unwrap(), None);

    let info2 = ParseInfo::new(Span::new(loc3, Location::new(1, 12, 11)), 5);
    assert_eq!(rule2.test(&loc3, &mut reader).is_ok(), true);
    assert_eq!(rule2.test(&loc3, &mut reader).unwrap(), Some(info2));
}

#[test]
fn test_token_matcher() {
    let rule = TokenMatcher::new(word("hello"));

    let mut reader = StringCharReader::new("hello world");

    // Should match
    let loc = Location::beginning();
    let info = ParseInfo::new(Span::new(loc, loc + 5), 5);
    let res = rule.test(&loc, &mut reader);
    assert_eq!(res.is_ok(), true);
    assert_eq!(res.unwrap(), Some(info));

    // Reader should now be at " world"
    assert_eq!(reader.peek(), Some(' '));
}

#[test]
fn test_until_matcher() {
    let rule = UntilMatcher::new(word("a"), 1);

    let mut reader = StringCharReader::new("hello, a world");

    // Should match until the a
    let loc = Location::beginning();
    let info = ParseInfo::new(Span::new(loc, loc + 7), 7);
    assert_eq!(rule.test(&loc, &mut reader).is_ok(), true);
    assert_eq!(rule.test(&loc, &mut reader).unwrap(), Some(info));

    let mut reader = StringCharReader::new("hello, world");

    // Should match until the end
    let loc = Location::beginning();
    let info = ParseInfo::new(Span::new(loc, loc + 12), 12);
    assert_eq!(rule.test(&loc, &mut reader).is_ok(), true);
    assert_eq!(rule.test(&loc, &mut reader).unwrap(), Some(info));

    let mut reader = StringCharReader::new("a world");

    // Should not match
    let loc = Location::beginning();
    assert_eq!(rule.test(&loc, &mut reader).is_ok(), true);
    assert_eq!(rule.test(&loc, &mut reader).unwrap(), None);

    // Should match empty string
    let rule2 = UntilMatcher::new(word("a"), 0);
    let loc = Location::beginning();
    let info = ParseInfo::new(Span::new(loc, loc), 0);
    assert_eq!(rule2.test(&loc, &mut reader).is_ok(), true);
    assert_eq!(rule2.test(&loc, &mut reader).unwrap(), Some(info));

    // Should match 1 char
    let mut reader = StringCharReader::new(" a world");
    let loc = Location::beginning();
    let info = ParseInfo::new(Span::new(loc, loc + 1), 1);
    assert_eq!(rule.test(&loc, &mut reader).is_ok(), true);
    assert_eq!(rule.test(&loc, &mut reader).unwrap(), Some(info));
}
