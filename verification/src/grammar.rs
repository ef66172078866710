use vstd::prelude::*;
use vstd::string::StringExecFns;
use crate::evaluate::agrees;
use crate::location::Location;
use crate::match_str::MatchStr;
use crate::parse_result::ParseResult;
use crate::parser_error::ParserError;
use crate::render::render_matcher;
use crate::rule::Rule;
use crate::semantics::{has_room, test_matcher, Outcome};
use crate::stream::StreamState;

verus! {

/// A grammar: a root rule, the words reserved in it, and a rule for what is
/// to be ignored between tokens.
///
/// The intermediate rules are not kept, everything is reached from the
/// root rule. A grammar without a root rule is not defined yet.
#[derive(Debug)]
pub struct Grammar {
    /// Root rule of the grammar.
    root: Option<Rule>,
    /// Keywords that are not allowed for identifiers.
    reserved_words: Vec<String>,
    ignored: Option<Rule>,
}

/// What a grammar without a root rule is written as.
pub open spec fn undefined_text() -> Seq<char> {
    "No grammar defined."@
}

impl Grammar {
    /// The root rule, if one was saved.
    pub closed spec fn root(&self) -> Option<Rule> {
        self.root
    }

    /// The reserved words, in the order in which they were registered.
    pub closed spec fn reserved(&self) -> Seq<Seq<char>> {
        Seq::new(self.reserved_words@.len(), |i: int| self.reserved_words@[i]@)
    }

    /// The rule for what is ignored, if one was registered.
    pub closed spec fn ignored(&self) -> Option<Rule> {
        self.ignored
    }

    /// What testing the grammar at `loc` gives: what its root rule gives,
    /// or an error where it has none.
    pub open spec fn outcome(&self, st: StreamState<char>, loc: Location) -> Outcome {
        match self.root() {
            None => (Err(ParserError::NoGrammarDefined), st.cursor),
            Some(rule) => test_matcher(*rule.matcher, st, loc),
        }
    }

    /// How the grammar is written: as its root rule.
    pub open spec fn rendering(&self) -> Seq<char> {
        match self.root() {
            None => undefined_text(),
            Some(rule) => render_matcher(*rule.matcher),
        }
    }

    /// Tests the root rule of the grammar at `loc`.
    pub fn test<R: MatchStr>(&self, loc: &Location, reader: &mut R) -> (result: ParseResult)
        requires
            old(reader).wf(),
            has_room(*loc, old(reader).state().input.len()),
        ensures
            final(reader).wf(),
            agrees(
                old(reader).state(),
                final(reader).state(),
                result,
                *loc,
                self.outcome(old(reader).state(), *loc),
            ),
    {
        match &self.root {
            // Be sure to have a grammar
            None => Err(ParserError::NoGrammarDefined),
            Some(rule) => rule.test(loc, reader),
        }
    }

    /// The grammar as it is written.
    pub fn to_string(&self) -> (text: String)
        ensures
            text@ == self.rendering(),
    {
        match &self.root {
            Some(rule) => rule.to_string(),
            None => String::from_str("No grammar defined."),
        }
    }

    /// The reserved words, in the order in which they were registered.
    pub fn reserved_words(&self) -> (words: &Vec<String>)
        ensures
            words@.len() == self.reserved().len(),
            forall|i: int| 0 <= i < words@.len() ==> words@[i]@ == self.reserved()[i],
    {
        &self.reserved_words
    }
}

impl Default for Grammar {
    /// The grammar that is not defined yet.
    fn default() -> (grammar: Self)
        ensures
            grammar.root() is None,
            grammar.reserved() == Seq::<Seq<char>>::empty(),
            grammar.ignored() is None,
    {
        let grammar = Grammar { root: None, reserved_words: Vec::new(), ignored: None };
        assert(grammar.reserved() =~= Seq::<Seq<char>>::empty());
        grammar
    }
}

/// Collects what a grammar is made of, and makes the grammar once the root
/// rule is known.
#[derive(Debug)]
pub struct GrammarBuilder {
    grammar: Grammar,
}

impl GrammarBuilder {
    /// The grammar as built so far.
    pub closed spec fn grammar(&self) -> Grammar {
        self.grammar
    }

    pub fn new() -> (builder: Self)
        ensures
            builder.grammar().root() is None,
            builder.grammar().reserved() == Seq::<Seq<char>>::empty(),
            builder.grammar().ignored() is None,
    {
        let grammar = Grammar { root: None, reserved_words: Vec::new(), ignored: None };
        assert(grammar.reserved() =~= Seq::<Seq<char>>::empty());
        GrammarBuilder { grammar }
    }

    /// Registers `word` as reserved, and returns the rule that matches it.
    pub fn reserved(&mut self, word: &'static str) -> (rule: Rule)
        ensures
            final(self).grammar().reserved() == old(self).grammar().reserved().push(word@),
            final(self).grammar().root() == old(self).grammar().root(),
            final(self).grammar().ignored() == old(self).grammar().ignored(),
            *rule.matcher matches crate::matcher::Matcher::Str(m) && m.text() == word@,
    {
        self.grammar.reserved_words.push(String::from_str(word));
        assert(self.grammar.reserved() =~= old(self).grammar.reserved().push(word@));
        Rule::word(word)
    }

    /// Saves `root` as the root rule and hands out the grammar.
    pub fn save_root(self, root: Rule) -> (grammar: Grammar)
        ensures
            grammar.root() == Some(root),
            grammar.reserved() == self.grammar().reserved(),
            grammar.ignored() == self.grammar().ignored(),
    {
        let mut grammar = self.grammar;
        grammar.root = Some(root);
        assert(grammar.reserved() =~= self.grammar.reserved());
        grammar
    }

    /// Registers `ignored` as the rule for what is ignored between tokens.
    pub fn ignore(&mut self, ignored: Rule)
        ensures
            final(self).grammar().ignored() == Some(ignored),
            final(self).grammar().root() == old(self).grammar().root(),
            final(self).grammar().reserved() == old(self).grammar().reserved(),
    {
        self.grammar.ignored = Some(ignored);
        assert(self.grammar.reserved() =~= old(self).grammar.reserved());
    }
}

} // verus!
