pub mod byte_source;
pub mod char_buffer;
pub mod evaluate;
pub mod file_char_reader;
pub mod grammar;
pub mod laws;
pub mod lexer;
pub mod location;
pub mod match_str;
pub mod match_token;
pub mod matcher;
pub mod parse_info;
pub mod parse_result;
pub mod parser_error;
pub mod position;
pub mod render;
pub mod ring_buffer;
pub mod rule;
pub mod semantics;
pub mod span;
pub mod stream;
pub mod string_char_reader;
pub mod token;
pub mod try_into_char;
pub mod utf8;

// Traits
pub use byte_source::ByteSource;
pub use lexer::Peek;
pub use match_str::MatchStr;
pub use match_token::MatchToken;
pub use parse_result::CreateParseResult;
pub use stream::Stream;
pub use try_into_char::TryIntoChar;
pub use utf8::ReadUTF8;

// Readers and buffers
pub use byte_source::MemorySource;
pub use char_buffer::CharBuffer;
pub use char_buffer::CharBufferError;
pub use char_buffer::CharBufferErrorType;
pub use file_char_reader::FileCharReader;
pub use lexer::Lexer;
pub use lexer::StringReader;
pub use ring_buffer::CharRingBuffer;
pub use ring_buffer::RingBufferError;
pub use stream::StreamState;
pub use string_char_reader::StringCharReader;

// Matchers
pub use matcher::ChoiceMatcher;
pub use matcher::Matcher;
pub use matcher::NotMatcher;
pub use matcher::OptionalMatcher;
pub use matcher::RangeMatcher;
pub use matcher::RepetitionMatcher;
pub use matcher::SequentialMatcher;
pub use matcher::StrMatcher;
pub use matcher::TokenMatcher;
pub use matcher::UntilMatcher;

// Grammars and results
pub use grammar::Grammar;
pub use grammar::GrammarBuilder;
pub use location::Location;
pub use parse_info::ParseInfo;
pub use parse_result::ParseResult;
pub use parser_error::ParserError;
pub use rule::Rule;
pub use span::Span;
pub use token::Token;
pub use token::TokenType;
pub use token::Tokenizer;
