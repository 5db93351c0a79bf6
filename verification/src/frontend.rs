//! The front end as a whole: from source bytes to a parsed file.
use crate::ast::{FileModel, ParsedFile};
use crate::error::{ParseError, ParseFailure};
use crate::grammar::file_at;
use crate::parser::Parser;
use crate::tokenizer::{lex, LexError, Tokenizer};
use vstd::prelude::*;

verus! {

/// Why a source gave no parsed file.
#[derive(Debug, Clone, PartialEq)]
pub enum FrontendError {
    /// The source could not be tokenized.
    Lex(LexError),
    /// The tokens could not be parsed.
    Parse(ParseError),
}

/// The model of a [`FrontendError`].
pub enum FrontendFailure {
    Lex(LexError),
    Parse(ParseFailure),
}

impl View for FrontendError {
    type V = FrontendFailure;

    open spec fn view(&self) -> FrontendFailure {
        match self {
            FrontendError::Lex(e) => FrontendFailure::Lex(*e),
            FrontendError::Parse(e) => FrontendFailure::Parse(e@),
        }
    }
}

/// What a source means: the file that its tokens parse to, or the first
/// failure, of tokenizing or else of parsing.
pub open spec fn source_meaning(source: Seq<u8>) -> Result<FileModel, FrontendFailure> {
    match lex(source, 0, 1) {
        Err(e) => Err(FrontendFailure::Lex(e)),
        Ok(lexed) => match file_at(lexed.tokens, lexed.lines, 0) {
            Ok(file) => Ok(file),
            Err(e) => Err(FrontendFailure::Parse(e)),
        },
    }
}

/// Tokenizes a source from its start, on line 1, and parses the tokens.
pub fn parse_source(source: Vec<u8>) -> (r: Result<ParsedFile, FrontendError>)
    ensures
        match source_meaning(source@) {
            Ok(file) => r matches Ok(parsed) && parsed@ == file,
            Err(e) => r matches Err(x) && x@ == e,
        },
{
    let mut tokenizer = Tokenizer::new(source);
    match tokenizer.tokenize() {
        Err(e) => Err(FrontendError::Lex(e)),
        Ok((tokens, lines)) => match Parser::new(tokens, lines).parse() {
            Ok(file) => Ok(file),
            Err(e) => Err(FrontendError::Parse(e)),
        },
    }
}

} // verus!
