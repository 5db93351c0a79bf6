//! The recursive-descent parser: from tokens and their lines to a parsed file.
use crate::ast::{
    lemma_single_model, lemma_tuple_model, statement_models, type_models, Expression, ParsedFile,
    ParsedFunc, ParsedType, SingleType, Statement, TypeModel, TypeTuple, Var,
};
use crate::error::{ParseError, ParseFailure};
use crate::grammar::{
    expect, expr_at, expr_statement_at, file_at, found_text, generic_args, identifier_at, is_at,
    lemma_statement_advances, lemma_type_advances, let_at, mismatch, statements_at, tuple_items,
    type_at, type_then_eq,
};
use crate::text::share;
use crate::token::{token_views, Token, TokenView};
use std::rc::Rc;
use vstd::prelude::*;
use vstd::string::*;

verus! {

/// A parser over a token sequence and its line table, with a cursor into
/// the tokens. Every rule that fails leaves the cursor where the rule
/// started.
pub struct Parser {
    tokens: Vec<Token>,
    cur: usize,
    funcs: Vec<(Rc<String>, ParsedFunc, bool)>,
    lines: Vec<u16>,
}

impl Parser {
    /// The tokens being parsed.
    pub closed spec fn stream(&self) -> Seq<TokenView> {
        token_views(self.tokens@)
    }

    /// The line of each token, and one closing entry.
    pub closed spec fn line_table(&self) -> Seq<u16> {
        self.lines@
    }

    /// The index of the next token to read.
    pub closed spec fn position(&self) -> int {
        self.cur as int
    }

    /// The number of functions collected.
    pub closed spec fn function_count(&self) -> nat {
        self.funcs@.len()
    }

    /// The line table has one entry for each token and one more, the cursor
    /// is inside the tokens or just behind them, and no function is held.
    pub open spec fn wf(&self) -> bool {
        &&& self.line_table().len() == self.stream().len() + 1
        &&& 0 <= self.position() <= self.stream().len()
        &&& self.function_count() == 0
    }

    /// The parser is well formed and works on the same input as `before`.
    pub open spec fn follows(&self, before: &Parser) -> bool {
        &&& self.wf()
        &&& self.stream() == before.stream()
        &&& self.line_table() == before.line_table()
    }

    /// A parser at the start of `tokens`, whose lines are `lines`.
    pub fn new(tokens: Vec<Token>, lines: Vec<u16>) -> (r: Parser)
        requires
            lines.len() == tokens.len() + 1,
        ensures
            r.wf(),
            r.stream() == token_views(tokens@),
            r.line_table() == lines@,
            r.position() == 0,
    {
        Parser { tokens, lines, cur: 0, funcs: Vec::new() }
    }

    /// Parses the tokens from the cursor to the end of the input into a
    /// file. The first failure ends parsing and is the result.
    pub fn parse(self) -> (r: Result<ParsedFile, ParseError>)
        requires
            self.wf(),
        ensures
            match file_at(self.stream(), self.line_table(), self.position()) {
                Ok(f) => r matches Ok(file) && file@ == f,
                Err(e) => r matches Err(x) && x@ == e,
            },
    {
        let mut parser = self;
        match parser.statements() {
            Ok(statements) => {
                let file = ParsedFile { funcs: parser.funcs, statements, index: 0 };
                assert(file@.funcs =~= seq![]);
                Ok(file)
            },
            Err(e) => Err(e),
        }
    }

    /// Reads statements up to the end of the input.
    pub fn statements(&mut self) -> (r: Result<Vec<Statement>, ParseError>)
        requires
            old(self).wf(),
        ensures
            final(self).follows(old(self)),
            match statements_at(
                old(self).stream(),
                old(self).line_table(),
                old(self).position(),
                seq![],
            ) {
                Ok(s) => r matches Ok(v) && statement_models(v@) == s && final(self).position()
                    == old(self).stream().len(),
                Err(e) => r matches Err(x) && x@ == e
                    && final(self).position() == old(self).position(),
            },
    {
        let start = self.cur;
        let mut statements: Vec<Statement> = Vec::new();
        assert(statement_models(statements@) =~= seq![]);
        while self.has_next()
            invariant
                self.follows(old(self)),
                start == old(self).cur,
                statements_at(self.stream(), self.line_table(), start as int, seq![])
                    == statements_at(
                    self.stream(),
                    self.line_table(),
                    self.cur as int,
                    statement_models(statements@),
                ),
            decreases self.tokens.len() - self.cur,
        {
            if self.test(Token::Semi) {
                self.advance();
            } else {
                proof {
                    lemma_statement_advances(self.stream(), self.line_table(), self.cur as int);
                }
                let parsed = if self.test(Token::Let) {
                    self.advance();
                    self.let_statement()
                } else {
                    self.expr_statement()
                };
                match parsed {
                    Ok(statement) => {
                        assert(statement_models(statements@.push(statement)) =~= statement_models(
                            statements@,
                        ).push(statement@));
                        statements.push(statement);
                    },
                    Err(e) => {
                        self.cur = start;
                        return Err(e);
                    },
                }
            }
        }
        Ok(statements)
    }

    /// Reads a `let` statement whose keyword has just been passed.
    pub fn let_statement(&mut self) -> (r: Result<Statement, ParseError>)
        requires
            old(self).wf(),
        ensures
            final(self).follows(old(self)),
            match let_at(old(self).stream(), old(self).line_table(), old(self).position()) {
                Ok((s, next)) => r matches Ok(statement) && statement@ == s
                    && final(self).position() == next,
                Err(e) => r matches Err(x) && x@ == e
                    && final(self).position() == old(self).position(),
            },
    {
        let start = self.cur;
        let line = self.line();
        let name = match self.identifier() {
            Ok(name) => name,
            Err(e) => {
                return Err(e);
            },
        };
        let declared: Option<ParsedType>;
        if self.test(Token::Eq) {
            self.advance();
            declared = None;
        } else {
            let context = if self.test(Token::Colon) {
                self.advance();
                "expect a '=' after 'let' and variable name"
            } else {
                "expect a '=' after variable type in 'let' statement"
            };
            match self.type_then_eq(context) {
                Ok(ty) => {
                    declared = Some(ty);
                },
                Err(e) => {
                    self.cur = start;
                    return Err(e);
                },
            }
        }
        let init = match self.expr() {
            Ok(init) => init,
            Err(e) => {
                self.cur = start;
                return Err(e);
            },
        };
        if self.has_next() && self.test(Token::Semi) {
            self.advance();
        }
        Ok(Statement::Let(Box::new((Var::Name(name), declared, init, line))))
    }

    /// Reads a type and the `=` behind it. A missing `=` is reported with
    /// `context` behind the reason.
    pub fn type_then_eq(&mut self, context: &'static str) -> (r: Result<ParsedType, ParseError>)
        requires
            old(self).wf(),
        ensures
            final(self).follows(old(self)),
            match type_then_eq(
                old(self).stream(),
                old(self).line_table(),
                old(self).position(),
                context@,
            ) {
                Ok((ty, next)) => r matches Ok(t) && Some(t@) == ty && final(self).position()
                    == next,
                Err(e) => r matches Err(x) && x@ == e
                    && final(self).position() == old(self).position(),
            },
    {
        let start = self.cur;
        let ty = match self.parse_type() {
            Ok(ty) => ty,
            Err(e) => {
                return Err(e);
            },
        };
        match self.assert_next(Token::Eq) {
            Ok(()) => Ok(ty),
            Err(e) => {
                self.cur = start;
                Err(e.msg(context))
            },
        }
    }

    /// Reads an expression statement: an expression, and a semicolon if one
    /// follows.
    pub fn expr_statement(&mut self) -> (r: Result<Statement, ParseError>)
        requires
            old(self).wf(),
        ensures
            final(self).follows(old(self)),
            match expr_statement_at(
                old(self).stream(),
                old(self).line_table(),
                old(self).position(),
            ) {
                Ok((s, next)) => r matches Ok(statement) && statement@ == s
                    && final(self).position() == next,
                Err(e) => r matches Err(x) && x@ == e
                    && final(self).position() == old(self).position(),
            },
    {
        let line = self.line();
        let expr = match self.expr() {
            Ok(expr) => expr,
            Err(e) => {
                return Err(e);
            },
        };
        if self.test(Token::Semi) {
            self.advance();
            Ok(Statement::Discard(expr, line))
        } else {
            Ok(Statement::Expr(expr, line))
        }
    }

    /// Reads an expression. An expression is a single atom: no operator
    /// combines two.
    pub fn expr(&mut self) -> (r: Result<Expression, ParseError>)
        requires
            old(self).wf(),
        ensures
            final(self).follows(old(self)),
            match expr_at(old(self).stream(), old(self).line_table(), old(self).position()) {
                Ok((e, next)) => r matches Ok(expr) && expr@ == e && final(self).position()
                    == next,
                Err(e) => r matches Err(x) && x@ == e
                    && final(self).position() == old(self).position(),
            },
    {
        self.medium_expr()
    }

    /// Reads an atom: a string literal or a variable.
    pub fn medium_expr(&mut self) -> (r: Result<Expression, ParseError>)
        requires
            old(self).wf(),
        ensures
            final(self).follows(old(self)),
            match expr_at(old(self).stream(), old(self).line_table(), old(self).position()) {
                Ok((e, next)) => r matches Ok(expr) && expr@ == e && final(self).position()
                    == next,
                Err(e) => r matches Err(x) && x@ == e
                    && final(self).position() == old(self).position(),
            },
    {
        if self.has_next() {
            let atom = match self.now() {
                Token::Str(text) => Some(Expression::Str(share(text))),
                Token::Id(name) => Some(Expression::Var(Box::new(Var::Name(share(name))))),
                _ => None,
            };
            if let Some(expr) = atom {
                self.advance();
                return Ok(expr);
            }
        }
        let mut reason = String::from_str("expect expression in fact found token ");
        reason.append(self.found().as_str());
        Err(ParseError::new(self.line(), reason))
    }

    /// Whether a token is left to read.
    pub fn has_next(&self) -> (r: bool)
        requires
            self.wf(),
        ensures
            r == (self.position() < self.stream().len()),
    {
        self.cur < self.tokens.len()
    }

    /// Moves the cursor over one token.
    pub fn advance(&mut self)
        requires
            old(self).wf(),
            old(self).position() < old(self).stream().len(),
        ensures
            final(self).follows(old(self)),
            final(self).position() == old(self).position() + 1,
    {
        assert(self.cur < self.tokens.len());
        self.cur += 1;
    }

    /// The token under the cursor.
    pub fn now(&self) -> (r: &Token)
        requires
            self.wf(),
            self.position() < self.stream().len(),
        ensures
            r@ == self.stream()[self.position()],
    {
        &self.tokens[self.cur]
    }

    /// Moves the cursor over one token and gives that token.
    pub fn next(&mut self) -> (r: &Token)
        requires
            old(self).wf(),
            old(self).position() < old(self).stream().len(),
        ensures
            final(self).follows(old(self)),
            final(self).position() == old(self).position() + 1,
            r@ == old(self).stream()[old(self).position()],
    {
        self.advance();
        &self.tokens[self.cur - 1]
    }

    /// Whether the token under the cursor is `tk`. At the end of the input
    /// it is not.
    pub fn test(&self, tk: Token) -> (r: bool)
        requires
            self.wf(),
        ensures
            r == is_at(self.stream(), self.position(), tk@),
    {
        self.cur < self.tokens.len() && tk.same(&self.tokens[self.cur])
    }

    /// The line of the token under the cursor; at the end of the input, the
    /// closing entry of the line table.
    pub fn line(&self) -> (r: u16)
        requires
            self.wf(),
        ensures
            r == self.line_table()[self.position()],
    {
        self.lines[self.cur]
    }

    /// How a diagnostic shows what stands under the cursor.
    pub fn found(&self) -> (r: String)
        requires
            self.wf(),
        ensures
            r@ == found_text(self.stream(), self.position()),
    {
        if self.cur < self.tokens.len() {
            self.tokens[self.cur].describe()
        } else {
            String::from_str("end of input")
        }
    }

    /// Reads an identifier and gives its text.
    pub fn identifier(&mut self) -> (r: Result<Rc<String>, ParseError>)
        requires
            old(self).wf(),
        ensures
            final(self).follows(old(self)),
            match identifier_at(old(self).stream(), old(self).line_table(), old(self).position()) {
                Ok((name, next)) => r matches Ok(text) && text@ == name && final(self).position()
                    == next,
                Err(e) => r matches Err(x) && x@ == e
                    && final(self).position() == old(self).position(),
            },
    {
        if self.has_next() {
            let name = match self.now() {
                Token::Id(name) => Some(share(name)),
                _ => None,
            };
            if let Some(name) = name {
                self.advance();
                return Ok(name);
            }
        }
        let mut reason = String::from_str("expect identifier in fact found token ");
        reason.append(self.found().as_str());
        Err(ParseError::new(self.line(), reason))
    }

    /// Passes the token under the cursor if it is `token`, and fails with
    /// the mismatch if it is another or the input has ended.
    pub fn assert_next(&mut self, token: Token) -> (r: Result<(), ParseError>)
        requires
            old(self).wf(),
        ensures
            final(self).follows(old(self)),
            match expect(old(self).stream(), old(self).line_table(), old(self).position(), token@) {
                Ok(next) => r is Ok && final(self).position() == next,
                Err(e) => r matches Err(x) && x@ == e
                    && final(self).position() == old(self).position(),
            },
    {
        if self.has_next() && token.same(self.now()) {
            self.advance();
            Ok(())
        } else {
            Err(self.mismatch(&token))
        }
    }

    /// Reads a type.
    pub fn parse_type(&mut self) -> (r: Result<ParsedType, ParseError>)
        requires
            old(self).wf(),
        ensures
            final(self).follows(old(self)),
            match type_at(old(self).stream(), old(self).line_table(), old(self).position()) {
                Ok((ty, next)) => r matches Ok(t) && t@ == ty && final(self).position() == next
                    && old(self).position() < next,
                Err(e) => r matches Err(x) && x@ == e
                    && final(self).position() == old(self).position(),
            },
        decreases old(self).stream().len() - old(self).position(),
    {
        let start = self.cur;
        proof {
            lemma_type_advances(self.stream(), self.line_table(), self.cur as int);
        }
        if self.test(Token::LParen) {
            self.advance();
            let mut vec: Vec<ParsedType> = Vec::new();
            assert(type_models(vec@) =~= seq![]);
            while self.has_next()
                invariant
                    self.follows(old(self)),
                    start == old(self).cur,
                    start < self.cur,
                    is_at(self.stream(), start as int, TokenView::LParen),
                    tuple_items(self.stream(), self.line_table(), start + 1, seq![])
                        == tuple_items(
                        self.stream(),
                        self.line_table(),
                        self.cur as int,
                        type_models(vec@),
                    ),
                decreases self.tokens.len() - self.cur,
            {
                if self.test(Token::Comma) {
                    self.advance();
                } else if self.test(Token::RParen) {
                    self.advance();
                    let tuple = TypeTuple { vec };
                    proof {
                        lemma_tuple_model(tuple);
                    }
                    return Ok(ParsedType::Tuple(tuple));
                } else {
                    match self.parse_type() {
                        Ok(member) => {
                            assert(type_models(vec@.push(member)) =~= type_models(vec@).push(
                                member@,
                            ));
                            vec.push(member);
                        },
                        Err(e) => {
                            self.cur = start;
                            return Err(e);
                        },
                    }
                }
            }
            let e = self.mismatch(&Token::RParen);
            self.cur = start;
            return Err(e);
        }
        let head = match self.identifier() {
            Ok(name) => name,
            Err(e) => {
                return Err(e.msg("expect a type identifier"));
            },
        };
        let mut generic: Option<Vec<ParsedType>> = None;
        if self.test(Token::Lt) {
            self.advance();
            let mut vec: Vec<ParsedType> = Vec::new();
            assert(type_models(vec@) =~= seq![]);
            let mut closed = false;
            while !closed
                invariant
                    self.follows(old(self)),
                    start == old(self).cur,
                    start < self.cur,
                    !is_at(self.stream(), start as int, TokenView::LParen),
                    identifier_at(self.stream(), self.line_table(), start as int) == Ok::<
                        (Seq<char>, int),
                        ParseFailure,
                    >((head@, start + 1)),
                    is_at(self.stream(), start + 1, TokenView::Lt),
                    !closed ==> generic_args(self.stream(), self.line_table(), start + 2, seq![])
                        == generic_args(
                        self.stream(),
                        self.line_table(),
                        self.cur as int,
                        type_models(vec@),
                    ),
                    closed ==> generic_args(self.stream(), self.line_table(), start + 2, seq![])
                        == Ok::<(Seq<TypeModel>, int), ParseFailure>(
                        (type_models(vec@), self.cur as int),
                    ),
                decreases self.tokens.len() - self.cur + (if closed { 0int } else { 1int }),
            {
                proof {
                    lemma_type_advances(self.stream(), self.line_table(), self.cur as int);
                }
                match self.parse_type() {
                    Ok(arg) => {
                        assert(type_models(vec@.push(arg)) =~= type_models(vec@).push(arg@));
                        vec.push(arg);
                    },
                    Err(e) => {
                        self.cur = start;
                        return Err(e);
                    },
                }
                if self.test(Token::Gt) {
                    self.advance();
                    closed = true;
                } else if self.test(Token::Comma) {
                    self.advance();
                    if self.test(Token::Gt) {
                        self.advance();
                        closed = true;
                    }
                } else if !self.has_next() {
                    let e = self.mismatch(&Token::Gt);
                    self.cur = start;
                    return Err(e);
                }
            }
            generic = Some(vec);
        }
        let single = SingleType { name: head, generic };
        proof {
            lemma_single_model(single);
        }
        Ok(ParsedType::Single(single))
    }

    /// The failure of finding something else than `expected` under the cursor.
    pub fn mismatch(&self, expected: &Token) -> (r: ParseError)
        requires
            self.wf(),
        ensures
            r@ == mismatch(self.stream(), self.line_table(), self.position(), expected@),
    {
        let mut reason = String::from_str("[assert_next] expect token ");
        reason.append(expected.describe().as_str());
        reason.append(" in fact ");
        reason.append(self.found().as_str());
        ParseError::new(self.line(), reason)
    }
}

} // verus!
