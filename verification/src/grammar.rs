//! The grammar, as functions from a token sequence and a position to what
//! is parsed there and where parsing goes on.
//!
//! Every function takes the tokens, the line table that goes with them (one
//! entry for each token and a closing one) and a position, and gives either
//! the value parsed and the position behind it, or the failure. A failure
//! carries the line of the position it was met at; at the end of the input
//! that is the closing entry of the line table.
use crate::ast::{ExprModel, FileModel, StatementModel, TypeModel, VarModel};
use crate::error::ParseFailure;
use crate::token::{token_text, TokenView};
use vstd::prelude::*;

verus! {

/// Whether the token at `pos` exists and is `token`.
pub open spec fn is_at(tokens: Seq<TokenView>, pos: int, token: TokenView) -> bool {
    0 <= pos < tokens.len() && tokens[pos] == token
}

/// How a diagnostic shows what stands at `pos`.
pub open spec fn found_text(tokens: Seq<TokenView>, pos: int) -> Seq<char> {
    if 0 <= pos < tokens.len() {
        token_text(tokens[pos])
    } else {
        "end of input"@
    }
}

/// The failure of finding something else than `expected` at `pos`.
pub open spec fn mismatch(
    tokens: Seq<TokenView>,
    lines: Seq<u16>,
    pos: int,
    expected: TokenView,
) -> ParseFailure {
    ParseFailure {
        line: lines[pos],
        reason: "[assert_next] expect token "@ + token_text(expected) + " in fact "@ + found_text(
            tokens,
            pos,
        ),
    }
}

/// Consuming one given token: the position behind it, or the mismatch.
pub open spec fn expect(
    tokens: Seq<TokenView>,
    lines: Seq<u16>,
    pos: int,
    expected: TokenView,
) -> Result<int, ParseFailure> {
    if is_at(tokens, pos, expected) {
        Ok(pos + 1)
    } else {
        Err(mismatch(tokens, lines, pos, expected))
    }
}

/// Consuming an identifier: its text and the position behind it.
pub open spec fn identifier_at(tokens: Seq<TokenView>, lines: Seq<u16>, pos: int) -> Result<
    (Seq<char>, int),
    ParseFailure,
> {
    if 0 <= pos < tokens.len() && tokens[pos] is Id {
        Ok((tokens[pos]->Id_0, pos + 1))
    } else {
        Err(
            ParseFailure {
                line: lines[pos],
                reason: "expect identifier in fact found token "@ + found_text(tokens, pos),
            },
        )
    }
}

/// The failure that stands where a rule would go on without having consumed
/// a token. No input leads there: see [`lemma_type_advances`] and
/// [`lemma_statement_advances`].
pub open spec fn stuck(lines: Seq<u16>, pos: int) -> ParseFailure {
    ParseFailure { line: lines[pos], reason: "no progress"@ }
}

/// A type: a tuple of types between parentheses, or a name with its generic
/// arguments, if any, between angle brackets.
pub open spec fn type_at(tokens: Seq<TokenView>, lines: Seq<u16>, pos: int) -> Result<
    (TypeModel, int),
    ParseFailure,
>
    decreases tokens.len() - pos, 0int,
{
    if is_at(tokens, pos, TokenView::LParen) {
        match tuple_items(tokens, lines, pos + 1, seq![]) {
            Ok((items, next)) => Ok((TypeModel::Tuple(items), next)),
            Err(e) => Err(e),
        }
    } else {
        match identifier_at(tokens, lines, pos) {
            Err(e) => Err(e.msg("expect a type identifier"@)),
            Ok((name, next)) => if is_at(tokens, next, TokenView::Lt) {
                match generic_args(tokens, lines, next + 1, seq![]) {
                    Ok((args, end)) => Ok((TypeModel::Single { name, generic: Some(args) }, end)),
                    Err(e) => Err(e),
                }
            } else {
                Ok((TypeModel::Single { name, generic: None }, next))
            },
        }
    }
}

/// The members of a tuple type from `pos` on, behind the members `acc`
/// already read, up to the closing parenthesis. Commas only separate:
/// leading, trailing and repeated ones are passed over.
pub open spec fn tuple_items(
    tokens: Seq<TokenView>,
    lines: Seq<u16>,
    pos: int,
    acc: Seq<TypeModel>,
) -> Result<(Seq<TypeModel>, int), ParseFailure>
    decreases tokens.len() - pos, 1int,
{
    if !(0 <= pos < tokens.len()) {
        Err(mismatch(tokens, lines, pos, TokenView::RParen))
    } else if tokens[pos] == TokenView::Comma {
        tuple_items(tokens, lines, pos + 1, acc)
    } else if tokens[pos] == TokenView::RParen {
        Ok((acc, pos + 1))
    } else {
        match type_at(tokens, lines, pos) {
            Err(e) => Err(e),
            Ok((member, next)) => if pos < next <= tokens.len() {
                tuple_items(tokens, lines, next, acc.push(member))
            } else {
                Err(stuck(lines, pos))
            },
        }
    }
}

/// The generic arguments of a type from `pos` on, behind the arguments `acc`
/// already read, up to the closing angle bracket. There is at least one
/// argument; a comma may stand behind each, the last one too.
pub open spec fn generic_args(
    tokens: Seq<TokenView>,
    lines: Seq<u16>,
    pos: int,
    acc: Seq<TypeModel>,
) -> Result<(Seq<TypeModel>, int), ParseFailure>
    decreases tokens.len() - pos, 1int,
{
    match type_at(tokens, lines, pos) {
        Err(e) => Err(e),
        Ok((arg, next)) => {
            let args = acc.push(arg);
            if !(pos < next <= tokens.len()) {
                Err(stuck(lines, pos))
            } else if is_at(tokens, next, TokenView::Gt) {
                Ok((args, next + 1))
            } else if is_at(tokens, next, TokenView::Comma) {
                if is_at(tokens, next + 1, TokenView::Gt) {
                    Ok((args, next + 2))
                } else {
                    generic_args(tokens, lines, next + 1, args)
                }
            } else if next < tokens.len() {
                generic_args(tokens, lines, next, args)
            } else {
                Err(mismatch(tokens, lines, next, TokenView::Gt))
            }
        },
    }
}

/// An expression: a single atom, which is a string literal or a variable.
/// Nothing combines atoms.
pub open spec fn expr_at(tokens: Seq<TokenView>, lines: Seq<u16>, pos: int) -> Result<
    (ExprModel, int),
    ParseFailure,
> {
    if 0 <= pos < tokens.len() && tokens[pos] is Str {
        Ok((ExprModel::Str(tokens[pos]->Str_0), pos + 1))
    } else if 0 <= pos < tokens.len() && tokens[pos] is Id {
        Ok((ExprModel::Var(VarModel::Name(tokens[pos]->Id_0)), pos + 1))
    } else {
        Err(
            ParseFailure {
                line: lines[pos],
                reason: "expect expression in fact found token "@ + found_text(tokens, pos),
            },
        )
    }
}

/// A type and the `=` behind it; `context` is put behind the reason when
/// the `=` is missing.
pub open spec fn type_then_eq(
    tokens: Seq<TokenView>,
    lines: Seq<u16>,
    pos: int,
    context: Seq<char>,
) -> Result<(Option<TypeModel>, int), ParseFailure> {
    match type_at(tokens, lines, pos) {
        Err(e) => Err(e),
        Ok((ty, next)) => match expect(tokens, lines, next, TokenView::Eq) {
            Err(e) => Err(e.msg(context)),
            Ok(end) => Ok((Some(ty), end)),
        },
    }
}

/// What stands between the name of a `let` and its initializer: `=` alone,
/// `:` with a type and `=`, or a type and `=`.
pub open spec fn declared_type_at(tokens: Seq<TokenView>, lines: Seq<u16>, pos: int) -> Result<
    (Option<TypeModel>, int),
    ParseFailure,
> {
    if is_at(tokens, pos, TokenView::Eq) {
        Ok((None, pos + 1))
    } else if is_at(tokens, pos, TokenView::Colon) {
        type_then_eq(tokens, lines, pos + 1, "expect a '=' after 'let' and variable name"@)
    } else {
        type_then_eq(tokens, lines, pos, "expect a '=' after variable type in 'let' statement"@)
    }
}

/// The position behind a semicolon at `pos`, or `pos` if none stands there.
pub open spec fn past_semi(tokens: Seq<TokenView>, pos: int) -> int {
    if is_at(tokens, pos, TokenView::Semi) {
        pos + 1
    } else {
        pos
    }
}

/// A `let` statement whose keyword stands just before `pos`: the name, what
/// is declared of its type, the initializer, and a semicolon if there is
/// one. Its line is that of the token at `pos`.
pub open spec fn let_at(tokens: Seq<TokenView>, lines: Seq<u16>, pos: int) -> Result<
    (StatementModel, int),
    ParseFailure,
> {
    match identifier_at(tokens, lines, pos) {
        Err(e) => Err(e),
        Ok((name, after_name)) => match declared_type_at(tokens, lines, after_name) {
            Err(e) => Err(e),
            Ok((declared, after_eq)) => match expr_at(tokens, lines, after_eq) {
                Err(e) => Err(e),
                Ok((init, after_init)) => Ok(
                    (
                        StatementModel::Let {
                            var: VarModel::Name(name),
                            declared,
                            init,
                            line: lines[pos],
                        },
                        past_semi(tokens, after_init),
                    ),
                ),
            },
        },
    }
}

/// An expression statement at `pos`: with a semicolon behind it the value is
/// dropped, without one it is used.
pub open spec fn expr_statement_at(tokens: Seq<TokenView>, lines: Seq<u16>, pos: int) -> Result<
    (StatementModel, int),
    ParseFailure,
> {
    match expr_at(tokens, lines, pos) {
        Err(e) => Err(e),
        Ok((expr, next)) => if is_at(tokens, next, TokenView::Semi) {
            Ok((StatementModel::Discard(expr, lines[pos]), next + 1))
        } else {
            Ok((StatementModel::Expr(expr, lines[pos]), next))
        },
    }
}

/// The statement that starts at `pos`, where a token other than `;` stands.
pub open spec fn statement_at(tokens: Seq<TokenView>, lines: Seq<u16>, pos: int) -> Result<
    (StatementModel, int),
    ParseFailure,
> {
    if is_at(tokens, pos, TokenView::Let) {
        let_at(tokens, lines, pos + 1)
    } else {
        expr_statement_at(tokens, lines, pos)
    }
}

/// The statements from `pos` to the end of the input, behind the statements
/// `acc` already read. A semicolon where a statement would start is an
/// empty statement and gives nothing. The first failure ends parsing.
pub open spec fn statements_at(
    tokens: Seq<TokenView>,
    lines: Seq<u16>,
    pos: int,
    acc: Seq<StatementModel>,
) -> Result<Seq<StatementModel>, ParseFailure>
    decreases tokens.len() - pos,
{
    if !(0 <= pos < tokens.len()) {
        Ok(acc)
    } else if tokens[pos] == TokenView::Semi {
        statements_at(tokens, lines, pos + 1, acc)
    } else {
        match statement_at(tokens, lines, pos) {
            Err(e) => Err(e),
            Ok((statement, next)) => if pos < next <= tokens.len() {
                statements_at(tokens, lines, next, acc.push(statement))
            } else {
                Err(stuck(lines, pos))
            },
        }
    }
}

/// A file: the statements from `pos` on, no functions, and index 0.
pub open spec fn file_at(tokens: Seq<TokenView>, lines: Seq<u16>, pos: int) -> Result<
    FileModel,
    ParseFailure,
> {
    match statements_at(tokens, lines, pos, seq![]) {
        Ok(statements) => Ok(FileModel { funcs: seq![], statements, index: 0 }),
        Err(e) => Err(e),
    }
}

/// A type takes at least one token and ends inside the input.
pub proof fn lemma_type_advances(tokens: Seq<TokenView>, lines: Seq<u16>, pos: int)
    requires
        0 <= pos,
    ensures
        type_at(tokens, lines, pos) matches Ok((_, next)) ==> pos < next <= tokens.len(),
    decreases tokens.len() - pos, 0int,
{
    if is_at(tokens, pos, TokenView::LParen) {
        lemma_tuple_advances(tokens, lines, pos + 1, seq![]);
    } else if let Ok((_, next)) = identifier_at(tokens, lines, pos) {
        if is_at(tokens, next, TokenView::Lt) {
            lemma_generic_advances(tokens, lines, next + 1, seq![]);
        }
    }
}

/// The members of a tuple type end behind a closing parenthesis inside the
/// input.
pub proof fn lemma_tuple_advances(
    tokens: Seq<TokenView>,
    lines: Seq<u16>,
    pos: int,
    acc: Seq<TypeModel>,
)
    requires
        0 <= pos,
    ensures
        tuple_items(tokens, lines, pos, acc) matches Ok((_, next)) ==> pos < next <= tokens.len(),
    decreases tokens.len() - pos, 1int,
{
    if pos < tokens.len() {
        if tokens[pos] == TokenView::Comma {
            lemma_tuple_advances(tokens, lines, pos + 1, acc);
        } else if tokens[pos] != TokenView::RParen {
            lemma_type_advances(tokens, lines, pos);
            if let Ok((member, next)) = type_at(tokens, lines, pos) {
                lemma_tuple_advances(tokens, lines, next, acc.push(member));
            }
        }
    }
}

/// The generic arguments of a type end behind a closing angle bracket
/// inside the input.
pub proof fn lemma_generic_advances(
    tokens: Seq<TokenView>,
    lines: Seq<u16>,
    pos: int,
    acc: Seq<TypeModel>,
)
    requires
        0 <= pos,
    ensures
        generic_args(tokens, lines, pos, acc) matches Ok((_, next)) ==> pos < next
            <= tokens.len(),
    decreases tokens.len() - pos, 1int,
{
    lemma_type_advances(tokens, lines, pos);
    if let Ok((arg, next)) = type_at(tokens, lines, pos) {
        let args = acc.push(arg);
        if is_at(tokens, next, TokenView::Gt) {
        } else if is_at(tokens, next, TokenView::Comma) {
            if !is_at(tokens, next + 1, TokenView::Gt) {
                lemma_generic_advances(tokens, lines, next + 1, args);
            }
        } else if next < tokens.len() {
            lemma_generic_advances(tokens, lines, next, args);
        }
    }
}

/// A statement takes at least one token and ends inside the input.
pub proof fn lemma_statement_advances(tokens: Seq<TokenView>, lines: Seq<u16>, pos: int)
    requires
        0 <= pos,
    ensures
        statement_at(tokens, lines, pos) matches Ok((_, next)) ==> pos < next <= tokens.len(),
{
    if is_at(tokens, pos, TokenView::Let) {
        if let Ok((_, after_name)) = identifier_at(tokens, lines, pos + 1) {
            lemma_type_advances(tokens, lines, after_name);
            lemma_type_advances(tokens, lines, after_name + 1);
        }
    }
}

/// Whether a type is one that the grammar can give: a tuple of such types,
/// or a name with no generic arguments or with at least one such type as
/// arguments. The receiver type is not among them.
pub open spec fn is_written_type(ty: TypeModel) -> bool
    decreases ty,
{
    match ty {
        TypeModel::Single { name, generic } => match generic {
            Some(args) => args.len() > 0 && forall|i: int|
                0 <= i < args.len() ==> is_written_type(#[trigger] args[i]),
            None => true,
        },
        TypeModel::Tuple(items) => forall|i: int|
            0 <= i < items.len() ==> is_written_type(#[trigger] items[i]),
        TypeModel::MySelf => false,
    }
}

/// Whether all types of a sequence are ones that the grammar can give.
pub open spec fn are_written_types(types: Seq<TypeModel>) -> bool {
    forall|i: int| 0 <= i < types.len() ==> is_written_type(#[trigger] types[i])
}

/// Whether an expression is one that the grammar can give: a string literal
/// or a variable that is still a name.
pub open spec fn is_written_expr(expr: ExprModel) -> bool {
    expr is Str || (expr matches ExprModel::Var(var) && var is Name)
}

/// Whether a statement is one that the grammar can give.
pub open spec fn is_written_statement(statement: StatementModel) -> bool {
    match statement {
        StatementModel::Let { var, declared, init, line } => {
            &&& var is Name
            &&& declared matches Some(ty) ==> is_written_type(ty)
            &&& is_written_expr(init)
        },
        StatementModel::Expr(expr, line) => is_written_expr(expr),
        StatementModel::Discard(expr, line) => is_written_expr(expr),
    }
}

/// Every type that is parsed is one that the grammar can give: no generic
/// argument list in it is empty, and the receiver type does not occur.
pub proof fn lemma_type_is_written(tokens: Seq<TokenView>, lines: Seq<u16>, pos: int)
    requires
        0 <= pos,
    ensures
        type_at(tokens, lines, pos) matches Ok((ty, _)) ==> is_written_type(ty),
    decreases tokens.len() - pos, 0int,
{
    if is_at(tokens, pos, TokenView::LParen) {
        lemma_tuple_is_written(tokens, lines, pos + 1, seq![]);
    } else if let Ok((_, next)) = identifier_at(tokens, lines, pos) {
        if is_at(tokens, next, TokenView::Lt) {
            lemma_generic_is_written(tokens, lines, next + 1, seq![]);
        }
    }
}

/// The members of a parsed tuple type are ones that the grammar can give,
/// if those read before are.
pub proof fn lemma_tuple_is_written(
    tokens: Seq<TokenView>,
    lines: Seq<u16>,
    pos: int,
    acc: Seq<TypeModel>,
)
    requires
        0 <= pos,
        are_written_types(acc),
    ensures
        tuple_items(tokens, lines, pos, acc) matches Ok((items, _)) ==> are_written_types(items),
    decreases tokens.len() - pos, 1int,
{
    if pos < tokens.len() {
        if tokens[pos] == TokenView::Comma {
            lemma_tuple_is_written(tokens, lines, pos + 1, acc);
        } else if tokens[pos] != TokenView::RParen {
            lemma_type_is_written(tokens, lines, pos);
            if let Ok((member, next)) = type_at(tokens, lines, pos) {
                if pos < next <= tokens.len() {
                    lemma_tuple_is_written(tokens, lines, next, acc.push(member));
                }
            }
        }
    }
}

/// The generic arguments that are parsed are ones that the grammar can give,
/// if those read before are, and there is at least one.
pub proof fn lemma_generic_is_written(
    tokens: Seq<TokenView>,
    lines: Seq<u16>,
    pos: int,
    acc: Seq<TypeModel>,
)
    requires
        0 <= pos,
        are_written_types(acc),
    ensures
        generic_args(tokens, lines, pos, acc) matches Ok((args, _)) ==> args.len() > 0
            && are_written_types(args),
    decreases tokens.len() - pos, 1int,
{
    lemma_type_is_written(tokens, lines, pos);
    if let Ok((arg, next)) = type_at(tokens, lines, pos) {
        let args = acc.push(arg);
        if pos < next <= tokens.len() {
            if is_at(tokens, next, TokenView::Gt) {
            } else if is_at(tokens, next, TokenView::Comma) {
                if !is_at(tokens, next + 1, TokenView::Gt) {
                    lemma_generic_is_written(tokens, lines, next + 1, args);
                }
            } else if next < tokens.len() {
                lemma_generic_is_written(tokens, lines, next, args);
            }
        }
    }
}

/// Every statement that is parsed is one that the grammar can give: its
/// variable is a name, its expression an atom, and its type, if it has
/// one, a type that the grammar can give.
pub proof fn lemma_statements_are_written(
    tokens: Seq<TokenView>,
    lines: Seq<u16>,
    pos: int,
    acc: Seq<StatementModel>,
)
    requires
        0 <= pos,
        forall|i: int| 0 <= i < acc.len() ==> is_written_statement(#[trigger] acc[i]),
    ensures
        statements_at(tokens, lines, pos, acc) matches Ok(statements) ==> forall|i: int|
            0 <= i < statements.len() ==> is_written_statement(#[trigger] statements[i]),
    decreases tokens.len() - pos,
{
    if pos < tokens.len() {
        if tokens[pos] == TokenView::Semi {
            lemma_statements_are_written(tokens, lines, pos + 1, acc);
        } else if let Ok((statement, next)) = statement_at(tokens, lines, pos) {
            if is_at(tokens, pos, TokenView::Let) {
                if let Ok((_, after_name)) = identifier_at(tokens, lines, pos + 1) {
                    lemma_type_is_written(tokens, lines, after_name);
                    lemma_type_is_written(tokens, lines, after_name + 1);
                }
            }
            if pos < next <= tokens.len() {
                lemma_statements_are_written(tokens, lines, next, acc.push(statement));
            }
        }
    }
}

} // verus!
