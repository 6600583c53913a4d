//! The grammar of the language, stated on the source text.
//!
//! Each function here says what one form of the grammar reads at a place of
//! the text: the syntax tree of what stands there and the place behind it,
//! or the error at which reading stops. The parser's contracts are stated
//! over these functions.
//!
//! The forms that contain each other (an expression holds blocks, a block
//! holds expressions) are defined together. Where one of them goes on
//! behind a part that it has read, it does so only if that part has moved
//! the place forward, which every part that is read does.

use crate::compiler::ast::{ClassView, ExpressionView, MethodView, MethodsView};
use crate::compiler::chars::digit;
use crate::compiler::lexical::{lemma_scan_bounds, scan, LexError, Outcome};
use crate::compiler::progress::lemma_method_advances;
use crate::compiler::token::{TokenKind, TokenView};
use crate::compiler::Location;
use vstd::prelude::*;

verus! {

/// What is parsed: the source text, and the name of the file it is from.
pub struct Input {
    pub source: Seq<char>,
    pub filename: Seq<char>,
}

/// How far parsing has come: the place in the text, and where the last
/// token that was taken stands.
pub struct Progress {
    pub cursor: int,
    pub last: Location,
}

/// Why a text was not parsed.
pub enum ErrorView {
    ParseError { description: Seq<char>, filename: Seq<char>, location: Location },
    LexError(LexError),
}

/// What was read and how far, or the error.
pub type Parse<T> = Result<(T, Progress), ErrorView>;

/// The place `to` lies behind `from`, within the text.
pub open spec fn advances(input: Input, from: Progress, to: Progress) -> bool {
    from.cursor < to.cursor <= input.source.len()
}

/// The name of a token kind, as an error message writes it.
pub open spec fn kind_name(kind: TokenKind) -> Seq<char> {
    match kind {
        TokenKind::And => "And"@,
        TokenKind::Assign => "Assign"@,
        TokenKind::At => "At"@,
        TokenKind::Colon => "Colon"@,
        TokenKind::Comma => "Comma"@,
        TokenKind::Divide => "Divide"@,
        TokenKind::Double => "Double"@,
        TokenKind::EndBlock => "EndBlock"@,
        TokenKind::EndTerm => "EndTerm"@,
        TokenKind::Equal => "Equal"@,
        TokenKind::Exit => "Exit"@,
        TokenKind::Identifier => "Identifier"@,
        TokenKind::Integer => "Integer"@,
        TokenKind::Keyword => "Keyword"@,
        TokenKind::KeywordSequence => "KeywordSequence"@,
        TokenKind::Less => "Less"@,
        TokenKind::Minus => "Minus"@,
        TokenKind::Modulus => "Modulus"@,
        TokenKind::More => "More"@,
        TokenKind::NewBlock => "NewBlock"@,
        TokenKind::NewTerm => "NewTerm"@,
        TokenKind::Not => "Not"@,
        TokenKind::OperatorSequence => "OperatorSequence"@,
        TokenKind::Or => "Or"@,
        TokenKind::Percent => "Percent"@,
        TokenKind::Period => "Period"@,
        TokenKind::Plus => "Plus"@,
        TokenKind::Pound => "Pound"@,
        TokenKind::Primitive => "Primitive"@,
        TokenKind::Separator => "Separator"@,
        TokenKind::Star => "Star"@,
        TokenKind::String => "String"@,
    }
}

/// The names of `kinds`, with a comma and a space between each two.
pub open spec fn kind_list(kinds: Seq<TokenKind>) -> Seq<char>
    decreases kinds.len(),
{
    if kinds.len() == 0 {
        Seq::<char>::empty()
    } else if kinds.len() == 1 {
        kind_name(kinds[0])
    } else {
        kind_list(kinds.drop_last()) + ", "@ + kind_name(kinds.last())
    }
}

/// The message for a token of the kind `found` where one of `expected` was
/// called for.
pub open spec fn mismatch_description(expected: Seq<TokenKind>, found: TokenKind) -> Seq<char> {
    "Expected ["@ + kind_list(expected) + "], found "@ + kind_name(found)
}

/// The error for a text that ends where a token was called for. It is
/// placed at the last token that was taken.
pub open spec fn end_of_program(input: Input, at: Progress) -> ErrorView {
    ErrorView::ParseError {
        description: "Unexpected end of program"@,
        filename: input.filename,
        location: at.last,
    }
}

/// The error for the token `found` where one of `expected` was called for.
/// It is placed at that token.
pub open spec fn mismatch(input: Input, expected: Seq<TokenKind>, found: TokenView) -> ErrorView {
    ErrorView::ParseError {
        description: mismatch_description(expected, found.kind),
        filename: input.filename,
        location: found.location,
    }
}

/// The token that stands next, where one does.
pub open spec fn upcoming(input: Input, at: Progress) -> TokenView {
    scan(input.source, at.cursor).outcome->Token_0
}

/// The kind of the token that stands next. Where the text has ended, that
/// is an error placed at the last token that was taken; a failure of the
/// lexer is passed on as it is.
pub open spec fn peek(input: Input, at: Progress) -> Result<TokenKind, ErrorView> {
    match scan(input.source, at.cursor).outcome {
        Outcome::Token(token) => Ok(token.kind),
        Outcome::Failure(error) => Err(ErrorView::LexError(error)),
        Outcome::End => Err(end_of_program(input, at)),
    }
}

/// The token that stands next is of `kind`.
pub open spec fn peek_is(input: Input, at: Progress, kind: TokenKind) -> bool {
    peek(input, at) == Ok::<TokenKind, ErrorView>(kind)
}

/// Takes the next token, which has to be of one of the kinds `expected`.
pub open spec fn expect_one_of(input: Input, at: Progress, expected: Seq<TokenKind>) -> Parse<
    TokenView,
> {
    let scanned = scan(input.source, at.cursor);
    match scanned.outcome {
        Outcome::Token(token) => if expected.contains(token.kind) {
            Ok((token, Progress { cursor: scanned.next, last: token.location }))
        } else {
            Err(mismatch(input, expected, token))
        },
        Outcome::Failure(error) => Err(ErrorView::LexError(error)),
        Outcome::End => Err(end_of_program(input, at)),
    }
}

/// Takes the next token, which has to be of `kind`.
pub open spec fn expect(input: Input, at: Progress, kind: TokenKind) -> Parse<TokenView> {
    expect_one_of(input, at, seq![kind])
}

/// The text of a token.
pub open spec fn text_of(token: TokenView) -> Seq<char> {
    match token.text {
        Some(text) => text,
        None => Seq::<char>::empty(),
    }
}

/// A token that was taken lies behind the place where it was called for,
/// and within the text; it carries text exactly if its kind does.
pub proof fn lemma_expect_advances(input: Input, at: Progress, expected: Seq<TokenKind>)
    ensures
        expect_one_of(input, at, expected) matches Ok((token, next)) ==> advances(input, at, next)
            && 0 <= at.cursor && (token.text is Some <==> token.kind.has_text())
            && expected.contains(token.kind) && token == upcoming(input, at) && peek(input, at)
            == Ok::<TokenKind, ErrorView>(token.kind),
        peek(input, at) is Ok ==> 0 <= at.cursor < input.source.len(),
{
    if 0 <= at.cursor <= input.source.len() {
        lemma_scan_bounds(input.source, at.cursor);
    }
}

/// The kinds of the tokens that are binary operators: the operators of one
/// character, and the operator sequences.
pub open spec fn binary_kinds() -> Seq<TokenKind> {
    seq![
        TokenKind::OperatorSequence,
        TokenKind::And,
        TokenKind::At,
        TokenKind::Comma,
        TokenKind::Divide,
        TokenKind::Equal,
        TokenKind::Less,
        TokenKind::Minus,
        TokenKind::Modulus,
        TokenKind::More,
        TokenKind::Not,
        TokenKind::Or,
        TokenKind::Percent,
        TokenKind::Plus,
        TokenKind::Star,
    ]
}

/// The kinds of the tokens whose text can be a symbol.
pub open spec fn symbol_kinds() -> Seq<TokenKind> {
    seq![
        TokenKind::Identifier,
        TokenKind::String,
        TokenKind::Keyword,
        TokenKind::KeywordSequence,
        TokenKind::OperatorSequence,
        TokenKind::And,
        TokenKind::At,
        TokenKind::Comma,
        TokenKind::Divide,
        TokenKind::Equal,
        TokenKind::Less,
        TokenKind::Minus,
        TokenKind::Modulus,
        TokenKind::More,
        TokenKind::Not,
        TokenKind::Or,
        TokenKind::Percent,
        TokenKind::Plus,
        TokenKind::Star,
    ]
}

/// The kinds of the tokens with which a primary expression starts.
pub open spec fn primary_kinds() -> Seq<TokenKind> {
    seq![
        TokenKind::Double,
        TokenKind::Identifier,
        TokenKind::Integer,
        TokenKind::Minus,
        TokenKind::NewBlock,
        TokenKind::NewTerm,
        TokenKind::Pound,
        TokenKind::String,
    ]
}

/// The kinds of the two forms of number.
pub open spec fn number_kinds() -> Seq<TokenKind> {
    seq![TokenKind::Integer, TokenKind::Double]
}

/// A token of this kind is a binary operator.
pub open spec fn is_binary(kind: TokenKind) -> bool {
    kind == TokenKind::OperatorSequence || kind.binary_operator()
}

/// A token of this kind sends a message to what stands before it.
pub open spec fn is_message(kind: TokenKind) -> bool {
    kind == TokenKind::Identifier || kind == TokenKind::Keyword || is_binary(kind)
}

/// The names between two bars, if a bar stands next; no names otherwise.
pub open spec fn locals(input: Input, at: Progress) -> Parse<Seq<Seq<char>>> {
    if peek_is(input, at, TokenKind::Or) {
        match expect(input, at, TokenKind::Or) {
            Ok((_, next)) => locals_rest(input, next, Seq::<Seq<char>>::empty()),
            Err(error) => Err(error),
        }
    } else {
        Ok((Seq::<Seq<char>>::empty(), at))
    }
}

/// The names that follow `names` up to the closing bar.
pub open spec fn locals_rest(input: Input, at: Progress, names: Seq<Seq<char>>) -> Parse<
    Seq<Seq<char>>,
>
    decreases input.source.len() - at.cursor,
{
    if peek_is(input, at, TokenKind::Identifier) {
        match expect(input, at, TokenKind::Identifier) {
            Ok((name, next)) => {
                proof {
                    lemma_expect_advances(input, at, seq![TokenKind::Identifier]);
                }
                locals_rest(input, next, names.push(text_of(name)))
            },
            Err(error) => Err(error),
        }
    } else {
        match expect(input, at, TokenKind::Or) {
            Ok((_, next)) => Ok((names, next)),
            Err(error) => Err(error),
        }
    }
}

/// The parameters of a block: names with a colon before each, and a bar
/// behind the last of them if there are any.
pub open spec fn block_parameters(input: Input, at: Progress) -> Parse<Seq<Seq<char>>> {
    block_parameters_rest(input, at, Seq::<Seq<char>>::empty())
}

/// The parameters that follow `names`.
pub open spec fn block_parameters_rest(input: Input, at: Progress, names: Seq<Seq<char>>) -> Parse<
    Seq<Seq<char>>,
>
    decreases input.source.len() - at.cursor,
{
    match peek(input, at) {
        Err(error) => Err(error),
        Ok(kind) => if kind == TokenKind::Colon {
            match expect(input, at, TokenKind::Colon) {
                Err(error) => Err(error),
                Ok((_, behind_colon)) => match expect(input, behind_colon, TokenKind::Identifier) {
                    Err(error) => Err(error),
                    Ok((name, next)) => {
                        proof {
                            lemma_expect_advances(input, at, seq![TokenKind::Colon]);
                            lemma_expect_advances(
                                input,
                                behind_colon,
                                seq![TokenKind::Identifier],
                            );
                        }
                        block_parameters_rest(input, next, names.push(text_of(name)))
                    },
                },
            }
        } else if names.len() > 0 {
            match expect(input, at, TokenKind::Or) {
                Ok((_, next)) => Ok((names, next)),
                Err(error) => Err(error),
            }
        } else {
            Ok((names, at))
        },
    }
}

/// Reading local names does not go back, nor beyond the text.
pub proof fn lemma_locals_forward(input: Input, at: Progress)
    requires
        at.cursor <= input.source.len(),
    ensures
        locals(input, at) matches Ok((_, next)) ==> at.cursor <= next.cursor
            <= input.source.len(),
{
    if peek_is(input, at, TokenKind::Or) {
        lemma_expect_advances(input, at, seq![TokenKind::Or]);
        if let Ok((_, next)) = expect(input, at, TokenKind::Or) {
            lemma_locals_rest_forward(input, next, Seq::<Seq<char>>::empty());
        }
    }
}

/// Reading the rest of the local names does not go back, nor beyond the
/// text.
pub proof fn lemma_locals_rest_forward(input: Input, at: Progress, names: Seq<Seq<char>>)
    requires
        at.cursor <= input.source.len(),
    ensures
        locals_rest(input, at, names) matches Ok((_, next)) ==> at.cursor <= next.cursor
            <= input.source.len(),
    decreases input.source.len() - at.cursor,
{
    lemma_expect_advances(input, at, seq![TokenKind::Identifier]);
    lemma_expect_advances(input, at, seq![TokenKind::Or]);
    if peek_is(input, at, TokenKind::Identifier) {
        if let Ok((name, next)) = expect(input, at, TokenKind::Identifier) {
            lemma_locals_rest_forward(input, next, names.push(text_of(name)));
        }
    }
}

/// Reading the parameters of a block does not go back, nor beyond the
/// text.
pub proof fn lemma_block_parameters_forward(input: Input, at: Progress, names: Seq<Seq<char>>)
    requires
        at.cursor <= input.source.len(),
    ensures
        block_parameters_rest(input, at, names) matches Ok((_, next)) ==> at.cursor
            <= next.cursor <= input.source.len(),
    decreases input.source.len() - at.cursor,
{
    lemma_expect_advances(input, at, seq![TokenKind::Colon]);
    lemma_expect_advances(input, at, seq![TokenKind::Or]);
    if let Ok(kind) = peek(input, at) {
        if kind == TokenKind::Colon {
            if let Ok((_, behind_colon)) = expect(input, at, TokenKind::Colon) {
                lemma_expect_advances(input, behind_colon, seq![TokenKind::Identifier]);
                if let Ok((name, next)) = expect(input, behind_colon, TokenKind::Identifier) {
                    lemma_block_parameters_forward(input, next, names.push(text_of(name)));
                }
            }
        }
    }
}

/// The pattern of a unary method: its name.
pub open spec fn unary_pattern(input: Input, at: Progress) -> Parse<(Seq<char>, Seq<Seq<char>>)> {
    match expect(input, at, TokenKind::Identifier) {
        Ok((name, next)) => Ok(((text_of(name), Seq::<Seq<char>>::empty()), next)),
        Err(error) => Err(error),
    }
}

/// The pattern of a binary method: an operator and the name of its
/// parameter.
pub open spec fn binary_pattern(input: Input, at: Progress) -> Parse<(Seq<char>, Seq<Seq<char>>)> {
    match expect_one_of(input, at, binary_kinds()) {
        Err(error) => Err(error),
        Ok((operator, behind)) => match expect(input, behind, TokenKind::Identifier) {
            Err(error) => Err(error),
            Ok((parameter, next)) => Ok(
                ((text_of(operator), seq![text_of(parameter)]), next),
            ),
        },
    }
}

/// The pattern of a keyword method: keywords, each with the name of a
/// parameter behind it. The selector is the keywords put together.
pub open spec fn keyword_pattern(input: Input, at: Progress) -> Parse<(Seq<char>, Seq<Seq<char>>)> {
    match expect(input, at, TokenKind::Keyword) {
        Err(error) => Err(error),
        Ok((keyword, behind)) => match expect(input, behind, TokenKind::Identifier) {
            Err(error) => Err(error),
            Ok((parameter, next)) => keyword_pattern_rest(
                input,
                next,
                text_of(keyword),
                seq![text_of(parameter)],
            ),
        },
    }
}

/// The keywords and parameters that follow those read so far.
pub open spec fn keyword_pattern_rest(
    input: Input,
    at: Progress,
    name: Seq<char>,
    parameters: Seq<Seq<char>>,
) -> Parse<(Seq<char>, Seq<Seq<char>>)>
    decreases input.source.len() - at.cursor,
{
    match peek(input, at) {
        Err(error) => Err(error),
        Ok(kind) => if kind == TokenKind::Keyword {
            match expect(input, at, TokenKind::Keyword) {
                Err(error) => Err(error),
                Ok((keyword, behind)) => match expect(input, behind, TokenKind::Identifier) {
                    Err(error) => Err(error),
                    Ok((parameter, next)) => {
                        proof {
                            lemma_expect_advances(input, at, seq![TokenKind::Keyword]);
                            lemma_expect_advances(input, behind, seq![TokenKind::Identifier]);
                        }
                        keyword_pattern_rest(
                            input,
                            next,
                            name + text_of(keyword),
                            parameters.push(text_of(parameter)),
                        )
                    },
                },
            }
        } else {
            Ok(((name, parameters), at))
        },
    }
}

/// The pattern of a method: its selector and the names of its parameters.
pub open spec fn pattern(input: Input, at: Progress) -> Parse<(Seq<char>, Seq<Seq<char>>)> {
    match peek(input, at) {
        Err(error) => Err(error),
        Ok(kind) => if kind == TokenKind::Identifier {
            unary_pattern(input, at)
        } else if kind == TokenKind::Keyword {
            keyword_pattern(input, at)
        } else {
            binary_pattern(input, at)
        },
    }
}

/// The value of a decimal digit; of any other character, zero.
pub open spec fn digit_value(c: char) -> nat {
    if digit(c) {
        (c as int - '0' as int) as nat
    } else {
        0
    }
}

/// The number that a sequence of decimal digits stands for.
pub open spec fn decimal_value(digits: Seq<char>) -> nat
    decreases digits.len(),
{
    if digits.len() == 0 {
        0
    } else {
        decimal_value(digits.drop_last()) * 10 + digit_value(digits.last())
    }
}

/// The error for an integer that is too large.
pub open spec fn out_of_range(input: Input, token: TokenView) -> ErrorView {
    ErrorView::ParseError {
        description: "Integer literal out of range"@,
        filename: input.filename,
        location: token.location,
    }
}

/// A number: an integer, which has to be at most the largest of 64 bits
/// with a sign, or a decimal number, which is kept as written. With
/// `negative`, it is the number below zero.
pub open spec fn expression_number(input: Input, at: Progress, negative: bool) -> Parse<
    ExpressionView,
> {
    match expect_one_of(input, at, number_kinds()) {
        Err(error) => Err(error),
        Ok((token, next)) => if token.kind == TokenKind::Integer {
            let value = decimal_value(text_of(token));
            if value <= i64::MAX {
                Ok(
                    (
                        ExpressionView::LiteralInteger(
                            if negative {
                                -(value as int)
                            } else {
                                value as int
                            },
                        ),
                        next,
                    ),
                )
            } else {
                Err(out_of_range(input, token))
            }
        } else {
            Ok((ExpressionView::LiteralDouble { negative, text: text_of(token) }, next))
        },
    }
}

/// A minus and the number behind it.
pub open spec fn expression_negative_number(input: Input, at: Progress) -> Parse<ExpressionView> {
    match expect(input, at, TokenKind::Minus) {
        Err(error) => Err(error),
        Ok((_, next)) => expression_number(input, next, true),
    }
}

/// What a name stands for: a truth value, nothing, or a variable.
pub open spec fn named(name: Seq<char>) -> ExpressionView {
    if name == "false"@ {
        ExpressionView::LiteralBoolean(false)
    } else if name == "nil"@ {
        ExpressionView::LiteralNil
    } else if name == "true"@ {
        ExpressionView::LiteralBoolean(true)
    } else {
        ExpressionView::Variable(name)
    }
}

/// A name as an expression.
pub open spec fn expression_identifier(input: Input, at: Progress) -> Parse<ExpressionView> {
    match expect(input, at, TokenKind::Identifier) {
        Err(error) => Err(error),
        Ok((name, next)) => Ok((named(text_of(name)), next)),
    }
}

/// A string.
pub open spec fn expression_string(input: Input, at: Progress) -> Parse<ExpressionView> {
    match expect(input, at, TokenKind::String) {
        Err(error) => Err(error),
        Ok((token, next)) => Ok((ExpressionView::LiteralString(text_of(token)), next)),
    }
}

/// The symbol behind a pound sign: the text of a name, a string, a keyword
/// or an operator.
pub open spec fn expression_symbol(input: Input, at: Progress) -> Parse<ExpressionView> {
    match expect_one_of(input, at, symbol_kinds()) {
        Err(error) => Err(error),
        Ok((token, next)) => Ok((ExpressionView::LiteralSymbol(text_of(token)), next)),
    }
}

/// A unary message to `receiver`.
pub open spec fn expression_unary_message(
    input: Input,
    at: Progress,
    receiver: ExpressionView,
) -> Parse<ExpressionView> {
    match expect(input, at, TokenKind::Identifier) {
        Err(error) => Err(error),
        Ok((name, next)) => Ok(
            (
                ExpressionView::UnaryMessage {
                    message: text_of(name),
                    receiver: Box::new(receiver),
                },
                next,
            ),
        ),
    }
}

/// The unary messages that stand next, sent one after the other to
/// `value`.
pub open spec fn unary_messages(input: Input, at: Progress, value: ExpressionView) -> Parse<
    ExpressionView,
>
    decreases input.source.len() - at.cursor,
{
    match peek(input, at) {
        Err(error) => Err(error),
        Ok(kind) => if kind == TokenKind::Identifier {
            match expression_unary_message(input, at, value) {
                Err(error) => Err(error),
                Ok((sent, next)) => {
                    proof {
                        lemma_expect_advances(input, at, seq![TokenKind::Identifier]);
                    }
                    unary_messages(input, next, sent)
                },
            }
        } else {
            Ok((value, at))
        },
    }
}

/// The period that may stand behind a statement is taken.
pub open spec fn statement_end(input: Input, at: Progress) -> Parse<()> {
    match peek(input, at) {
        Err(error) => Err(error),
        Ok(kind) => if kind == TokenKind::Period {
            match expect(input, at, TokenKind::Period) {
                Err(error) => Err(error),
                Ok((_, next)) => Ok(((), next)),
            }
        } else {
            Ok(((), at))
        },
    }
}

/// The error for an assignment to what is no variable, placed at the
/// assignment token.
pub open spec fn not_assignable(input: Input, token: TokenView) -> ErrorView {
    ErrorView::ParseError {
        description: "Attempt to assign result of expression to something other than a variable"@,
        filename: input.filename,
        location: token.location,
    }
}

/// An expression: a primary, and then the messages and assignments that
/// stand behind it, each applied to all that was read before it.
pub open spec fn expression(input: Input, at: Progress) -> Parse<ExpressionView>
    decreases input.source.len() - at.cursor, 10nat,
{
    match expression_primary(input, at) {
        Err(error) => Err(error),
        Ok((value, next)) => if advances(input, at, next) {
            expression_rest(input, next, value)
        } else {
            Ok((value, next))
        },
    }
}

/// The messages and assignments that stand behind `value`.
pub open spec fn expression_rest(input: Input, at: Progress, value: ExpressionView) -> Parse<
    ExpressionView,
>
    decreases input.source.len() - at.cursor, 9nat,
{
    match peek(input, at) {
        Err(error) => Err(error),
        Ok(kind) => if kind == TokenKind::Assign || is_message(kind) {
            match (if kind == TokenKind::Assign {
                expression_assignment(input, at, value)
            } else {
                expression_messages(input, at, value)
            }) {
                Err(error) => Err(error),
                Ok((longer, next)) => if advances(input, at, next) {
                    expression_rest(input, next, longer)
                } else {
                    Ok((longer, next))
                },
            }
        } else {
            Ok((value, at))
        },
    }
}

/// An assignment to `left`, which has to be a variable: the assignment
/// token and the expression whose value is assigned.
pub open spec fn expression_assignment(input: Input, at: Progress, left: ExpressionView) -> Parse<
    ExpressionView,
>
    decreases input.source.len() - at.cursor, 8nat,
{
    match expect(input, at, TokenKind::Assign) {
        Err(error) => Err(error),
        Ok((token, next)) => match left {
            ExpressionView::Variable(name) => {
                proof {
                    lemma_expect_advances(input, at, seq![TokenKind::Assign]);
                }
                match expression(input, next) {
                    Err(error) => Err(error),
                    Ok((value, behind)) => Ok(
                        (
                            ExpressionView::Assignment { variable: name, value: Box::new(value) },
                            behind,
                        ),
                    ),
                }
            },
            _ => Err(not_assignable(input, token)),
        },
    }
}

/// One message to `value`, of the form that the next token calls for.
pub open spec fn expression_messages(input: Input, at: Progress, value: ExpressionView) -> Parse<
    ExpressionView,
>
    decreases input.source.len() - at.cursor, 8nat,
{
    match peek(input, at) {
        Err(error) => Err(error),
        Ok(kind) => if kind == TokenKind::Identifier {
            expression_unary_message(input, at, value)
        } else if kind == TokenKind::Keyword {
            expression_keyword_message(input, at, value)
        } else {
            expression_binary_message(input, at, value)
        },
    }
}

/// A keyword message to `receiver`: all keywords that stand next, each with
/// its argument. The selector is the keywords put together.
pub open spec fn expression_keyword_message(
    input: Input,
    at: Progress,
    receiver: ExpressionView,
) -> Parse<ExpressionView>
    decreases input.source.len() - at.cursor, 7nat,
{
    match keyword_parts(input, at, Seq::<char>::empty(), Seq::<ExpressionView>::empty()) {
        Err(error) => Err(error),
        Ok(((message, parameters), next)) => Ok(
            (
                ExpressionView::KeywordMessage {
                    message,
                    receiver: Box::new(receiver),
                    parameters,
                },
                next,
            ),
        ),
    }
}

/// The keywords and arguments that follow those read so far.
pub open spec fn keyword_parts(
    input: Input,
    at: Progress,
    message: Seq<char>,
    parameters: Seq<ExpressionView>,
) -> Parse<(Seq<char>, Seq<ExpressionView>)>
    decreases input.source.len() - at.cursor, 6nat,
{
    match peek(input, at) {
        Err(error) => Err(error),
        Ok(kind) => if kind == TokenKind::Keyword {
            match expect(input, at, TokenKind::Keyword) {
                Err(error) => Err(error),
                Ok((keyword, behind)) => {
                    proof {
                        lemma_expect_advances(input, at, seq![TokenKind::Keyword]);
                    }
                    match expression_formula(input, behind) {
                        Err(error) => Err(error),
                        Ok((parameter, next)) => if advances(input, at, next) {
                            keyword_parts(
                                input,
                                next,
                                message + text_of(keyword),
                                parameters.push(parameter),
                            )
                        } else {
                            Ok(
                                (
                                    (message + text_of(keyword), parameters.push(parameter)),
                                    next,
                                ),
                            )
                        },
                    }
                },
            }
        } else {
            Ok(((message, parameters), at))
        },
    }
}

/// The argument of a keyword: an operand, and the binary messages that
/// stand behind it.
pub open spec fn expression_formula(input: Input, at: Progress) -> Parse<ExpressionView>
    decreases input.source.len() - at.cursor, 5nat,
{
    match expression_binary_operand(input, at) {
        Err(error) => Err(error),
        Ok((value, next)) => if advances(input, at, next) {
            formula_rest(input, next, value)
        } else {
            Ok((value, next))
        },
    }
}

/// The binary messages that stand behind `value`.
pub open spec fn formula_rest(input: Input, at: Progress, value: ExpressionView) -> Parse<
    ExpressionView,
>
    decreases input.source.len() - at.cursor, 5nat,
{
    match peek(input, at) {
        Err(error) => Err(error),
        Ok(kind) => if is_binary(kind) {
            match expression_binary_message(input, at, value) {
                Err(error) => Err(error),
                Ok((longer, next)) => if advances(input, at, next) {
                    formula_rest(input, next, longer)
                } else {
                    Ok((longer, next))
                },
            }
        } else {
            Ok((value, at))
        },
    }
}

/// A binary message to `left`: an operator and its operand.
pub open spec fn expression_binary_message(
    input: Input,
    at: Progress,
    left: ExpressionView,
) -> Parse<ExpressionView>
    decreases input.source.len() - at.cursor, 4nat,
{
    match expect_one_of(input, at, binary_kinds()) {
        Err(error) => Err(error),
        Ok((operator, behind)) => {
            proof {
                lemma_expect_advances(input, at, binary_kinds());
            }
            match expression_binary_operand(input, behind) {
                Err(error) => Err(error),
                Ok((right, next)) => Ok(
                    (
                        ExpressionView::BinaryMessage {
                            message: text_of(operator),
                            left: Box::new(left),
                            right: Box::new(right),
                        },
                        next,
                    ),
                ),
            }
        },
    }
}

/// The operand of a binary message: a primary, and the unary messages that
/// stand behind it.
pub open spec fn expression_binary_operand(input: Input, at: Progress) -> Parse<ExpressionView>
    decreases input.source.len() - at.cursor, 3nat,
{
    match expression_primary(input, at) {
        Err(error) => Err(error),
        Ok((value, next)) => unary_messages(input, next, value),
    }
}

/// A primary expression: a number, a name, a string, a symbol or an array
/// behind a pound sign, a block in square brackets, or an expression in
/// round brackets.
pub open spec fn expression_primary(input: Input, at: Progress) -> Parse<ExpressionView>
    decreases input.source.len() - at.cursor, 2nat,
{
    match peek(input, at) {
        Err(error) => Err(error),
        Ok(kind) => if kind == TokenKind::Double || kind == TokenKind::Integer {
            expression_number(input, at, false)
        } else if kind == TokenKind::Identifier {
            expression_identifier(input, at)
        } else if kind == TokenKind::Minus {
            expression_negative_number(input, at)
        } else if kind == TokenKind::NewBlock {
            expression_nested_block(input, at)
        } else if kind == TokenKind::NewTerm {
            expression_nested_term(input, at)
        } else if kind == TokenKind::Pound {
            expression_pound(input, at)
        } else if kind == TokenKind::String {
            expression_string(input, at)
        } else {
            Err(mismatch(input, primary_kinds(), upcoming(input, at)))
        },
    }
}

/// An expression in round brackets.
pub open spec fn expression_nested_term(input: Input, at: Progress) -> Parse<ExpressionView>
    decreases input.source.len() - at.cursor, 1nat,
{
    match expect(input, at, TokenKind::NewTerm) {
        Err(error) => Err(error),
        Ok((_, inside)) => {
            proof {
                lemma_expect_advances(input, at, seq![TokenKind::NewTerm]);
            }
            match expression(input, inside) {
                Err(error) => Err(error),
                Ok((value, behind)) => match expect(input, behind, TokenKind::EndTerm) {
                    Err(error) => Err(error),
                    Ok((_, next)) => Ok((value, next)),
                },
            }
        },
    }
}

/// A block in square brackets: its parameters, its local names and its
/// statements.
pub open spec fn expression_nested_block(input: Input, at: Progress) -> Parse<ExpressionView>
    decreases input.source.len() - at.cursor, 1nat,
{
    match expect(input, at, TokenKind::NewBlock) {
        Err(error) => Err(error),
        Ok((_, inside)) => match block_parameters(input, inside) {
            Err(error) => Err(error),
            Ok((parameters, behind_parameters)) => match locals(input, behind_parameters) {
                Err(error) => Err(error),
                Ok((names, behind_locals)) => {
                    proof {
                        lemma_expect_advances(input, at, seq![TokenKind::NewBlock]);
                        lemma_block_parameters_forward(input, inside, Seq::<Seq<char>>::empty());
                        lemma_locals_forward(input, behind_parameters);
                    }
                    match body(input, behind_locals) {
                        Err(error) => Err(error),
                        Ok((statements, behind)) => match expect(
                            input,
                            behind,
                            TokenKind::EndBlock,
                        ) {
                            Err(error) => Err(error),
                            Ok((_, next)) => Ok(
                                (
                                    ExpressionView::Block {
                                        parameters,
                                        locals: names,
                                        body: statements,
                                    },
                                    next,
                                ),
                            ),
                        },
                    }
                },
            },
        },
    }
}

/// What stands behind a pound sign: an array if a round bracket follows,
/// a symbol otherwise.
pub open spec fn expression_pound(input: Input, at: Progress) -> Parse<ExpressionView>
    decreases input.source.len() - at.cursor, 1nat,
{
    match expect(input, at, TokenKind::Pound) {
        Err(error) => Err(error),
        Ok((_, behind)) => {
            proof {
                lemma_expect_advances(input, at, seq![TokenKind::Pound]);
            }
            match peek(input, behind) {
                Err(error) => Err(error),
                Ok(kind) => if kind == TokenKind::NewTerm {
                    expression_array(input, behind)
                } else {
                    expression_symbol(input, behind)
                },
            }
        },
    }
}

/// An array: expressions in round brackets.
pub open spec fn expression_array(input: Input, at: Progress) -> Parse<ExpressionView>
    decreases input.source.len() - at.cursor, 12nat,
{
    match expect(input, at, TokenKind::NewTerm) {
        Err(error) => Err(error),
        Ok((_, inside)) => {
            proof {
                lemma_expect_advances(input, at, seq![TokenKind::NewTerm]);
            }
            match array_values(input, inside, Seq::<ExpressionView>::empty()) {
                Err(error) => Err(error),
                Ok((values, behind)) => match expect(input, behind, TokenKind::EndTerm) {
                    Err(error) => Err(error),
                    Ok((_, next)) => Ok((ExpressionView::LiteralArray(values), next)),
                },
            }
        },
    }
}

/// The expressions of an array that follow `values`, up to the closing
/// bracket.
pub open spec fn array_values(input: Input, at: Progress, values: Seq<ExpressionView>) -> Parse<
    Seq<ExpressionView>,
>
    decreases input.source.len() - at.cursor, 11nat,
{
    match peek(input, at) {
        Err(error) => Err(error),
        Ok(kind) => if kind == TokenKind::EndTerm {
            Ok((values, at))
        } else {
            match expression(input, at) {
                Err(error) => Err(error),
                Ok((value, next)) => if advances(input, at, next) {
                    array_values(input, next, values.push(value))
                } else {
                    Ok((values.push(value), next))
                },
            }
        },
    }
}

/// The statements of a method or a block, up to its closing bracket.
pub open spec fn body(input: Input, at: Progress) -> Parse<Seq<ExpressionView>>
    decreases input.source.len() - at.cursor, 12nat,
{
    body_rest(input, at, Seq::<ExpressionView>::empty())
}

/// The statements that follow `statements`. A statement is an expression,
/// or a caret and the expression whose value is returned; a period may
/// stand behind it.
pub open spec fn body_rest(input: Input, at: Progress, statements: Seq<ExpressionView>) -> Parse<
    Seq<ExpressionView>,
>
    decreases input.source.len() - at.cursor, 11nat,
{
    match peek(input, at) {
        Err(error) => Err(error),
        Ok(kind) => if kind == TokenKind::EndTerm || kind == TokenKind::EndBlock {
            Ok((statements, at))
        } else {
            match (if kind == TokenKind::Exit {
                expression_result(input, at)
            } else {
                expression(input, at)
            }) {
                Err(error) => Err(error),
                Ok((statement, behind)) => match statement_end(input, behind) {
                    Err(error) => Err(error),
                    Ok((_, next)) => if advances(input, at, next) {
                        body_rest(input, next, statements.push(statement))
                    } else {
                        Ok((statements.push(statement), next))
                    },
                },
            }
        },
    }
}

/// A caret and the expression whose value is returned.
pub open spec fn expression_result(input: Input, at: Progress) -> Parse<ExpressionView>
    decreases input.source.len() - at.cursor, 1nat,
{
    match expect(input, at, TokenKind::Exit) {
        Err(error) => Err(error),
        Ok((_, behind)) => {
            proof {
                lemma_expect_advances(input, at, seq![TokenKind::Exit]);
            }
            match expression(input, behind) {
                Err(error) => Err(error),
                Ok((value, next)) => Ok((ExpressionView::Return(Box::new(value)), next)),
            }
        },
    }
}

/// A method: its pattern, an equals sign, and either the word `primitive`
/// or, in round brackets, its local names and its statements.
pub open spec fn method(input: Input, at: Progress) -> Parse<MethodView> {
    match pattern(input, at) {
        Err(error) => Err(error),
        Ok(((name, parameters), behind_pattern)) => match expect(
            input,
            behind_pattern,
            TokenKind::Equal,
        ) {
            Err(error) => Err(error),
            Ok((_, behind_equal)) => match peek(input, behind_equal) {
                Err(error) => Err(error),
                Ok(kind) => if kind == TokenKind::Primitive {
                    match expect(input, behind_equal, TokenKind::Primitive) {
                        Err(error) => Err(error),
                        Ok((_, next)) => Ok((MethodView::Primitive { name, parameters }, next)),
                    }
                } else {
                    match expect(input, behind_equal, TokenKind::NewTerm) {
                        Err(error) => Err(error),
                        Ok((_, inside)) => match locals(input, inside) {
                            Err(error) => Err(error),
                            Ok((names, behind_locals)) => match body(input, behind_locals) {
                                Err(error) => Err(error),
                                Ok((statements, behind)) => match expect(
                                    input,
                                    behind,
                                    TokenKind::EndTerm,
                                ) {
                                    Err(error) => Err(error),
                                    Ok((_, next)) => Ok(
                                        (
                                            MethodView::Native {
                                                name,
                                                parameters,
                                                locals: names,
                                                body: statements,
                                            },
                                            next,
                                        ),
                                    ),
                                },
                            },
                        },
                    }
                },
            },
        },
    }
}

/// The methods that stand next, each under its selector; of two with one
/// selector the later one stays.
pub open spec fn methods(input: Input, at: Progress) -> Parse<MethodsView> {
    methods_rest(input, at, MethodsView::empty())
}

/// The methods that follow those in `found`.
pub open spec fn methods_rest(input: Input, at: Progress, found: MethodsView) -> Parse<MethodsView>
    decreases input.source.len() - at.cursor,
{
    match peek(input, at) {
        Err(error) => Err(error),
        Ok(kind) => if is_message(kind) {
            match method(input, at) {
                Err(error) => Err(error),
                Ok((read, next)) => {
                    proof {
                        lemma_method_advances(input, at);
                    }
                    methods_rest(input, next, found.insert(read))
                },
            }
        } else {
            Ok((found, at))
        },
    }
}

/// One side of a class: its variables and its methods.
pub open spec fn side(input: Input, at: Progress) -> Parse<(Seq<Seq<char>>, MethodsView)> {
    match locals(input, at) {
        Err(error) => Err(error),
        Ok((variables, behind)) => match methods(input, behind) {
            Err(error) => Err(error),
            Ok((found, next)) => Ok(((variables, found), next)),
        },
    }
}

/// A class: its name, an equals sign, the name of its superclass if one
/// stands there, and in round brackets the instance side and, behind a
/// separator if one stands there, the class side.
pub open spec fn class(input: Input, at: Progress) -> Parse<ClassView> {
    match expect(input, at, TokenKind::Identifier) {
        Err(error) => Err(error),
        Ok((name, behind_name)) => match expect(input, behind_name, TokenKind::Equal) {
            Err(error) => Err(error),
            Ok((_, behind_equal)) => match superclass(input, behind_equal) {
                Err(error) => Err(error),
                Ok((parent, behind_parent)) => match expect(
                    input,
                    behind_parent,
                    TokenKind::NewTerm,
                ) {
                    Err(error) => Err(error),
                    Ok((_, inside)) => match side(input, inside) {
                        Err(error) => Err(error),
                        Ok((instance, behind_instance)) => match class_side(
                            input,
                            behind_instance,
                        ) {
                            Err(error) => Err(error),
                            Ok((of_class, behind_class)) => match expect(
                                input,
                                behind_class,
                                TokenKind::EndTerm,
                            ) {
                                Err(error) => Err(error),
                                Ok((_, next)) => Ok(
                                    (
                                        ClassView {
                                            name: text_of(name),
                                            superclass: parent,
                                            instance_methods: instance.1,
                                            instance_variables: instance.0,
                                            class_methods: of_class.1,
                                            class_variables: of_class.0,
                                        },
                                        next,
                                    ),
                                ),
                            },
                        },
                    },
                },
            },
        },
    }
}

/// The name of the superclass, if a name stands next.
pub open spec fn superclass(input: Input, at: Progress) -> Parse<Option<Seq<char>>> {
    match peek(input, at) {
        Err(error) => Err(error),
        Ok(kind) => if kind == TokenKind::Identifier {
            match expect(input, at, TokenKind::Identifier) {
                Err(error) => Err(error),
                Ok((name, next)) => Ok((Some(text_of(name)), next)),
            }
        } else {
            Ok((None, at))
        },
    }
}

/// The class side, if a separator stands next; an empty side otherwise.
pub open spec fn class_side(input: Input, at: Progress) -> Parse<(Seq<Seq<char>>, MethodsView)> {
    if peek_is(input, at, TokenKind::Separator) {
        match expect(input, at, TokenKind::Separator) {
            Err(error) => Err(error),
            Ok((_, behind)) => side(input, behind),
        }
    } else {
        Ok(((Seq::<Seq<char>>::empty(), MethodsView::empty()), at))
    }
}

} // verus!
