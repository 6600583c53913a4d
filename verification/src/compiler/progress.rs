//! Reading moves forward.
//!
//! Every form of the grammar that is read ends behind the place where it
//! started, or, where a form may be empty, not before it; and never beyond
//! the text. So wherever the grammar goes on only behind a part that has
//! moved the place forward, it does go on.

use crate::compiler::ast::ExpressionView;
use crate::compiler::grammar::{
    advances, array_values, binary_kinds, block_parameters, body, body_rest, expect,
    expect_one_of, expression, expression_array, expression_assignment,
    expression_binary_message, expression_binary_operand, expression_formula,
    expression_identifier, expression_messages, expression_negative_number,
    expression_nested_block, expression_nested_term, expression_number, expression_pound,
    expression_primary, expression_rest, expression_result, expression_string,
    expression_symbol, expression_unary_message, formula_rest, is_binary, is_message,
    keyword_parts, keyword_pattern_rest, lemma_block_parameters_forward, lemma_expect_advances,
    lemma_locals_forward, locals, method, number_kinds, pattern, peek, peek_is, statement_end,
    symbol_kinds, text_of, unary_messages, Input, Progress,
};
use crate::compiler::token::TokenKind;
use vstd::prelude::*;

verus! {

/// The place `to` lies at or behind `from`, within the text.
pub open spec fn forward(input: Input, from: Progress, to: Progress) -> bool {
    from.cursor <= to.cursor <= input.source.len()
}

/// A number, a name, a string and a symbol each take a token.
pub proof fn lemma_literals_advance(input: Input, at: Progress, negative: bool)
    ensures
        expression_number(input, at, negative) matches Ok((_, next)) ==> advances(input, at, next),
        expression_negative_number(input, at) matches Ok((_, next)) ==> advances(input, at, next),
        expression_identifier(input, at) matches Ok((_, next)) ==> advances(input, at, next),
        expression_string(input, at) matches Ok((_, next)) ==> advances(input, at, next),
        expression_symbol(input, at) matches Ok((_, next)) ==> advances(input, at, next),
{
    lemma_expect_advances(input, at, number_kinds());
    lemma_expect_advances(input, at, seq![TokenKind::Minus]);
    lemma_expect_advances(input, at, seq![TokenKind::Identifier]);
    lemma_expect_advances(input, at, seq![TokenKind::String]);
    lemma_expect_advances(input, at, symbol_kinds());
    if let Ok((_, behind)) = expect(input, at, TokenKind::Minus) {
        lemma_expect_advances(input, behind, number_kinds());
    }
}

/// Unary messages do not go back.
pub proof fn lemma_unary_messages_forward(input: Input, at: Progress, value: ExpressionView)
    requires
        at.cursor <= input.source.len(),
    ensures
        unary_messages(input, at, value) matches Ok((_, next)) ==> forward(input, at, next),
    decreases input.source.len() - at.cursor,
{
    lemma_expect_advances(input, at, seq![TokenKind::Identifier]);
    if let Ok(kind) = peek(input, at) {
        if kind == TokenKind::Identifier {
            if let Ok((sent, next)) = expression_unary_message(input, at, value) {
                lemma_unary_messages_forward(input, next, sent);
            }
        }
    }
}

/// An expression takes at least one token.
pub proof fn lemma_expression_advances(input: Input, at: Progress)
    ensures
        expression(input, at) matches Ok((_, next)) ==> advances(input, at, next),
    decreases input.source.len() - at.cursor, 10nat,
{
    lemma_primary_advances(input, at);
    if let Ok((value, next)) = expression_primary(input, at) {
        lemma_expression_rest_forward(input, next, value);
    }
}

/// The messages behind an expression do not go back.
pub proof fn lemma_expression_rest_forward(input: Input, at: Progress, value: ExpressionView)
    requires
        at.cursor <= input.source.len(),
    ensures
        expression_rest(input, at, value) matches Ok((_, next)) ==> forward(input, at, next),
    decreases input.source.len() - at.cursor, 9nat,
{
    if let Ok(kind) = peek(input, at) {
        if kind == TokenKind::Assign {
            lemma_assignment_advances(input, at, value);
            if let Ok((longer, next)) = expression_assignment(input, at, value) {
                lemma_expression_rest_forward(input, next, longer);
            }
        } else if is_message(kind) {
            lemma_messages_advance(input, at, value);
            if let Ok((longer, next)) = expression_messages(input, at, value) {
                lemma_expression_rest_forward(input, next, longer);
            }
        }
    }
}

/// An assignment takes at least its token.
pub proof fn lemma_assignment_advances(input: Input, at: Progress, left: ExpressionView)
    ensures
        expression_assignment(input, at, left) matches Ok((_, next)) ==> advances(
            input,
            at,
            next,
        ),
    decreases input.source.len() - at.cursor, 8nat,
{
    lemma_expect_advances(input, at, seq![TokenKind::Assign]);
    if let Ok((_, next)) = expect(input, at, TokenKind::Assign) {
        if left is Variable {
            lemma_expression_advances(input, next);
        }
    }
}

/// A message takes at least one token.
pub proof fn lemma_messages_advance(input: Input, at: Progress, value: ExpressionView)
    ensures
        expression_messages(input, at, value) matches Ok((_, next)) ==> advances(input, at, next),
    decreases input.source.len() - at.cursor, 8nat,
{
    lemma_expect_advances(input, at, seq![TokenKind::Identifier]);
    if let Ok(kind) = peek(input, at) {
        if kind == TokenKind::Keyword {
            lemma_keyword_parts_forward(
                input,
                at,
                Seq::<char>::empty(),
                Seq::<ExpressionView>::empty(),
            );
        } else if kind != TokenKind::Identifier {
            lemma_binary_message_advances(input, at, value);
        }
    }
}

/// The parts of a keyword message do not go back, and where a keyword
/// stands they take it.
pub proof fn lemma_keyword_parts_forward(
    input: Input,
    at: Progress,
    message: Seq<char>,
    parameters: Seq<ExpressionView>,
)
    requires
        at.cursor <= input.source.len(),
    ensures
        keyword_parts(input, at, message, parameters) matches Ok((_, next)) ==> forward(
            input,
            at,
            next,
        ) && (peek_is(input, at, TokenKind::Keyword) ==> advances(input, at, next)),
    decreases input.source.len() - at.cursor, 6nat,
{
    lemma_expect_advances(input, at, seq![TokenKind::Keyword]);
    if let Ok(kind) = peek(input, at) {
        if kind == TokenKind::Keyword {
            if let Ok((keyword, behind)) = expect(input, at, TokenKind::Keyword) {
                lemma_formula_advances(input, behind);
                if let Ok((parameter, next)) = expression_formula(input, behind) {
                    lemma_keyword_parts_forward(
                        input,
                        next,
                        message + text_of(keyword),
                        parameters.push(parameter),
                    );
                }
            }
        }
    }
}

/// The argument of a keyword takes at least one token.
pub proof fn lemma_formula_advances(input: Input, at: Progress)
    ensures
        expression_formula(input, at) matches Ok((_, next)) ==> advances(input, at, next),
    decreases input.source.len() - at.cursor, 5nat,
{
    lemma_binary_operand_advances(input, at);
    if let Ok((value, next)) = expression_binary_operand(input, at) {
        lemma_formula_rest_forward(input, next, value);
    }
}

/// The binary messages behind an operand do not go back.
pub proof fn lemma_formula_rest_forward(input: Input, at: Progress, value: ExpressionView)
    requires
        at.cursor <= input.source.len(),
    ensures
        formula_rest(input, at, value) matches Ok((_, next)) ==> forward(input, at, next),
    decreases input.source.len() - at.cursor, 5nat,
{
    if let Ok(kind) = peek(input, at) {
        if is_binary(kind) {
            lemma_binary_message_advances(input, at, value);
            if let Ok((longer, next)) = expression_binary_message(input, at, value) {
                lemma_formula_rest_forward(input, next, longer);
            }
        }
    }
}

/// A binary message takes at least its operator.
pub proof fn lemma_binary_message_advances(input: Input, at: Progress, left: ExpressionView)
    ensures
        expression_binary_message(input, at, left) matches Ok((_, next)) ==> advances(
            input,
            at,
            next,
        ),
    decreases input.source.len() - at.cursor, 4nat,
{
    lemma_expect_advances(input, at, binary_kinds());
    if let Ok((_, behind)) = expect_one_of(input, at, binary_kinds()) {
        lemma_binary_operand_advances(input, behind);
    }
}

/// An operand takes at least one token.
pub proof fn lemma_binary_operand_advances(input: Input, at: Progress)
    ensures
        expression_binary_operand(input, at) matches Ok((_, next)) ==> advances(input, at, next),
    decreases input.source.len() - at.cursor, 3nat,
{
    lemma_primary_advances(input, at);
    if let Ok((value, next)) = expression_primary(input, at) {
        lemma_unary_messages_forward(input, next, value);
    }
}

/// A primary expression takes at least one token.
pub proof fn lemma_primary_advances(input: Input, at: Progress)
    ensures
        expression_primary(input, at) matches Ok((_, next)) ==> advances(input, at, next),
    decreases input.source.len() - at.cursor, 2nat,
{
    lemma_literals_advance(input, at, false);
    if let Ok(kind) = peek(input, at) {
        if kind == TokenKind::NewBlock {
            lemma_nested_block_advances(input, at);
        } else if kind == TokenKind::NewTerm {
            lemma_nested_term_advances(input, at);
        } else if kind == TokenKind::Pound {
            lemma_pound_advances(input, at);
        }
    }
}

/// An expression in round brackets takes at least the brackets.
pub proof fn lemma_nested_term_advances(input: Input, at: Progress)
    ensures
        expression_nested_term(input, at) matches Ok((_, next)) ==> advances(input, at, next),
    decreases input.source.len() - at.cursor, 1nat,
{
    lemma_expect_advances(input, at, seq![TokenKind::NewTerm]);
    if let Ok((_, inside)) = expect(input, at, TokenKind::NewTerm) {
        lemma_expression_advances(input, inside);
        if let Ok((_, behind)) = expression(input, inside) {
            lemma_expect_advances(input, behind, seq![TokenKind::EndTerm]);
        }
    }
}

/// A block takes at least its brackets.
pub proof fn lemma_nested_block_advances(input: Input, at: Progress)
    ensures
        expression_nested_block(input, at) matches Ok((_, next)) ==> advances(input, at, next),
    decreases input.source.len() - at.cursor, 1nat,
{
    lemma_expect_advances(input, at, seq![TokenKind::NewBlock]);
    if let Ok((_, inside)) = expect(input, at, TokenKind::NewBlock) {
        lemma_block_parameters_forward(input, inside, Seq::<Seq<char>>::empty());
        if let Ok((_, behind_parameters)) = block_parameters(input, inside) {
            lemma_locals_forward(input, behind_parameters);
            if let Ok((_, behind_locals)) = locals(input, behind_parameters) {
                lemma_body_forward(input, behind_locals);
                if let Ok((_, behind)) = body(input, behind_locals) {
                    lemma_expect_advances(input, behind, seq![TokenKind::EndBlock]);
                }
            }
        }
    }
}

/// What stands behind a pound sign takes at least that sign.
pub proof fn lemma_pound_advances(input: Input, at: Progress)
    ensures
        expression_pound(input, at) matches Ok((_, next)) ==> advances(input, at, next),
    decreases input.source.len() - at.cursor, 1nat,
{
    lemma_expect_advances(input, at, seq![TokenKind::Pound]);
    if let Ok((_, behind)) = expect(input, at, TokenKind::Pound) {
        lemma_literals_advance(input, behind, false);
        if peek_is(input, behind, TokenKind::NewTerm) {
            lemma_array_advances(input, behind);
        }
    }
}

/// An array takes at least its brackets.
pub proof fn lemma_array_advances(input: Input, at: Progress)
    ensures
        expression_array(input, at) matches Ok((_, next)) ==> advances(input, at, next),
    decreases input.source.len() - at.cursor, 12nat,
{
    lemma_expect_advances(input, at, seq![TokenKind::NewTerm]);
    if let Ok((_, inside)) = expect(input, at, TokenKind::NewTerm) {
        lemma_array_values_forward(input, inside, Seq::<ExpressionView>::empty());
        if let Ok((_, behind)) = array_values(input, inside, Seq::<ExpressionView>::empty()) {
            lemma_expect_advances(input, behind, seq![TokenKind::EndTerm]);
        }
    }
}

/// The expressions of an array do not go back.
pub proof fn lemma_array_values_forward(
    input: Input,
    at: Progress,
    values: Seq<ExpressionView>,
)
    requires
        at.cursor <= input.source.len(),
    ensures
        array_values(input, at, values) matches Ok((_, next)) ==> forward(input, at, next),
    decreases input.source.len() - at.cursor, 11nat,
{
    if let Ok(kind) = peek(input, at) {
        if kind != TokenKind::EndTerm {
            lemma_expression_advances(input, at);
            if let Ok((value, next)) = expression(input, at) {
                lemma_array_values_forward(input, next, values.push(value));
            }
        }
    }
}

/// Statements do not go back.
pub proof fn lemma_body_forward(input: Input, at: Progress)
    requires
        at.cursor <= input.source.len(),
    ensures
        body(input, at) matches Ok((_, next)) ==> forward(input, at, next),
    decreases input.source.len() - at.cursor, 12nat,
{
    lemma_body_rest_forward(input, at, Seq::<ExpressionView>::empty());
}

/// The rest of the statements does not go back.
pub proof fn lemma_body_rest_forward(input: Input, at: Progress, statements: Seq<ExpressionView>)
    requires
        at.cursor <= input.source.len(),
    ensures
        body_rest(input, at, statements) matches Ok((_, next)) ==> forward(input, at, next),
    decreases input.source.len() - at.cursor, 11nat,
{
    if let Ok(kind) = peek(input, at) {
        if !(kind == TokenKind::EndTerm || kind == TokenKind::EndBlock) {
            let read = if kind == TokenKind::Exit {
                expression_result(input, at)
            } else {
                expression(input, at)
            };
            if kind == TokenKind::Exit {
                lemma_result_advances(input, at);
            } else {
                lemma_expression_advances(input, at);
            }
            if let Ok((statement, behind)) = read {
                lemma_expect_advances(input, behind, seq![TokenKind::Period]);
                if let Ok((_, next)) = statement_end(input, behind) {
                    lemma_body_rest_forward(input, next, statements.push(statement));
                }
            }
        }
    }
}

/// A returned value takes at least the caret.
pub proof fn lemma_result_advances(input: Input, at: Progress)
    ensures
        expression_result(input, at) matches Ok((_, next)) ==> advances(input, at, next),
    decreases input.source.len() - at.cursor, 1nat,
{
    lemma_expect_advances(input, at, seq![TokenKind::Exit]);
    if let Ok((_, behind)) = expect(input, at, TokenKind::Exit) {
        lemma_expression_advances(input, behind);
    }
}

/// The rest of a keyword pattern does not go back.
pub proof fn lemma_keyword_pattern_forward(
    input: Input,
    at: Progress,
    name: Seq<char>,
    parameters: Seq<Seq<char>>,
)
    requires
        at.cursor <= input.source.len(),
    ensures
        keyword_pattern_rest(input, at, name, parameters) matches Ok((_, next)) ==> forward(
            input,
            at,
            next,
        ),
    decreases input.source.len() - at.cursor,
{
    lemma_expect_advances(input, at, seq![TokenKind::Keyword]);
    if let Ok(kind) = peek(input, at) {
        if kind == TokenKind::Keyword {
            if let Ok((keyword, behind)) = expect(input, at, TokenKind::Keyword) {
                lemma_expect_advances(input, behind, seq![TokenKind::Identifier]);
                if let Ok((parameter, next)) = expect(input, behind, TokenKind::Identifier) {
                    lemma_keyword_pattern_forward(
                        input,
                        next,
                        name + text_of(keyword),
                        parameters.push(text_of(parameter)),
                    );
                }
            }
        }
    }
}

/// A pattern takes at least one token.
pub proof fn lemma_pattern_advances(input: Input, at: Progress)
    ensures
        pattern(input, at) matches Ok((_, next)) ==> advances(input, at, next),
{
    lemma_expect_advances(input, at, seq![TokenKind::Identifier]);
    lemma_expect_advances(input, at, seq![TokenKind::Keyword]);
    lemma_expect_advances(input, at, binary_kinds());
    if let Ok((keyword, behind)) = expect(input, at, TokenKind::Keyword) {
        lemma_expect_advances(input, behind, seq![TokenKind::Identifier]);
        if let Ok((parameter, next)) = expect(input, behind, TokenKind::Identifier) {
            lemma_keyword_pattern_forward(
                input,
                next,
                text_of(keyword),
                seq![text_of(parameter)],
            );
        }
    }
    if let Ok((_, behind)) = expect_one_of(input, at, binary_kinds()) {
        lemma_expect_advances(input, behind, seq![TokenKind::Identifier]);
    }
}

/// A method takes at least one token.
pub proof fn lemma_method_advances(input: Input, at: Progress)
    ensures
        method(input, at) matches Ok((_, next)) ==> advances(input, at, next),
{
    lemma_pattern_advances(input, at);
    if let Ok((_, behind_pattern)) = pattern(input, at) {
        lemma_expect_advances(input, behind_pattern, seq![TokenKind::Equal]);
        if let Ok((_, behind_equal)) = expect(input, behind_pattern, TokenKind::Equal) {
            lemma_expect_advances(input, behind_equal, seq![TokenKind::Primitive]);
            lemma_expect_advances(input, behind_equal, seq![TokenKind::NewTerm]);
            if let Ok((_, inside)) = expect(input, behind_equal, TokenKind::NewTerm) {
                lemma_locals_forward(input, inside);
                if let Ok((_, behind_locals)) = locals(input, inside) {
                    lemma_body_forward(input, behind_locals);
                    if let Ok((_, behind)) = body(input, behind_locals) {
                        lemma_expect_advances(input, behind, seq![TokenKind::EndTerm]);
                    }
                }
            }
        }
    }
}

} // verus!
