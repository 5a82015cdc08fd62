//! Every production that yields something has used a token.
//!
//! This is why parsing ends, and why the conditions on the tokens used in
//! the definitions of `block_items` and `program` always hold.

use crate::grammar::{
    assignment, call, declaration, expression, expression_statement, infix, is_type,
    lemma_synchronise_advances, operand, primary, statement, synchronise, unary, Level,
};
use crate::lexer::{Token, TokenType};
use crate::parser::Error;
use vstd::prelude::*;

verus! {

pub proof fn lemma_primary_uses_a_token(tokens: Seq<Token>, at: int, errors: Seq<Error>)
    ensures
        primary(tokens, at, errors).value is Some ==> primary(tokens, at, errors).used >= 1,
{
}

pub proof fn lemma_call_uses_a_token(tokens: Seq<Token>, at: int, errors: Seq<Error>)
    ensures
        call(tokens, at, errors).value is Some ==> call(tokens, at, errors).used >= 1,
{
    lemma_primary_uses_a_token(tokens, at, errors);
}

pub proof fn lemma_unary_uses_a_token(tokens: Seq<Token>, at: int, errors: Seq<Error>)
    ensures
        unary(tokens, at, errors).value is Some ==> unary(tokens, at, errors).used >= 1,
{
    lemma_call_uses_a_token(tokens, at, errors);
}

pub proof fn lemma_operand_uses_a_token(
    tokens: Seq<Token>,
    at: int,
    errors: Seq<Error>,
    level: Level,
)
    ensures
        operand(tokens, at, errors, level).value is Some ==> operand(
            tokens,
            at,
            errors,
            level,
        ).used >= 1,
    decreases level.looseness(), 0nat,
{
    if level == Level::Factor {
        lemma_unary_uses_a_token(tokens, at, errors);
    } else {
        lemma_infix_uses_a_token(tokens, at, errors, level.tighter());
    }
}

pub proof fn lemma_infix_uses_a_token(tokens: Seq<Token>, at: int, errors: Seq<Error>, level: Level)
    ensures
        infix(tokens, at, errors, level).value is Some ==> infix(tokens, at, errors, level).used
            >= 1,
    decreases level.looseness(), 1nat,
{
    lemma_operand_uses_a_token(tokens, at, errors, level);
}

pub proof fn lemma_expression_uses_a_token(tokens: Seq<Token>, at: int, errors: Seq<Error>)
    ensures
        expression(tokens, at, errors).value is Some ==> expression(tokens, at, errors).used >= 1,
        assignment(tokens, at, errors).value is Some ==> assignment(tokens, at, errors).used >= 1,
{
    lemma_infix_uses_a_token(tokens, at, errors, Level::Or);
}

pub proof fn lemma_statement_uses_a_token(tokens: Seq<Token>, at: int, errors: Seq<Error>)
    ensures
        statement(tokens, at, errors).value is Some ==> statement(tokens, at, errors).used >= 1,
{
    if is_type(tokens, at, TokenType::If) || is_type(tokens, at, TokenType::While) || is_type(
        tokens,
        at,
        TokenType::For,
    ) || is_type(tokens, at, TokenType::Print) || is_type(tokens, at, TokenType::Return)
        || is_type(tokens, at, TokenType::LeftBrace) {
        assert(statement(tokens, at, errors).used >= 1);
    } else {
        lemma_expression_uses_a_token(tokens, at, errors);
        assert(statement(tokens, at, errors) == expression_statement(tokens, at, errors));
    }
}

/// A declaration that parses has used a token.
pub proof fn lemma_declaration_uses_a_token(tokens: Seq<Token>, at: int, errors: Seq<Error>)
    ensures
        declaration(tokens, at, errors).value is Some ==> declaration(tokens, at, errors).used
            >= 1,
{
    lemma_statement_uses_a_token(tokens, at, errors);
}

/// Parsing a program moves forward with every declaration, whether the
/// declaration parses or parsing has to recover from it.
pub proof fn lemma_program_moves_on(tokens: Seq<Token>, at: int, errors: Seq<Error>)
    requires
        0 <= at < tokens.len(),
    ensures
        ({
            let item = declaration(tokens, at, errors);
            match item.value {
                Some(_) => at < at + item.used,
                None => at < synchronise(tokens, at + item.used),
            }
        }),
{
    lemma_declaration_uses_a_token(tokens, at, errors);
    let item = declaration(tokens, at, errors);
    if at + item.used <= tokens.len() {
        lemma_synchronise_advances(tokens, at + item.used);
    }
}

} // verus!
