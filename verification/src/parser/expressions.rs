//! The productions for expressions.

use super::{is_expression, Error, Parser};
use crate::expression::{
    binary_expression, boolean_literal_expression, grouping_expression, lemma_call_tree, lemma_trees_push,
    logical_expression, nil_literal, number_literal_expression, string_literal_expression, trees,
    unary_expression, AssignmentExpression, CallExpression, Expression, VariableExpression,
};
use crate::grammar;
use crate::grammar::{Level, MAX_ARGUMENTS};
use crate::lexer::{Token, TokenType};
use std::rc::Rc;
use vstd::prelude::*;

verus! {

/// The operators of a level, for the parser to look for.
fn operators(level: Level) -> (types: Vec<TokenType>)
    ensures
        types@ == level.operators(),
{
    let types = match level {
        Level::Or => vec![TokenType::Or],
        Level::And => vec![TokenType::And],
        Level::Equality => vec![TokenType::BangEqual, TokenType::EqualEqual],
        Level::Comparison => vec![
            TokenType::Greater,
            TokenType::GreaterEqual,
            TokenType::Less,
            TokenType::LessEqual,
        ],
        Level::Term => vec![TokenType::Minus, TokenType::Plus],
        Level::Factor => vec![TokenType::Slash, TokenType::Star],
    };
    assert(types@ =~= level.operators());
    types
}

/// The expression that an operator of a level makes of its operands.
fn join(level: Level, left: Rc<Expression>, right: Rc<Expression>, operator: Token) -> (joined: Rc<
    Expression,
>)
    ensures
        joined@ == level.join(left@, right@, operator),
{
    match level {
        Level::Or | Level::And => logical_expression(left, right, operator),
        _ => binary_expression(left, right, operator),
    }
}

impl Parser {
    #[verifier::rlimit(80)]
    pub(super) fn parse_expression(&mut self, tokens: &[Token]) -> (result: Option<Rc<Expression>>)
        requires
            old(self).inside(tokens@),
        ensures
            final(self).stepped(
                *old(self),
                tokens@,
                grammar::expression(tokens@, old(self).at(), old(self).recorded()),
            ),
            is_expression(
                result,
                grammar::expression(tokens@, old(self).at(), old(self).recorded()).value,
            ),
            result is Some ==> final(self).at() > old(self).at(),
        decreases grammar::left(tokens@, old(self).at()), 41nat,
    {
        self.parse_assignment(tokens)
    }

    #[verifier::rlimit(80)]
    fn parse_assignment(&mut self, tokens: &[Token]) -> (result: Option<Rc<Expression>>)
        requires
            old(self).inside(tokens@),
        ensures
            final(self).stepped(
                *old(self),
                tokens@,
                grammar::assignment(tokens@, old(self).at(), old(self).recorded()),
            ),
            is_expression(
                result,
                grammar::assignment(tokens@, old(self).at(), old(self).recorded()).value,
            ),
            result is Some ==> final(self).at() > old(self).at(),
        decreases grammar::left(tokens@, old(self).at()), 40nat,
    {
        let expression = match self.parse_or(tokens) {
            Some(expression) => expression,
            None => {
                return None;
            },
        };
        if self.consume_token_if(tokens, TokenType::Equal) {
            let value = match self.parse_assignment(tokens) {
                Some(value) => value,
                None => {
                    return None;
                },
            };
            if let Expression::Variable(variable_expression) = &*expression {
                return Some(
                    Rc::new(
                        Expression::Assignment(
                            AssignmentExpression { name: variable_expression.name, value },
                        ),
                    ),
                );
            }
            self.errors.push(Error::InvalidAssignmentTarget { target_span: expression.span() });
        }
        Some(expression)
    }

    /// Parses operands joined by operators of one level.
    #[verifier::rlimit(80)]
    fn parse_infix(&mut self, tokens: &[Token], level: Level) -> (result: Option<Rc<Expression>>)
        requires
            old(self).inside(tokens@),
        ensures
            final(self).stepped(
                *old(self),
                tokens@,
                grammar::infix(tokens@, old(self).at(), old(self).recorded(), level),
            ),
            is_expression(
                result,
                grammar::infix(tokens@, old(self).at(), old(self).recorded(), level).value,
            ),
            result is Some ==> final(self).at() > old(self).at(),
        decreases grammar::left(tokens@, old(self).at()), 20 + 3 * level.looseness(),
    {
        let mut expression = match self.parse_operand(tokens, level) {
            Some(expression) => expression,
            None => {
                return None;
            },
        };
        let ghost whole = grammar::infix(tokens@, old(self).at(), old(self).recorded(), level);
        let types = operators(level);
        loop
            invariant
                self.inside(tokens@),
                old(self).inside(tokens@),
                old(self).at() < self.at(),
                types@ == level.operators(),
                whole == grammar::infix(tokens@, old(self).at(), old(self).recorded(), level),
                whole == grammar::infix_rest(
                    tokens@,
                    self.at(),
                    self.recorded(),
                    level,
                    expression@,
                ).after((self.at() - old(self).at()) as nat),
            decreases grammar::left(tokens@, self.at()),
        {
            if !self.consume_token_if_in_vec(tokens, &types) {
                return Some(expression);
            }
            let operator = tokens[self.current_index - 1];
            let right = match self.parse_operand(tokens, level) {
                Some(right) => right,
                None => {
                    return None;
                },
            };
            expression = join(level, expression, right, operator);
        }
    }

    /// Parses an operand of an operator of the given level.
    #[verifier::rlimit(80)]
    fn parse_operand(&mut self, tokens: &[Token], level: Level) -> (result: Option<Rc<Expression>>)
        requires
            old(self).inside(tokens@),
        ensures
            final(self).stepped(
                *old(self),
                tokens@,
                grammar::operand(tokens@, old(self).at(), old(self).recorded(), level),
            ),
            is_expression(
                result,
                grammar::operand(tokens@, old(self).at(), old(self).recorded(), level).value,
            ),
            result is Some ==> final(self).at() > old(self).at(),
        decreases grammar::left(tokens@, old(self).at()), 19 + 3 * level.looseness(),
    {
        match level {
            Level::Or => self.parse_and(tokens),
            Level::And => self.parse_equality(tokens),
            Level::Equality => self.parse_comparison(tokens),
            Level::Comparison => self.parse_term(tokens),
            Level::Term => self.parse_factor(tokens),
            Level::Factor => self.parse_unary(tokens),
        }
    }

    #[verifier::rlimit(80)]
    fn parse_or(&mut self, tokens: &[Token]) -> (result: Option<Rc<Expression>>)
        requires
            old(self).inside(tokens@),
        ensures
            final(self).stepped(
                *old(self),
                tokens@,
                grammar::infix(tokens@, old(self).at(), old(self).recorded(), Level::Or),
            ),
            is_expression(
                result,
                grammar::infix(tokens@, old(self).at(), old(self).recorded(), Level::Or).value,
            ),
            result is Some ==> final(self).at() > old(self).at(),
        decreases grammar::left(tokens@, old(self).at()), 36nat,
    {
        self.parse_infix(tokens, Level::Or)
    }

    #[verifier::rlimit(80)]
    fn parse_and(&mut self, tokens: &[Token]) -> (result: Option<Rc<Expression>>)
        requires
            old(self).inside(tokens@),
        ensures
            final(self).stepped(
                *old(self),
                tokens@,
                grammar::infix(tokens@, old(self).at(), old(self).recorded(), Level::And),
            ),
            is_expression(
                result,
                grammar::infix(tokens@, old(self).at(), old(self).recorded(), Level::And).value,
            ),
            result is Some ==> final(self).at() > old(self).at(),
        decreases grammar::left(tokens@, old(self).at()), 33nat,
    {
        self.parse_infix(tokens, Level::And)
    }

    #[verifier::rlimit(80)]
    fn parse_equality(&mut self, tokens: &[Token]) -> (result: Option<Rc<Expression>>)
        requires
            old(self).inside(tokens@),
        ensures
            final(self).stepped(
                *old(self),
                tokens@,
                grammar::infix(tokens@, old(self).at(), old(self).recorded(), Level::Equality),
            ),
            is_expression(
                result,
                grammar::infix(
                    tokens@,
                    old(self).at(),
                    old(self).recorded(),
                    Level::Equality,
                ).value,
            ),
            result is Some ==> final(self).at() > old(self).at(),
        decreases grammar::left(tokens@, old(self).at()), 30nat,
    {
        self.parse_infix(tokens, Level::Equality)
    }

    #[verifier::rlimit(80)]
    fn parse_comparison(&mut self, tokens: &[Token]) -> (result: Option<Rc<Expression>>)
        requires
            old(self).inside(tokens@),
        ensures
            final(self).stepped(
                *old(self),
                tokens@,
                grammar::infix(tokens@, old(self).at(), old(self).recorded(), Level::Comparison),
            ),
            is_expression(
                result,
                grammar::infix(
                    tokens@,
                    old(self).at(),
                    old(self).recorded(),
                    Level::Comparison,
                ).value,
            ),
            result is Some ==> final(self).at() > old(self).at(),
        decreases grammar::left(tokens@, old(self).at()), 27nat,
    {
        self.parse_infix(tokens, Level::Comparison)
    }

    #[verifier::rlimit(80)]
    fn parse_term(&mut self, tokens: &[Token]) -> (result: Option<Rc<Expression>>)
        requires
            old(self).inside(tokens@),
        ensures
            final(self).stepped(
                *old(self),
                tokens@,
                grammar::infix(tokens@, old(self).at(), old(self).recorded(), Level::Term),
            ),
            is_expression(
                result,
                grammar::infix(tokens@, old(self).at(), old(self).recorded(), Level::Term).value,
            ),
            result is Some ==> final(self).at() > old(self).at(),
        decreases grammar::left(tokens@, old(self).at()), 24nat,
    {
        self.parse_infix(tokens, Level::Term)
    }

    #[verifier::rlimit(80)]
    fn parse_factor(&mut self, tokens: &[Token]) -> (result: Option<Rc<Expression>>)
        requires
            old(self).inside(tokens@),
        ensures
            final(self).stepped(
                *old(self),
                tokens@,
                grammar::infix(tokens@, old(self).at(), old(self).recorded(), Level::Factor),
            ),
            is_expression(
                result,
                grammar::infix(tokens@, old(self).at(), old(self).recorded(), Level::Factor).value,
            ),
            result is Some ==> final(self).at() > old(self).at(),
        decreases grammar::left(tokens@, old(self).at()), 21nat,
    {
        self.parse_infix(tokens, Level::Factor)
    }

    #[verifier::rlimit(80)]
    fn parse_unary(&mut self, tokens: &[Token]) -> (result: Option<Rc<Expression>>)
        requires
            old(self).inside(tokens@),
        ensures
            final(self).stepped(
                *old(self),
                tokens@,
                grammar::unary(tokens@, old(self).at(), old(self).recorded()),
            ),
            is_expression(
                result,
                grammar::unary(tokens@, old(self).at(), old(self).recorded()).value,
            ),
            result is Some ==> final(self).at() > old(self).at(),
        decreases grammar::left(tokens@, old(self).at()), 10nat,
    {
        let types = vec![TokenType::Bang, TokenType::Minus];
        assert(types@ =~= seq![TokenType::Bang, TokenType::Minus]);
        if self.consume_token_if_in_vec(tokens, &types) {
            let operator = tokens[self.current_index - 1];
            let right = match self.parse_unary(tokens) {
                Some(right) => right,
                None => {
                    return None;
                },
            };
            return Some(unary_expression(operator, right));
        }
        self.parse_call(tokens)
    }

    #[verifier::rlimit(80)]
    fn parse_call(&mut self, tokens: &[Token]) -> (result: Option<Rc<Expression>>)
        requires
            old(self).inside(tokens@),
        ensures
            final(self).stepped(
                *old(self),
                tokens@,
                grammar::call(tokens@, old(self).at(), old(self).recorded()),
            ),
            is_expression(
                result,
                grammar::call(tokens@, old(self).at(), old(self).recorded()).value,
            ),
            result is Some ==> final(self).at() > old(self).at(),
        decreases grammar::left(tokens@, old(self).at()), 9nat,
    {
        let mut expression = match self.parse_primary(tokens) {
            Some(expression) => expression,
            None => {
                return None;
            },
        };
        let ghost whole = grammar::call(tokens@, old(self).at(), old(self).recorded());
        loop
            invariant
                self.inside(tokens@),
                old(self).inside(tokens@),
                old(self).at() < self.at(),
                whole == grammar::call(tokens@, old(self).at(), old(self).recorded()),
                whole == grammar::call_rest(
                    tokens@,
                    self.at(),
                    self.recorded(),
                    expression@,
                ).after((self.at() - old(self).at()) as nat),
            decreases grammar::left(tokens@, self.at()),
        {
            if self.consume_token_if(tokens, TokenType::LeftParen) {
                expression = match self.parse_call_arguments(tokens, expression) {
                    Some(call) => call,
                    None => {
                        return None;
                    },
                };
            } else {
                return Some(expression);
            }
        }
    }

    /// Parses the arguments of a call of `callee` up to, and without, its `)`.
    #[verifier::rlimit(80)]
    fn parse_arguments(&mut self, tokens: &[Token], callee: &Rc<Expression>) -> (result: Option<
        Vec<Rc<Expression>>,
    >)
        requires
            old(self).inside(tokens@),
        ensures
            final(self).stepped(
                *old(self),
                tokens@,
                grammar::arguments(
                    tokens@,
                    old(self).at(),
                    old(self).recorded(),
                    callee@,
                    Seq::empty(),
                ),
            ),
            match result {
                Some(arguments) => grammar::arguments(
                    tokens@,
                    old(self).at(),
                    old(self).recorded(),
                    callee@,
                    Seq::empty(),
                ).value == Some(trees(arguments@)),
                None => grammar::arguments(
                    tokens@,
                    old(self).at(),
                    old(self).recorded(),
                    callee@,
                    Seq::empty(),
                ).value is None,
            },
        decreases grammar::left(tokens@, old(self).at()), 47nat,
    {
        let mut arguments: Vec<Rc<Expression>> = Vec::new();
        let ghost whole = grammar::arguments(
            tokens@,
            old(self).at(),
            old(self).recorded(),
            callee@,
            Seq::empty(),
        );
        assert(trees(arguments@) =~= Seq::empty());
        loop
            invariant
                self.inside(tokens@),
                old(self).inside(tokens@),
                old(self).at() <= self.at(),
                whole == grammar::arguments(
                    tokens@,
                    old(self).at(),
                    old(self).recorded(),
                    callee@,
                    Seq::empty(),
                ),
                whole == grammar::arguments(
                    tokens@,
                    self.at(),
                    self.recorded(),
                    callee@,
                    trees(arguments@),
                ).after((self.at() - old(self).at()) as nat),
            decreases grammar::left(tokens@, self.at()),
        {
            let ghost found = arguments@;
            match self.parse_expression(tokens) {
                Some(argument) => {
                    proof {
                        lemma_trees_push(found, argument);
                    }
                    arguments.push(argument);
                },
                None => {
                    return None;
                },
            }
            if arguments.len() > MAX_ARGUMENTS {
                self.errors.push(Error::TooManyArguments { callee_span: callee.span() });
                return None;
            }
            if !self.consume_token_if(tokens, TokenType::Comma) {
                return Some(arguments);
            }
        }
    }

    /// Given an expression being called, parses the arguments passed to it
    /// and the parenthesis that closes them.
    #[verifier::rlimit(80)]
    fn parse_call_arguments(&mut self, tokens: &[Token], callee: Rc<Expression>) -> (result: Option<
        Rc<Expression>,
    >)
        requires
            old(self).inside(tokens@),
        ensures
            final(self).stepped(
                *old(self),
                tokens@,
                grammar::call_arguments(tokens@, old(self).at(), old(self).recorded(), callee@),
            ),
            is_expression(
                result,
                grammar::call_arguments(
                    tokens@,
                    old(self).at(),
                    old(self).recorded(),
                    callee@,
                ).value,
            ),
        decreases grammar::left(tokens@, old(self).at()), 48nat,
    {
        let arguments = if self.is_at(tokens, TokenType::RightParen) {
            Vec::new()
        } else {
            match self.parse_arguments(tokens, &callee) {
                Some(arguments) => arguments,
                None => {
                    return None;
                },
            }
        };
        let closing_paren = match self.consume_token_of_type(tokens, TokenType::RightParen) {
            Some(closing_paren) => closing_paren,
            None => {
                return None;
            },
        };
        let call = CallExpression { callee, closing_paren, arguments };
        proof {
            lemma_call_tree(call);
            assert(trees(Seq::<Rc<Expression>>::empty()) =~= Seq::empty());
        }
        Some(Rc::new(Expression::Call(call)))
    }

    /// Parses an expression in parentheses, after its `(`.
    #[verifier::rlimit(80)]
    fn parse_grouping(&mut self, tokens: &[Token]) -> (result: Option<Rc<Expression>>)
        requires
            old(self).inside(tokens@),
        ensures
            final(self).stepped(
                *old(self),
                tokens@,
                grammar::grouping(tokens@, old(self).at(), old(self).recorded()),
            ),
            is_expression(
                result,
                grammar::grouping(tokens@, old(self).at(), old(self).recorded()).value,
            ),
        decreases grammar::left(tokens@, old(self).at()), 42nat,
    {
        let expression = match self.parse_expression(tokens) {
            Some(expression) => expression,
            None => {
                return None;
            },
        };
        if self.consume_token_of_type(tokens, TokenType::RightParen).is_none() {
            return None;
        }
        Some(grouping_expression(expression))
    }

    #[verifier::rlimit(80)]
    fn parse_primary(&mut self, tokens: &[Token]) -> (result: Option<Rc<Expression>>)
        requires
            old(self).inside(tokens@),
        ensures
            final(self).stepped(
                *old(self),
                tokens@,
                grammar::primary(tokens@, old(self).at(), old(self).recorded()),
            ),
            is_expression(
                result,
                grammar::primary(tokens@, old(self).at(), old(self).recorded()).value,
            ),
            result is Some ==> final(self).at() > old(self).at(),
        decreases grammar::left(tokens@, old(self).at()), 7nat,
    {
        if self.consume_token_if(tokens, TokenType::False) {
            let span = tokens[self.current_index - 1].span;
            return Some(boolean_literal_expression(span, false));
        }
        if self.consume_token_if(tokens, TokenType::True) {
            let span = tokens[self.current_index - 1].span;
            return Some(boolean_literal_expression(span, true));
        }
        if self.consume_token_if(tokens, TokenType::Nil) {
            let span = tokens[self.current_index - 1].span;
            return Some(nil_literal(span));
        }
        if self.consume_token_if(tokens, TokenType::Number) {
            return Some(number_literal_expression(tokens[self.current_index - 1]));
        }
        if self.consume_token_if(tokens, TokenType::String_) {
            return Some(string_literal_expression(tokens[self.current_index - 1]));
        }
        if self.consume_token_if(tokens, TokenType::Identifier) {
            return Some(
                Rc::new(
                    Expression::Variable(
                        VariableExpression { name: tokens[self.current_index - 1] },
                    ),
                ),
            );
        }
        if self.consume_token_if(tokens, TokenType::LeftParen) {
            return self.parse_grouping(tokens);
        }
        match self.current_token(tokens) {
            Some(current_token) => {
                self.errors.push(
                    Error::UnexpectedToken {
                        expected_token_type: None,
                        unexpected_token_type: current_token.type_,
                        span: current_token.span,
                    },
                );
            },
            None => {
                self.errors.push(Error::UnexpectedEof);
            },
        }
        None
    }
}

} // verus!
