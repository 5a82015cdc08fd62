//! The productions for statements and declarations.

use super::{
    declaration_view, expression_view, is_declaration, is_expression, is_statement, Error, Parser,
};
use crate::expression::{boolean_literal_expression, Expression};
use crate::grammar;
use crate::grammar::MAX_ARGUMENTS;
use crate::lexer::{Token, TokenType};
use crate::statement::{
    lemma_block_tree, lemma_function_tree, lemma_trees_push, trees, Declaration, SpecDeclaration,
    SpecStatement, Statement,
};
use std::rc::Rc;
use vstd::prelude::*;

verus! {

/// A block of two declarations.
fn block_of(first: Declaration, second: Declaration) -> (block: Statement)
    ensures
        block@ == SpecStatement::Block(seq![first@, second@]),
{
    let mut declarations: Vec<Declaration> = Vec::new();
    declarations.push(first);
    declarations.push(second);
    let shared = Rc::new(declarations);
    proof {
        lemma_block_tree(shared);
        assert(trees((*shared)@) =~= seq![first@, second@]);
    }
    Statement::Block(shared)
}

/// The three clauses of a `for` statement.
struct ForHeader {
    initialiser: Option<Declaration>,
    condition: Rc<Expression>,
    increment: Option<Rc<Expression>>,
}

impl ForHeader {
    /// The clauses that these stand for.
    spec fn view(self) -> grammar::ForHeader {
        grammar::ForHeader {
            initialiser: declaration_view(self.initialiser),
            condition: self.condition@,
            increment: expression_view(self.increment),
        }
    }
}

/// Rewrites a `for` statement as a loop in a block.
fn desugar_for(
    initialiser: Option<Declaration>,
    condition: Rc<Expression>,
    increment: Option<Rc<Expression>>,
    body: Statement,
) -> (statement: Statement)
    ensures
        statement@ == grammar::desugar_for(
            declaration_view(initialiser),
            condition@,
            expression_view(increment),
            body@,
        ),
{
    reveal(grammar::desugar_for);
    let mut body = body;
    if let Some(increment) = increment {
        let step = Statement::Expression(increment);
        assert(step@ == SpecStatement::Expression(increment@));
        let first = Declaration::Statement(body);
        let second = Declaration::Statement(step);
        assert(first@ == SpecDeclaration::Statement(body@));
        assert(second@ == SpecDeclaration::Statement(step@));
        body = block_of(first, second);
    }
    let ghost stepped = body@;
    body = Statement::While { condition, body: Box::new(body) };
    assert(body@ == (SpecStatement::While { condition: condition@, body: Box::new(stepped) }));
    if let Some(initialiser) = initialiser {
        let second = Declaration::Statement(body);
        assert(second@ == SpecDeclaration::Statement(body@));
        body = block_of(initialiser, second);
    }
    body
}

impl Parser {
    #[verifier::rlimit(80)]
    pub(super) fn parse_declaration(&mut self, tokens: &[Token]) -> (result: Option<Declaration>)
        requires
            old(self).inside(tokens@),
        ensures
            final(self).stepped(
                *old(self),
                tokens@,
                grammar::declaration(tokens@, old(self).at(), old(self).recorded()),
            ),
            is_declaration(
                result,
                grammar::declaration(tokens@, old(self).at(), old(self).recorded()).value,
            ),
            result is Some ==> final(self).at() > old(self).at(),
        decreases grammar::left(tokens@, old(self).at()), 44nat,
    {
        if self.consume_token_if(tokens, TokenType::Fun) {
            return self.parse_function_declaration(tokens);
        }
        if self.consume_token_if(tokens, TokenType::Var) {
            return self.parse_variable_declaration(tokens);
        }
        match self.parse_statement(tokens) {
            Some(statement) => Some(Declaration::Statement(statement)),
            None => None,
        }
    }

    /// Parses the parameters of the function `name`, up to its `)`.
    #[verifier::rlimit(80)]
    fn parse_parameters(&mut self, tokens: &[Token], name: Token) -> (result: Option<Vec<Token>>)
        requires
            old(self).inside(tokens@),
        ensures
            final(self).stepped(
                *old(self),
                tokens@,
                grammar::parameters(
                    tokens@,
                    old(self).at(),
                    old(self).recorded(),
                    name,
                    Seq::empty(),
                ),
            ),
            match result {
                Some(parameters) => grammar::parameters(
                    tokens@,
                    old(self).at(),
                    old(self).recorded(),
                    name,
                    Seq::empty(),
                ).value == Some(parameters@),
                None => grammar::parameters(
                    tokens@,
                    old(self).at(),
                    old(self).recorded(),
                    name,
                    Seq::empty(),
                ).value is None,
            },
    {
        let mut parameters: Vec<Token> = Vec::new();
        let ghost whole = grammar::parameters(
            tokens@,
            self.at(),
            self.recorded(),
            name,
            Seq::empty(),
        );
        loop
            invariant
                self.inside(tokens@),
                old(self).at() <= self.at(),
                whole == grammar::parameters(
                    tokens@,
                    old(self).at(),
                    old(self).recorded(),
                    name,
                    Seq::empty(),
                ),
                whole == grammar::parameters(
                    tokens@,
                    self.at(),
                    self.recorded(),
                    name,
                    parameters@,
                ).after((self.at() - old(self).at()) as nat),
            decreases grammar::left(tokens@, self.at()),
        {
            // Make sure there are not too many parameters.
            if parameters.len() >= MAX_ARGUMENTS {
                self.errors.push(Error::TooManyArguments { callee_span: name.span });
                return None;
            }
            match self.consume_token_of_type(tokens, TokenType::Identifier) {
                None => {
                    return None;
                },
                Some(parameter) => {
                    parameters.push(parameter);
                },
            }
            // Without another comma the parameters are done.
            if !self.consume_token_if(tokens, TokenType::Comma) {
                return Some(parameters);
            }
        }
    }

    #[verifier::rlimit(80)]
    fn parse_function_declaration(&mut self, tokens: &[Token]) -> (result: Option<Declaration>)
        requires
            old(self).inside(tokens@),
        ensures
            final(self).stepped(
                *old(self),
                tokens@,
                grammar::function_declaration(tokens@, old(self).at(), old(self).recorded()),
            ),
            is_declaration(
                result,
                grammar::function_declaration(tokens@, old(self).at(), old(self).recorded()).value,
            ),
        decreases grammar::left(tokens@, old(self).at()), 30nat,
    {
        let name = match self.consume_token_of_type(tokens, TokenType::Identifier) {
            Some(name) => name,
            None => {
                return None;
            },
        };
        if self.consume_token_of_type(tokens, TokenType::LeftParen).is_none() {
            return None;
        }
        let parameters = if self.is_at(tokens, TokenType::RightParen) {
            Vec::new()
        } else {
            match self.parse_parameters(tokens, name) {
                Some(parameters) => parameters,
                None => {
                    return None;
                },
            }
        };
        if self.consume_token_of_type(tokens, TokenType::RightParen).is_none() {
            return None;
        }
        if self.consume_token_of_type(tokens, TokenType::LeftBrace).is_none() {
            return None;
        }
        let body = match self.parse_block(tokens) {
            Some(body) => body,
            None => {
                return None;
            },
        };
        proof {
            lemma_function_tree(name, parameters, body);
        }
        Some(Declaration::Function { name, parameters, body })
    }

    #[verifier::rlimit(80)]
    fn parse_variable_declaration(&mut self, tokens: &[Token]) -> (result: Option<Declaration>)
        requires
            old(self).inside(tokens@),
        ensures
            final(self).stepped(
                *old(self),
                tokens@,
                grammar::variable_declaration(tokens@, old(self).at(), old(self).recorded()),
            ),
            is_declaration(
                result,
                grammar::variable_declaration(tokens@, old(self).at(), old(self).recorded()).value,
            ),
        decreases grammar::left(tokens@, old(self).at()), 30nat,
    {
        let name = match self.consume_token_of_type(tokens, TokenType::Identifier) {
            Some(name) => name,
            None => {
                return None;
            },
        };
        let initialiser = if self.consume_token_if(tokens, TokenType::Equal) {
            match self.parse_expression(tokens) {
                Some(initialiser) => Some(initialiser),
                None => {
                    return None;
                },
            }
        } else {
            None
        };
        if self.consume_token_of_type(tokens, TokenType::Semicolon).is_none() {
            return None;
        }
        Some(Declaration::Variable { name, initialiser })
    }

    #[verifier::rlimit(80)]
    fn parse_statement(&mut self, tokens: &[Token]) -> (result: Option<Statement>)
        requires
            old(self).inside(tokens@),
        ensures
            final(self).stepped(
                *old(self),
                tokens@,
                grammar::statement(tokens@, old(self).at(), old(self).recorded()),
            ),
            is_statement(
                result,
                grammar::statement(tokens@, old(self).at(), old(self).recorded()).value,
            ),
            result is Some ==> final(self).at() > old(self).at(),
        decreases grammar::left(tokens@, old(self).at()), 43nat,
    {
        if self.consume_token_if(tokens, TokenType::If) {
            return self.parse_if_statement(tokens);
        }
        if self.consume_token_if(tokens, TokenType::While) {
            return self.parse_while_statement(tokens);
        }
        if self.consume_token_if(tokens, TokenType::For) {
            return self.parse_for_statement(tokens);
        }
        if self.consume_token_if(tokens, TokenType::Print) {
            return self.parse_print_statement(tokens);
        }
        if self.consume_token_if(tokens, TokenType::Return) {
            return self.parse_return_statement(tokens);
        }
        if self.consume_token_if(tokens, TokenType::LeftBrace) {
            return match self.parse_block(tokens) {
                Some(declarations) => {
                    proof {
                        lemma_block_tree(declarations);
                    }
                    Some(Statement::Block(declarations))
                },
                None => None,
            };
        }
        self.parse_expression_statement(tokens)
    }

    /// Parses the first clause of a `for` statement. The outer `None` says
    /// that the statement has failed, the inner one that there is no
    /// initialiser.
    #[verifier::rlimit(80)]
    fn parse_for_initialiser(&mut self, tokens: &[Token]) -> (result: Option<Option<Declaration>>)
        requires
            old(self).inside(tokens@),
        ensures
            final(self).stepped(
                *old(self),
                tokens@,
                grammar::for_initialiser(tokens@, old(self).at(), old(self).recorded()),
            ),
            grammar::for_initialiser(tokens@, old(self).at(), old(self).recorded()).value == (match result {
                Some(initialiser) => Some(declaration_view(initialiser)),
                None => None,
            }),
        decreases grammar::left(tokens@, old(self).at()), 43nat,
    {
        if self.consume_token_if(tokens, TokenType::Semicolon) {
            Some(None)
        } else if self.consume_token_if(tokens, TokenType::Var) {
            match self.parse_variable_declaration(tokens) {
                Some(variable) => Some(Some(variable)),
                None => None,
            }
        } else {
            match self.parse_expression_statement(tokens) {
                Some(statement) => Some(Some(Declaration::Statement(statement))),
                None => None,
            }
        }
    }

    /// Parses a clause of a `for` statement with the token that ends it.
    /// The outer `None` says that the statement has failed, the inner one
    /// that the clause is empty.
    #[verifier::rlimit(80)]
    fn parse_for_part(&mut self, tokens: &[Token], end: TokenType) -> (result: Option<
        Option<Rc<Expression>>,
    >)
        requires
            old(self).inside(tokens@),
        ensures
            final(self).stepped(
                *old(self),
                tokens@,
                grammar::for_part(tokens@, old(self).at(), old(self).recorded(), end),
            ),
            grammar::for_part(tokens@, old(self).at(), old(self).recorded(), end).value == (match result {
                Some(clause) => Some(expression_view(clause)),
                None => None,
            }),
        decreases grammar::left(tokens@, old(self).at()), 43nat,
    {
        if self.consume_token_if(tokens, end) {
            return Some(None);
        }
        let clause = match self.parse_expression(tokens) {
            Some(clause) => clause,
            None => {
                return None;
            },
        };
        if self.consume_token_of_type(tokens, end).is_none() {
            return None;
        }
        Some(Some(clause))
    }

    /// Parses the last two clauses of a `for` statement.
    #[verifier::rlimit(80)]
    fn parse_for_clauses(&mut self, tokens: &[Token]) -> (result: Option<
        (Rc<Expression>, Option<Rc<Expression>>),
    >)
        requires
            old(self).inside(tokens@),
        ensures
            final(self).stepped(
                *old(self),
                tokens@,
                grammar::for_clauses(tokens@, old(self).at(), old(self).recorded()),
            ),
            grammar::for_clauses(tokens@, old(self).at(), old(self).recorded()).value == (match result {
                Some((condition, increment)) => Some((condition@, expression_view(increment))),
                None => None,
            }),
        decreases grammar::left(tokens@, old(self).at()), 44nat,
    {
        let condition = match self.parse_for_part(tokens, TokenType::Semicolon) {
            Some(Some(condition)) => condition,
            Some(None) => {
                // Without a condition the loop goes on for ever.
                boolean_literal_expression(tokens[self.current_index - 1].span, true)
            },
            None => {
                return None;
            },
        };
        let increment = match self.parse_for_part(tokens, TokenType::RightParen) {
            Some(increment) => increment,
            None => {
                return None;
            },
        };
        Some((condition, increment))
    }

    /// Parses the clauses of a `for` statement, in their parentheses.
    #[verifier::rlimit(80)]
    fn parse_for_header(&mut self, tokens: &[Token]) -> (result: Option<ForHeader>)
        requires
            old(self).inside(tokens@),
        ensures
            final(self).stepped(
                *old(self),
                tokens@,
                grammar::for_header(tokens@, old(self).at(), old(self).recorded()),
            ),
            grammar::for_header(tokens@, old(self).at(), old(self).recorded()).value == (match result {
                Some(header) => Some(header@),
                None => None,
            }),
        decreases grammar::left(tokens@, old(self).at()), 45nat,
    {
        if self.consume_token_of_type(tokens, TokenType::LeftParen).is_none() {
            return None;
        }
        let initialiser = match self.parse_for_initialiser(tokens) {
            Some(initialiser) => initialiser,
            None => {
                return None;
            },
        };
        let (condition, increment) = match self.parse_for_clauses(tokens) {
            Some(clauses) => clauses,
            None => {
                return None;
            },
        };
        Some(ForHeader { initialiser, condition, increment })
    }

    #[verifier::rlimit(80)]
    fn parse_for_statement(&mut self, tokens: &[Token]) -> (result: Option<Statement>)
        requires
            old(self).inside(tokens@),
        ensures
            final(self).stepped(
                *old(self),
                tokens@,
                grammar::for_statement(tokens@, old(self).at(), old(self).recorded()),
            ),
            is_statement(
                result,
                grammar::for_statement(tokens@, old(self).at(), old(self).recorded()).value,
            ),
        decreases grammar::left(tokens@, old(self).at()), 50nat,
    {
        let header = match self.parse_for_header(tokens) {
            Some(header) => header,
            None => {
                return None;
            },
        };
        let body = match self.parse_statement(tokens) {
            Some(body) => body,
            None => {
                return None;
            },
        };
        Some(desugar_for(header.initialiser, header.condition, header.increment, body))
    }

    /// Parses the condition of an `if` or `while` statement.
    #[verifier::rlimit(80)]
    fn parse_condition(&mut self, tokens: &[Token]) -> (result: Option<Rc<Expression>>)
        requires
            old(self).inside(tokens@),
        ensures
            final(self).stepped(
                *old(self),
                tokens@,
                grammar::condition(tokens@, old(self).at(), old(self).recorded()),
            ),
            is_expression(
                result,
                grammar::condition(tokens@, old(self).at(), old(self).recorded()).value,
            ),
            result is Some ==> final(self).at() > old(self).at(),
        decreases grammar::left(tokens@, old(self).at()), 42nat,
    {
        if self.consume_token_of_type(tokens, TokenType::LeftParen).is_none() {
            return None;
        }
        let condition = match self.parse_expression(tokens) {
            Some(condition) => condition,
            None => {
                return None;
            },
        };
        if self.consume_token_of_type(tokens, TokenType::RightParen).is_none() {
            return None;
        }
        Some(condition)
    }

    #[verifier::rlimit(80)]
    fn parse_while_statement(&mut self, tokens: &[Token]) -> (result: Option<Statement>)
        requires
            old(self).inside(tokens@),
        ensures
            final(self).stepped(
                *old(self),
                tokens@,
                grammar::while_statement(tokens@, old(self).at(), old(self).recorded()),
            ),
            is_statement(
                result,
                grammar::while_statement(tokens@, old(self).at(), old(self).recorded()).value,
            ),
        decreases grammar::left(tokens@, old(self).at()), 50nat,
    {
        let condition = match self.parse_condition(tokens) {
            Some(condition) => condition,
            None => {
                return None;
            },
        };
        let body = match self.parse_statement(tokens) {
            Some(body) => body,
            None => {
                return None;
            },
        };
        Some(Statement::While { condition, body: Box::new(body) })
    }

    #[verifier::rlimit(80)]
    fn parse_if_statement(&mut self, tokens: &[Token]) -> (result: Option<Statement>)
        requires
            old(self).inside(tokens@),
        ensures
            final(self).stepped(
                *old(self),
                tokens@,
                grammar::if_statement(tokens@, old(self).at(), old(self).recorded()),
            ),
            is_statement(
                result,
                grammar::if_statement(tokens@, old(self).at(), old(self).recorded()).value,
            ),
        decreases grammar::left(tokens@, old(self).at()), 50nat,
    {
        let condition = match self.parse_condition(tokens) {
            Some(condition) => condition,
            None => {
                return None;
            },
        };
        self.parse_if_branches(tokens, condition)
    }

    /// Parses the branches of an `if` statement with the given condition.
    #[verifier::rlimit(80)]
    fn parse_if_branches(&mut self, tokens: &[Token], condition: Rc<Expression>) -> (result: Option<
        Statement,
    >)
        requires
            old(self).inside(tokens@),
        ensures
            final(self).stepped(
                *old(self),
                tokens@,
                grammar::if_branches(tokens@, old(self).at(), old(self).recorded(), condition@),
            ),
            is_statement(
                result,
                grammar::if_branches(
                    tokens@,
                    old(self).at(),
                    old(self).recorded(),
                    condition@,
                ).value,
            ),
        decreases grammar::left(tokens@, old(self).at()), 45nat,
    {
        let then_branch = match self.parse_statement(tokens) {
            Some(then_branch) => Box::new(then_branch),
            None => {
                return None;
            },
        };
        let else_branch = if self.consume_token_if(tokens, TokenType::Else) {
            match self.parse_statement(tokens) {
                Some(else_branch) => Some(Box::new(else_branch)),
                None => {
                    return None;
                },
            }
        } else {
            None
        };
        Some(Statement::If { condition, then_branch, else_branch })
    }

    #[verifier::rlimit(80)]
    fn parse_block(&mut self, tokens: &[Token]) -> (result: Option<Rc<Vec<Declaration>>>)
        requires
            old(self).inside(tokens@),
        ensures
            final(self).stepped(
                *old(self),
                tokens@,
                grammar::block(tokens@, old(self).at(), old(self).recorded()),
            ),
            match result {
                Some(declarations) => grammar::block(
                    tokens@,
                    old(self).at(),
                    old(self).recorded(),
                ).value == Some(trees((*declarations)@)),
                None => grammar::block(tokens@, old(self).at(), old(self).recorded()).value is None,
            },
        decreases grammar::left(tokens@, old(self).at()), 46nat,
    {
        let mut statements: Vec<Declaration> = vec![];
        let ghost whole = grammar::block(tokens@, self.at(), self.recorded());
        proof {
            grammar::lemma_block_starts(tokens@, self.at(), self.recorded());
            assert(trees(statements@) =~= Seq::empty());
        }
        loop
            invariant
                self.inside(tokens@),
                old(self).at() <= self.at(),
                whole == grammar::block(tokens@, old(self).at(), old(self).recorded()),
                whole == grammar::block_items(
                    tokens@,
                    self.at(),
                    self.recorded(),
                    trees(statements@),
                ).after((self.at() - old(self).at()) as nat),
            decreases grammar::left(tokens@, self.at()),
        {
            let ghost found = statements@;
            let more = match self.current_token(tokens) {
                None => false,
                Some(token) => token.type_ != TokenType::RightBrace,
            };
            if !more {
                proof {
                    grammar::lemma_block_ends(tokens@, self.at(), self.recorded(), trees(found));
                }
                if self.consume_token_of_type(tokens, TokenType::RightBrace).is_none() {
                    return None;
                }
                return Some(Rc::new(statements));
            }
            proof {
                grammar::lemma_block_goes_on(tokens@, self.at(), self.recorded(), trees(found));
            }
            match self.parse_declaration(tokens) {
                None => {
                    return None;
                },
                Some(declaration) => {
                    proof {
                        lemma_trees_push(found, declaration);
                    }
                    statements.push(declaration);
                },
            }
        }
    }

    #[verifier::rlimit(80)]
    fn parse_print_statement(&mut self, tokens: &[Token]) -> (result: Option<Statement>)
        requires
            old(self).inside(tokens@),
        ensures
            final(self).stepped(
                *old(self),
                tokens@,
                grammar::print_statement(tokens@, old(self).at(), old(self).recorded()),
            ),
            is_statement(
                result,
                grammar::print_statement(tokens@, old(self).at(), old(self).recorded()).value,
            ),
        decreases grammar::left(tokens@, old(self).at()), 42nat,
    {
        let expression = match self.parse_expression(tokens) {
            Some(expression) => expression,
            None => {
                return None;
            },
        };
        if self.consume_token_of_type(tokens, TokenType::Semicolon).is_none() {
            return None;
        }
        Some(Statement::Print(expression))
    }

    #[verifier::rlimit(80)]
    fn parse_return_statement(&mut self, tokens: &[Token]) -> (result: Option<Statement>)
        requires
            old(self).inside(tokens@),
        ensures
            final(self).stepped(
                *old(self),
                tokens@,
                grammar::return_statement(tokens@, old(self).at(), old(self).recorded()),
            ),
            is_statement(
                result,
                grammar::return_statement(tokens@, old(self).at(), old(self).recorded()).value,
            ),
        decreases grammar::left(tokens@, old(self).at()), 42nat,
    {
        let value = match self.parse_expression(tokens) {
            Some(value) => value,
            None => {
                return None;
            },
        };
        if self.consume_token_of_type(tokens, TokenType::Semicolon).is_none() {
            return None;
        }
        Some(Statement::Return { value })
    }

    #[verifier::rlimit(80)]
    fn parse_expression_statement(&mut self, tokens: &[Token]) -> (result: Option<Statement>)
        requires
            old(self).inside(tokens@),
        ensures
            final(self).stepped(
                *old(self),
                tokens@,
                grammar::expression_statement(tokens@, old(self).at(), old(self).recorded()),
            ),
            is_statement(
                result,
                grammar::expression_statement(tokens@, old(self).at(), old(self).recorded()).value,
            ),
            result is Some ==> final(self).at() > old(self).at(),
        decreases grammar::left(tokens@, old(self).at()), 42nat,
    {
        let expression = match self.parse_expression(tokens) {
            Some(expression) => expression,
            None => {
                return None;
            },
        };
        if self.consume_token_of_type(tokens, TokenType::Semicolon).is_none() {
            return None;
        }
        Some(Statement::Expression(expression))
    }
}

} // verus!
