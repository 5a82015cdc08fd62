//! The grammar, as mathematical functions from tokens to trees.
//!
//! Every production reads the tokens from an offset on and says what it
//! yields, how many tokens it uses and which errors it has recorded by then.
//! Where the tokens do not fit, the production that finds it out records
//! one error and yields nothing, and so does every production around it.
//! The one exception is an assignment to what is no variable: it is
//! recorded, and its target is yielded alone.
//! From lowest to highest precedence:
//!
//! ```text
//! declaration  := functionDecl | varDecl | statement
//! functionDecl := "fun" IDENT "(" params? ")" block
//! varDecl      := "var" IDENT ("=" expression)? ";"
//! statement    := ifStmt | whileStmt | forStmt | printStmt | returnStmt | block | exprStmt
//! exprStmt     := expression ";"
//! printStmt    := "print" expression ";"
//! returnStmt   := "return" expression ";"
//! block        := "{" declaration* "}"
//! ifStmt       := "if" "(" expression ")" statement ("else" statement)?
//! whileStmt    := "while" "(" expression ")" statement
//! forStmt      := "for" "(" (varDecl|exprStmt|";") expression? ";" expression? ")" statement
//! expression   := assignment
//! assignment   := (or "=" assignment) | or
//! or           := and ("or" and)*
//! and          := equality ("and" equality)*
//! equality     := comparison (("!="|"==") comparison)*
//! comparison   := term ((">"|">="|"<"|"<=") term)*
//! term         := factor (("-"|"+") factor)*
//! factor       := unary (("/"|"*") unary)*
//! unary        := ("!"|"-") unary | call
//! call         := primary ("(" arguments? ")")*
//! primary      := NUMBER | STRING | "true" | "false" | "nil" | IDENT | "(" expression ")"
//! ```

use crate::expression::{LiteralExpression, SpecExpression};
use crate::lexer::{Token, TokenType};
use crate::parser::Error;
use crate::statement::{SpecDeclaration, SpecStatement};
use vstd::prelude::*;

verus! {

/// The most arguments a call, and parameters a function, may have.
pub const MAX_ARGUMENTS: usize = 255;

/// What a production yields.
pub struct Step<T> {
    /// What was parsed; `None` where the tokens do not fit the production.
    pub value: Option<T>,
    /// How many tokens the production has used.
    pub used: nat,
    /// The errors recorded so far, those of this production last.
    pub errors: Seq<Error>,
}

impl<T> Step<T> {
    /// The same step, seen from `before` tokens earlier.
    pub open spec fn after(self, before: nat) -> Step<T> {
        Step { value: self.value, used: before + self.used, errors: self.errors }
    }

    /// This step as the failure of a production that used `before` tokens
    /// ahead of it.
    pub open spec fn fail<U>(self, before: nat) -> Step<U> {
        Step { value: None, used: before + self.used, errors: self.errors }
    }

    /// This step with `value` in place of what it yields, where it yields
    /// anything, in a production that used `before` tokens ahead of it.
    pub open spec fn give<U>(self, before: nat, value: U) -> Step<U> {
        Step {
            value: if self.value is Some {
                Some(value)
            } else {
                None
            },
            used: before + self.used,
            errors: self.errors,
        }
    }
}

/// How many tokens are left from offset `at` on.
pub open spec fn left(tokens: Seq<Token>, at: int) -> nat {
    if at <= tokens.len() {
        (tokens.len() - at) as nat
    } else {
        0
    }
}

/// The token at offset `at`, if there is one.
pub open spec fn token_at(tokens: Seq<Token>, at: int) -> Option<Token> {
    if 0 <= at < tokens.len() {
        Some(tokens[at])
    } else {
        None
    }
}

/// Whether the token at offset `at` has the given type.
pub open spec fn is_type(tokens: Seq<Token>, at: int, type_: TokenType) -> bool {
    0 <= at < tokens.len() && tokens[at].type_ == type_
}

/// Whether the token at offset `at` has one of the given types.
pub open spec fn is_at(tokens: Seq<Token>, at: int, types: Seq<TokenType>) -> bool {
    0 <= at < tokens.len() && types.contains(tokens[at].type_)
}

/// Uses the token at `at` if it has the given type, and records an error if
/// it has not.
pub open spec fn expect(tokens: Seq<Token>, at: int, errors: Seq<Error>, type_: TokenType) -> Step<
    Token,
> {
    match token_at(tokens, at) {
        None => Step { value: None, used: 0, errors: errors.push(Error::UnexpectedEof) },
        Some(token) => if token.type_ != type_ {
            Step {
                value: None,
                used: 0,
                errors: errors.push(
                    Error::UnexpectedToken {
                        expected_token_type: Some(type_),
                        unexpected_token_type: token.type_,
                        span: token.span,
                    },
                ),
            }
        } else {
            Step { value: Some(token), used: 1, errors }
        },
    }
}

/// The binary operators, grouped by precedence.
#[derive(Debug, Clone, Copy, PartialEq, Eq, Structural)]
pub enum Level {
    Or,
    And,
    Equality,
    Comparison,
    Term,
    Factor,
}

impl Level {
    /// The operators of this level.
    pub open spec fn operators(self) -> Seq<TokenType> {
        match self {
            Level::Or => seq![TokenType::Or],
            Level::And => seq![TokenType::And],
            Level::Equality => seq![TokenType::BangEqual, TokenType::EqualEqual],
            Level::Comparison => seq![
                TokenType::Greater,
                TokenType::GreaterEqual,
                TokenType::Less,
                TokenType::LessEqual,
            ],
            Level::Term => seq![TokenType::Minus, TokenType::Plus],
            Level::Factor => seq![TokenType::Slash, TokenType::Star],
        }
    }

    /// How loosely the operators of this level bind: 0 binds tightest.
    pub open spec fn looseness(self) -> nat {
        match self {
            Level::Or => 5,
            Level::And => 4,
            Level::Equality => 3,
            Level::Comparison => 2,
            Level::Term => 1,
            Level::Factor => 0,
        }
    }

    /// The level that binds next tighter. The operands of a factor are unary
    /// expressions.
    pub open spec fn tighter(self) -> Level {
        match self {
            Level::Or => Level::And,
            Level::And => Level::Equality,
            Level::Equality => Level::Comparison,
            Level::Comparison => Level::Term,
            Level::Term => Level::Factor,
            Level::Factor => Level::Factor,
        }
    }

    /// The expression that an operator of this level makes of its operands.
    pub open spec fn join(self, left: SpecExpression, right: SpecExpression, operator: Token) -> SpecExpression {
        match self {
            Level::Or | Level::And => SpecExpression::Logical {
                left: Box::new(left),
                right: Box::new(right),
                operator,
            },
            _ => SpecExpression::Binary { left: Box::new(left), right: Box::new(right), operator },
        }
    }
}

/// A `for` statement is rewritten while it is parsed: the increment goes
/// after the body, the condition makes a `while` of both, and the
/// initialiser goes ahead of the loop, inside a block of its own.
#[verifier::opaque]
pub open spec fn desugar_for(
    initialiser: Option<SpecDeclaration>,
    condition: SpecExpression,
    increment: Option<SpecExpression>,
    body: SpecStatement,
) -> SpecStatement {
    let stepped = match increment {
        Some(increment) => SpecStatement::Block(
            seq![
                SpecDeclaration::Statement(body),
                SpecDeclaration::Statement(SpecStatement::Expression(increment)),
            ],
        ),
        None => body,
    };
    let looped = SpecStatement::While { condition, body: Box::new(stepped) };
    match initialiser {
        Some(initialiser) => SpecStatement::Block(
            seq![initialiser, SpecDeclaration::Statement(looped)],
        ),
        None => looped,
    }
}

/// A `for` statement with all three clauses is its initialiser and a
/// `while` loop in a block, the loop's body being the statement's body and
/// its increment in a block. One with a condition alone is a `while` loop.
pub proof fn lemma_for_is_while(
    initialiser: SpecDeclaration,
    condition: SpecExpression,
    increment: SpecExpression,
    body: SpecStatement,
)
    ensures
        desugar_for(Some(initialiser), condition, Some(increment), body) == SpecStatement::Block(
            seq![
                initialiser,
                SpecDeclaration::Statement(
                    SpecStatement::While {
                        condition,
                        body: Box::new(
                            SpecStatement::Block(
                                seq![
                                    SpecDeclaration::Statement(body),
                                    SpecDeclaration::Statement(SpecStatement::Expression(increment)),
                                ],
                            ),
                        ),
                    },
                ),
            ],
        ),
        desugar_for(None, condition, None, body) == (SpecStatement::While {
            condition,
            body: Box::new(body),
        }),
{
    reveal(desugar_for);
}

/// The parameters of a function from offset `at` on, after those in `found`.
pub open spec fn parameters(
    tokens: Seq<Token>,
    at: int,
    errors: Seq<Error>,
    name: Token,
    found: Seq<Token>,
) -> Step<Seq<Token>>
    decreases left(tokens, at),
{
    if found.len() >= MAX_ARGUMENTS {
        Step {
            value: None,
            used: 0,
            errors: errors.push(Error::TooManyArguments { callee_span: name.span }),
        }
    } else {
        let parameter = expect(tokens, at, errors, TokenType::Identifier);
        match parameter.value {
            None => parameter.fail(0),
            Some(token) => if is_type(tokens, at + 1, TokenType::Comma) {
                parameters(tokens, at + 2, errors, name, found.push(token)).after(2)
            } else {
                Step { value: Some(found.push(token)), used: 1, errors }
            },
        }
    }
}

pub open spec fn declaration(tokens: Seq<Token>, at: int, errors: Seq<Error>) -> Step<
    SpecDeclaration,
>
    decreases left(tokens, at), 30nat,
{
    if is_type(tokens, at, TokenType::Fun) {
        function_declaration(tokens, at + 1, errors).after(1)
    } else if is_type(tokens, at, TokenType::Var) {
        variable_declaration(tokens, at + 1, errors).after(1)
    } else {
        let statement = statement(tokens, at, errors);
        match statement.value {
            Some(parsed) => statement.give(0, SpecDeclaration::Statement(parsed)),
            None => statement.fail(0),
        }
    }
}

/// A function declaration, after its `fun`.
pub open spec fn function_declaration(tokens: Seq<Token>, at: int, errors: Seq<Error>) -> Step<
    SpecDeclaration,
>
    decreases left(tokens, at), 20nat,
{
    let name = expect(tokens, at, errors, TokenType::Identifier);
    if name.value is None {
        name.fail(0)
    } else {
        let opening = expect(tokens, at + 1, name.errors, TokenType::LeftParen);
        if opening.value is None {
            opening.fail(1)
        } else {
            let list = if is_type(tokens, at + 2, TokenType::RightParen) {
                Step { value: Some(Seq::empty()), used: 0, errors: opening.errors }
            } else {
                parameters(tokens, at + 2, opening.errors, name.value->0, Seq::empty())
            };
            if list.value is None {
                list.fail(2)
            } else {
                let closing = expect(
                    tokens,
                    at + 2 + list.used,
                    list.errors,
                    TokenType::RightParen,
                );
                if closing.value is None {
                    closing.fail(2 + list.used)
                } else {
                    let brace = expect(
                        tokens,
                        at + 3 + list.used,
                        closing.errors,
                        TokenType::LeftBrace,
                    );
                    if brace.value is None {
                        brace.fail(3 + list.used)
                    } else {
                        let body = block(tokens, at + 4 + list.used, brace.errors);
                        match body.value {
                            None => body.fail(4 + list.used),
                            Some(declarations) => body.give(
                                4 + list.used,
                                SpecDeclaration::Function {
                                    name: name.value->0,
                                    parameters: list.value->0,
                                    body: declarations,
                                },
                            ),
                        }
                    }
                }
            }
        }
    }
}

/// A variable declaration, after its `var`.
pub open spec fn variable_declaration(tokens: Seq<Token>, at: int, errors: Seq<Error>) -> Step<
    SpecDeclaration,
>
    decreases left(tokens, at), 20nat,
{
    let name = expect(tokens, at, errors, TokenType::Identifier);
    if name.value is None {
        name.fail(0)
    } else if is_type(tokens, at + 1, TokenType::Equal) {
        let initialiser = expression(tokens, at + 2, errors);
        match initialiser.value {
            None => initialiser.fail(2),
            Some(parsed) => expect(
                tokens,
                at + 2 + initialiser.used,
                initialiser.errors,
                TokenType::Semicolon,
            ).give(
                2 + initialiser.used,
                SpecDeclaration::Variable { name: name.value->0, initialiser: Some(parsed) },
            ),
        }
    } else {
        expect(tokens, at + 1, errors, TokenType::Semicolon).give(
            1,
            SpecDeclaration::Variable { name: name.value->0, initialiser: None },
        )
    }
}

pub open spec fn statement(tokens: Seq<Token>, at: int, errors: Seq<Error>) -> Step<SpecStatement>
    decreases left(tokens, at), 29nat,
{
    if is_type(tokens, at, TokenType::If) {
        if_statement(tokens, at + 1, errors).after(1)
    } else if is_type(tokens, at, TokenType::While) {
        while_statement(tokens, at + 1, errors).after(1)
    } else if is_type(tokens, at, TokenType::For) {
        for_statement(tokens, at + 1, errors).after(1)
    } else if is_type(tokens, at, TokenType::Print) {
        print_statement(tokens, at + 1, errors).after(1)
    } else if is_type(tokens, at, TokenType::Return) {
        return_statement(tokens, at + 1, errors).after(1)
    } else if is_type(tokens, at, TokenType::LeftBrace) {
        let body = block(tokens, at + 1, errors);
        match body.value {
            None => body.fail(1),
            Some(declarations) => body.give(1, SpecStatement::Block(declarations)),
        }
    } else {
        expression_statement(tokens, at, errors)
    }
}

/// The first clause of a `for` statement: nothing but its `;`, a variable
/// declaration, or an expression statement.
pub open spec fn for_initialiser(tokens: Seq<Token>, at: int, errors: Seq<Error>) -> Step<
    Option<SpecDeclaration>,
>
    decreases left(tokens, at), 29nat,
{
    if is_type(tokens, at, TokenType::Semicolon) {
        Step { value: Some(None), used: 1, errors }
    } else if is_type(tokens, at, TokenType::Var) {
        let variable = variable_declaration(tokens, at + 1, errors);
        match variable.value {
            None => variable.fail(1),
            Some(parsed) => variable.give(1, Some(parsed)),
        }
    } else {
        let statement = expression_statement(tokens, at, errors);
        match statement.value {
            None => statement.fail(0),
            Some(parsed) => statement.give(0, Some(SpecDeclaration::Statement(parsed))),
        }
    }
}

/// A clause of a `for` statement with the token that ends it: nothing but
/// that token, or an expression and that token.
pub open spec fn for_part(tokens: Seq<Token>, at: int, errors: Seq<Error>, end: TokenType) -> Step<
    Option<SpecExpression>,
>
    decreases left(tokens, at), 29nat,
{
    if is_type(tokens, at, end) {
        Step { value: Some(None), used: 1, errors }
    } else {
        let clause = expression(tokens, at, errors);
        match clause.value {
            None => clause.fail(0),
            Some(parsed) => expect(tokens, at + clause.used, clause.errors, end).give(
                clause.used,
                Some(parsed),
            ),
        }
    }
}

/// The condition of a `for` statement that has none: `true`, at the place
/// of the `;` where the condition would end.
pub open spec fn always(semicolon: Token) -> SpecExpression {
    SpecExpression::Literal(LiteralExpression::Boolean(semicolon.span, true))
}

/// The last two clauses of a `for` statement: the condition with its `;`
/// and the increment with its `)`. A statement without a condition loops
/// for ever.
pub open spec fn for_clauses(tokens: Seq<Token>, at: int, errors: Seq<Error>) -> Step<
    (SpecExpression, Option<SpecExpression>),
>
    decreases left(tokens, at), 30nat,
{
    let condition = for_part(tokens, at, errors, TokenType::Semicolon);
    match condition.value {
        None => condition.fail(0),
        Some(first) => {
            let increment = for_part(
                tokens,
                at + condition.used,
                condition.errors,
                TokenType::RightParen,
            );
            match increment.value {
                None => increment.fail(condition.used),
                Some(second) => increment.give(
                    condition.used,
                    (
                        match first {
                            Some(parsed) => parsed,
                            None => always(tokens[at]),
                        },
                        second,
                    ),
                ),
            }
        },
    }
}

/// The three clauses of a `for` statement.
pub struct ForHeader {
    pub initialiser: Option<SpecDeclaration>,
    pub condition: SpecExpression,
    pub increment: Option<SpecExpression>,
}

/// The clauses of a `for` statement, in their parentheses.
pub open spec fn for_header(tokens: Seq<Token>, at: int, errors: Seq<Error>) -> Step<ForHeader>
    decreases left(tokens, at), 31nat,
{
    let opening = expect(tokens, at, errors, TokenType::LeftParen);
    if opening.value is None {
        opening.fail(0)
    } else {
        let initialiser = for_initialiser(tokens, at + 1, opening.errors);
        if initialiser.value is None {
            initialiser.fail(1)
        } else {
            let clauses = for_clauses(
                tokens,
                at + 1 + initialiser.used,
                initialiser.errors,
            );
            match clauses.value {
                None => clauses.fail(1 + initialiser.used),
                Some(pair) => clauses.give(
                    1 + initialiser.used,
                    ForHeader {
                        initialiser: initialiser.value->0,
                        condition: pair.0,
                        increment: pair.1,
                    },
                ),
            }
        }
    }
}

/// A `for` statement, after its `for`.
pub open spec fn for_statement(tokens: Seq<Token>, at: int, errors: Seq<Error>) -> Step<
    SpecStatement,
>
    decreases left(tokens, at), 35nat,
{
    let header = for_header(tokens, at, errors);
    match header.value {
        None => header.fail(0),
        Some(clauses) => {
            let body = statement(tokens, at + header.used, header.errors);
            match body.value {
                None => body.fail(header.used),
                Some(parsed) => body.give(
                    header.used,
                    desugar_for(
                        clauses.initialiser,
                        clauses.condition,
                        clauses.increment,
                        parsed,
                    ),
                ),
            }
        },
    }
}

/// The condition of an `if` or `while` statement, in its parentheses.
pub open spec fn condition(tokens: Seq<Token>, at: int, errors: Seq<Error>) -> Step<
    SpecExpression,
>
    decreases left(tokens, at), 28nat,
{
    let opening = expect(tokens, at, errors, TokenType::LeftParen);
    if opening.value is None {
        opening.fail(0)
    } else {
        let inner = expression(tokens, at + 1, opening.errors);
        match inner.value {
            None => inner.fail(1),
            Some(parsed) => expect(
                tokens,
                at + 1 + inner.used,
                inner.errors,
                TokenType::RightParen,
            ).give(1 + inner.used, parsed),
        }
    }
}

/// A `while` statement, after its `while`.
pub open spec fn while_statement(tokens: Seq<Token>, at: int, errors: Seq<Error>) -> Step<
    SpecStatement,
>
    decreases left(tokens, at), 35nat,
{
    let head = condition(tokens, at, errors);
    match head.value {
        None => head.fail(0),
        Some(condition) => {
            let body = statement(tokens, at + head.used, head.errors);
            match body.value {
                None => body.fail(head.used),
                Some(parsed) => body.give(
                    head.used,
                    SpecStatement::While { condition, body: Box::new(parsed) },
                ),
            }
        },
    }
}

/// An `if` statement, after its `if`.
pub open spec fn if_statement(tokens: Seq<Token>, at: int, errors: Seq<Error>) -> Step<
    SpecStatement,
>
    decreases left(tokens, at), 35nat,
{
    let head = condition(tokens, at, errors);
    match head.value {
        None => head.fail(0),
        Some(condition) => if_branches(tokens, at + head.used, head.errors, condition).after(
            head.used,
        ),
    }
}

/// The branches of an `if` statement with the given condition.
pub open spec fn if_branches(
    tokens: Seq<Token>,
    at: int,
    errors: Seq<Error>,
    condition: SpecExpression,
) -> Step<SpecStatement>
    decreases left(tokens, at), 30nat,
{
    let then_branch = statement(tokens, at, errors);
    match then_branch.value {
        None => then_branch.fail(0),
        Some(then_parsed) => if is_type(tokens, at + then_branch.used, TokenType::Else) {
            let else_branch = statement(tokens, at + then_branch.used + 1, then_branch.errors);
            match else_branch.value {
                None => else_branch.fail(then_branch.used + 1),
                Some(else_parsed) => else_branch.give(
                    then_branch.used + 1,
                    SpecStatement::If {
                        condition,
                        then_branch: Box::new(then_parsed),
                        else_branch: Some(Box::new(else_parsed)),
                    },
                ),
            }
        } else {
            then_branch.give(
                0,
                SpecStatement::If {
                    condition,
                    then_branch: Box::new(then_parsed),
                    else_branch: None,
                },
            )
        },
    }
}

/// A block, after its `{`.
pub open spec fn block(tokens: Seq<Token>, at: int, errors: Seq<Error>) -> Step<
    Seq<SpecDeclaration>,
>
    decreases left(tokens, at), 32nat,
{
    block_items(tokens, at, errors, Seq::empty())
}

/// The rest of a block from offset `at` on, after the declarations in
/// `found`. A declaration always uses a token, as `progress` shows: the
/// condition on it only serves to show that the definition is well founded.
#[verifier::opaque]
pub open spec fn block_items(
    tokens: Seq<Token>,
    at: int,
    errors: Seq<Error>,
    found: Seq<SpecDeclaration>,
) -> Step<Seq<SpecDeclaration>>
    decreases left(tokens, at), 31nat,
{
    if token_at(tokens, at) is Some && token_at(tokens, at)->0.type_ != TokenType::RightBrace {
        let item = declaration(tokens, at, errors);
        match item.value {
            None => item.fail(0),
            Some(parsed) => if item.used >= 1 {
                block_items(tokens, at + item.used, item.errors, found.push(parsed)).after(
                    item.used,
                )
            } else {
                item.fail(0)
            },
        }
    } else {
        expect(tokens, at, errors, TokenType::RightBrace).give(0, found)
    }
}

/// A block is its declarations from its start on.
pub proof fn lemma_block_starts(tokens: Seq<Token>, at: int, errors: Seq<Error>)
    ensures
        block(tokens, at, errors) == block_items(tokens, at, errors, Seq::empty()),
{
    reveal(block_items);
}

/// A block ends at its `}`, and fails where the tokens end before it.
pub proof fn lemma_block_ends(
    tokens: Seq<Token>,
    at: int,
    errors: Seq<Error>,
    found: Seq<SpecDeclaration>,
)
    requires
        !(token_at(tokens, at) is Some && token_at(tokens, at)->0.type_ != TokenType::RightBrace),
    ensures
        block_items(tokens, at, errors, found) == expect(
            tokens,
            at,
            errors,
            TokenType::RightBrace,
        ).give(0, found),
{
    reveal(block_items);
}

/// A block fails with the first of its declarations that fails, and goes
/// on after every other.
pub proof fn lemma_block_goes_on(
    tokens: Seq<Token>,
    at: int,
    errors: Seq<Error>,
    found: Seq<SpecDeclaration>,
)
    requires
        token_at(tokens, at) is Some,
        token_at(tokens, at)->0.type_ != TokenType::RightBrace,
    ensures
        ({
            let item = declaration(tokens, at, errors);
            block_items(tokens, at, errors, found) == (match item.value {
                None => item.fail::<Seq<SpecDeclaration>>(0),
                Some(parsed) => if item.used >= 1 {
                    block_items(tokens, at + item.used, item.errors, found.push(parsed)).after(
                        item.used,
                    )
                } else {
                    item.fail::<Seq<SpecDeclaration>>(0)
                },
            })
        }),
{
    reveal(block_items);
}

/// A `print` statement, after its `print`.
pub open spec fn print_statement(tokens: Seq<Token>, at: int, errors: Seq<Error>) -> Step<
    SpecStatement,
>
    decreases left(tokens, at), 28nat,
{
    let value = expression(tokens, at, errors);
    match value.value {
        None => value.fail(0),
        Some(parsed) => expect(tokens, at + value.used, value.errors, TokenType::Semicolon).give(
            value.used,
            SpecStatement::Print(parsed),
        ),
    }
}

/// A `return` statement, after its `return`.
pub open spec fn return_statement(tokens: Seq<Token>, at: int, errors: Seq<Error>) -> Step<
    SpecStatement,
>
    decreases left(tokens, at), 28nat,
{
    let value = expression(tokens, at, errors);
    match value.value {
        None => value.fail(0),
        Some(parsed) => expect(tokens, at + value.used, value.errors, TokenType::Semicolon).give(
            value.used,
            SpecStatement::Return { value: parsed },
        ),
    }
}

pub open spec fn expression_statement(tokens: Seq<Token>, at: int, errors: Seq<Error>) -> Step<
    SpecStatement,
>
    decreases left(tokens, at), 28nat,
{
    let value = expression(tokens, at, errors);
    match value.value {
        None => value.fail(0),
        Some(parsed) => expect(tokens, at + value.used, value.errors, TokenType::Semicolon).give(
            value.used,
            SpecStatement::Expression(parsed),
        ),
    }
}

pub open spec fn expression(tokens: Seq<Token>, at: int, errors: Seq<Error>) -> Step<
    SpecExpression,
>
    decreases left(tokens, at), 27nat,
{
    assignment(tokens, at, errors)
}

/// An assignment associates to the right. Its target must be a variable:
/// any other target is recorded as an error, and the target alone is
/// yielded.
pub open spec fn assignment(tokens: Seq<Token>, at: int, errors: Seq<Error>) -> Step<
    SpecExpression,
>
    decreases left(tokens, at), 26nat,
{
    let target = infix(tokens, at, errors, Level::Or);
    match target.value {
        None => target,
        Some(parsed) => if is_type(tokens, at + target.used, TokenType::Equal) {
            let value = assignment(tokens, at + target.used + 1, target.errors);
            match value.value {
                None => value.fail(target.used + 1),
                Some(assigned) => match parsed {
                    SpecExpression::Variable { name } => value.give(
                        target.used + 1,
                        SpecExpression::Assignment { name, value: Box::new(assigned) },
                    ),
                    _ => Step {
                        value: Some(parsed),
                        used: target.used + 1 + value.used,
                        errors: value.errors.push(
                            Error::InvalidAssignmentTarget { target_span: parsed.span() },
                        ),
                    },
                },
            }
        } else {
            target
        },
    }
}

/// An operand of an operator of the given level.
pub open spec fn operand(tokens: Seq<Token>, at: int, errors: Seq<Error>, level: Level) -> Step<
    SpecExpression,
>
    decreases left(tokens, at), 11 + 2 * level.looseness(),
{
    if level == Level::Factor {
        unary(tokens, at, errors)
    } else {
        infix(tokens, at, errors, level.tighter())
    }
}

/// Operands joined by operators of one level, which associate to the left.
pub open spec fn infix(tokens: Seq<Token>, at: int, errors: Seq<Error>, level: Level) -> Step<
    SpecExpression,
>
    decreases left(tokens, at), 12 + 2 * level.looseness(),
{
    let first = operand(tokens, at, errors, level);
    match first.value {
        None => first,
        Some(parsed) => infix_rest(tokens, at + first.used, first.errors, level, parsed).after(
            first.used,
        ),
    }
}

/// The operators and operands that follow the expression `left`.
pub open spec fn infix_rest(
    tokens: Seq<Token>,
    at: int,
    errors: Seq<Error>,
    level: Level,
    left: SpecExpression,
) -> Step<SpecExpression>
    decreases self::left(tokens, at), 11 + 2 * level.looseness(),
{
    if is_at(tokens, at, level.operators()) {
        let right = operand(tokens, at + 1, errors, level);
        match right.value {
            None => right.fail(1),
            Some(parsed) => infix_rest(
                tokens,
                at + 1 + right.used,
                right.errors,
                level,
                level.join(left, parsed, tokens[at]),
            ).after(1 + right.used),
        }
    } else {
        Step { value: Some(left), used: 0, errors }
    }
}

pub open spec fn unary(tokens: Seq<Token>, at: int, errors: Seq<Error>) -> Step<SpecExpression>
    decreases left(tokens, at), 10nat,
{
    if is_at(tokens, at, seq![TokenType::Bang, TokenType::Minus]) {
        let right = unary(tokens, at + 1, errors);
        match right.value {
            None => right.fail(1),
            Some(parsed) => right.give(
                1,
                SpecExpression::Unary { operator: tokens[at], right: Box::new(parsed) },
            ),
        }
    } else {
        call(tokens, at, errors)
    }
}

pub open spec fn call(tokens: Seq<Token>, at: int, errors: Seq<Error>) -> Step<SpecExpression>
    decreases left(tokens, at), 9nat,
{
    let callee = primary(tokens, at, errors);
    match callee.value {
        None => callee,
        Some(parsed) => call_rest(tokens, at + callee.used, callee.errors, parsed).after(
            callee.used,
        ),
    }
}

/// The argument lists that follow the expression `callee`.
pub open spec fn call_rest(
    tokens: Seq<Token>,
    at: int,
    errors: Seq<Error>,
    callee: SpecExpression,
) -> Step<SpecExpression>
    decreases left(tokens, at), 8nat,
{
    if is_type(tokens, at, TokenType::LeftParen) {
        let called = call_arguments(tokens, at + 1, errors, callee);
        match called.value {
            None => called.fail(1),
            Some(parsed) => call_rest(tokens, at + 1 + called.used, called.errors, parsed).after(
                1 + called.used,
            ),
        }
    } else {
        Step { value: Some(callee), used: 0, errors }
    }
}

/// The call of `callee` that its arguments make, after their `(`.
pub open spec fn call_arguments(
    tokens: Seq<Token>,
    at: int,
    errors: Seq<Error>,
    callee: SpecExpression,
) -> Step<SpecExpression>
    decreases left(tokens, at), 34nat,
{
    let list = if is_type(tokens, at, TokenType::RightParen) {
        Step { value: Some(Seq::empty()), used: 0, errors }
    } else {
        arguments(tokens, at, errors, callee, Seq::empty())
    };
    match list.value {
        None => list.fail(0),
        Some(parsed) => {
            let closing = expect(tokens, at + list.used, list.errors, TokenType::RightParen);
            match closing.value {
                None => closing.fail(list.used),
                Some(closing_paren) => closing.give(
                    list.used,
                    SpecExpression::Call {
                        callee: Box::new(callee),
                        closing_paren,
                        arguments: parsed,
                    },
                ),
            }
        },
    }
}

/// The arguments of a call from offset `at` on, after those in `found`.
/// One argument more than a call may have is an error.
pub open spec fn arguments(
    tokens: Seq<Token>,
    at: int,
    errors: Seq<Error>,
    callee: SpecExpression,
    found: Seq<SpecExpression>,
) -> Step<Seq<SpecExpression>>
    decreases left(tokens, at), 33nat,
{
    let argument = expression(tokens, at, errors);
    match argument.value {
        None => argument.fail(0),
        Some(parsed) => {
            let list = found.push(parsed);
            if list.len() > MAX_ARGUMENTS {
                Step {
                    value: None,
                    used: argument.used,
                    errors: argument.errors.push(
                        Error::TooManyArguments { callee_span: callee.span() },
                    ),
                }
            } else if is_type(tokens, at + argument.used, TokenType::Comma) {
                arguments(tokens, at + argument.used + 1, argument.errors, callee, list).after(
                    argument.used + 1,
                )
            } else {
                Step { value: Some(list), used: argument.used, errors: argument.errors }
            }
        },
    }
}

/// An expression in parentheses, after its `(`.
pub open spec fn grouping(tokens: Seq<Token>, at: int, errors: Seq<Error>) -> Step<SpecExpression>
    decreases left(tokens, at), 28nat,
{
    let inner = expression(tokens, at, errors);
    match inner.value {
        None => inner.fail(0),
        Some(parsed) => expect(tokens, at + inner.used, inner.errors, TokenType::RightParen).give(
            inner.used,
            SpecExpression::Grouping { expression: Box::new(parsed) },
        ),
    }
}

pub open spec fn primary(tokens: Seq<Token>, at: int, errors: Seq<Error>) -> Step<SpecExpression>
    decreases left(tokens, at), 7nat,
{
    if is_type(tokens, at, TokenType::False) {
        Step {
            value: Some(SpecExpression::Literal(LiteralExpression::Boolean(tokens[at].span, false))),
            used: 1,
            errors,
        }
    } else if is_type(tokens, at, TokenType::True) {
        Step {
            value: Some(SpecExpression::Literal(LiteralExpression::Boolean(tokens[at].span, true))),
            used: 1,
            errors,
        }
    } else if is_type(tokens, at, TokenType::Nil) {
        Step {
            value: Some(SpecExpression::Literal(LiteralExpression::Nil(tokens[at].span))),
            used: 1,
            errors,
        }
    } else if is_type(tokens, at, TokenType::Number) {
        Step {
            value: Some(SpecExpression::Literal(LiteralExpression::Number(tokens[at]))),
            used: 1,
            errors,
        }
    } else if is_type(tokens, at, TokenType::String_) {
        Step {
            value: Some(SpecExpression::Literal(LiteralExpression::String_(tokens[at]))),
            used: 1,
            errors,
        }
    } else if is_type(tokens, at, TokenType::Identifier) {
        Step { value: Some(SpecExpression::Variable { name: tokens[at] }), used: 1, errors }
    } else if is_type(tokens, at, TokenType::LeftParen) {
        grouping(tokens, at + 1, errors).after(1)
    } else {
        match token_at(tokens, at) {
            Some(token) => Step {
                value: None,
                used: 0,
                errors: errors.push(
                    Error::UnexpectedToken {
                        expected_token_type: None,
                        unexpected_token_type: token.type_,
                        span: token.span,
                    },
                ),
            },
            None => Step { value: None, used: 0, errors: errors.push(Error::UnexpectedEof) },
        }
    }
}

/// Whether a statement may start with a token of this type.
pub open spec fn starts_statement(type_: TokenType) -> bool {
    match type_ {
        TokenType::Class | TokenType::Fun | TokenType::Var | TokenType::For | TokenType::If | TokenType::While | TokenType::Print | TokenType::Return => true,
        _ => false,
    }
}

/// The first offset from `at` on that follows a `;` or holds a token that
/// may start a statement, or the end of the tokens.
pub open spec fn resume(tokens: Seq<Token>, at: int) -> int
    decreases left(tokens, at),
{
    if 1 <= at < tokens.len() && tokens[at - 1].type_ != TokenType::Semicolon && !starts_statement(
        tokens[at].type_,
    ) {
        resume(tokens, at + 1)
    } else {
        at
    }
}

/// Where parsing goes on after a declaration has failed at offset `at`: one
/// token is given up, and then all up to the next statement. At the end of
/// the tokens the cursor still moves on by one, as far as offsets go.
pub open spec fn synchronise(tokens: Seq<Token>, at: int) -> int {
    if 0 <= at < tokens.len() {
        resume(tokens, at + 1)
    } else if at < usize::MAX {
        at + 1
    } else {
        at
    }
}

/// Recovery never goes back, and gives up one token at least where there is one.
pub proof fn lemma_synchronise_advances(tokens: Seq<Token>, at: int)
    requires
        0 <= at <= tokens.len(),
    ensures
        at <= synchronise(tokens, at) <= tokens.len() + 1,
        at < tokens.len() ==> at < synchronise(tokens, at) <= tokens.len(),
{
    if at < tokens.len() {
        lemma_resume_advances(tokens, at + 1);
    }
}

proof fn lemma_resume_advances(tokens: Seq<Token>, at: int)
    requires
        0 <= at <= tokens.len(),
    ensures
        at <= resume(tokens, at) <= tokens.len(),
    decreases left(tokens, at),
{
    if 1 <= at < tokens.len() && tokens[at - 1].type_ != TokenType::Semicolon && !starts_statement(
        tokens[at].type_,
    ) {
        lemma_resume_advances(tokens, at + 1);
    }
}

/// What parsing a token stream yields.
pub struct Outcome {
    pub declarations: Seq<SpecDeclaration>,
    pub errors: Seq<Error>,
}

/// The declarations from offset `at` up to the end-of-file token, after
/// those in `found`. Where a declaration fails, parsing goes on at the next
/// statement. Both a declaration and the recovery from a failed one move
/// forward, as `progress` shows: the condition on it only serves to show
/// that the definition is well founded.
pub open spec fn program(
    tokens: Seq<Token>,
    at: int,
    errors: Seq<Error>,
    found: Seq<SpecDeclaration>,
) -> Outcome
    decreases left(tokens, at),
{
    if 0 <= at < tokens.len() && tokens[at].type_ != TokenType::Eof {
        let item = declaration(tokens, at, errors);
        let next = match item.value {
            None => synchronise(tokens, at + item.used),
            Some(_) => at + item.used,
        };
        let found = match item.value {
            None => found,
            Some(parsed) => found.push(parsed),
        };
        if at < next {
            program(tokens, next, item.errors, found)
        } else {
            Outcome { declarations: found, errors: item.errors }
        }
    } else {
        Outcome { declarations: found, errors }
    }
}

/// The declarations and errors of a whole token stream.
pub open spec fn parse(tokens: Seq<Token>) -> Outcome {
    program(tokens, 0, Seq::empty(), Seq::empty())
}

} // verus!
