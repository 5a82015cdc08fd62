//! The expression tree.
//!
//! Executable trees share their children through `Rc` and hold argument
//! lists in `Vec`. Contracts speak of their views, which are plain
//! mathematical trees.

use crate::lexer::Token;
use crate::span::Span;
use crate::text::{lexeme, lexeme_of};
use std::rc::Rc;
use vstd::prelude::*;
use vstd::string::StringExecFns;

verus! {

#[derive(Debug)]
pub enum Expression {
    Assignment(AssignmentExpression),
    Binary(BinaryExpression),
    Call(CallExpression),
    Get(GetExpression),
    Grouping(GroupingExpression),
    Literal(LiteralExpression),
    Logical(LogicalExpression),
    Set_(SetExpression),
    Super(SuperExpression),
    This(ThisExpression),
    Unary(UnaryExpression),
    Variable(VariableExpression),
}

#[derive(Debug)]
pub struct AssignmentExpression {
    pub name: Token,
    pub value: Rc<Expression>,
}

#[derive(Debug)]
pub struct BinaryExpression {
    pub left: Rc<Expression>,
    pub right: Rc<Expression>,
    pub operator: Token,
}

#[derive(Debug)]
pub struct CallExpression {
    pub callee: Rc<Expression>,
    pub closing_paren: Token,
    pub arguments: Vec<Rc<Expression>>,
}

#[derive(Debug)]
pub struct GetExpression {
    pub object: Rc<Expression>,
    pub name: Token,
}

#[derive(Debug)]
pub struct GroupingExpression {
    pub expression: Rc<Expression>,
}

#[derive(Debug, Clone, Copy, PartialEq, Eq, Structural)]
pub enum LiteralExpression {
    String_(Token),
    Number(Token),
    Boolean(Span, bool),
    Nil(Span),
}

#[derive(Debug)]
pub struct LogicalExpression {
    pub left: Rc<Expression>,
    pub right: Rc<Expression>,
    pub operator: Token,
}

#[derive(Debug)]
pub struct SetExpression {
    pub object: Rc<Expression>,
    pub name: Token,
    pub value: Rc<Expression>,
}

#[derive(Debug)]
pub struct SuperExpression {
    pub keyword: Token,
    pub method: Token,
}

#[derive(Debug)]
pub struct ThisExpression {
    pub keyword: Token,
}

#[derive(Debug)]
pub struct UnaryExpression {
    pub operator: Token,
    pub right: Rc<Expression>,
}

#[derive(Debug)]
pub struct VariableExpression {
    pub name: Token,
}

/// An expression as a mathematical tree: the view of an `Expression`.
pub enum SpecExpression {
    Assignment { name: Token, value: Box<SpecExpression> },
    Binary { left: Box<SpecExpression>, right: Box<SpecExpression>, operator: Token },
    Call { callee: Box<SpecExpression>, closing_paren: Token, arguments: Seq<SpecExpression> },
    Get { object: Box<SpecExpression>, name: Token },
    Grouping { expression: Box<SpecExpression> },
    Literal(LiteralExpression),
    Logical { left: Box<SpecExpression>, right: Box<SpecExpression>, operator: Token },
    Set_ { object: Box<SpecExpression>, name: Token, value: Box<SpecExpression> },
    Super { keyword: Token, method: Token },
    This { keyword: Token },
    Unary { operator: Token, right: Box<SpecExpression> },
    Variable { name: Token },
}

impl LiteralExpression {
    /// The span of the token that the literal was read from.
    pub open spec fn spec_span(self) -> Span {
        match self {
            LiteralExpression::String_(token) => token.span,
            LiteralExpression::Number(token) => token.span,
            LiteralExpression::Boolean(span, _) => span,
            LiteralExpression::Nil(span) => span,
        }
    }

    /// A literal written out: a string or a number as the source has it.
    pub open spec fn pretty(self, source: &str) -> Seq<char> {
        match self {
            LiteralExpression::String_(token) => lexeme(source, token.span),
            LiteralExpression::Number(token) => lexeme(source, token.span),
            LiteralExpression::Boolean(_, value) => if value {
                "true"@
            } else {
                "false"@
            },
            LiteralExpression::Nil(_) => "nil"@,
        }
    }

    pub fn prettify(&self, source: &str) -> (text: String)
        ensures
            text@ == self.pretty(source),
    {
        match self {
            LiteralExpression::String_(token) => lexeme_of(source, token.span).to_owned(),
            LiteralExpression::Number(token) => lexeme_of(source, token.span).to_owned(),
            LiteralExpression::Boolean(_, boolean) => {
                if *boolean {
                    "true".to_owned()
                } else {
                    "false".to_owned()
                }
            },
            LiteralExpression::Nil(_) => "nil".to_owned(),
        }
    }

    pub fn span(&self) -> (span: Span)
        ensures
            span == self.spec_span(),
    {
        match self {
            LiteralExpression::String_(token) => token.span,
            LiteralExpression::Number(token) => token.span,
            LiteralExpression::Boolean(span, _) => *span,
            LiteralExpression::Nil(span) => *span,
        }
    }
}

impl SpecExpression {
    /// The span that covers the spans of all the tokens that the expression
    /// holds, its own and those of its operands. The arguments of a call lie
    /// between its callee and its closing parenthesis.
    pub open spec fn span(self) -> Span
        decreases self,
    {
        match self {
            SpecExpression::Assignment { name, value } => name.span.cover(value.span()),
            SpecExpression::Binary { left, right, operator } => left.span().cover(
                operator.span,
            ).cover(right.span()),
            SpecExpression::Call { callee, closing_paren, arguments } => callee.span().cover(
                closing_paren.span,
            ),
            SpecExpression::Get { object, name } => object.span().cover(name.span),
            SpecExpression::Grouping { expression } => expression.span(),
            SpecExpression::Literal(literal) => literal.spec_span(),
            SpecExpression::Logical { left, right, operator } => left.span().cover(
                operator.span,
            ).cover(right.span()),
            SpecExpression::Set_ { object, name, value } => object.span().cover(name.span).cover(
                value.span(),
            ),
            SpecExpression::Super { keyword, method } => keyword.span.cover(method.span),
            SpecExpression::This { keyword } => keyword.span,
            SpecExpression::Unary { operator, right } => operator.span.cover(right.span()),
            SpecExpression::Variable { name } => name.span,
        }
    }
}

impl SpecExpression {
    /// The expression in prefix form, every operator in parentheses with
    /// its operands: `(+ 1 (* 2 3))`. Only literals, groupings and unary
    /// and binary operators have such a form: anything else is left out.
    pub open spec fn pretty(self, source: &str) -> Seq<char>
        decreases self,
    {
        match self {
            SpecExpression::Binary { left, right, operator } => "("@ + lexeme(
                source,
                operator.span,
            ) + " "@ + left.pretty(source) + " "@ + right.pretty(source) + ")"@,
            SpecExpression::Unary { operator, right } => "("@ + lexeme(source, operator.span) + " "@
                + right.pretty(source) + ")"@,
            SpecExpression::Grouping { expression } => "(group "@ + expression.pretty(source) + ")"@,
            SpecExpression::Literal(literal) => literal.pretty(source),
            _ => Seq::empty(),
        }
    }
}

impl Expression {
    /// Writes the expression out in prefix form.
    pub fn prettify(&self, source: &str) -> (text: String)
        ensures
            text@ == self@.pretty(source),
        decreases self,
    {
        match self {
            Expression::Binary(binary_expression) => {
                let left = binary_expression.left.prettify(source);
                let right = binary_expression.right.prettify(source);
                "(".to_owned().concat(lexeme_of(source, binary_expression.operator.span)).concat(
                    " ",
                ).concat(left.as_str()).concat(" ").concat(right.as_str()).concat(")")
            },
            Expression::Grouping(group) => {
                let inner = group.expression.prettify(source);
                "(group ".to_owned().concat(inner.as_str()).concat(")")
            },
            Expression::Literal(literal) => literal.prettify(source),
            Expression::Unary(unary_expression) => {
                let right = unary_expression.right.prettify(source);
                "(".to_owned().concat(lexeme_of(source, unary_expression.operator.span)).concat(
                    " ",
                ).concat(right.as_str()).concat(")")
            },
            _ => String::new(),
        }
    }

    /// The mathematical tree that this expression stands for.
    pub open spec fn tree(self) -> SpecExpression
        decreases self,
    {
        match self {
            Expression::Assignment(AssignmentExpression { name, value }) => {
                SpecExpression::Assignment { name, value: Box::new((*value).tree()) }
            },
            Expression::Binary(BinaryExpression { left, right, operator }) => {
                SpecExpression::Binary {
                    left: Box::new((*left).tree()),
                    right: Box::new((*right).tree()),
                    operator,
                }
            },
            Expression::Call(CallExpression { callee, closing_paren, arguments }) => {
                SpecExpression::Call {
                    callee: Box::new((*callee).tree()),
                    closing_paren,
                    arguments: Seq::new(
                        arguments@.len(),
                        |i: int|
                            if 0 <= i < arguments@.len() {
                                (*arguments@[i]).tree()
                            } else {
                                SpecExpression::This { keyword: closing_paren }
                            },
                    ),
                }
            },
            Expression::Get(GetExpression { object, name }) => {
                SpecExpression::Get { object: Box::new((*object).tree()), name }
            },
            Expression::Grouping(GroupingExpression { expression }) => {
                SpecExpression::Grouping { expression: Box::new((*expression).tree()) }
            },
            Expression::Literal(literal) => SpecExpression::Literal(literal),
            Expression::Logical(LogicalExpression { left, right, operator }) => {
                SpecExpression::Logical {
                    left: Box::new((*left).tree()),
                    right: Box::new((*right).tree()),
                    operator,
                }
            },
            Expression::Set_(SetExpression { object, name, value }) => {
                SpecExpression::Set_ {
                    object: Box::new((*object).tree()),
                    name,
                    value: Box::new((*value).tree()),
                }
            },
            Expression::Super(SuperExpression { keyword, method }) => {
                SpecExpression::Super { keyword, method }
            },
            Expression::This(ThisExpression { keyword }) => SpecExpression::This { keyword },
            Expression::Unary(UnaryExpression { operator, right }) => {
                SpecExpression::Unary { operator, right: Box::new((*right).tree()) }
            },
            Expression::Variable(VariableExpression { name }) => SpecExpression::Variable { name },
        }
    }

    pub fn span(&self) -> (span: Span)
        ensures
            span == self@.span(),
        decreases self,
    {
        match self {
            Expression::Assignment(AssignmentExpression { name, value }) => name.span.combine(
                value.span(),
            ),
            Expression::Binary(BinaryExpression { left, right, operator }) => left.span().combine(
                operator.span,
            ).combine(right.span()),
            Expression::Call(CallExpression { callee, closing_paren, arguments: _ }) => {
                callee.span().combine(closing_paren.span)
            },
            Expression::Get(GetExpression { object, name }) => object.span().combine(name.span),
            Expression::Grouping(GroupingExpression { expression }) => expression.span(),
            Expression::Literal(literal_expression) => literal_expression.span(),
            Expression::Logical(LogicalExpression { left, right, operator }) => {
                left.span().combine(operator.span).combine(right.span())
            },
            Expression::Set_(SetExpression { object, name, value }) => object.span().combine(
                name.span,
            ).combine(value.span()),
            Expression::Super(SuperExpression { keyword, method }) => keyword.span.combine(
                method.span,
            ),
            Expression::This(ThisExpression { keyword }) => keyword.span,
            Expression::Unary(UnaryExpression { operator, right }) => operator.span.combine(
                right.span(),
            ),
            Expression::Variable(VariableExpression { name }) => name.span,
        }
    }
}

impl View for Expression {
    type V = SpecExpression;

    open spec fn view(&self) -> SpecExpression {
        self.tree()
    }
}

/// The trees that a list of expressions stands for.
pub open spec fn trees(expressions: Seq<Rc<Expression>>) -> Seq<SpecExpression> {
    Seq::new(expressions.len(), |i: int| (*expressions[i]).tree())
}

/// The trees of a list with one more expression.
pub proof fn lemma_trees_push(expressions: Seq<Rc<Expression>>, expression: Rc<Expression>)
    ensures
        trees(expressions.push(expression)) == trees(expressions).push(expression@),
{
    assert(trees(expressions.push(expression)) =~= trees(expressions).push(expression@));
}

/// The tree of a call is made of the trees of its arguments.
pub proof fn lemma_call_tree(call: CallExpression)
    ensures
        Expression::Call(call).tree() == (SpecExpression::Call {
            callee: Box::new((*call.callee).tree()),
            closing_paren: call.closing_paren,
            arguments: trees(call.arguments@),
        }),
{
    assert(Expression::Call(call).tree()->Call_arguments =~= trees(call.arguments@));
}

impl BinaryExpression {
    pub fn new(left: Rc<Expression>, right: Rc<Expression>, operator: Token) -> (binary: Self)
        ensures
            binary.left == left,
            binary.right == right,
            binary.operator == operator,
    {
        Self { left, right, operator }
    }
}

impl UnaryExpression {
    pub fn new(operator: Token, right: Rc<Expression>) -> (unary: Self)
        ensures
            unary.operator == operator,
            unary.right == right,
    {
        Self { operator, right }
    }
}

pub fn binary_expression(left: Rc<Expression>, right: Rc<Expression>, operator: Token) -> (expression:
    Rc<Expression>)
    ensures
        expression@ == (SpecExpression::Binary {
            left: Box::new(left@),
            right: Box::new(right@),
            operator,
        }),
{
    Rc::new(Expression::Binary(BinaryExpression::new(left, right, operator)))
}

pub fn logical_expression(left: Rc<Expression>, right: Rc<Expression>, operator: Token) -> (expression:
    Rc<Expression>)
    ensures
        expression@ == (SpecExpression::Logical {
            left: Box::new(left@),
            right: Box::new(right@),
            operator,
        }),
{
    Rc::new(Expression::Logical(LogicalExpression { left, right, operator }))
}

pub fn unary_expression(operator: Token, right: Rc<Expression>) -> (expression: Rc<Expression>)
    ensures
        expression@ == (SpecExpression::Unary { operator, right: Box::new(right@) }),
{
    Rc::new(Expression::Unary(UnaryExpression::new(operator, right)))
}

pub fn number_literal_expression(value: Token) -> (expression: Rc<Expression>)
    ensures
        expression@ == SpecExpression::Literal(LiteralExpression::Number(value)),
{
    Rc::new(Expression::Literal(LiteralExpression::Number(value)))
}

pub fn string_literal_expression(value: Token) -> (expression: Rc<Expression>)
    ensures
        expression@ == SpecExpression::Literal(LiteralExpression::String_(value)),
{
    Rc::new(Expression::Literal(LiteralExpression::String_(value)))
}

pub fn boolean_literal_expression(span: Span, value: bool) -> (expression: Rc<Expression>)
    ensures
        expression@ == SpecExpression::Literal(LiteralExpression::Boolean(span, value)),
{
    Rc::new(Expression::Literal(LiteralExpression::Boolean(span, value)))
}

pub fn nil_literal(span: Span) -> (expression: Rc<Expression>)
    ensures
        expression@ == SpecExpression::Literal(LiteralExpression::Nil(span)),
{
    Rc::new(Expression::Literal(LiteralExpression::Nil(span)))
}

pub fn grouping_expression(expression: Rc<Expression>) -> (grouping: Rc<Expression>)
    ensures
        grouping@ == (SpecExpression::Grouping { expression: Box::new(expression@) }),
{
    Rc::new(Expression::Grouping(GroupingExpression { expression }))
}

} // verus!
