//! Statements and declarations.

use crate::expression::{Expression, SpecExpression};
use crate::lexer::Token;
use std::rc::Rc;
use vstd::prelude::*;

verus! {

#[derive(Debug)]
pub enum Declaration {
    Function { name: Token, parameters: Vec<Token>, body: Rc<Vec<Declaration>> },
    Variable { name: Token, initialiser: Option<Rc<Expression>> },
    Statement(Statement),
}

#[derive(Debug)]
pub enum Statement {
    Print(Rc<Expression>),
    Expression(Rc<Expression>),
    Block(Rc<Vec<Declaration>>),
    If { condition: Rc<Expression>, then_branch: Box<Statement>, else_branch: Option<Box<Statement>> },
    While { condition: Rc<Expression>, body: Box<Statement> },
    Return { value: Rc<Expression> },
}

/// A declaration as a mathematical tree: the view of a `Declaration`.
pub enum SpecDeclaration {
    Function { name: Token, parameters: Seq<Token>, body: Seq<SpecDeclaration> },
    Variable { name: Token, initialiser: Option<SpecExpression> },
    Statement(SpecStatement),
}

/// A statement as a mathematical tree: the view of a `Statement`.
pub enum SpecStatement {
    Print(SpecExpression),
    Expression(SpecExpression),
    Block(Seq<SpecDeclaration>),
    If {
        condition: SpecExpression,
        then_branch: Box<SpecStatement>,
        else_branch: Option<Box<SpecStatement>>,
    },
    While { condition: SpecExpression, body: Box<SpecStatement> },
    Return { value: SpecExpression },
}

impl Declaration {
    /// The mathematical tree that this declaration stands for.
    pub open spec fn tree(self) -> SpecDeclaration
        decreases self,
    {
        match self {
            Declaration::Function { name, parameters, body } => SpecDeclaration::Function {
                name,
                parameters: parameters@,
                body: Seq::new(
                    (*body)@.len(),
                    |i: int|
                        if 0 <= i < (*body)@.len() {
                            (*body)@[i].tree()
                        } else {
                            SpecDeclaration::Variable { name, initialiser: None }
                        },
                ),
            },
            Declaration::Variable { name, initialiser } => SpecDeclaration::Variable {
                name,
                initialiser: match initialiser {
                    Some(expression) => Some((*expression).tree()),
                    None => None,
                },
            },
            Declaration::Statement(statement) => SpecDeclaration::Statement(statement.tree()),
        }
    }
}

impl Statement {
    /// The mathematical tree that this statement stands for.
    pub open spec fn tree(self) -> SpecStatement
        decreases self,
    {
        match self {
            Statement::Print(expression) => SpecStatement::Print((*expression).tree()),
            Statement::Expression(expression) => SpecStatement::Expression((*expression).tree()),
            Statement::Block(declarations) => SpecStatement::Block(
                Seq::new(
                    (*declarations)@.len(),
                    |i: int|
                        if 0 <= i < (*declarations)@.len() {
                            (*declarations)@[i].tree()
                        } else {
                            SpecDeclaration::Statement(SpecStatement::Block(Seq::empty()))
                        },
                ),
            ),
            Statement::If { condition, then_branch, else_branch } => SpecStatement::If {
                condition: (*condition).tree(),
                then_branch: Box::new((*then_branch).tree()),
                else_branch: match else_branch {
                    Some(statement) => Some(Box::new((*statement).tree())),
                    None => None,
                },
            },
            Statement::While { condition, body } => SpecStatement::While {
                condition: (*condition).tree(),
                body: Box::new((*body).tree()),
            },
            Statement::Return { value } => SpecStatement::Return { value: (*value).tree() },
        }
    }
}

impl View for Declaration {
    type V = SpecDeclaration;

    open spec fn view(&self) -> SpecDeclaration {
        self.tree()
    }
}

impl View for Statement {
    type V = SpecStatement;

    open spec fn view(&self) -> SpecStatement {
        self.tree()
    }
}

/// The trees that a list of declarations stands for.
pub open spec fn trees(declarations: Seq<Declaration>) -> Seq<SpecDeclaration> {
    Seq::new(declarations.len(), |i: int| declarations[i].tree())
}

/// The trees of a list with one more declaration.
pub proof fn lemma_trees_push(declarations: Seq<Declaration>, declaration: Declaration)
    ensures
        trees(declarations.push(declaration)) == trees(declarations).push(declaration@),
{
    assert(trees(declarations.push(declaration)) =~= trees(declarations).push(declaration@));
}

/// The tree of a block is the block of the trees of its declarations.
pub proof fn lemma_block_tree(declarations: Rc<Vec<Declaration>>)
    ensures
        Statement::Block(declarations).tree() == SpecStatement::Block(trees((*declarations)@)),
{
    assert(Statement::Block(declarations).tree()->Block_0 =~= trees((*declarations)@));
}

/// The tree of a function is made of the trees of its body.
pub proof fn lemma_function_tree(name: Token, parameters: Vec<Token>, body: Rc<Vec<Declaration>>)
    ensures
        (Declaration::Function { name, parameters, body }).tree() == (SpecDeclaration::Function {
            name,
            parameters: parameters@,
            body: trees((*body)@),
        }),
{
    assert((Declaration::Function { name, parameters, body }).tree()->Function_body =~= trees(
        (*body)@,
    ));
}

} // verus!
