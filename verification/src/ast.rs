//! The concrete syntax tree of a Lua chunk.
//!
//! Every node is a product of tokens and child nodes in the order in which
//! they stand in the source. Each type has a ghost twin, its view, in which
//! vectors are sequences; the contracts of the formatter speak of the views.

use vstd::prelude::*;
use crate::token::TokenReference;

verus! {

/// An expression.
#[derive(Debug, PartialEq, Eq)]
pub enum Expression {
    /// A numeric literal.
    Number(TokenReference),
    /// A string literal.
    String(TokenReference),
    /// `nil`, `true`, `false` or `...`.
    Symbol(TokenReference),
    /// A plain name.
    Name(TokenReference),
    /// An expression in parentheses.
    Parentheses { open: TokenReference, expression: Box<Expression>, close: TokenReference },
    /// A unary operator in front of its operand.
    UnaryOperator { operator: TokenReference, expression: Box<Expression> },
    /// A binary operator between its operands.
    BinaryOperator { lhs: Box<Expression>, operator: TokenReference, rhs: Box<Expression> },
    /// An anonymous function.
    Function { function_token: TokenReference, body: FunctionBody },
    /// A call of a function or a method.
    FunctionCall(FunctionCall),
    /// A name or expression with indexing behind it.
    Var(VarExpression),
    /// A table constructor.
    TableConstructor(TableConstructor),
}

/// One element of a separated list, with the separator behind it if there is one.
#[derive(Debug, PartialEq, Eq)]
pub struct Pair {
    pub value: Expression,
    pub separator: Option<TokenReference>,
}

/// A list of expressions separated by commas. Every element but the last has
/// a separator; the last may have one.
#[derive(Debug, PartialEq, Eq)]
pub struct Punctuated {
    pub pairs: Vec<Pair>,
}

/// What a call or an indexing starts with.
#[derive(Debug, PartialEq, Eq)]
pub enum Prefix {
    /// A name.
    Name(TokenReference),
    /// An expression in parentheses.
    Expression(Box<Expression>),
}

/// One step behind a prefix.
#[derive(Debug, PartialEq, Eq)]
pub enum Suffix {
    /// `.name`
    Dot { dot: TokenReference, name: TokenReference },
    /// `[expression]`
    Brackets { open: TokenReference, expression: Expression, close: TokenReference },
    /// A call with the given arguments.
    Call(FunctionArgs),
    /// `:name` and the arguments of the call.
    MethodCall { colon: TokenReference, name: TokenReference, args: FunctionArgs },
}

/// The arguments of a call, in one of the three forms Lua has for them.
#[derive(Debug, PartialEq, Eq)]
pub enum FunctionArgs {
    /// A list in parentheses.
    Parentheses { open: TokenReference, arguments: Punctuated, close: TokenReference },
    /// A single string literal.
    String(TokenReference),
    /// A single table constructor.
    TableConstructor(TableConstructor),
}

/// A prefix with at least one call among what follows it.
#[derive(Debug, PartialEq, Eq)]
pub struct FunctionCall {
    pub prefix: Prefix,
    pub suffixes: Vec<Suffix>,
}

/// A prefix with indexing behind it.
#[derive(Debug, PartialEq, Eq)]
pub struct VarExpression {
    pub prefix: Prefix,
    pub suffixes: Vec<Suffix>,
}

/// One field of a table constructor.
#[derive(Debug, PartialEq, Eq)]
pub enum Field {
    /// `[key] = value`
    ExpressionKey {
        open: TokenReference,
        key: Expression,
        close: TokenReference,
        equal: TokenReference,
        value: Expression,
    },
    /// `name = value`
    NameKey { name: TokenReference, equal: TokenReference, value: Expression },
    /// `value`
    NoKey(Expression),
}

/// A field with the separator behind it if there is one.
#[derive(Debug, PartialEq, Eq)]
pub struct FieldPair {
    pub field: Field,
    pub separator: Option<TokenReference>,
}

/// A table constructor.
#[derive(Debug, PartialEq, Eq)]
pub struct TableConstructor {
    pub open: TokenReference,
    pub fields: Vec<FieldPair>,
    pub close: TokenReference,
}

/// The parameters and the body of a function.
#[derive(Debug, PartialEq, Eq)]
pub struct FunctionBody {
    pub open: TokenReference,
    pub parameters: Punctuated,
    pub close: TokenReference,
    pub block: Block,
    pub end_token: TokenReference,
}

/// A statement with the semicolon behind it if there is one.
#[derive(Debug, PartialEq, Eq)]
pub struct BlockStmt {
    pub stmt: Stmt,
    pub semicolon: Option<TokenReference>,
}

/// The statement that ends a block, with the semicolon behind it if there is one.
#[derive(Debug, PartialEq, Eq)]
pub struct BlockLastStmt {
    pub stmt: LastStmt,
    pub semicolon: Option<TokenReference>,
}

/// A sequence of statements. A `return` or `break` can only be the last one.
#[derive(Debug, PartialEq, Eq)]
pub struct Block {
    pub stmts: Vec<BlockStmt>,
    pub last_stmt: Option<Box<BlockLastStmt>>,
}

/// A statement that ends a block.
#[derive(Debug, PartialEq, Eq)]
pub enum LastStmt {
    /// `break`
    Break(TokenReference),
    /// `return` and the values behind it.
    Return { token: TokenReference, values: Punctuated },
}

/// `targets = values`
#[derive(Debug, PartialEq, Eq)]
pub struct Assignment {
    pub var_list: Punctuated,
    pub equal_token: TokenReference,
    pub expr_list: Punctuated,
}

/// `do ... end`
#[derive(Debug, PartialEq, Eq)]
pub struct Do {
    pub do_token: TokenReference,
    pub block: Block,
    pub end_token: TokenReference,
}

/// `function name ... end`; the name is held token by token, dots and colon included.
#[derive(Debug, PartialEq, Eq)]
pub struct FunctionDeclaration {
    pub function_token: TokenReference,
    pub name: Vec<TokenReference>,
    pub body: FunctionBody,
}

/// `for names in values do ... end`
#[derive(Debug, PartialEq, Eq)]
pub struct GenericFor {
    pub for_token: TokenReference,
    pub names: Punctuated,
    pub in_token: TokenReference,
    pub expr_list: Punctuated,
    pub do_token: TokenReference,
    pub block: Block,
    pub end_token: TokenReference,
}

/// `elseif condition then ...`
#[derive(Debug, PartialEq, Eq)]
pub struct ElseIf {
    pub else_if_token: TokenReference,
    pub condition: Expression,
    pub then_token: TokenReference,
    pub block: Block,
}

/// The `else` branch of an `if`.
#[derive(Debug, PartialEq, Eq)]
pub struct Else {
    pub else_token: TokenReference,
    pub block: Block,
}

/// `if condition then ... end` with its `elseif` and `else` branches.
#[derive(Debug, PartialEq, Eq)]
pub struct If {
    pub if_token: TokenReference,
    pub condition: Expression,
    pub then_token: TokenReference,
    pub block: Block,
    pub else_if: Vec<ElseIf>,
    pub else_branch: Option<Else>,
    pub end_token: TokenReference,
}

/// `local names = values`, or `local names` alone.
#[derive(Debug, PartialEq, Eq)]
pub struct LocalAssignment {
    pub local_token: TokenReference,
    pub name_list: Punctuated,
    pub equal_token: Option<TokenReference>,
    pub expr_list: Punctuated,
}

/// `local function name ... end`
#[derive(Debug, PartialEq, Eq)]
pub struct LocalFunction {
    pub local_token: TokenReference,
    pub function_token: TokenReference,
    pub name: TokenReference,
    pub body: FunctionBody,
}

/// The step of a numeric `for`, with the comma in front of it.
#[derive(Debug, PartialEq, Eq)]
pub struct ForStep {
    pub comma: TokenReference,
    pub step: Expression,
}

/// `for index = start, end, step do ... end`
#[derive(Debug, PartialEq, Eq)]
pub struct NumericFor {
    pub for_token: TokenReference,
    pub index_variable: TokenReference,
    pub equal_token: TokenReference,
    pub start: Expression,
    pub start_end_comma: TokenReference,
    pub end: Expression,
    pub step: Option<ForStep>,
    pub do_token: TokenReference,
    pub block: Block,
    pub end_token: TokenReference,
}

/// `repeat ... until condition`
#[derive(Debug, PartialEq, Eq)]
pub struct Repeat {
    pub repeat_token: TokenReference,
    pub block: Block,
    pub until_token: TokenReference,
    pub until: Expression,
}

/// `while condition do ... end`
#[derive(Debug, PartialEq, Eq)]
pub struct While {
    pub while_token: TokenReference,
    pub condition: Expression,
    pub do_token: TokenReference,
    pub block: Block,
    pub end_token: TokenReference,
}

/// A statement.
#[derive(Debug, PartialEq, Eq)]
pub enum Stmt {
    Assignment(Assignment),
    Do(Do),
    FunctionCall(FunctionCall),
    FunctionDeclaration(FunctionDeclaration),
    GenericFor(GenericFor),
    If(If),
    LocalAssignment(LocalAssignment),
    LocalFunction(LocalFunction),
    NumericFor(NumericFor),
    Repeat(Repeat),
    While(While),
}

/// A whole chunk: its statements and the token that ends the file.
#[derive(Debug, PartialEq, Eq)]
pub struct Ast {
    pub block: Block,
    pub eof: TokenReference,
}

} // verus!
