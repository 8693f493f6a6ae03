use full_moon::node::Node;
use stylua::ast::{
    Assignment, Ast, Block, BlockLastStmt, BlockStmt, Do, Else, ElseIf, Expression, Field,
    FieldPair, ForStep, FunctionArgs, FunctionBody, FunctionCall, FunctionDeclaration, GenericFor,
    If, LastStmt, LocalAssignment, LocalFunction, NumericFor, Pair, Prefix, Punctuated, Repeat,
    Stmt, Suffix, TableConstructor, VarExpression, While,
};
use stylua::output::format_text;
use stylua::config::{Config, QuoteStyle};
use stylua::token::{Token, TokenKind, TokenReference};

fn token_kind(token: &full_moon::tokenizer::Token) -> TokenKind {
    match token.token_kind() {
        full_moon::tokenizer::TokenKind::Eof => TokenKind::Eof,
        full_moon::tokenizer::TokenKind::Identifier => TokenKind::Identifier,
        full_moon::tokenizer::TokenKind::MultiLineComment => TokenKind::MultiLineComment,
        full_moon::tokenizer::TokenKind::Number => TokenKind::Number,
        full_moon::tokenizer::TokenKind::Shebang => TokenKind::SingleLineComment,
        full_moon::tokenizer::TokenKind::SingleLineComment => TokenKind::SingleLineComment,
        full_moon::tokenizer::TokenKind::StringLiteral => TokenKind::StringLiteral,
        full_moon::tokenizer::TokenKind::Symbol => TokenKind::Symbol,
        full_moon::tokenizer::TokenKind::Whitespace => TokenKind::Whitespace,
        _ => panic!("the syntax of a dialect that is not supported"),
    }
}

fn token(token: &full_moon::tokenizer::Token) -> Token {
    Token {
        kind: token_kind(token),
        text: token.to_string().into_bytes(),
        start: token.start_position().bytes(),
        end: token.end_position().bytes(),
    }
}

fn reference(token_reference: &full_moon::tokenizer::TokenReference) -> TokenReference {
    TokenReference {
        leading_trivia: token_reference.leading_trivia().map(token).collect(),
        token: token(token_reference.token()),
        trailing_trivia: token_reference.trailing_trivia().map(token).collect(),
    }
}

fn operator<'a, N: Node<'a>>(node: &N) -> TokenReference {
    reference(node.tokens().next().expect("an operator is a token"))
}

fn expression(e: &full_moon::ast::Expression) -> Expression {
    match e {
        full_moon::ast::Expression::BinaryOperator { lhs, binop, rhs } => {
            Expression::BinaryOperator {
                lhs: Box::new(expression(lhs)),
                operator: operator(binop),
                rhs: Box::new(expression(rhs)),
            }
        }
        full_moon::ast::Expression::Parentheses {
            contained,
            expression: inner,
        } => {
            let (open, close) = contained.tokens();
            Expression::Parentheses {
                open: reference(open),
                expression: Box::new(expression(inner)),
                close: reference(close),
            }
        }
        full_moon::ast::Expression::UnaryOperator {
            unop,
            expression: inner,
        } => Expression::UnaryOperator {
            operator: operator(unop),
            expression: Box::new(expression(inner)),
        },
        full_moon::ast::Expression::Value { value: inner, .. } => value(inner),
        _ => panic!("the syntax of a dialect that is not supported"),
    }
}

fn value(v: &full_moon::ast::Value) -> Expression {
    match v {
        full_moon::ast::Value::Function((function_token, body)) => Expression::Function {
            function_token: reference(function_token),
            body: function_body(body),
        },
        full_moon::ast::Value::FunctionCall(call) => Expression::FunctionCall(function_call(call)),
        full_moon::ast::Value::TableConstructor(table) => {
            Expression::TableConstructor(table_constructor(table))
        }
        full_moon::ast::Value::Number(t) => Expression::Number(reference(t)),
        full_moon::ast::Value::ParenthesesExpression(e) => expression(e),
        full_moon::ast::Value::String(t) => Expression::String(reference(t)),
        full_moon::ast::Value::Symbol(t) => Expression::Symbol(reference(t)),
        full_moon::ast::Value::Var(v) => var(v),
        _ => panic!("the syntax of a dialect that is not supported"),
    }
}

fn var(v: &full_moon::ast::Var) -> Expression {
    match v {
        full_moon::ast::Var::Name(t) => Expression::Name(reference(t)),
        full_moon::ast::Var::Expression(e) => Expression::Var(VarExpression {
            prefix: prefix(e.prefix()),
            suffixes: e.suffixes().map(suffix).collect(),
        }),
        _ => panic!("the syntax of a dialect that is not supported"),
    }
}

fn prefix(p: &full_moon::ast::Prefix) -> Prefix {
    match p {
        full_moon::ast::Prefix::Name(t) => Prefix::Name(reference(t)),
        full_moon::ast::Prefix::Expression(e) => Prefix::Expression(Box::new(expression(e))),
        _ => panic!("the syntax of a dialect that is not supported"),
    }
}

fn suffix(s: &full_moon::ast::Suffix) -> Suffix {
    match s {
        full_moon::ast::Suffix::Call(full_moon::ast::Call::AnonymousCall(args)) => {
            Suffix::Call(function_args(args))
        }
        full_moon::ast::Suffix::Call(full_moon::ast::Call::MethodCall(call)) => {
            Suffix::MethodCall {
                colon: reference(call.colon_token()),
                name: reference(call.name()),
                args: function_args(call.args()),
            }
        }
        full_moon::ast::Suffix::Index(full_moon::ast::Index::Brackets {
            brackets,
            expression: inner,
        }) => {
            let (open, close) = brackets.tokens();
            Suffix::Brackets {
                open: reference(open),
                expression: expression(inner),
                close: reference(close),
            }
        }
        full_moon::ast::Suffix::Index(full_moon::ast::Index::Dot { dot, name }) => Suffix::Dot {
            dot: reference(dot),
            name: reference(name),
        },
        _ => panic!("the syntax of a dialect that is not supported"),
    }
}

fn function_call(call: &full_moon::ast::FunctionCall) -> FunctionCall {
    FunctionCall {
        prefix: prefix(call.prefix()),
        suffixes: call.suffixes().map(suffix).collect(),
    }
}

fn function_args(args: &full_moon::ast::FunctionArgs) -> FunctionArgs {
    match args {
        full_moon::ast::FunctionArgs::Parentheses {
            parentheses,
            arguments,
        } => {
            let (open, close) = parentheses.tokens();
            FunctionArgs::Parentheses {
                open: reference(open),
                arguments: punctuated(arguments, expression),
                close: reference(close),
            }
        }
        full_moon::ast::FunctionArgs::String(t) => FunctionArgs::String(reference(t)),
        full_moon::ast::FunctionArgs::TableConstructor(table) => {
            FunctionArgs::TableConstructor(table_constructor(table))
        }
        _ => panic!("the syntax of a dialect that is not supported"),
    }
}

fn punctuated<T>(
    list: &full_moon::ast::punctuated::Punctuated<T>,
    convert: fn(&T) -> Expression,
) -> Punctuated {
    Punctuated {
        pairs: list
            .pairs()
            .map(|pair| Pair {
                value: convert(pair.value()),
                separator: pair.punctuation().map(reference),
            })
            .collect(),
    }
}

fn name(t: &full_moon::tokenizer::TokenReference) -> Expression {
    Expression::Name(reference(t))
}

fn parameter(p: &full_moon::ast::Parameter) -> Expression {
    match p {
        full_moon::ast::Parameter::Ellipse(t) => Expression::Symbol(reference(t)),
        full_moon::ast::Parameter::Name(t) => Expression::Name(reference(t)),
        _ => panic!("the syntax of a dialect that is not supported"),
    }
}

fn field(f: &full_moon::ast::Field) -> Field {
    match f {
        full_moon::ast::Field::ExpressionKey {
            brackets,
            key,
            equal,
            value: inner,
        } => {
            let (open, close) = brackets.tokens();
            Field::ExpressionKey {
                open: reference(open),
                key: expression(key),
                close: reference(close),
                equal: reference(equal),
                value: expression(inner),
            }
        }
        full_moon::ast::Field::NameKey {
            key,
            equal,
            value: inner,
        } => Field::NameKey {
            name: reference(key),
            equal: reference(equal),
            value: expression(inner),
        },
        full_moon::ast::Field::NoKey(inner) => Field::NoKey(expression(inner)),
        _ => panic!("the syntax of a dialect that is not supported"),
    }
}

fn table_constructor(table: &full_moon::ast::TableConstructor) -> TableConstructor {
    let (open, close) = table.braces().tokens();
    TableConstructor {
        open: reference(open),
        fields: table
            .fields()
            .pairs()
            .map(|pair| FieldPair {
                field: field(pair.value()),
                separator: pair.punctuation().map(reference),
            })
            .collect(),
        close: reference(close),
    }
}

fn function_body(body: &full_moon::ast::FunctionBody) -> FunctionBody {
    let (open, close) = body.parameters_parentheses().tokens();
    FunctionBody {
        open: reference(open),
        parameters: punctuated(body.parameters(), parameter),
        close: reference(close),
        block: block(body.block()),
        end_token: reference(body.end_token()),
    }
}

fn block(b: &full_moon::ast::Block) -> Block {
    Block {
        stmts: b
            .stmts_with_semicolon()
            .map(|(s, semicolon)| BlockStmt {
                stmt: stmt(s),
                semicolon: semicolon.as_ref().map(reference),
            })
            .collect(),
        last_stmt: b.last_stmt_with_semicolon().map(|(s, semicolon)| {
            Box::new(BlockLastStmt {
                stmt: last_stmt(s),
                semicolon: semicolon.as_ref().map(reference),
            })
        }),
    }
}

fn last_stmt(s: &full_moon::ast::LastStmt) -> LastStmt {
    match s {
        full_moon::ast::LastStmt::Break(t) => LastStmt::Break(reference(t)),
        full_moon::ast::LastStmt::Return(r) => LastStmt::Return {
            token: reference(r.token()),
            values: punctuated(r.returns(), expression),
        },
        _ => panic!("the syntax of a dialect that is not supported"),
    }
}

fn function_name(n: &full_moon::ast::FunctionName) -> Vec<TokenReference> {
    let mut tokens = Vec::new();
    for pair in n.names().pairs() {
        tokens.push(reference(pair.value()));
        if let Some(dot) = pair.punctuation() {
            tokens.push(reference(dot));
        }
    }
    if let (Some(colon), Some(method)) = (n.method_colon(), n.method_name()) {
        tokens.push(reference(colon));
        tokens.push(reference(method));
    }
    tokens
}

fn stmt(s: &full_moon::ast::Stmt) -> Stmt {
    match s {
        full_moon::ast::Stmt::Assignment(node) => Stmt::Assignment(Assignment {
            var_list: punctuated(node.variables(), var),
            equal_token: reference(node.equal_token()),
            expr_list: punctuated(node.expressions(), expression),
        }),
        full_moon::ast::Stmt::Do(node) => Stmt::Do(Do {
            do_token: reference(node.do_token()),
            block: block(node.block()),
            end_token: reference(node.end_token()),
        }),
        full_moon::ast::Stmt::FunctionCall(node) => Stmt::FunctionCall(function_call(node)),
        full_moon::ast::Stmt::FunctionDeclaration(node) => {
            Stmt::FunctionDeclaration(FunctionDeclaration {
                function_token: reference(node.function_token()),
                name: function_name(node.name()),
                body: function_body(node.body()),
            })
        }
        full_moon::ast::Stmt::GenericFor(node) => Stmt::GenericFor(GenericFor {
            for_token: reference(node.for_token()),
            names: punctuated(node.names(), name),
            in_token: reference(node.in_token()),
            expr_list: punctuated(node.expressions(), expression),
            do_token: reference(node.do_token()),
            block: block(node.block()),
            end_token: reference(node.end_token()),
        }),
        full_moon::ast::Stmt::If(node) => Stmt::If(If {
            if_token: reference(node.if_token()),
            condition: expression(node.condition()),
            then_token: reference(node.then_token()),
            block: block(node.block()),
            else_if: match node.else_if() {
                Some(branches) => branches
                    .iter()
                    .map(|branch| ElseIf {
                        else_if_token: reference(branch.else_if_token()),
                        condition: expression(branch.condition()),
                        then_token: reference(branch.then_token()),
                        block: block(branch.block()),
                    })
                    .collect(),
                None => Vec::new(),
            },
            else_branch: match (node.else_token(), node.else_block()) {
                (Some(else_token), Some(else_block)) => Some(Else {
                    else_token: reference(else_token),
                    block: block(else_block),
                }),
                _ => None,
            },
            end_token: reference(node.end_token()),
        }),
        full_moon::ast::Stmt::LocalAssignment(node) => Stmt::LocalAssignment(LocalAssignment {
            local_token: reference(node.local_token()),
            name_list: punctuated(node.names(), name),
            equal_token: node.equal_token().map(reference),
            expr_list: punctuated(node.expressions(), expression),
        }),
        full_moon::ast::Stmt::LocalFunction(node) => Stmt::LocalFunction(LocalFunction {
            local_token: reference(node.local_token()),
            function_token: reference(node.function_token()),
            name: reference(node.name()),
            body: function_body(node.body()),
        }),
        full_moon::ast::Stmt::NumericFor(node) => Stmt::NumericFor(NumericFor {
            for_token: reference(node.for_token()),
            index_variable: reference(node.index_variable()),
            equal_token: reference(node.equal_token()),
            start: expression(node.start()),
            start_end_comma: reference(node.start_end_comma()),
            end: expression(node.end()),
            step: match (node.end_step_comma(), node.step()) {
                (Some(comma), Some(step)) => Some(ForStep {
                    comma: reference(comma),
                    step: expression(step),
                }),
                _ => None,
            },
            do_token: reference(node.do_token()),
            block: block(node.block()),
            end_token: reference(node.end_token()),
        }),
        full_moon::ast::Stmt::Repeat(node) => Stmt::Repeat(Repeat {
            repeat_token: reference(node.repeat_token()),
            block: block(node.block()),
            until_token: reference(node.until_token()),
            until: expression(node.until()),
        }),
        full_moon::ast::Stmt::While(node) => Stmt::While(While {
            while_token: reference(node.while_token()),
            condition: expression(node.condition()),
            do_token: reference(node.do_token()),
            block: block(node.block()),
            end_token: reference(node.end_token()),
        }),
        _ => panic!("the syntax of a dialect that is not supported"),
    }
}

fn chunk(ast: &full_moon::ast::Ast) -> Ast {
    Ast {
        block: block(ast.nodes()),
        eof: reference(ast.eof()),
    }
}

fn format_with(input: &str, config: Config, range: Option<(usize, usize)>) -> String {
    let parsed = full_moon::parse(input).expect("the input is Lua");
    String::from_utf8(format_text(chunk(&parsed), config, range)).expect("the output is text")
}

fn format(input: &str, quote_style: QuoteStyle) -> String {
    let output = format_with(input, Config::default().with_quote_style(quote_style), None);
    output.trim_matches('\n').to_string()
}

const INPUT: &str = r###"
local a = "foobar"
local c = 'foobar'
local d = "foo\"bar"
local e = 'foo"bar'
local f = "foo'bar"
local g = 'foo\'bar'
local h = "foo\"bar'baz"
local i = 'foo"bar\'baz'
            "###;

#[test]
fn test_auto_prefer_double_quotes() {
    assert_eq!(
        format(INPUT, QuoteStyle::AutoPreferDouble),
        r###"local a = "foobar"
local c = "foobar"
local d = 'foo"bar'
local e = 'foo"bar'
local f = "foo'bar"
local g = "foo'bar"
local h = "foo\"bar'baz"
local i = "foo\"bar'baz""###
    );
}

#[test]
fn test_auto_prefer_single_quotes() {
    assert_eq!(
        format(INPUT, QuoteStyle::AutoPreferSingle),
        r###"local a = 'foobar'
local c = 'foobar'
local d = 'foo"bar'
local e = 'foo"bar'
local f = "foo'bar"
local g = "foo'bar"
local h = 'foo"bar\'baz'
local i = 'foo"bar\'baz'"###
    );
}

#[test]
fn test_force_double_quotes() {
    assert_eq!(
        format(INPUT, QuoteStyle::ForceDouble),
        r###"local a = "foobar"
local c = "foobar"
local d = "foo\"bar"
local e = "foo\"bar"
local f = "foo'bar"
local g = "foo'bar"
local h = "foo\"bar'baz"
local i = "foo\"bar'baz""###
    );
}

#[test]
fn test_force_single_quotes() {
    assert_eq!(
        format(INPUT, QuoteStyle::ForceSingle),
        r###"local a = 'foobar'
local c = 'foobar'
local d = 'foo"bar'
local e = 'foo"bar'
local f = 'foo\'bar'
local g = 'foo\'bar'
local h = 'foo"bar\'baz'
local i = 'foo"bar\'baz'"###
    );
}
