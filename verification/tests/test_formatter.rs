use full_moon::node::Node;
use stylua::ast::{
    Assignment, Ast, Block, BlockLastStmt, BlockStmt, Do, Else, ElseIf, Expression, Field,
    FieldPair, ForStep, FunctionArgs, FunctionBody, FunctionCall, FunctionDeclaration, GenericFor,
    If, LastStmt, LocalAssignment, LocalFunction, NumericFor, Pair, Prefix, Punctuated, Repeat,
    Stmt, Suffix, TableConstructor, VarExpression, While,
};
use stylua::block::{format_ast, print_ast};
use stylua::output::format_text;
use stylua::flatten::{block_token_list, push_token};
use stylua::config::{Config, IndentType, LineEndings};
use stylua::token::{Token, TokenKind, TokenReference};

fn token_kind(token: &full_moon::tokenizer::Token) -> TokenKind {
    match token.token_kind() {
        full_moon::tokenizer::TokenKind::Eof => TokenKind::Eof,
        full_moon::tokenizer::TokenKind::Identifier => TokenKind::Identifier,
        full_moon::tokenizer::TokenKind::MultiLineComment => TokenKind::MultiLineComment,
        full_moon::tokenizer::TokenKind::Number => TokenKind::Number,
        full_moon::tokenizer::TokenKind::Shebang => TokenKind::SingleLineComment,
        full_moon::tokenizer::TokenKind::SingleLineComment => TokenKind::SingleLineComment,
        full_moon::tokenizer::TokenKind::StringLiteral => TokenKind::StringLiteral,
        full_moon::tokenizer::TokenKind::Symbol => TokenKind::Symbol,
        full_moon::tokenizer::TokenKind::Whitespace => TokenKind::Whitespace,
        _ => panic!("the syntax of a dialect that is not supported"),
    }
}

fn token(token: &full_moon::tokenizer::Token) -> Token {
    Token {
        kind: token_kind(token),
        text: token.to_string().into_bytes(),
        start: token.start_position().bytes(),
        end: token.end_position().bytes(),
    }
}

fn reference(token_reference: &full_moon::tokenizer::TokenReference) -> TokenReference {
    TokenReference {
        leading_trivia: token_reference.leading_trivia().map(token).collect(),
        token: token(token_reference.token()),
        trailing_trivia: token_reference.trailing_trivia().map(token).collect(),
    }
}

fn operator<'a, N: Node<'a>>(node: &N) -> TokenReference {
    reference(node.tokens().next().expect("an operator is a token"))
}

fn expression(e: &full_moon::ast::Expression) -> Expression {
    match e {
        full_moon::ast::Expression::BinaryOperator { lhs, binop, rhs } => {
            Expression::BinaryOperator {
                lhs: Box::new(expression(lhs)),
                operator: operator(binop),
                rhs: Box::new(expression(rhs)),
            }
        }
        full_moon::ast::Expression::Parentheses {
            contained,
            expression: inner,
        } => {
            let (open, close) = contained.tokens();
            Expression::Parentheses {
                open: reference(open),
                expression: Box::new(expression(inner)),
                close: reference(close),
            }
        }
        full_moon::ast::Expression::UnaryOperator {
            unop,
            expression: inner,
        } => Expression::UnaryOperator {
            operator: operator(unop),
            expression: Box::new(expression(inner)),
        },
        full_moon::ast::Expression::Value { value: inner, .. } => value(inner),
        _ => panic!("the syntax of a dialect that is not supported"),
    }
}

fn value(v: &full_moon::ast::Value) -> Expression {
    match v {
        full_moon::ast::Value::Function((function_token, body)) => Expression::Function {
            function_token: reference(function_token),
            body: function_body(body),
        },
        full_moon::ast::Value::FunctionCall(call) => Expression::FunctionCall(function_call(call)),
        full_moon::ast::Value::TableConstructor(table) => {
            Expression::TableConstructor(table_constructor(table))
        }
        full_moon::ast::Value::Number(t) => Expression::Number(reference(t)),
        full_moon::ast::Value::ParenthesesExpression(e) => expression(e),
        full_moon::ast::Value::String(t) => Expression::String(reference(t)),
        full_moon::ast::Value::Symbol(t) => Expression::Symbol(reference(t)),
        full_moon::ast::Value::Var(v) => var(v),
        _ => panic!("the syntax of a dialect that is not supported"),
    }
}

fn var(v: &full_moon::ast::Var) -> Expression {
    match v {
        full_moon::ast::Var::Name(t) => Expression::Name(reference(t)),
        full_moon::ast::Var::Expression(e) => Expression::Var(VarExpression {
            prefix: prefix(e.prefix()),
            suffixes: e.suffixes().map(suffix).collect(),
        }),
        _ => panic!("the syntax of a dialect that is not supported"),
    }
}

fn prefix(p: &full_moon::ast::Prefix) -> Prefix {
    match p {
        full_moon::ast::Prefix::Name(t) => Prefix::Name(reference(t)),
        full_moon::ast::Prefix::Expression(e) => Prefix::Expression(Box::new(expression(e))),
        _ => panic!("the syntax of a dialect that is not supported"),
    }
}

fn suffix(s: &full_moon::ast::Suffix) -> Suffix {
    match s {
        full_moon::ast::Suffix::Call(full_moon::ast::Call::AnonymousCall(args)) => {
            Suffix::Call(function_args(args))
        }
        full_moon::ast::Suffix::Call(full_moon::ast::Call::MethodCall(call)) => {
            Suffix::MethodCall {
                colon: reference(call.colon_token()),
                name: reference(call.name()),
                args: function_args(call.args()),
            }
        }
        full_moon::ast::Suffix::Index(full_moon::ast::Index::Brackets {
            brackets,
            expression: inner,
        }) => {
            let (open, close) = brackets.tokens();
            Suffix::Brackets {
                open: reference(open),
                expression: expression(inner),
                close: reference(close),
            }
        }
        full_moon::ast::Suffix::Index(full_moon::ast::Index::Dot { dot, name }) => Suffix::Dot {
            dot: reference(dot),
            name: reference(name),
        },
        _ => panic!("the syntax of a dialect that is not supported"),
    }
}

fn function_call(call: &full_moon::ast::FunctionCall) -> FunctionCall {
    FunctionCall {
        prefix: prefix(call.prefix()),
        suffixes: call.suffixes().map(suffix).collect(),
    }
}

fn function_args(args: &full_moon::ast::FunctionArgs) -> FunctionArgs {
    match args {
        full_moon::ast::FunctionArgs::Parentheses {
            parentheses,
            arguments,
        } => {
            let (open, close) = parentheses.tokens();
            FunctionArgs::Parentheses {
                open: reference(open),
                arguments: punctuated(arguments, expression),
                close: reference(close),
            }
        }
        full_moon::ast::FunctionArgs::String(t) => FunctionArgs::String(reference(t)),
        full_moon::ast::FunctionArgs::TableConstructor(table) => {
            FunctionArgs::TableConstructor(table_constructor(table))
        }
        _ => panic!("the syntax of a dialect that is not supported"),
    }
}

fn punctuated<T>(
    list: &full_moon::ast::punctuated::Punctuated<T>,
    convert: fn(&T) -> Expression,
) -> Punctuated {
    Punctuated {
        pairs: list
            .pairs()
            .map(|pair| Pair {
                value: convert(pair.value()),
                separator: pair.punctuation().map(reference),
            })
            .collect(),
    }
}

fn name(t: &full_moon::tokenizer::TokenReference) -> Expression {
    Expression::Name(reference(t))
}

fn parameter(p: &full_moon::ast::Parameter) -> Expression {
    match p {
        full_moon::ast::Parameter::Ellipse(t) => Expression::Symbol(reference(t)),
        full_moon::ast::Parameter::Name(t) => Expression::Name(reference(t)),
        _ => panic!("the syntax of a dialect that is not supported"),
    }
}

fn field(f: &full_moon::ast::Field) -> Field {
    match f {
        full_moon::ast::Field::ExpressionKey {
            brackets,
            key,
            equal,
            value: inner,
        } => {
            let (open, close) = brackets.tokens();
            Field::ExpressionKey {
                open: reference(open),
                key: expression(key),
                close: reference(close),
                equal: reference(equal),
                value: expression(inner),
            }
        }
        full_moon::ast::Field::NameKey {
            key,
            equal,
            value: inner,
        } => Field::NameKey {
            name: reference(key),
            equal: reference(equal),
            value: expression(inner),
        },
        full_moon::ast::Field::NoKey(inner) => Field::NoKey(expression(inner)),
        _ => panic!("the syntax of a dialect that is not supported"),
    }
}

fn table_constructor(table: &full_moon::ast::TableConstructor) -> TableConstructor {
    let (open, close) = table.braces().tokens();
    TableConstructor {
        open: reference(open),
        fields: table
            .fields()
            .pairs()
            .map(|pair| FieldPair {
                field: field(pair.value()),
                separator: pair.punctuation().map(reference),
            })
            .collect(),
        close: reference(close),
    }
}

fn function_body(body: &full_moon::ast::FunctionBody) -> FunctionBody {
    let (open, close) = body.parameters_parentheses().tokens();
    FunctionBody {
        open: reference(open),
        parameters: punctuated(body.parameters(), parameter),
        close: reference(close),
        block: block(body.block()),
        end_token: reference(body.end_token()),
    }
}

fn block(b: &full_moon::ast::Block) -> Block {
    Block {
        stmts: b
            .stmts_with_semicolon()
            .map(|(s, semicolon)| BlockStmt {
                stmt: stmt(s),
                semicolon: semicolon.as_ref().map(reference),
            })
            .collect(),
        last_stmt: b.last_stmt_with_semicolon().map(|(s, semicolon)| {
            Box::new(BlockLastStmt {
                stmt: last_stmt(s),
                semicolon: semicolon.as_ref().map(reference),
            })
        }),
    }
}

fn last_stmt(s: &full_moon::ast::LastStmt) -> LastStmt {
    match s {
        full_moon::ast::LastStmt::Break(t) => LastStmt::Break(reference(t)),
        full_moon::ast::LastStmt::Return(r) => LastStmt::Return {
            token: reference(r.token()),
            values: punctuated(r.returns(), expression),
        },
        _ => panic!("the syntax of a dialect that is not supported"),
    }
}

fn function_name(n: &full_moon::ast::FunctionName) -> Vec<TokenReference> {
    let mut tokens = Vec::new();
    for pair in n.names().pairs() {
        tokens.push(reference(pair.value()));
        if let Some(dot) = pair.punctuation() {
            tokens.push(reference(dot));
        }
    }
    if let (Some(colon), Some(method)) = (n.method_colon(), n.method_name()) {
        tokens.push(reference(colon));
        tokens.push(reference(method));
    }
    tokens
}

fn stmt(s: &full_moon::ast::Stmt) -> Stmt {
    match s {
        full_moon::ast::Stmt::Assignment(node) => Stmt::Assignment(Assignment {
            var_list: punctuated(node.variables(), var),
            equal_token: reference(node.equal_token()),
            expr_list: punctuated(node.expressions(), expression),
        }),
        full_moon::ast::Stmt::Do(node) => Stmt::Do(Do {
            do_token: reference(node.do_token()),
            block: block(node.block()),
            end_token: reference(node.end_token()),
        }),
        full_moon::ast::Stmt::FunctionCall(node) => Stmt::FunctionCall(function_call(node)),
        full_moon::ast::Stmt::FunctionDeclaration(node) => {
            Stmt::FunctionDeclaration(FunctionDeclaration {
                function_token: reference(node.function_token()),
                name: function_name(node.name()),
                body: function_body(node.body()),
            })
        }
        full_moon::ast::Stmt::GenericFor(node) => Stmt::GenericFor(GenericFor {
            for_token: reference(node.for_token()),
            names: punctuated(node.names(), name),
            in_token: reference(node.in_token()),
            expr_list: punctuated(node.expressions(), expression),
            do_token: reference(node.do_token()),
            block: block(node.block()),
            end_token: reference(node.end_token()),
        }),
        full_moon::ast::Stmt::If(node) => Stmt::If(If {
            if_token: reference(node.if_token()),
            condition: expression(node.condition()),
            then_token: reference(node.then_token()),
            block: block(node.block()),
            else_if: match node.else_if() {
                Some(branches) => branches
                    .iter()
                    .map(|branch| ElseIf {
                        else_if_token: reference(branch.else_if_token()),
                        condition: expression(branch.condition()),
                        then_token: reference(branch.then_token()),
                        block: block(branch.block()),
                    })
                    .collect(),
                None => Vec::new(),
            },
            else_branch: match (node.else_token(), node.else_block()) {
                (Some(else_token), Some(else_block)) => Some(Else {
                    else_token: reference(else_token),
                    block: block(else_block),
                }),
                _ => None,
            },
            end_token: reference(node.end_token()),
        }),
        full_moon::ast::Stmt::LocalAssignment(node) => Stmt::LocalAssignment(LocalAssignment {
            local_token: reference(node.local_token()),
            name_list: punctuated(node.names(), name),
            equal_token: node.equal_token().map(reference),
            expr_list: punctuated(node.expressions(), expression),
        }),
        full_moon::ast::Stmt::LocalFunction(node) => Stmt::LocalFunction(LocalFunction {
            local_token: reference(node.local_token()),
            function_token: reference(node.function_token()),
            name: reference(node.name()),
            body: function_body(node.body()),
        }),
        full_moon::ast::Stmt::NumericFor(node) => Stmt::NumericFor(NumericFor {
            for_token: reference(node.for_token()),
            index_variable: reference(node.index_variable()),
            equal_token: reference(node.equal_token()),
            start: expression(node.start()),
            start_end_comma: reference(node.start_end_comma()),
            end: expression(node.end()),
            step: match (node.end_step_comma(), node.step()) {
                (Some(comma), Some(step)) => Some(ForStep {
                    comma: reference(comma),
                    step: expression(step),
                }),
                _ => None,
            },
            do_token: reference(node.do_token()),
            block: block(node.block()),
            end_token: reference(node.end_token()),
        }),
        full_moon::ast::Stmt::Repeat(node) => Stmt::Repeat(Repeat {
            repeat_token: reference(node.repeat_token()),
            block: block(node.block()),
            until_token: reference(node.until_token()),
            until: expression(node.until()),
        }),
        full_moon::ast::Stmt::While(node) => Stmt::While(While {
            while_token: reference(node.while_token()),
            condition: expression(node.condition()),
            do_token: reference(node.do_token()),
            block: block(node.block()),
            end_token: reference(node.end_token()),
        }),
        _ => panic!("the syntax of a dialect that is not supported"),
    }
}

fn chunk(ast: &full_moon::ast::Ast) -> Ast {
    Ast {
        block: block(ast.nodes()),
        eof: reference(ast.eof()),
    }
}

fn format_with(input: &str, config: Config, range: Option<(usize, usize)>) -> String {
    let parsed = full_moon::parse(input).expect("the input is Lua");
    String::from_utf8(format_text(chunk(&parsed), config, range)).expect("the output is text")
}

fn format(input: &str) -> String {
    format_with(input, Config::default(), None)
}

/// The tokens of a tree, in order.
fn tokens_in(tree: &Ast) -> Vec<TokenReference> {
    let mut tokens = block_token_list(&tree.block);
    push_token(&tree.eof, &mut tokens);
    tokens
}

/// The tokens of a chunk, in order.
fn tokens_of(source: &str) -> Vec<TokenReference> {
    let parsed = full_moon::parse(source).expect("the input is Lua");
    tokens_in(&chunk(&parsed))
}

/// The texts of the comments on the tokens, sorted.
fn comments_of(tokens: &[TokenReference]) -> Vec<String> {
    let mut comments: Vec<String> = tokens
        .iter()
        .flat_map(|token| token.leading_trivia.iter().chain(token.trailing_trivia.iter()))
        .filter(|trivia| trivia.kind != TokenKind::Whitespace)
        .map(|trivia| String::from_utf8(trivia.text.clone()).expect("a comment is text"))
        .collect();
    comments.sort();
    comments
}

/// The texts of the tokens, in order.
fn texts_of(tokens: &[TokenReference]) -> Vec<String> {
    tokens
        .iter()
        .map(|token| String::from_utf8(token.token.text.clone()).expect("a token is text"))
        .collect()
}

const SAMPLE: &str = "local x   =  {1,2,  3}\nfoo( a,b ,c )\nlocal function f(a,b) return a+b end\nfor i=1,10 do print(i) end\nfor k,v in pairs(t) do print(k,v) end\nwhile true do break end\nrepeat x=x+1 until x>10\nx.y.z = not a\nlocal s = -x\nt = {}\nfunction a.b:c(...) return ... end\nif a then b() elseif c then d() else e() end\nlocal t = { a = 1, [2] = 3; 'x', }\nf(function() return 1 end)\ndo\n\n\n  -- comment\n  local x = 1\n\n\n  return x\nend\n";

const FORMATTED_SAMPLE: &str = "local x = { 1, 2, 3 }\nfoo(a, b, c)\nlocal function f(a, b)\n\treturn a + b\nend\nfor i = 1, 10 do\n\tprint(i)\nend\nfor k, v in pairs(t) do\n\tprint(k, v)\nend\nwhile true do\n\tbreak\nend\nrepeat\n\tx = x + 1\nuntil x > 10\nx.y.z = not a\nlocal s = -x\nt = {}\nfunction a.b:c(...)\n\treturn ...\nend\nif a then\n\tb()\nelseif c then\n\td()\nelse\n\te()\nend\nlocal t = { a = 1, [2] = 3; \"x\" }\nf(function()\n\treturn 1\nend)\ndo\n\t-- comment\n\tlocal x = 1\n\treturn x\nend\n";

#[test]
fn hangs_a_condition_that_is_too_wide() {
    let config = Config::default().with_column_width(40);
    assert_eq!(
        format_with(
            "if verylongcondition and anothercondition then x() end",
            config,
            None
        ),
        "if\n\tverylongcondition\n\t\tand anothercondition\nthen\n\tx()\nend\n"
    );
}

#[test]
fn keeps_a_condition_that_fits_on_its_line() {
    let config = Config::default().with_column_width(46);
    assert_eq!(
        format_with(
            "if verylongcondition and anothercondition then x() end",
            config,
            None
        ),
        "if verylongcondition and anothercondition then\n\tx()\nend\n"
    );
    // The header takes 2 + 36 + 4 columns of text and 2 of blanks: one column
    // less than that does not hold it.
    let narrow = Config::default().with_column_width(43);
    assert_eq!(
        format_with(
            "if verylongcondition and anothercondition then x() end",
            narrow,
            None
        ),
        "if\n\tverylongcondition\n\t\tand anothercondition\nthen\n\tx()\nend\n"
    );
}

#[test]
fn keeps_a_trailing_comment_on_its_line() {
    assert_eq!(
        format("local x = 1 -- keep me\n\n"),
        "local x = 1 -- keep me\n"
    );
}

#[test]
fn prints_what_it_is_given() {
    let source = "local  x=1 -- c\nif x then\n  y ( ) end\n";
    let parsed = full_moon::parse(source).expect("the input is Lua");
    assert_eq!(
        String::from_utf8(print_ast(&chunk(&parsed))).expect("the output is text"),
        source
    );
}

#[test]
fn formats_every_kind_of_statement() {
    assert_eq!(format(SAMPLE), FORMATTED_SAMPLE);
}

#[test]
fn formatting_twice_changes_nothing() {
    let once = format(SAMPLE);
    assert_eq!(format(&once), once);
    let hung = format_with(
        "if verylongcondition and anothercondition then x() end",
        Config::default().with_column_width(40),
        None,
    );
    assert_eq!(
        format_with(&hung, Config::default().with_column_width(40), None),
        hung
    );
}

#[test]
fn lays_out_tables_and_calls_over_several_lines() {
    let source = "local t = { alpha = 1, beta = 2, [gamma] = 3, delta }\nlocal r = call(first, second, third)\nif check(aaaaaaaaaa, bbbbbbbbbbbb, cccccccccc) then x() end\nx = obj:method(argument1, argument2)\nrepeat until aaaaaaaaaaaaaaaaaaaaaaa or bbbbbbbbbbbbbbbbbbbbbbbbbbb\ndo local v = { x = 1, y = 2, zzzzzzzzzzzzzzzzzzzzzz = 3 } end\n";
    assert_eq!(
        format_with(source, Config::default().with_column_width(30), None),
        "local t = {\n\talpha = 1,\n\tbeta = 2,\n\t[gamma] = 3,\n\tdelta,\n}\nlocal r = call(\n\tfirst,\n\tsecond,\n\tthird\n)\nif\n\tcheck(\n\t\taaaaaaaaaa,\n\t\tbbbbbbbbbbbb,\n\t\tcccccccccc\n\t)\nthen\n\tx()\nend\nx = obj:method(\n\targument1,\n\targument2\n)\nrepeat\nuntil aaaaaaaaaaaaaaaaaaaaaaa\n\t\tor bbbbbbbbbbbbbbbbbbbbbbbbbbb\ndo\n\tlocal v = {\n\t\tx = 1,\n\t\ty = 2,\n\t\tzzzzzzzzzzzzzzzzzzzzzz = 3,\n\t}\nend\n"
    );
}

#[test]
fn hangs_a_chain_of_operators_in_an_assignment() {
    assert_eq!(
        format("local long = aaaaaaaaaaaaaaaaaaaaaaaaaaaaaaaaaaaaaaaaaaaa + bbbbbbbbbbbbbbbbbbbbbbbbbbbbbbbbbbbbbbbbbbbbbbbbbbbbbbbbbbbb + cccccccccccccccccccccccccccccccccccccccccccccccccc\n"),
        "local long = aaaaaaaaaaaaaaaaaaaaaaaaaaaaaaaaaaaaaaaaaaaa\n\t+ bbbbbbbbbbbbbbbbbbbbbbbbbbbbbbbbbbbbbbbbbbbbbbbbbbbbbbbbbbbb\n\t+ cccccccccccccccccccccccccccccccccccccccccccccccccc\n"
    );
}

#[test]
fn hangs_a_condition_that_holds_a_comment() {
    assert_eq!(
        format("while a -- c\n and b do end\n"),
        "while\n\ta -- c\n\t\tand b\ndo\nend\n"
    );
}

#[test]
fn hangs_the_condition_of_an_elseif() {
    assert_eq!(
        format_with(
            "if a then b() elseif cccccccccccccccccccc and dddddddddddddddddddd then e() end\n",
            Config::default().with_column_width(40),
            None
        ),
        "if a then\n\tb()\nelseif\n\tcccccccccccccccccccc\n\t\tand dddddddddddddddddddd\nthen\n\te()\nend\n"
    );
}

#[test]
fn emits_the_configured_line_ending() {
    let config = Config::default().with_line_endings(LineEndings::Windows);
    let output = format_with("local x = 1\r\nif x then\r\n  y()\r\nend\r\n", config, None);
    assert_eq!(output, "local x = 1\r\nif x then\r\n\ty()\r\nend\r\n");
    assert_eq!(output.matches('\n').count(), output.matches("\r\n").count());
    let unix = format("local x = 1\r\nif x then\r\n  y()\r\nend\r\n");
    assert_eq!(unix, "local x = 1\nif x then\n\ty()\nend\n");
    assert!(!unix.contains('\r'));
}

#[test]
fn indents_with_spaces() {
    let config = Config::default()
        .with_indent_type(IndentType::Spaces)
        .with_indent_width(2);
    assert_eq!(
        format_with("if a then\n\tif b then\n\t\tc()\n\tend\nend\n", config, None),
        "if a then\n  if b then\n    c()\n  end\nend\n"
    );
}

#[test]
fn leaves_an_ignored_statement_as_it_is() {
    assert_eq!(
        format("local a   =  1\n-- stylua: ignore\nlocal   b  =  2\nlocal   c  =  3\n"),
        "local a = 1\n-- stylua: ignore\nlocal   b  =  2\nlocal c = 3\n"
    );
}

#[test]
fn leaves_an_ignored_region_as_it_is() {
    assert_eq!(
        format("local a   =  1\n-- stylua: ignore start\nlocal   b  =  2\nlocal   c  =  3\n-- stylua: ignore end\nlocal   d  =  4\n"),
        "local a = 1\n-- stylua: ignore start\nlocal   b  =  2\nlocal   c  =  3\n-- stylua: ignore end\nlocal d = 4\n"
    );
}

#[test]
fn formats_only_the_statements_in_the_range() {
    let source = "local a   =  1\nlocal   b  =  2\nlocal   c  =  3\n";
    assert_eq!(
        format_with(source, Config::default(), Some((15, 29))),
        "local a   =  1\nlocal b = 2\nlocal   c  =  3\n"
    );
    // A statement that the range touches is formatted.
    assert_eq!(
        format_with(source, Config::default(), Some((14, 16))),
        "local a   =  1\nlocal b = 2\nlocal   c  =  3\n"
    );
    // A range that holds no statement leaves the chunk as it is.
    assert_eq!(format_with(source, Config::default(), Some((14, 15))), source);
}

#[test]
fn moves_the_comments_of_the_lists_behind_do() {
    assert_eq!(
        format("for k , v in pairs( t ) -- c1\n do -- c2\n print(k) -- c3\n -- c4\n end\n"),
        "for k, v in pairs(t) do -- c2 -- c1\n\tprint(k) -- c3\n\t-- c4\nend\n"
    );
}

#[test]
fn moves_the_comments_of_arguments_behind_the_call() {
    assert_eq!(format("print(a -- c1\n, b)\n"), "print(a, b) -- c1\n");
}

#[test]
fn keeps_the_form_of_the_arguments_of_a_call() {
    assert_eq!(
        format("f\"x\"\ng{ 1 }\nobj:m( 1 ):n( )\nreturn a , b\n"),
        "f\"x\"\ng{ 1 }\nobj:m(1):n()\nreturn a, b\n"
    );
}

#[test]
fn keeps_a_semicolon_behind_its_statement() {
    assert_eq!(format("x = 1 ; y = 2;\n"), "x = 1;\ny = 2;\n");
    assert_eq!(format("f() ; -- c\ng();"), "f(); -- c\ng();\n");
    assert_eq!(
        format("local x ;\ndo end ;\nwhile a do end;\nrepeat until b ;\n"),
        "local x;\ndo\nend;\nwhile a do\nend;\nrepeat\nuntil b;\n"
    );
    assert_eq!(
        format("local function f() return 1 ; end ;\nfunction g() break ; end;"),
        "local function f()\n\treturn 1;\nend;\nfunction g()\n\tbreak;\nend;\n"
    );
    assert_eq!(
        format("if a then b() ; end ;\nfor i = 1, 2 do end ;\nfor k in p do end ;\n"),
        "if a then\n\tb();\nend;\nfor i = 1, 2 do\nend;\nfor k in p do\nend;\n"
    );
    // What stood behind the statement stands behind the semicolon.
    assert_eq!(format("x = 1 -- c\n;\n"), "x = 1; -- c\n");
    assert_eq!(format("x = y --[[ a ]] ; --[[ b ]]\n"), "x = y; --[[ b ]] --[[ a ]]\n");
}

#[test]
fn puts_comments_on_lines_of_their_own() {
    assert_eq!(
        format("--[[ multi\nline ]] local w = 'its'\n"),
        "--[[ multi\nline ]]\nlocal w = \"its\"\n"
    );
    assert_eq!(
        format("local function f()\n  -- only a comment\nend\n\n\n\n-- trailing comment\n"),
        "local function f()\n\t-- only a comment\nend\n-- trailing comment\n"
    );
}

#[test]
fn separates_statements_by_one_line_break() {
    assert_eq!(format("a()\n\n\n\nb()\nc()\n"), "a()\nb()\nc()\n");
    assert_eq!(format("a() b()\n\n-- c\n\nd()"), "a()\nb()\n-- c\nd()\n");
}

#[test]
fn keeps_every_comment() {
    let source = "-- top\nlocal t = { a, -- one\n b, --[[ two ]] c, } -- three\nfor k, v in pairs(t) -- four\n do f(k --[[ five ]], v) end -- six\nif a -- seven\n and b then -- eight\n end\n-- nine\n";
    let parsed = full_moon::parse(source).expect("the input is Lua");
    let formatted = format_ast(
        chunk(&parsed),
        Config::default().with_column_width(20),
        None,
    );
    assert_eq!(
        comments_of(&tokens_in(&formatted)),
        comments_of(&tokens_of(source))
    );
    assert_eq!(comments_of(&tokens_of(source)).len(), 10);
    // Every comment is in the text that is written out.
    let text = String::from_utf8(print_ast(&formatted)).expect("the output is text");
    for comment in comments_of(&tokens_of(source)) {
        assert!(text.contains(&comment), "{:?} is lost", comment);
    }
}

#[test]
fn keeps_every_token() {
    let formatted = format(SAMPLE);
    let mut before = texts_of(&tokens_of(SAMPLE));
    let after = texts_of(&tokens_of(&formatted));
    // The separator behind the last field of the table on one line is gone,
    // and the string literal has other quotes.
    let dropped = before
        .iter()
        .rposition(|text| text == ",")
        .expect("the sample holds a comma");
    assert_eq!(before[dropped + 1], "}");
    before.remove(dropped);
    let quoted = before
        .iter()
        .position(|text| text == "'x'")
        .expect("the sample holds a string");
    before[quoted] = "\"x\"".to_string();
    assert_eq!(after, before);
}

#[test]
fn keeps_lines_within_the_width_where_it_can() {
    let config = Config::default().with_column_width(30);
    let output = format_with(
        "local t = { alpha = 1, beta = 2, [gamma] = 3, delta }\nlocal r = call(first, second, third)\n",
        config,
        None,
    );
    for line in output.lines() {
        let columns: usize = line
            .chars()
            .map(|c| if c == '\t' { config.indent_width } else { 1 })
            .sum();
        assert!(columns <= config.column_width, "{:?} is too wide", line);
    }
}

/// The texts of the tokens of a chunk, where every quote is a double quote
/// and the separators behind the last fields of tables are left out.
fn plain_tokens(source: &str) -> Vec<String> {
    let texts: Vec<String> = tokens_of(source)
        .iter()
        .map(|token| String::from_utf8(token.token.text.clone()).expect("a token is text"))
        .map(|text| text.replace('\'', "\""))
        .collect();
    let mut plain = Vec::new();
    for (index, text) in texts.iter().enumerate() {
        let closes = texts.get(index + 1).map(|next| next == "}").unwrap_or(false);
        if !((text == "," || text == ";") && closes) {
            plain.push(text.clone());
        }
    }
    plain
}

#[test]
fn reading_the_output_gives_the_tokens_of_the_input() {
    let inputs = [
        "x = (a -- c\n + b) * d\n",
        "x = f(a, g(b -- c\n, d))\n",
        "f(a -- c\n).b = 1\n",
        "local t = { a = 1, -- c\n b = 2 }\n",
        "x = a + -- c\n b\n",
        "if a -- c\n then b() end\n",
        "x = t[ -- c\n 1]\n",
        "local function f(a, -- c\n b) end\n",
        "return a, -- c\n b\n",
        "x = function() -- c\n return 1 end\n",
        "x = not -- c\n a\n",
        "f{ -- c\n a }\n",
        "f -- c\n \"str\"\n",
        "x = a.b -- c\n .c\n",
        "for i = 1, -- c\n 10 do end\n",
        "while a -- c\n do end\n",
        "repeat until a -- c\n",
        "x -- c\n = 1\n",
        "local x -- c\n = 1\n",
        "function a.b -- c\n .c() end\n",
        "x = { f(a -- c\n) }\n",
        "x = a + (b -- c\n)\n",
        "x = a -- c\n + b\n",
        "f(function() end -- c\n, 1)\n",
        "x = a:b -- c\n ()\n",
        "x = a:b( -- c\n 1)\n",
        "local x, -- c\n y = 1\n",
        "x = { [1 -- c\n] = 2 }\n",
        "x = { a -- c\n = 2 }\n",
        "if a then -- c\n b() end\n",
        "for k, v in -- c\n pairs(t) do end\n",
        "for -- c\n k, v in pairs(t) do end\n",
        "local -- c\n x = 1\n",
        "local function -- c\n f() end\n",
        "function -- c\n f() end\n",
        "return -- c\n 1\n",
        "x = function( -- c\n a) end\n",
        "x = function(a) -- c\n end\n",
        "x = - -- c\n a\n",
        "x = -\n-- c\na\n",
        "do -- c\n end -- d\n",
        "x = f -- c\n ()\n",
        "x = - -a\n",
        "x = - - -a\n",
        "x = a - -b\n",
        "x = a-- c\n",
        "x = a.b .. c . d\n",
        "x = a..b\n",
        "x = 1 ..2\n",
        "x = not not a\n",
        "x = #-a\n",
        "x = a[ [[s]] ]\n",
        "x = a[ [==[s]==] .. b ]\n",
        "x = {[ [[s]] ] = 1}\n",
        "x = f [[s]]\n",
        "x = f'a'\n",
        "return(a)\n",
        "return{a}\n",
        "return'a'\n",
        "x = a and(b)or(c)\n",
        "x = 1 -- c",
        "-- stylua: ignore\nx   =   1 -- c",
    ];
    for input in inputs.iter() {
        let output = format(input);
        assert!(
            full_moon::parse(&output).is_ok(),
            "{:?} gave {:?}, which is no Lua",
            input,
            output
        );
        assert_eq!(
            plain_tokens(&output),
            plain_tokens(input),
            "{:?} gave {:?}",
            input,
            output
        );
        if !input.contains("--") {
            assert_eq!(format(&output), output, "{:?} is not settled", output);
        }
    }
}

#[test]
fn ends_the_line_of_a_comment_inside_a_statement() {
    assert_eq!(format("local -- c\n x = 1\n"), "local  -- c\nx = 1\n");
    assert_eq!(format("x = f -- c\n ()\n"), "x = f -- c\n()\n");
    // Behind the last token of a line the line break is there already.
    assert_eq!(format("x = 1 -- c\ny = 2\n"), "x = 1 -- c\ny = 2\n");
    // A comment with an end of its own needs none.
    assert_eq!(format("local --[[ c ]] x = 1\n"), "local  --[[ c ]]x = 1\n");
}

#[test]
fn keeps_a_minus_sign_apart_from_a_minus_sign() {
    assert_eq!(format("x = - -a\n"), "x = - -a\n");
    assert_eq!(format("x = - - -a\n"), "x = - - -a\n");
    assert_eq!(format("x = -a\n"), "x = -a\n");
    assert_eq!(format("x = - a\n"), "x = -a\n");
    assert_eq!(format("x = -#a\n"), "x = -#a\n");
}

#[test]
fn keeps_a_bracket_apart_from_a_long_bracket() {
    assert_eq!(format("x = a[ [[s]] ]\n"), "x = a[ [[s]] ]\n");
    assert_eq!(format("x = { [ [[s]] ] = 1 }\n"), "x = { [ [[s]] ] = 1 }\n");
    assert_eq!(format("x = a[ 'b' ]\n"), "x = a[\"b\"]\n");
}

const PROGRAM: &str = r#"-- A queue of jobs, with the bookkeeping that goes with it.
local Queue = {}
Queue.__index = Queue

local DEFAULT_LIMIT, DEFAULT_NAME = 16, 'jobs' -- what a queue starts with

--[[ Makes a queue.
     The limit is optional. ]]
function Queue.new(name, limit)
  local self = setmetatable({}, Queue)
  self.name = name or DEFAULT_NAME
  self.limit = limit or DEFAULT_LIMIT
  self.items = {first = 1, last = 0, n = 0,}
  self.stats = { pushed = 0, popped = 0, ["dropped items"] = 0, [1] = "x" }
  return self
end

function Queue:push(item, ...)
  if self.items.n >= self.limit and not self.grows or item == nil then
    self.stats["dropped items"] = self.stats["dropped items"] + 1
    return false, "the queue " .. self.name .. " is full"
  elseif select('#', ...) > 0 then
    for i, extra in ipairs({...}) do self:push(extra) end
  else
    -- nothing else to push
  end
  self.items.last = self.items.last + 1; self.items[self.items.last] = item
  self.items.n = self.items.n + 1
  self.stats.pushed = self.stats.pushed + 1
  return true
end

function Queue:pop()
  local items = self.items
  if items.n == 0 then return nil end -- empty
  local item = items[items.first]
  items[items.first] = nil
  items.first, items.n = items.first + 1, items.n - 1
  self.stats.popped = self.stats.popped + 1
  return item
end

local function drain(queue, handler)
  local count = 0
  while true do
    local item = queue:pop()
    if item == nil then break end
    handler(item, count)
    count = count + 1
  end
  repeat
    count = count - 1
  until count <= 0 or queue.items.n > 0
  for i = 10, 1, -1 do
    count = count + (-i) ^ 2 % 3
  end
  return count, #queue.items, -count, not (count > 0)
end

do
  local q = Queue.new("letters", 3)
  q:push "a"
  q:push("b", "c", "d")
  q:push { 1, 2, 3 }
  print(drain(q, function(item, index) print(index, item) end))
  local text = [[
a long
string]] .. "and a 'short' one" .. 'with "quotes"'
  local nested = { { 1, 2 }, { a = { b = { c = function(...) return ... end } } }, Queue.new("inner").items }
  print(text, nested[2].a.b.c(1, 2, 3), (nested)[1][2], ("x"):rep(3), #text)
end

return Queue
"#;

#[test]
fn formats_a_program_at_every_width() {
    for width in [20, 40, 60, 80, 120] {
        for spaces in [false, true] {
            let mut config = Config::default().with_column_width(width);
            if spaces {
                config = config
                    .with_indent_type(IndentType::Spaces)
                    .with_indent_width(2);
            }
            let output = format_with(PROGRAM, config, None);
            assert!(
                full_moon::parse(&output).is_ok(),
                "at width {} the output is no Lua:\n{}",
                width,
                output
            );
            assert_eq!(
                plain_tokens(&output),
                plain_tokens(PROGRAM),
                "at width {}:\n{}",
                width,
                output
            );
            let mut before = comments_of(&tokens_of(PROGRAM));
            let mut after = comments_of(&tokens_of(&output));
            before.sort();
            after.sort();
            assert_eq!(after, before, "at width {}:\n{}", width, output);
            assert_eq!(
                format_with(&output, config, None),
                output,
                "at width {} the output is not settled",
                width
            );
        }
    }
}
