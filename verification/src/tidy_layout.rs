//! Formatting writes tidy whitespace.
//!
//! Where no range restricts the pass and no comment is a directive, every
//! statement is formatted, and all the whitespace around the tokens of the
//! formatted tree is tidy: indents, blanks, and line endings of the
//! configured kind.

use vstd::prelude::*;
use crate::block::{formatted_ast, formatted_eof};
use crate::config::Config;
use crate::edges::{
    cleared, last_trailing, last_updated, punctuated_first_updated, suffixed_first_updated,
};
use crate::endings::ended_last_stmt;
use crate::flatten::{
    ast_tokens, block_last_tokens, block_stmts_tokens, block_tokens, else_if_tokens,
    else_ifs_tokens, else_tokens, expression_tokens, field_pairs_tokens, field_tokens,
    fields_tokens, function_args_tokens, function_body_tokens, if_tokens, last_stmt_tokens,
    optional_token, pairs_tokens, prefix_tokens, punctuated_tokens, step_tokens, stmt_tokens,
    suffix_tokens, suffixes_tokens, table_tokens,
};
use crate::formatter::{count_of, format_trailing, EndTokenType, FormatterState};
use crate::hang::hang_expression;
use crate::layout::{
    append, assignment_tokens, closed_body, condition_closer, condition_opener, dropped_comments,
    formatted_assignment, formatted_block, formatted_block_last, formatted_call_stmt,
    formatted_condition, formatted_do, formatted_else, formatted_else_if, formatted_else_ifs,
    formatted_expression, formatted_field, formatted_fields, formatted_function_args,
    formatted_function_body, formatted_function_declaration, formatted_generic_for, formatted_if,
    formatted_last_stmt, formatted_local_assignment, formatted_local_function, formatted_name,
    formatted_nested_block, formatted_numeric_for, formatted_pairs, formatted_prefix,
    formatted_punctuated, formatted_repeat, formatted_step, formatted_stmt, formatted_stmts,
    formatted_suffix, formatted_suffixes, formatted_table, formatted_while, hangs_condition,
    hangs_values, header_width, bracket_gap, laid_out_values, line_end, unary_gap,
    local_assignment_tokens, opening, token_range, tokens_indent_increase, with_expression_range,
};
use crate::layout_laws::{
    lemma_formatted_assignment, lemma_formatted_block, lemma_formatted_block_last,
    lemma_formatted_call_stmt, lemma_formatted_condition, lemma_formatted_do, lemma_formatted_else,
    lemma_formatted_else_if, lemma_formatted_else_ifs, lemma_formatted_expression,
    lemma_formatted_field, lemma_formatted_fields, lemma_formatted_function_args,
    lemma_formatted_function_body, lemma_formatted_function_declaration,
    lemma_formatted_generic_for, lemma_formatted_if, lemma_formatted_last_stmt,
    lemma_formatted_local_assignment, lemma_formatted_local_function, lemma_formatted_nested_block,
    lemma_formatted_numeric_for, lemma_formatted_pairs, lemma_formatted_prefix,
    lemma_formatted_punctuated, lemma_formatted_repeat, lemma_formatted_step, lemma_formatted_stmt,
    lemma_formatted_stmts, lemma_formatted_suffix, lemma_formatted_suffixes, lemma_formatted_table,
    lemma_formatted_while,
};
use crate::list_laws::{
    lemma_block_stmts_tokens_push, lemma_else_ifs_tokens_push, lemma_field_pairs_tokens_push,
    lemma_fields_tokens, lemma_pairs_tokens_push, lemma_punctuated_tokens,
    lemma_suffixes_tokens_push,
};
use crate::measure::stripped;
use crate::range::{directive_among, format_decision};
use crate::sequences::lemma_push_last;
use crate::tidy::{
    lemma_condition_tokens_tidy, lemma_edited_token_tidy, lemma_formatted_token_tidy,
    lemma_leading_tidy, lemma_line_tokens_tidy, lemma_made_whitespace, lemma_tokens_add,
    lemma_tokens_one, lemma_trailing_tidy, lemma_trivia_add, no_directive, quiet, token_tidy,
    tokens_tidy, trivia_plain, trivia_tidy,
};
use crate::tidy_endings::{lemma_ended_last_stmt_tidy, lemma_ended_stmt_tidy};
use crate::tidy_edges::{
    lemma_body_trail_tidy, lemma_first_updated_tidy, lemma_last_updated_tidy,
    lemma_suffixed_first_updated_tidy, lemma_suffixed_last_updated_tidy,
};
use crate::tidy_hang::{
    lemma_hang_expression_tidy, lemma_laid_out_values_tidy, lemma_line_end_tidy,
    lemma_optional_tidy, lemma_punctuated_first_updated_tidy,
};
use crate::token::{TokenReferenceView, TokenView};
use crate::trivia::{space, with_trivia, FormatTriviaTypeView};
use crate::view::{
    AssignmentView, AstView, BlockLastStmtView, BlockStmtView, BlockView, DoView, ElseIfView,
    ElseView, ExpressionView, FieldPairView, FieldView, ForStepView, FunctionArgsView,
    FunctionBodyView, FunctionDeclarationView, GenericForView, IfView, LastStmtView,
    LocalAssignmentView, LocalFunctionView, NumericForView, PairView, PrefixView, PunctuatedView,
    RepeatView, StmtView, SuffixedView, SuffixView, TableConstructorView, WhileView,
};

verus! {

/// Where no comment among the first trivia is a directive, they give none.
pub proof fn lemma_no_directive_among(trivia: Seq<TokenView>, count: int)
    requires
        trivia_plain(trivia),
        0 <= count <= trivia.len(),
    ensures
        directive_among(trivia, count) is None,
    decreases count,
{
    if count > 0 {
        lemma_no_directive_among(trivia, count - 1);
    }
}

/// Where the state leaves no statement out and no comment in front of the
/// tokens is a directive, the statement made of the tokens is formatted, and
/// the state stays as it is.
pub proof fn lemma_decision(state: FormatterState, tokens: Seq<TokenReferenceView>)
    ensures
        format_decision(state, tokens).0.config == state.config,
        format_decision(state, tokens).0.range == state.range,
        quiet(state) && no_directive(tokens) ==> format_decision(state, tokens) == (state, true),
{
    if quiet(state) && no_directive(tokens) {
        if tokens.len() > 0 {
            lemma_no_directive_among(tokens[0].leading, tokens[0].leading.len() as int);
        }
    }
}

/// A formatted expression is tidy.
#[verifier::spinoff_prover]
pub proof fn lemma_formatted_expression_tidy(state: FormatterState, e: ExpressionView)
    ensures
        formatted_expression(state, e).0.config == state.config,
        formatted_expression(state, e).0.range == state.range,
        quiet(state) && no_directive(expression_tokens(e, true)) ==> tokens_tidy(
            state.config,
            expression_tokens(formatted_expression(state, e).1, true),
        ) && quiet(formatted_expression(state, e).0),
    decreases e, 0nat,
{
    reveal(formatted_expression);
    reveal(expression_tokens);
    let config = state.config;
    let premise = quiet(state) && no_directive(expression_tokens(e, true));
    lemma_formatted_expression(state, e);
    match e {
        ExpressionView::Number(t) => {
            let b0 = seq![t];
            let a0 = seq![state.format_token_reference(t)];
            lemma_tokens_one(config, t);
            lemma_tokens_one(config, state.format_token_reference(t));
            if premise {
                lemma_formatted_token_tidy(config, state, t);
            }
        },
        ExpressionView::String(t) => {
            let b0 = seq![t];
            let a0 = seq![state.format_token_reference(t)];
            lemma_tokens_one(config, t);
            lemma_tokens_one(config, state.format_token_reference(t));
            if premise {
                lemma_formatted_token_tidy(config, state, t);
            }
        },
        ExpressionView::Symbol(t) => {
            let b0 = seq![t];
            let a0 = seq![state.format_token_reference(t)];
            lemma_tokens_one(config, t);
            lemma_tokens_one(config, state.format_token_reference(t));
            if premise {
                lemma_formatted_token_tidy(config, state, t);
            }
        },
        ExpressionView::Name(t) => {
            let b0 = seq![t];
            let a0 = seq![state.format_token_reference(t)];
            lemma_tokens_one(config, t);
            lemma_tokens_one(config, state.format_token_reference(t));
            if premise {
                lemma_formatted_token_tidy(config, state, t);
            }
        },
        ExpressionView::Parentheses { open, expression, close } => {
            let (inner_state, inner) = formatted_expression(state, *expression);
            let b0 = seq![open];
            let a0 = seq![state.format_symbol(open, false, false)];
            lemma_tokens_one(config, open);
            lemma_tokens_one(config, state.format_symbol(open, false, false));
            let b1 = expression_tokens(*expression, true);
            let a1 = expression_tokens(formatted_expression(state, *expression).1, true);
            lemma_formatted_expression_tidy(state, *expression);
            let b2 = seq![close];
            let a2 = seq![inner_state.format_symbol(close, false, false)];
            lemma_tokens_one(config, close);
            lemma_tokens_one(config, inner_state.format_symbol(close, false, false));
            lemma_tokens_add(config, b0, b1);
            let before1 = b0 + b1;
            let after1 = a0 + a1;
            lemma_tokens_add(config, before1, b2);
            if premise {
                lemma_formatted_token_tidy(config, state, open);
                lemma_formatted_token_tidy(config, inner_state, close);
                lemma_tokens_add(config, a0, a1);
                lemma_tokens_add(config, after1, a2);
            }
        },
        ExpressionView::UnaryOperator { operator, expression } => {
            let b0 = seq![operator];
            let a0 = seq![state.format_symbol(operator, false, unary_gap(operator, *expression))];
            lemma_tokens_one(config, operator);
            lemma_tokens_one(
                config,
                state.format_symbol(operator, false, unary_gap(operator, *expression)),
            );
            let b1 = expression_tokens(*expression, true);
            let a1 = expression_tokens(formatted_expression(state, *expression).1, true);
            lemma_formatted_expression_tidy(state, *expression);
            lemma_tokens_add(config, b0, b1);
            if premise {
                lemma_formatted_token_tidy(config, state, operator);
                lemma_tokens_add(config, a0, a1);
            }
        },
        ExpressionView::BinaryOperator { lhs, operator, rhs } => {
            let (left_state, left) = formatted_expression(state, *lhs);
            let b0 = expression_tokens(*lhs, true);
            let a0 = expression_tokens(formatted_expression(state, *lhs).1, true);
            lemma_formatted_expression_tidy(state, *lhs);
            let b1 = seq![operator];
            let a1 = seq![left_state.format_symbol(operator, true, true)];
            lemma_tokens_one(config, operator);
            lemma_tokens_one(config, left_state.format_symbol(operator, true, true));
            let b2 = expression_tokens(*rhs, true);
            let a2 = expression_tokens(formatted_expression(left_state, *rhs).1, true);
            lemma_formatted_expression_tidy(left_state, *rhs);
            lemma_tokens_add(config, b0, b1);
            let before1 = b0 + b1;
            let after1 = a0 + a1;
            lemma_tokens_add(config, before1, b2);
            if premise {
                lemma_formatted_token_tidy(config, left_state, operator);
                lemma_tokens_add(config, a0, a1);
                lemma_tokens_add(config, after1, a2);
            }
        },
        ExpressionView::Function { function_token, body } => {
            let extra = state.range_indent_increase(token_range(function_token));
            let b0 = seq![function_token];
            let a0 = seq![state.format_symbol(function_token, false, false)];
            lemma_tokens_one(config, function_token);
            lemma_tokens_one(config, state.format_symbol(function_token, false, false));
            let b1 = function_body_tokens(body, true);
            let a1 = function_body_tokens(formatted_function_body(state, body, extra).1, true);
            lemma_formatted_function_body_tidy(state, body, extra);
            lemma_tokens_add(config, b0, b1);
            if premise {
                lemma_formatted_token_tidy(config, state, function_token);
                lemma_tokens_add(config, a0, a1);
            }
        },
        ExpressionView::FunctionCall(call) => {
            let (prefix_state, prefix) = formatted_prefix(state, call.prefix);
            assert(call.suffixes.take(call.suffixes.len() as int) =~= call.suffixes);
            let b0 = prefix_tokens(call.prefix, true);
            let a0 = prefix_tokens(formatted_prefix(state, call.prefix).1, true);
            lemma_formatted_prefix_tidy(state, call.prefix);
            let b1 = suffixes_tokens(call.suffixes, true);
            let a1 = suffixes_tokens(
                formatted_suffixes(prefix_state, call.suffixes, call.suffixes.len() as int).1,
                true,
            );
            lemma_formatted_suffixes_tidy(prefix_state, call.suffixes, call.suffixes.len() as int);
            lemma_tokens_add(config, b0, b1);
            if premise {
                lemma_tokens_add(config, a0, a1);
            }
        },
        ExpressionView::Var(var) => {
            let (prefix_state, prefix) = formatted_prefix(state, var.prefix);
            assert(var.suffixes.take(var.suffixes.len() as int) =~= var.suffixes);
            let b0 = prefix_tokens(var.prefix, true);
            let a0 = prefix_tokens(formatted_prefix(state, var.prefix).1, true);
            lemma_formatted_prefix_tidy(state, var.prefix);
            let b1 = suffixes_tokens(var.suffixes, true);
            let a1 = suffixes_tokens(
                formatted_suffixes(prefix_state, var.suffixes, var.suffixes.len() as int).1,
                true,
            );
            lemma_formatted_suffixes_tidy(prefix_state, var.suffixes, var.suffixes.len() as int);
            lemma_tokens_add(config, b0, b1);
            if premise {
                lemma_tokens_add(config, a0, a1);
            }
        },
        ExpressionView::TableConstructor(table) => {
            let b0 = table_tokens(table, true);
            let a0 = table_tokens(formatted_table(state, table).1, true);
            lemma_formatted_table_tidy(state, table);
            if premise {
            }
        },
    }
}

/// A formatted prefix is tidy.
#[verifier::spinoff_prover]
pub proof fn lemma_formatted_prefix_tidy(state: FormatterState, prefix: PrefixView)
    ensures
        formatted_prefix(state, prefix).0.config == state.config,
        formatted_prefix(state, prefix).0.range == state.range,
        quiet(state) && no_directive(prefix_tokens(prefix, true)) ==> tokens_tidy(
            state.config,
            prefix_tokens(formatted_prefix(state, prefix).1, true),
        ) && quiet(formatted_prefix(state, prefix).0),
    decreases prefix,
{
    reveal(formatted_prefix);
    reveal(prefix_tokens);
    let config = state.config;
    let premise = quiet(state) && no_directive(prefix_tokens(prefix, true));
    lemma_formatted_prefix(state, prefix);
    match prefix {
        PrefixView::Name(t) => {
            let b0 = seq![t];
            let a0 = seq![state.format_token_reference(t)];
            lemma_tokens_one(config, t);
            lemma_tokens_one(config, state.format_token_reference(t));
            if premise {
                lemma_formatted_token_tidy(config, state, t);
            }
        },
        PrefixView::Expression(e) => {
            let b0 = expression_tokens(*e, true);
            let a0 = expression_tokens(formatted_expression(state, *e).1, true);
            lemma_formatted_expression_tidy(state, *e);
            if premise {
            }
        },
    }
}

/// A formatted suffix is tidy.
#[verifier::spinoff_prover]
pub proof fn lemma_formatted_suffix_tidy(state: FormatterState, suffix: SuffixView)
    ensures
        formatted_suffix(state, suffix).0.config == state.config,
        formatted_suffix(state, suffix).0.range == state.range,
        quiet(state) && no_directive(suffix_tokens(suffix, true)) ==> tokens_tidy(
            state.config,
            suffix_tokens(formatted_suffix(state, suffix).1, true),
        ) && quiet(formatted_suffix(state, suffix).0),
    decreases suffix,
{
    reveal(formatted_suffix);
    reveal(suffix_tokens);
    let config = state.config;
    let premise = quiet(state) && no_directive(suffix_tokens(suffix, true));
    lemma_formatted_suffix(state, suffix);
    match suffix {
        SuffixView::Dot { dot, name } => {
            let b0 = seq![dot];
            let a0 = seq![state.format_symbol(dot, false, false)];
            lemma_tokens_one(config, dot);
            lemma_tokens_one(config, state.format_symbol(dot, false, false));
            let b1 = seq![name];
            let a1 = seq![state.format_token_reference(name)];
            lemma_tokens_one(config, name);
            lemma_tokens_one(config, state.format_token_reference(name));
            lemma_tokens_add(config, b0, b1);
            if premise {
                lemma_formatted_token_tidy(config, state, dot);
                lemma_formatted_token_tidy(config, state, name);
                lemma_tokens_add(config, a0, a1);
            }
        },
        SuffixView::Brackets { open, expression, close } => {
            let (end_state, formatted) = formatted_expression(state, expression);
            let b0 = seq![open];
            let a0 = seq![state.format_symbol(open, false, bracket_gap(expression))];
            lemma_tokens_one(config, open);
            lemma_tokens_one(config, state.format_symbol(open, false, bracket_gap(expression)));
            let b1 = expression_tokens(expression, true);
            let a1 = expression_tokens(formatted_expression(state, expression).1, true);
            lemma_formatted_expression_tidy(state, expression);
            let b2 = seq![close];
            let a2 = seq![end_state.format_symbol(close, bracket_gap(expression), false)];
            lemma_tokens_one(config, close);
            lemma_tokens_one(
                config,
                end_state.format_symbol(close, bracket_gap(expression), false),
            );
            lemma_tokens_add(config, b0, b1);
            let before1 = b0 + b1;
            let after1 = a0 + a1;
            lemma_tokens_add(config, before1, b2);
            if premise {
                lemma_formatted_token_tidy(config, state, open);
                lemma_formatted_token_tidy(config, end_state, close);
                lemma_tokens_add(config, a0, a1);
                lemma_tokens_add(config, after1, a2);
            }
        },
        SuffixView::Call(args) => {
            let b0 = function_args_tokens(args, true);
            let a0 = function_args_tokens(formatted_function_args(state, args).1, true);
            lemma_formatted_function_args_tidy(state, args);
            if premise {
            }
        },
        SuffixView::MethodCall { colon, name, args } => {
            let b0 = seq![colon];
            let a0 = seq![state.format_symbol(colon, false, false)];
            lemma_tokens_one(config, colon);
            lemma_tokens_one(config, state.format_symbol(colon, false, false));
            let b1 = seq![name];
            let a1 = seq![state.format_token_reference(name)];
            lemma_tokens_one(config, name);
            lemma_tokens_one(config, state.format_token_reference(name));
            let b2 = function_args_tokens(args, true);
            let a2 = function_args_tokens(formatted_function_args(state, args).1, true);
            lemma_formatted_function_args_tidy(state, args);
            lemma_tokens_add(config, b0, b1);
            let before1 = b0 + b1;
            let after1 = a0 + a1;
            lemma_tokens_add(config, before1, b2);
            if premise {
                lemma_formatted_token_tidy(config, state, colon);
                lemma_formatted_token_tidy(config, state, name);
                lemma_tokens_add(config, a0, a1);
                lemma_tokens_add(config, after1, a2);
            }
        },
    }
}

/// Formatted arguments are tidy.
#[verifier::spinoff_prover]
pub proof fn lemma_formatted_function_args_tidy(state: FormatterState, args: FunctionArgsView)
    ensures
        formatted_function_args(state, args).0.config == state.config,
        formatted_function_args(state, args).0.range == state.range,
        quiet(state) && no_directive(function_args_tokens(args, true)) ==> tokens_tidy(
            state.config,
            function_args_tokens(formatted_function_args(state, args).1, true),
        ) && quiet(formatted_function_args(state, args).0),
    decreases args,
{
    reveal(formatted_function_args);
    reveal(function_args_tokens);
    let config = state.config;
    let premise = quiet(state) && no_directive(function_args_tokens(args, true));
    lemma_formatted_function_args(state, args);
    match args {
        FunctionArgsView::Parentheses { open, arguments, close } => {
            let (end_state, list, comments) = formatted_punctuated(state, arguments);
            let b0 = seq![open];
            let a0 = seq![state.format_symbol(open, false, false)];
            lemma_tokens_one(config, open);
            lemma_tokens_one(config, state.format_symbol(open, false, false));
            let b1 = punctuated_tokens(arguments, true);
            let a1 = punctuated_tokens(formatted_punctuated(state, arguments).1, true);
            lemma_formatted_punctuated_tidy(state, arguments);
            let b2 = seq![close];
            let a2 = seq![
                with_trivia(
                    end_state.format_symbol(close, false, false),
                    FormatTriviaTypeView::NoChange,
                    FormatTriviaTypeView::Append(comments),
                ),
            ];
            lemma_tokens_one(config, close);
            lemma_tokens_one(
                config,
                with_trivia(
                    end_state.format_symbol(close, false, false),
                    FormatTriviaTypeView::NoChange,
                    FormatTriviaTypeView::Append(comments),
                ),
            );
            lemma_tokens_add(config, b0, b1);
            let before1 = b0 + b1;
            let after1 = a0 + a1;
            lemma_tokens_add(config, before1, b2);
            if premise {
                lemma_formatted_token_tidy(config, state, open);
                lemma_formatted_token_tidy(config, end_state, close);
                lemma_made_whitespace(config, end_state, None);
                lemma_edited_token_tidy(
                    config,
                    end_state.format_symbol(close, false, false),
                    FormatTriviaTypeView::NoChange,
                    FormatTriviaTypeView::Append(comments),
                );
                lemma_tokens_add(config, a0, a1);
                lemma_tokens_add(config, after1, a2);
            }
        },
        FunctionArgsView::String(t) => {
            let b0 = seq![t];
            let a0 = seq![state.format_token_reference(t)];
            lemma_tokens_one(config, t);
            lemma_tokens_one(config, state.format_token_reference(t));
            if premise {
                lemma_formatted_token_tidy(config, state, t);
            }
        },
        FunctionArgsView::TableConstructor(table) => {
            let b0 = table_tokens(table, true);
            let a0 = table_tokens(formatted_table(state, table).1, true);
            lemma_formatted_table_tidy(state, table);
            if premise {
            }
        },
    }
}

/// A formatted field is tidy.
#[verifier::spinoff_prover]
pub proof fn lemma_formatted_field_tidy(state: FormatterState, field: FieldView)
    ensures
        formatted_field(state, field).0.config == state.config,
        formatted_field(state, field).0.range == state.range,
        quiet(state) && no_directive(field_tokens(field, true)) ==> tokens_tidy(
            state.config,
            field_tokens(formatted_field(state, field).1, true),
        ) && quiet(formatted_field(state, field).0),
    decreases field,
{
    reveal(formatted_field);
    reveal(field_tokens);
    let config = state.config;
    let premise = quiet(state) && no_directive(field_tokens(field, true));
    lemma_formatted_field(state, field);
    match field {
        FieldView::ExpressionKey { open, key, close, equal, value } => {
            let (key_state, formatted_key) = formatted_expression(state, key);
            let b0 = seq![open];
            let a0 = seq![state.format_symbol(open, false, bracket_gap(key))];
            lemma_tokens_one(config, open);
            lemma_tokens_one(config, state.format_symbol(open, false, bracket_gap(key)));
            let b1 = expression_tokens(key, true);
            let a1 = expression_tokens(formatted_expression(state, key).1, true);
            lemma_formatted_expression_tidy(state, key);
            let b2 = seq![close];
            let a2 = seq![key_state.format_symbol(close, bracket_gap(key), false)];
            lemma_tokens_one(config, close);
            lemma_tokens_one(config, key_state.format_symbol(close, bracket_gap(key), false));
            let b3 = seq![equal];
            let a3 = seq![key_state.format_symbol(equal, true, true)];
            lemma_tokens_one(config, equal);
            lemma_tokens_one(config, key_state.format_symbol(equal, true, true));
            let b4 = expression_tokens(value, true);
            let a4 = expression_tokens(formatted_expression(key_state, value).1, true);
            lemma_formatted_expression_tidy(key_state, value);
            lemma_tokens_add(config, b0, b1);
            let before1 = b0 + b1;
            let after1 = a0 + a1;
            lemma_tokens_add(config, before1, b2);
            let before2 = before1 + b2;
            let after2 = after1 + a2;
            lemma_tokens_add(config, before2, b3);
            let before3 = before2 + b3;
            let after3 = after2 + a3;
            lemma_tokens_add(config, before3, b4);
            if premise {
                lemma_formatted_token_tidy(config, state, open);
                lemma_formatted_token_tidy(config, key_state, close);
                lemma_formatted_token_tidy(config, key_state, equal);
                lemma_tokens_add(config, a0, a1);
                lemma_tokens_add(config, after1, a2);
                lemma_tokens_add(config, after2, a3);
                lemma_tokens_add(config, after3, a4);
            }
        },
        FieldView::NameKey { name, equal, value } => {
            let b0 = seq![name];
            let a0 = seq![state.format_token_reference(name)];
            lemma_tokens_one(config, name);
            lemma_tokens_one(config, state.format_token_reference(name));
            let b1 = seq![equal];
            let a1 = seq![state.format_symbol(equal, true, true)];
            lemma_tokens_one(config, equal);
            lemma_tokens_one(config, state.format_symbol(equal, true, true));
            let b2 = expression_tokens(value, true);
            let a2 = expression_tokens(formatted_expression(state, value).1, true);
            lemma_formatted_expression_tidy(state, value);
            lemma_tokens_add(config, b0, b1);
            let before1 = b0 + b1;
            let after1 = a0 + a1;
            lemma_tokens_add(config, before1, b2);
            if premise {
                lemma_formatted_token_tidy(config, state, name);
                lemma_formatted_token_tidy(config, state, equal);
                lemma_tokens_add(config, a0, a1);
                lemma_tokens_add(config, after1, a2);
            }
        },
        FieldView::NoKey(value) => {
            let b0 = expression_tokens(value, true);
            let a0 = expression_tokens(formatted_expression(state, value).1, true);
            lemma_formatted_expression_tidy(state, value);
            if premise {
            }
        },
    }
}

/// A formatted table is tidy.
#[verifier::spinoff_prover]
pub proof fn lemma_formatted_table_tidy(state: FormatterState, table: TableConstructorView)
    ensures
        formatted_table(state, table).0.config == state.config,
        formatted_table(state, table).0.range == state.range,
        quiet(state) && no_directive(table_tokens(table, true)) ==> tokens_tidy(
            state.config,
            table_tokens(formatted_table(state, table).1, true),
        ) && quiet(formatted_table(state, table).0),
    decreases table,
{
    reveal(formatted_table);
    reveal(table_tokens);
    let config = state.config;
    let premise = quiet(state) && no_directive(table_tokens(table, true));
    lemma_formatted_table(state, table);
    let spaced = table.fields.len() > 0;
    let (end_state, fields, comments) = formatted_fields(
        state,
        table.fields,
        table.fields.len() as int,
    );
    assert(table.fields.take(table.fields.len() as int) =~= table.fields);
    lemma_fields_tokens(table.fields);
    lemma_fields_tokens(fields);
    let b0 = seq![table.open];
    let a0 = seq![state.format_symbol(table.open, false, spaced)];
    lemma_tokens_one(config, table.open);
    lemma_tokens_one(config, state.format_symbol(table.open, false, spaced));
    let b1 = fields_tokens(table.fields, true);
    let a1 = fields_tokens(fields, true);
    lemma_formatted_fields_tidy(state, table.fields, table.fields.len() as int);
    let b2 = seq![table.close];
    let a2 = seq![
        with_trivia(
            end_state.format_symbol(table.close, spaced, false),
            FormatTriviaTypeView::NoChange,
            FormatTriviaTypeView::Append(comments),
        ),
    ];
    lemma_tokens_one(config, table.close);
    lemma_tokens_one(
        config,
        with_trivia(
            end_state.format_symbol(table.close, spaced, false),
            FormatTriviaTypeView::NoChange,
            FormatTriviaTypeView::Append(comments),
        ),
    );
    lemma_tokens_add(config, b0, b1);
    let before1 = b0 + b1;
    let after1 = a0 + a1;
    lemma_tokens_add(config, before1, b2);
    if premise {
        lemma_formatted_token_tidy(config, state, table.open);
        lemma_formatted_token_tidy(config, end_state, table.close);
        lemma_made_whitespace(config, end_state, None);
        lemma_edited_token_tidy(
            config,
            end_state.format_symbol(table.close, spaced, false),
            FormatTriviaTypeView::NoChange,
            FormatTriviaTypeView::Append(comments),
        );
        lemma_tokens_add(config, a0, a1);
        lemma_tokens_add(config, after1, a2);
    }
}

/// A formatted function body is tidy.
#[verifier::spinoff_prover]
pub proof fn lemma_formatted_function_body_tidy(
    state: FormatterState,
    body: FunctionBodyView,
    extra: Option<usize>,
)
    ensures
        formatted_function_body(state, body, extra).0.config == state.config,
        formatted_function_body(state, body, extra).0.range == state.range,
        quiet(state) && no_directive(function_body_tokens(body, true)) ==> tokens_tidy(
            state.config,
            function_body_tokens(formatted_function_body(state, body, extra).1, true),
        ) && quiet(formatted_function_body(state, body, extra).0),
    decreases body,
{
    reveal(formatted_function_body);
    reveal(function_body_tokens);
    let config = state.config;
    let premise = quiet(state) && no_directive(function_body_tokens(body, true));
    lemma_formatted_function_body(state, body, extra);
    let (list_state, parameters, comments) = formatted_punctuated(state, body.parameters);
    let (end_state, block) = formatted_nested_block(list_state, body.block);
    let b0 = seq![body.open];
    let a0 = seq![state.format_symbol(body.open, false, false)];
    lemma_tokens_one(config, body.open);
    lemma_tokens_one(config, state.format_symbol(body.open, false, false));
    let b1 = punctuated_tokens(body.parameters, true);
    let a1 = punctuated_tokens(formatted_punctuated(state, body.parameters).1, true);
    lemma_formatted_punctuated_tidy(state, body.parameters);
    let b2 = seq![body.close];
    let a2 = seq![
        with_trivia(
            list_state.format_symbol(body.close, false, false),
            FormatTriviaTypeView::NoChange,
            FormatTriviaTypeView::Append(comments + seq![list_state.newline_trivia()]),
        ),
    ];
    lemma_tokens_one(config, body.close);
    lemma_tokens_one(
        config,
        with_trivia(
            list_state.format_symbol(body.close, false, false),
            FormatTriviaTypeView::NoChange,
            FormatTriviaTypeView::Append(comments + seq![list_state.newline_trivia()]),
        ),
    );
    let b3 = block_tokens(body.block, true);
    let a3 = block_tokens(formatted_nested_block(list_state, body.block).1, true);
    lemma_formatted_nested_block_tidy(list_state, body.block);
    let b4 = seq![body.end_token];
    let a4 = seq![
        with_trivia(
            end_state.format_end_token(body.end_token, EndTokenType::BlockEnd),
            FormatTriviaTypeView::Append(seq![end_state.indent_trivia(extra)]),
            FormatTriviaTypeView::NoChange,
        ),
    ];
    lemma_tokens_one(config, body.end_token);
    lemma_tokens_one(
        config,
        with_trivia(
            end_state.format_end_token(body.end_token, EndTokenType::BlockEnd),
            FormatTriviaTypeView::Append(seq![end_state.indent_trivia(extra)]),
            FormatTriviaTypeView::NoChange,
        ),
    );
    lemma_tokens_add(config, b0, b1);
    let before1 = b0 + b1;
    let after1 = a0 + a1;
    lemma_tokens_add(config, before1, b2);
    let before2 = before1 + b2;
    let after2 = after1 + a2;
    lemma_tokens_add(config, before2, b3);
    let before3 = before2 + b3;
    let after3 = after2 + a3;
    lemma_tokens_add(config, before3, b4);
    if premise {
        lemma_formatted_token_tidy(config, state, body.open);
        lemma_formatted_token_tidy(config, list_state, body.close);
        lemma_made_whitespace(config, list_state, None);
        lemma_made_whitespace(config, list_state, None);
        lemma_trivia_add(config, comments, seq![list_state.newline_trivia()]);
        lemma_edited_token_tidy(
            config,
            list_state.format_symbol(body.close, false, false),
            FormatTriviaTypeView::NoChange,
            FormatTriviaTypeView::Append(comments + seq![list_state.newline_trivia()]),
        );
        lemma_formatted_token_tidy(config, end_state, body.end_token);
        lemma_made_whitespace(config, end_state, None);
        lemma_made_whitespace(config, end_state, extra);
        lemma_edited_token_tidy(
            config,
            end_state.format_end_token(body.end_token, EndTokenType::BlockEnd),
            FormatTriviaTypeView::Append(seq![end_state.indent_trivia(extra)]),
            FormatTriviaTypeView::NoChange,
        );
        lemma_tokens_add(config, a0, a1);
        lemma_tokens_add(config, after1, a2);
        lemma_tokens_add(config, after2, a3);
        lemma_tokens_add(config, after3, a4);
    }
}

/// A formatted nested block is tidy.
#[verifier::spinoff_prover]
pub proof fn lemma_formatted_nested_block_tidy(state: FormatterState, block: BlockView)
    ensures
        formatted_nested_block(state, block).0.config == state.config,
        formatted_nested_block(state, block).0.range == state.range,
        quiet(state) && no_directive(block_tokens(block, true)) ==> (
            tokens_tidy(state.config, block_tokens(formatted_nested_block(state, block).1, true))
            && quiet(formatted_nested_block(state, block).0)
        ),
    decreases block, 1nat,
{
    reveal(formatted_nested_block);
    lemma_formatted_block_tidy(state.nested(), block);
}

/// A formatted block is tidy.
#[verifier::spinoff_prover]
pub proof fn lemma_formatted_block_tidy(state: FormatterState, block: BlockView)
    ensures
        formatted_block(state, block).0.config == state.config,
        formatted_block(state, block).0.range == state.range,
        quiet(state) && no_directive(block_tokens(block, true)) ==> tokens_tidy(
            state.config,
            block_tokens(formatted_block(state, block).1, true),
        ) && quiet(formatted_block(state, block).0),
    decreases block, 0nat,
{
    reveal(formatted_block);
    reveal(block_tokens);
    let config = state.config;
    let premise = quiet(state) && no_directive(block_tokens(block, true));
    lemma_formatted_block(state, block);
    let (stmts_state, stmts) = formatted_stmts(state, block.stmts, block.stmts.len() as int);
    assert(block.stmts.take(block.stmts.len() as int) =~= block.stmts);
    let b0 = block_stmts_tokens(block.stmts, true);
    let a0 = block_stmts_tokens(stmts, true);
    lemma_formatted_stmts_tidy(state, block.stmts, block.stmts.len() as int);
    let b1 = block_last_tokens(block.last_stmt, true);
    let a1 = block_last_tokens(formatted_block_last(stmts_state, block.last_stmt).1, true);
    lemma_formatted_block_last_tidy(stmts_state, block.last_stmt);
    lemma_tokens_add(config, b0, b1);
    if premise {
        lemma_tokens_add(config, a0, a1);
    }
}

/// A formatted `return` or `break` is tidy.
#[verifier::spinoff_prover]
pub proof fn lemma_formatted_last_stmt_tidy(state: FormatterState, stmt: LastStmtView)
    ensures
        formatted_last_stmt(state, stmt).0.config == state.config,
        formatted_last_stmt(state, stmt).0.range == state.range,
        quiet(state) && no_directive(last_stmt_tokens(stmt, true)) ==> tokens_tidy(
            state.config,
            last_stmt_tokens(formatted_last_stmt(state, stmt).1, true),
        ) && quiet(formatted_last_stmt(state, stmt).0),
    decreases stmt,
{
    reveal(formatted_last_stmt);
    reveal(last_stmt_tokens);
    let config = state.config;
    let premise = quiet(state) && no_directive(last_stmt_tokens(stmt, true));
    lemma_formatted_last_stmt(state, stmt);
    match stmt {
        LastStmtView::Break(t) => {
            let extra = state.range_indent_increase(token_range(t));
            let b0 = seq![t];
            let a0 = seq![
                with_trivia(
                    state.format_symbol(t, false, false),
                    FormatTriviaTypeView::Append(seq![state.indent_trivia(extra)]),
                    FormatTriviaTypeView::Append(seq![state.newline_trivia()]),
                ),
            ];
            lemma_tokens_one(config, t);
            lemma_tokens_one(
                config,
                with_trivia(
                    state.format_symbol(t, false, false),
                    FormatTriviaTypeView::Append(seq![state.indent_trivia(extra)]),
                    FormatTriviaTypeView::Append(seq![state.newline_trivia()]),
                ),
            );
            if premise {
                lemma_formatted_token_tidy(config, state, t);
                lemma_made_whitespace(config, state, None);
                lemma_made_whitespace(config, state, extra);
                lemma_made_whitespace(config, state, None);
                lemma_edited_token_tidy(
                    config,
                    state.format_symbol(t, false, false),
                    FormatTriviaTypeView::Append(seq![state.indent_trivia(extra)]),
                    FormatTriviaTypeView::Append(seq![state.newline_trivia()]),
                );
            }
        },
        LastStmtView::Return { token, values } => {
            let extra = state.range_indent_increase(token_range(token));
            let (end_state, list, comments) = formatted_punctuated(state, values);
            let keyword = opening(
                state,
                state.format_symbol(token, false, values.pairs.len() > 0),
                extra,
            );
            let trivia = comments + seq![state.newline_trivia()];
            let ended = line_end(keyword, list, append(trivia));
            lemma_formatted_punctuated_tidy(state, values);
            lemma_tokens_one(config, token);
            lemma_tokens_one(config, ended.0);
            lemma_tokens_add(config, seq![token], punctuated_tokens(values, true));
            lemma_tokens_add(config, seq![ended.0], punctuated_tokens(ended.1, true));
            if premise {
                lemma_made_whitespace(config, state, extra);
                lemma_formatted_token_tidy(config, state, token);
                lemma_line_tokens_tidy(
                    config,
                    state,
                    state.format_symbol(token, false, values.pairs.len() > 0),
                    extra,
                );
                lemma_trivia_add(config, comments, seq![state.newline_trivia()]);
                lemma_line_end_tidy(config, keyword, list, append(trivia));
            }
        },
    }
}

/// A formatted `do` block is tidy.
#[verifier::spinoff_prover]
pub proof fn lemma_formatted_do_tidy(state: FormatterState, node: DoView)
    ensures
        formatted_do(state, node).0.config == state.config,
        formatted_do(state, node).0.range == state.range,
        quiet(state) && no_directive(stmt_tokens(StmtView::Do(node), true)) ==> tokens_tidy(
            state.config,
            stmt_tokens(StmtView::Do(formatted_do(state, node).1), true),
        ) && quiet(formatted_do(state, node).0),
    decreases node,
{
    reveal(formatted_do);
    reveal(stmt_tokens);
    let config = state.config;
    let premise = quiet(state) && no_directive(stmt_tokens(StmtView::Do(node), true));
    lemma_formatted_do(state, node);
    let extra = state.range_indent_increase(token_range(node.do_token));
    let (end_state, block) = formatted_nested_block(state, node.block);
    let b0 = seq![node.do_token];
    let a0 = seq![
        with_trivia(
            state.format_symbol(node.do_token, false, false),
            FormatTriviaTypeView::Append(seq![state.indent_trivia(extra)]),
            FormatTriviaTypeView::Append(seq![state.newline_trivia()]),
        ),
    ];
    lemma_tokens_one(config, node.do_token);
    lemma_tokens_one(
        config,
        with_trivia(
            state.format_symbol(node.do_token, false, false),
            FormatTriviaTypeView::Append(seq![state.indent_trivia(extra)]),
            FormatTriviaTypeView::Append(seq![state.newline_trivia()]),
        ),
    );
    let b1 = block_tokens(node.block, true);
    let a1 = block_tokens(formatted_nested_block(state, node.block).1, true);
    lemma_formatted_nested_block_tidy(state, node.block);
    let b2 = seq![node.end_token];
    let a2 = seq![
        with_trivia(
            end_state.format_end_token(node.end_token, EndTokenType::BlockEnd),
            FormatTriviaTypeView::Append(seq![end_state.indent_trivia(extra)]),
            FormatTriviaTypeView::Append(seq![end_state.newline_trivia()]),
        ),
    ];
    lemma_tokens_one(config, node.end_token);
    lemma_tokens_one(
        config,
        with_trivia(
            end_state.format_end_token(node.end_token, EndTokenType::BlockEnd),
            FormatTriviaTypeView::Append(seq![end_state.indent_trivia(extra)]),
            FormatTriviaTypeView::Append(seq![end_state.newline_trivia()]),
        ),
    );
    lemma_tokens_add(config, b0, b1);
    let before1 = b0 + b1;
    let after1 = a0 + a1;
    lemma_tokens_add(config, before1, b2);
    if premise {
        lemma_formatted_token_tidy(config, state, node.do_token);
        lemma_made_whitespace(config, state, None);
        lemma_made_whitespace(config, state, extra);
        lemma_made_whitespace(config, state, None);
        lemma_edited_token_tidy(
            config,
            state.format_symbol(node.do_token, false, false),
            FormatTriviaTypeView::Append(seq![state.indent_trivia(extra)]),
            FormatTriviaTypeView::Append(seq![state.newline_trivia()]),
        );
        lemma_formatted_token_tidy(config, end_state, node.end_token);
        lemma_made_whitespace(config, end_state, None);
        lemma_made_whitespace(config, end_state, extra);
        lemma_made_whitespace(config, end_state, None);
        lemma_edited_token_tidy(
            config,
            end_state.format_end_token(node.end_token, EndTokenType::BlockEnd),
            FormatTriviaTypeView::Append(seq![end_state.indent_trivia(extra)]),
            FormatTriviaTypeView::Append(seq![end_state.newline_trivia()]),
        );
        lemma_tokens_add(config, a0, a1);
        lemma_tokens_add(config, after1, a2);
    }
}

/// A formatted generic `for` is tidy.
#[verifier::spinoff_prover]
pub proof fn lemma_formatted_generic_for_tidy(state: FormatterState, node: GenericForView)
    ensures
        formatted_generic_for(state, node).0.config == state.config,
        formatted_generic_for(state, node).0.range == state.range,
        quiet(state) && no_directive(stmt_tokens(StmtView::GenericFor(node), true)) ==> tokens_tidy(
            state.config,
            stmt_tokens(StmtView::GenericFor(formatted_generic_for(state, node).1), true),
        ) && quiet(formatted_generic_for(state, node).0),
    decreases node,
{
    reveal(formatted_generic_for);
    reveal(stmt_tokens);
    let config = state.config;
    let premise = quiet(state) && no_directive(stmt_tokens(StmtView::GenericFor(node), true));
    lemma_formatted_generic_for(state, node);
    let extra = state.range_indent_increase(token_range(node.for_token));
    let (names_state, names, name_comments) = formatted_punctuated(state, node.names);
    let (exprs_state, exprs, expr_comments) = formatted_punctuated(names_state, node.expr_list);
    let (end_state, block) = formatted_nested_block(exprs_state, node.block);
    let b0 = seq![node.for_token];
    let a0 = seq![
        with_trivia(
            state.format_symbol(node.for_token, false, true),
            FormatTriviaTypeView::Append(seq![state.indent_trivia(extra)]),
            FormatTriviaTypeView::NoChange,
        ),
    ];
    lemma_tokens_one(config, node.for_token);
    lemma_tokens_one(
        config,
        with_trivia(
            state.format_symbol(node.for_token, false, true),
            FormatTriviaTypeView::Append(seq![state.indent_trivia(extra)]),
            FormatTriviaTypeView::NoChange,
        ),
    );
    let b1 = punctuated_tokens(node.names, true);
    let a1 = punctuated_tokens(formatted_punctuated(state, node.names).1, true);
    lemma_formatted_punctuated_tidy(state, node.names);
    let b2 = seq![node.in_token];
    let a2 = seq![names_state.format_symbol(node.in_token, true, true)];
    lemma_tokens_one(config, node.in_token);
    lemma_tokens_one(config, names_state.format_symbol(node.in_token, true, true));
    let b3 = punctuated_tokens(node.expr_list, true);
    let a3 = punctuated_tokens(formatted_punctuated(names_state, node.expr_list).1, true);
    lemma_formatted_punctuated_tidy(names_state, node.expr_list);
    let b4 = seq![node.do_token];
    let a4 = seq![
        with_trivia(
            exprs_state.format_symbol(node.do_token, true, false),
            FormatTriviaTypeView::NoChange,
            FormatTriviaTypeView::Append(
                name_comments + expr_comments + seq![state.newline_trivia()],
            ),
        ),
    ];
    lemma_tokens_one(config, node.do_token);
    lemma_tokens_one(
        config,
        with_trivia(
            exprs_state.format_symbol(node.do_token, true, false),
            FormatTriviaTypeView::NoChange,
            FormatTriviaTypeView::Append(
                name_comments + expr_comments + seq![state.newline_trivia()],
            ),
        ),
    );
    let b5 = block_tokens(node.block, true);
    let a5 = block_tokens(formatted_nested_block(exprs_state, node.block).1, true);
    lemma_formatted_nested_block_tidy(exprs_state, node.block);
    let b6 = seq![node.end_token];
    let a6 = seq![
        with_trivia(
            end_state.format_end_token(node.end_token, EndTokenType::BlockEnd),
            FormatTriviaTypeView::Append(seq![end_state.indent_trivia(extra)]),
            FormatTriviaTypeView::Append(seq![end_state.newline_trivia()]),
        ),
    ];
    lemma_tokens_one(config, node.end_token);
    lemma_tokens_one(
        config,
        with_trivia(
            end_state.format_end_token(node.end_token, EndTokenType::BlockEnd),
            FormatTriviaTypeView::Append(seq![end_state.indent_trivia(extra)]),
            FormatTriviaTypeView::Append(seq![end_state.newline_trivia()]),
        ),
    );
    lemma_tokens_add(config, b0, b1);
    let before1 = b0 + b1;
    let after1 = a0 + a1;
    lemma_tokens_add(config, before1, b2);
    let before2 = before1 + b2;
    let after2 = after1 + a2;
    lemma_tokens_add(config, before2, b3);
    let before3 = before2 + b3;
    let after3 = after2 + a3;
    lemma_tokens_add(config, before3, b4);
    let before4 = before3 + b4;
    let after4 = after3 + a4;
    lemma_tokens_add(config, before4, b5);
    let before5 = before4 + b5;
    let after5 = after4 + a5;
    lemma_tokens_add(config, before5, b6);
    if premise {
        lemma_formatted_token_tidy(config, state, node.for_token);
        lemma_made_whitespace(config, state, None);
        lemma_made_whitespace(config, state, extra);
        lemma_edited_token_tidy(
            config,
            state.format_symbol(node.for_token, false, true),
            FormatTriviaTypeView::Append(seq![state.indent_trivia(extra)]),
            FormatTriviaTypeView::NoChange,
        );
        lemma_formatted_token_tidy(config, names_state, node.in_token);
        lemma_formatted_token_tidy(config, exprs_state, node.do_token);
        lemma_made_whitespace(config, exprs_state, None);
        lemma_made_whitespace(config, state, None);
        lemma_trivia_add(config, name_comments, expr_comments);
        lemma_trivia_add(config, name_comments + expr_comments, seq![state.newline_trivia()]);
        lemma_edited_token_tidy(
            config,
            exprs_state.format_symbol(node.do_token, true, false),
            FormatTriviaTypeView::NoChange,
            FormatTriviaTypeView::Append(
                name_comments + expr_comments + seq![state.newline_trivia()],
            ),
        );
        lemma_formatted_token_tidy(config, end_state, node.end_token);
        lemma_made_whitespace(config, end_state, None);
        lemma_made_whitespace(config, end_state, extra);
        lemma_made_whitespace(config, end_state, None);
        lemma_edited_token_tidy(
            config,
            end_state.format_end_token(node.end_token, EndTokenType::BlockEnd),
            FormatTriviaTypeView::Append(seq![end_state.indent_trivia(extra)]),
            FormatTriviaTypeView::Append(seq![end_state.newline_trivia()]),
        );
        lemma_tokens_add(config, a0, a1);
        lemma_tokens_add(config, after1, a2);
        lemma_tokens_add(config, after2, a3);
        lemma_tokens_add(config, after3, a4);
        lemma_tokens_add(config, after4, a5);
        lemma_tokens_add(config, after5, a6);
    }
}

/// The formatted step of a numeric `for` is tidy.
#[verifier::spinoff_prover]
pub proof fn lemma_formatted_step_tidy(state: FormatterState, step: Option<ForStepView>)
    ensures
        formatted_step(state, step).0.config == state.config,
        formatted_step(state, step).0.range == state.range,
        quiet(state) && no_directive(step_tokens(step, true)) ==> tokens_tidy(
            state.config,
            step_tokens(formatted_step(state, step).1, true),
        ) && quiet(formatted_step(state, step).0),
    decreases step,
{
    reveal(formatted_step);
    reveal(step_tokens);
    let config = state.config;
    let premise = quiet(state) && no_directive(step_tokens(step, true));
    lemma_formatted_step(state, step);
    match step {
        Some(inner) => {
            let b0 = seq![inner.comma];
            let a0 = seq![state.format_symbol(inner.comma, false, true)];
            lemma_tokens_one(config, inner.comma);
            lemma_tokens_one(config, state.format_symbol(inner.comma, false, true));
            let b1 = expression_tokens(inner.step, true);
            let a1 = expression_tokens(formatted_expression(state, inner.step).1, true);
            lemma_formatted_expression_tidy(state, inner.step);
            lemma_tokens_add(config, b0, b1);
            if premise {
                lemma_formatted_token_tidy(config, state, inner.comma);
                lemma_tokens_add(config, a0, a1);
            }
        },
        None => {
            lemma_tokens_one(config, arbitrary());
            if premise {
            }
        },
    }
}

/// A formatted numeric `for` is tidy.
#[verifier::spinoff_prover]
pub proof fn lemma_formatted_numeric_for_tidy(state: FormatterState, node: NumericForView)
    ensures
        formatted_numeric_for(state, node).0.config == state.config,
        formatted_numeric_for(state, node).0.range == state.range,
        quiet(state) && no_directive(stmt_tokens(StmtView::NumericFor(node), true)) ==> tokens_tidy(
            state.config,
            stmt_tokens(StmtView::NumericFor(formatted_numeric_for(state, node).1), true),
        ) && quiet(formatted_numeric_for(state, node).0),
    decreases node,
{
    reveal(formatted_numeric_for);
    reveal(stmt_tokens);
    let config = state.config;
    let premise = quiet(state) && no_directive(stmt_tokens(StmtView::NumericFor(node), true));
    lemma_formatted_numeric_for(state, node);
    let extra = state.range_indent_increase(token_range(node.for_token));
    let (start_state, start) = formatted_expression(state, node.start);
    let (limit_state, end) = formatted_expression(start_state, node.end);
    let (step_state, step) = formatted_step(limit_state, node.step);
    let (end_state, block) = formatted_nested_block(step_state, node.block);
    let b0 = seq![node.for_token];
    let a0 = seq![
        with_trivia(
            state.format_symbol(node.for_token, false, true),
            FormatTriviaTypeView::Append(seq![state.indent_trivia(extra)]),
            FormatTriviaTypeView::NoChange,
        ),
    ];
    lemma_tokens_one(config, node.for_token);
    lemma_tokens_one(
        config,
        with_trivia(
            state.format_symbol(node.for_token, false, true),
            FormatTriviaTypeView::Append(seq![state.indent_trivia(extra)]),
            FormatTriviaTypeView::NoChange,
        ),
    );
    let b1 = seq![node.index_variable];
    let a1 = seq![state.format_token_reference(node.index_variable)];
    lemma_tokens_one(config, node.index_variable);
    lemma_tokens_one(config, state.format_token_reference(node.index_variable));
    let b2 = seq![node.equal_token];
    let a2 = seq![state.format_symbol(node.equal_token, true, true)];
    lemma_tokens_one(config, node.equal_token);
    lemma_tokens_one(config, state.format_symbol(node.equal_token, true, true));
    let b3 = expression_tokens(node.start, true);
    let a3 = expression_tokens(formatted_expression(state, node.start).1, true);
    lemma_formatted_expression_tidy(state, node.start);
    let b4 = seq![node.start_end_comma];
    let a4 = seq![start_state.format_symbol(node.start_end_comma, false, true)];
    lemma_tokens_one(config, node.start_end_comma);
    lemma_tokens_one(config, start_state.format_symbol(node.start_end_comma, false, true));
    let b5 = expression_tokens(node.end, true);
    let a5 = expression_tokens(formatted_expression(start_state, node.end).1, true);
    lemma_formatted_expression_tidy(start_state, node.end);
    let b6 = step_tokens(node.step, true);
    let a6 = step_tokens(formatted_step(limit_state, node.step).1, true);
    lemma_formatted_step_tidy(limit_state, node.step);
    let b7 = seq![node.do_token];
    let a7 = seq![
        with_trivia(
            step_state.format_symbol(node.do_token, true, false),
            FormatTriviaTypeView::NoChange,
            FormatTriviaTypeView::Append(seq![state.newline_trivia()]),
        ),
    ];
    lemma_tokens_one(config, node.do_token);
    lemma_tokens_one(
        config,
        with_trivia(
            step_state.format_symbol(node.do_token, true, false),
            FormatTriviaTypeView::NoChange,
            FormatTriviaTypeView::Append(seq![state.newline_trivia()]),
        ),
    );
    let b8 = block_tokens(node.block, true);
    let a8 = block_tokens(formatted_nested_block(step_state, node.block).1, true);
    lemma_formatted_nested_block_tidy(step_state, node.block);
    let b9 = seq![node.end_token];
    let a9 = seq![
        with_trivia(
            end_state.format_end_token(node.end_token, EndTokenType::BlockEnd),
            FormatTriviaTypeView::Append(seq![end_state.indent_trivia(extra)]),
            FormatTriviaTypeView::Append(seq![end_state.newline_trivia()]),
        ),
    ];
    lemma_tokens_one(config, node.end_token);
    lemma_tokens_one(
        config,
        with_trivia(
            end_state.format_end_token(node.end_token, EndTokenType::BlockEnd),
            FormatTriviaTypeView::Append(seq![end_state.indent_trivia(extra)]),
            FormatTriviaTypeView::Append(seq![end_state.newline_trivia()]),
        ),
    );
    lemma_tokens_add(config, b0, b1);
    let before1 = b0 + b1;
    let after1 = a0 + a1;
    lemma_tokens_add(config, before1, b2);
    let before2 = before1 + b2;
    let after2 = after1 + a2;
    lemma_tokens_add(config, before2, b3);
    let before3 = before2 + b3;
    let after3 = after2 + a3;
    lemma_tokens_add(config, before3, b4);
    let before4 = before3 + b4;
    let after4 = after3 + a4;
    lemma_tokens_add(config, before4, b5);
    let before5 = before4 + b5;
    let after5 = after4 + a5;
    lemma_tokens_add(config, before5, b6);
    let before6 = before5 + b6;
    let after6 = after5 + a6;
    lemma_tokens_add(config, before6, b7);
    let before7 = before6 + b7;
    let after7 = after6 + a7;
    lemma_tokens_add(config, before7, b8);
    let before8 = before7 + b8;
    let after8 = after7 + a8;
    lemma_tokens_add(config, before8, b9);
    if premise {
        lemma_formatted_token_tidy(config, state, node.for_token);
        lemma_made_whitespace(config, state, None);
        lemma_made_whitespace(config, state, extra);
        lemma_edited_token_tidy(
            config,
            state.format_symbol(node.for_token, false, true),
            FormatTriviaTypeView::Append(seq![state.indent_trivia(extra)]),
            FormatTriviaTypeView::NoChange,
        );
        lemma_formatted_token_tidy(config, state, node.index_variable);
        lemma_formatted_token_tidy(config, state, node.equal_token);
        lemma_formatted_token_tidy(config, start_state, node.start_end_comma);
        lemma_formatted_token_tidy(config, step_state, node.do_token);
        lemma_made_whitespace(config, step_state, None);
        lemma_made_whitespace(config, state, None);
        lemma_edited_token_tidy(
            config,
            step_state.format_symbol(node.do_token, true, false),
            FormatTriviaTypeView::NoChange,
            FormatTriviaTypeView::Append(seq![state.newline_trivia()]),
        );
        lemma_formatted_token_tidy(config, end_state, node.end_token);
        lemma_made_whitespace(config, end_state, None);
        lemma_made_whitespace(config, end_state, extra);
        lemma_made_whitespace(config, end_state, None);
        lemma_edited_token_tidy(
            config,
            end_state.format_end_token(node.end_token, EndTokenType::BlockEnd),
            FormatTriviaTypeView::Append(seq![end_state.indent_trivia(extra)]),
            FormatTriviaTypeView::Append(seq![end_state.newline_trivia()]),
        );
        lemma_tokens_add(config, a0, a1);
        lemma_tokens_add(config, after1, a2);
        lemma_tokens_add(config, after2, a3);
        lemma_tokens_add(config, after3, a4);
        lemma_tokens_add(config, after4, a5);
        lemma_tokens_add(config, after5, a6);
        lemma_tokens_add(config, after6, a7);
        lemma_tokens_add(config, after7, a8);
        lemma_tokens_add(config, after8, a9);
    }
}

/// A formatted condition is tidy.
#[verifier::spinoff_prover]
pub proof fn lemma_formatted_condition_tidy(
    state: FormatterState,
    condition: ExpressionView,
    extra: Option<usize>,
    multiline: bool,
)
    ensures
        formatted_condition(state, condition, extra, multiline).0.config == state.config,
        formatted_condition(state, condition, extra, multiline).0.range == state.range,
        quiet(state) && no_directive(expression_tokens(condition, true)) ==> (
            tokens_tidy(state.config, expression_tokens(formatted_condition(state, condition, extra, multiline).1, true))
            && quiet(formatted_condition(state, condition, extra, multiline).0)
        ),
    decreases condition, 1nat,
{
    reveal(formatted_condition);
    let config = state.config;
    lemma_formatted_condition(state, condition, extra, multiline);
    if multiline {
        let ranged = with_expression_range(state, condition);
        let (end_state, formatted) = formatted_expression(ranged, condition);
        lemma_formatted_expression(ranged, condition);
        lemma_formatted_expression_tidy(ranged, condition);
        if quiet(state) && no_directive(expression_tokens(condition, true)) {
            lemma_hang_expression_tidy(config, end_state, formatted, extra, None);
            lemma_made_whitespace(config, end_state, Some(count_of(extra).saturating_add(1)));
            lemma_first_updated_tidy(
                config,
                hang_expression(end_state, formatted, extra, None),
                FormatTriviaTypeView::Append(
                    seq![end_state.indent_trivia(Some(count_of(extra).saturating_add(1)))],
                ),
            );
        }
    } else {
        lemma_formatted_expression_tidy(state, condition);
    }
}

/// A formatted `elseif` branch is tidy.
#[verifier::spinoff_prover]
pub proof fn lemma_formatted_else_if_tidy(state: FormatterState, branch: ElseIfView)
    ensures
        formatted_else_if(state, branch).0.config == state.config,
        formatted_else_if(state, branch).0.range == state.range,
        quiet(state) && no_directive(else_if_tokens(branch, true)) ==> tokens_tidy(
            state.config,
            else_if_tokens(formatted_else_if(state, branch).1, true),
        ) && quiet(formatted_else_if(state, branch).0),
    decreases branch,
{
    reveal(formatted_else_if);
    reveal(else_if_tokens);
    let config = state.config;
    let premise = quiet(state) && no_directive(else_if_tokens(branch, true));
    lemma_formatted_else_if(state, branch);
    let extra = state.range_indent_increase(token_range(branch.else_if_token));
    let multiline = hangs_condition(
        state,
        extra,
        header_width(branch.else_if_token, branch.condition, branch.then_token),
        2,
        branch.condition,
    );
    let (condition_state, condition) = formatted_condition(
        state,
        branch.condition,
        extra,
        multiline,
    );
    let (end_state, block) = formatted_nested_block(condition_state, branch.block);
    let b0 = seq![branch.else_if_token];
    let a0 = seq![
        with_trivia(
            state.format_end_token(branch.else_if_token, EndTokenType::BlockEnd),
            FormatTriviaTypeView::Append(seq![state.indent_trivia(extra)]),
            FormatTriviaTypeView::Append(
                seq![if multiline { state.newline_trivia() } else { space() }],
            ),
        ),
    ];
    lemma_tokens_one(config, branch.else_if_token);
    lemma_tokens_one(
        config,
        with_trivia(
            state.format_end_token(branch.else_if_token, EndTokenType::BlockEnd),
            FormatTriviaTypeView::Append(seq![state.indent_trivia(extra)]),
            FormatTriviaTypeView::Append(
                seq![if multiline { state.newline_trivia() } else { space() }],
            ),
        ),
    );
    let b1 = expression_tokens(branch.condition, true);
    let a1 = expression_tokens(
        formatted_condition(state, branch.condition, extra, multiline).1,
        true,
    );
    lemma_formatted_condition_tidy(state, branch.condition, extra, multiline);
    let b2 = seq![branch.then_token];
    let a2 = seq![condition_closer(condition_state, branch.then_token, extra, multiline)];
    lemma_tokens_one(config, branch.then_token);
    lemma_tokens_one(
        config,
        condition_closer(condition_state, branch.then_token, extra, multiline),
    );
    let b3 = block_tokens(branch.block, true);
    let a3 = block_tokens(formatted_nested_block(condition_state, branch.block).1, true);
    lemma_formatted_nested_block_tidy(condition_state, branch.block);
    lemma_tokens_add(config, b0, b1);
    let before1 = b0 + b1;
    let after1 = a0 + a1;
    lemma_tokens_add(config, before1, b2);
    let before2 = before1 + b2;
    let after2 = after1 + a2;
    lemma_tokens_add(config, before2, b3);
    if premise {
        lemma_formatted_token_tidy(config, state, branch.else_if_token);
        lemma_made_whitespace(config, state, None);
        lemma_made_whitespace(config, state, extra);
        lemma_made_whitespace(config, state, extra);
        lemma_edited_token_tidy(
            config,
            state.format_end_token(branch.else_if_token, EndTokenType::BlockEnd),
            FormatTriviaTypeView::Append(seq![state.indent_trivia(extra)]),
            FormatTriviaTypeView::Append(
                seq![if multiline { state.newline_trivia() } else { space() }],
            ),
        );
        lemma_condition_tokens_tidy(config, condition_state, branch.then_token, extra, multiline);
        lemma_tokens_add(config, a0, a1);
        lemma_tokens_add(config, after1, a2);
        lemma_tokens_add(config, after2, a3);
    }
}

/// A formatted `else` branch is tidy.
#[verifier::spinoff_prover]
pub proof fn lemma_formatted_else_tidy(
    state: FormatterState,
    branch: Option<ElseView>,
    extra: Option<usize>,
)
    ensures
        formatted_else(state, branch, extra).0.config == state.config,
        formatted_else(state, branch, extra).0.range == state.range,
        quiet(state) && no_directive(else_tokens(branch, true)) ==> tokens_tidy(
            state.config,
            else_tokens(formatted_else(state, branch, extra).1, true),
        ) && quiet(formatted_else(state, branch, extra).0),
    decreases branch,
{
    reveal(formatted_else);
    reveal(else_tokens);
    let config = state.config;
    let premise = quiet(state) && no_directive(else_tokens(branch, true));
    lemma_formatted_else(state, branch, extra);
    match branch {
        Some(inner) => {
            let b0 = seq![inner.else_token];
            let a0 = seq![
                with_trivia(
                    state.format_end_token(inner.else_token, EndTokenType::BlockEnd),
                    FormatTriviaTypeView::Append(seq![state.indent_trivia(extra)]),
                    FormatTriviaTypeView::Append(seq![state.newline_trivia()]),
                ),
            ];
            lemma_tokens_one(config, inner.else_token);
            lemma_tokens_one(
                config,
                with_trivia(
                    state.format_end_token(inner.else_token, EndTokenType::BlockEnd),
                    FormatTriviaTypeView::Append(seq![state.indent_trivia(extra)]),
                    FormatTriviaTypeView::Append(seq![state.newline_trivia()]),
                ),
            );
            let b1 = block_tokens(inner.block, true);
            let a1 = block_tokens(formatted_nested_block(state, inner.block).1, true);
            lemma_formatted_nested_block_tidy(state, inner.block);
            lemma_tokens_add(config, b0, b1);
            if premise {
                lemma_formatted_token_tidy(config, state, inner.else_token);
                lemma_made_whitespace(config, state, None);
                lemma_made_whitespace(config, state, extra);
                lemma_made_whitespace(config, state, None);
                lemma_edited_token_tidy(
                    config,
                    state.format_end_token(inner.else_token, EndTokenType::BlockEnd),
                    FormatTriviaTypeView::Append(seq![state.indent_trivia(extra)]),
                    FormatTriviaTypeView::Append(seq![state.newline_trivia()]),
                );
                lemma_tokens_add(config, a0, a1);
            }
        },
        None => {
            lemma_tokens_one(config, arbitrary());
            if premise {
            }
        },
    }
}

/// A formatted `if` statement is tidy.
#[verifier::spinoff_prover]
pub proof fn lemma_formatted_if_tidy(state: FormatterState, node: IfView)
    ensures
        formatted_if(state, node).0.config == state.config,
        formatted_if(state, node).0.range == state.range,
        quiet(state) && no_directive(if_tokens(node, true)) ==> tokens_tidy(
            state.config,
            if_tokens(formatted_if(state, node).1, true),
        ) && quiet(formatted_if(state, node).0),
    decreases node,
{
    reveal(formatted_if);
    reveal(if_tokens);
    let config = state.config;
    let premise = quiet(state) && no_directive(if_tokens(node, true));
    lemma_formatted_if(state, node);
    let extra = state.range_indent_increase(token_range(node.if_token));
    let multiline = hangs_condition(
        state,
        extra,
        header_width(node.if_token, node.condition, node.then_token),
        2,
        node.condition,
    );
    let (condition_state, condition) = formatted_condition(state, node.condition, extra, multiline);
    let (block_state, block) = formatted_nested_block(condition_state, node.block);
    let (branches_state, else_if) = formatted_else_ifs(
        block_state,
        node.else_if,
        node.else_if.len() as int,
    );
    let (end_state, else_branch) = formatted_else(branches_state, node.else_branch, extra);
    assert(node.else_if.take(node.else_if.len() as int) =~= node.else_if);
    let b0 = seq![node.if_token];
    let a0 = seq![condition_opener(state, node.if_token, extra, multiline)];
    lemma_tokens_one(config, node.if_token);
    lemma_tokens_one(config, condition_opener(state, node.if_token, extra, multiline));
    let b1 = expression_tokens(node.condition, true);
    let a1 = expression_tokens(
        formatted_condition(state, node.condition, extra, multiline).1,
        true,
    );
    lemma_formatted_condition_tidy(state, node.condition, extra, multiline);
    let b2 = seq![node.then_token];
    let a2 = seq![condition_closer(condition_state, node.then_token, extra, multiline)];
    lemma_tokens_one(config, node.then_token);
    lemma_tokens_one(config, condition_closer(condition_state, node.then_token, extra, multiline));
    let b3 = block_tokens(node.block, true);
    let a3 = block_tokens(formatted_nested_block(condition_state, node.block).1, true);
    lemma_formatted_nested_block_tidy(condition_state, node.block);
    let b4 = else_ifs_tokens(node.else_if, true);
    let a4 = else_ifs_tokens(else_if, true);
    lemma_formatted_else_ifs_tidy(block_state, node.else_if, node.else_if.len() as int);
    let b5 = else_tokens(node.else_branch, true);
    let a5 = else_tokens(formatted_else(branches_state, node.else_branch, extra).1, true);
    lemma_formatted_else_tidy(branches_state, node.else_branch, extra);
    let b6 = seq![node.end_token];
    let a6 = seq![
        with_trivia(
            end_state.format_end_token(node.end_token, EndTokenType::BlockEnd),
            FormatTriviaTypeView::Append(seq![end_state.indent_trivia(extra)]),
            FormatTriviaTypeView::Append(seq![end_state.newline_trivia()]),
        ),
    ];
    lemma_tokens_one(config, node.end_token);
    lemma_tokens_one(
        config,
        with_trivia(
            end_state.format_end_token(node.end_token, EndTokenType::BlockEnd),
            FormatTriviaTypeView::Append(seq![end_state.indent_trivia(extra)]),
            FormatTriviaTypeView::Append(seq![end_state.newline_trivia()]),
        ),
    );
    lemma_tokens_add(config, b0, b1);
    let before1 = b0 + b1;
    let after1 = a0 + a1;
    lemma_tokens_add(config, before1, b2);
    let before2 = before1 + b2;
    let after2 = after1 + a2;
    lemma_tokens_add(config, before2, b3);
    let before3 = before2 + b3;
    let after3 = after2 + a3;
    lemma_tokens_add(config, before3, b4);
    let before4 = before3 + b4;
    let after4 = after3 + a4;
    lemma_tokens_add(config, before4, b5);
    let before5 = before4 + b5;
    let after5 = after4 + a5;
    lemma_tokens_add(config, before5, b6);
    if premise {
        lemma_condition_tokens_tidy(config, state, node.if_token, extra, multiline);
        lemma_condition_tokens_tidy(config, condition_state, node.then_token, extra, multiline);
        lemma_formatted_token_tidy(config, end_state, node.end_token);
        lemma_made_whitespace(config, end_state, None);
        lemma_made_whitespace(config, end_state, extra);
        lemma_made_whitespace(config, end_state, None);
        lemma_edited_token_tidy(
            config,
            end_state.format_end_token(node.end_token, EndTokenType::BlockEnd),
            FormatTriviaTypeView::Append(seq![end_state.indent_trivia(extra)]),
            FormatTriviaTypeView::Append(seq![end_state.newline_trivia()]),
        );
        lemma_tokens_add(config, a0, a1);
        lemma_tokens_add(config, after1, a2);
        lemma_tokens_add(config, after2, a3);
        lemma_tokens_add(config, after3, a4);
        lemma_tokens_add(config, after4, a5);
        lemma_tokens_add(config, after5, a6);
    }
}

/// A formatted `while` loop is tidy.
#[verifier::spinoff_prover]
pub proof fn lemma_formatted_while_tidy(state: FormatterState, node: WhileView)
    ensures
        formatted_while(state, node).0.config == state.config,
        formatted_while(state, node).0.range == state.range,
        quiet(state) && no_directive(stmt_tokens(StmtView::While(node), true)) ==> tokens_tidy(
            state.config,
            stmt_tokens(StmtView::While(formatted_while(state, node).1), true),
        ) && quiet(formatted_while(state, node).0),
    decreases node,
{
    reveal(formatted_while);
    reveal(stmt_tokens);
    let config = state.config;
    let premise = quiet(state) && no_directive(stmt_tokens(StmtView::While(node), true));
    lemma_formatted_while(state, node);
    let extra = state.range_indent_increase(token_range(node.while_token));
    let multiline = hangs_condition(
        state,
        extra,
        header_width(node.while_token, node.condition, node.do_token),
        2,
        node.condition,
    );
    let (condition_state, condition) = formatted_condition(state, node.condition, extra, multiline);
    let (end_state, block) = formatted_nested_block(condition_state, node.block);
    let b0 = seq![node.while_token];
    let a0 = seq![condition_opener(state, node.while_token, extra, multiline)];
    lemma_tokens_one(config, node.while_token);
    lemma_tokens_one(config, condition_opener(state, node.while_token, extra, multiline));
    let b1 = expression_tokens(node.condition, true);
    let a1 = expression_tokens(
        formatted_condition(state, node.condition, extra, multiline).1,
        true,
    );
    lemma_formatted_condition_tidy(state, node.condition, extra, multiline);
    let b2 = seq![node.do_token];
    let a2 = seq![condition_closer(condition_state, node.do_token, extra, multiline)];
    lemma_tokens_one(config, node.do_token);
    lemma_tokens_one(config, condition_closer(condition_state, node.do_token, extra, multiline));
    let b3 = block_tokens(node.block, true);
    let a3 = block_tokens(formatted_nested_block(condition_state, node.block).1, true);
    lemma_formatted_nested_block_tidy(condition_state, node.block);
    let b4 = seq![node.end_token];
    let a4 = seq![
        with_trivia(
            end_state.format_end_token(node.end_token, EndTokenType::BlockEnd),
            FormatTriviaTypeView::Append(seq![end_state.indent_trivia(extra)]),
            FormatTriviaTypeView::Append(seq![end_state.newline_trivia()]),
        ),
    ];
    lemma_tokens_one(config, node.end_token);
    lemma_tokens_one(
        config,
        with_trivia(
            end_state.format_end_token(node.end_token, EndTokenType::BlockEnd),
            FormatTriviaTypeView::Append(seq![end_state.indent_trivia(extra)]),
            FormatTriviaTypeView::Append(seq![end_state.newline_trivia()]),
        ),
    );
    lemma_tokens_add(config, b0, b1);
    let before1 = b0 + b1;
    let after1 = a0 + a1;
    lemma_tokens_add(config, before1, b2);
    let before2 = before1 + b2;
    let after2 = after1 + a2;
    lemma_tokens_add(config, before2, b3);
    let before3 = before2 + b3;
    let after3 = after2 + a3;
    lemma_tokens_add(config, before3, b4);
    if premise {
        lemma_condition_tokens_tidy(config, state, node.while_token, extra, multiline);
        lemma_condition_tokens_tidy(config, condition_state, node.do_token, extra, multiline);
        lemma_formatted_token_tidy(config, end_state, node.end_token);
        lemma_made_whitespace(config, end_state, None);
        lemma_made_whitespace(config, end_state, extra);
        lemma_made_whitespace(config, end_state, None);
        lemma_edited_token_tidy(
            config,
            end_state.format_end_token(node.end_token, EndTokenType::BlockEnd),
            FormatTriviaTypeView::Append(seq![end_state.indent_trivia(extra)]),
            FormatTriviaTypeView::Append(seq![end_state.newline_trivia()]),
        );
        lemma_tokens_add(config, a0, a1);
        lemma_tokens_add(config, after1, a2);
        lemma_tokens_add(config, after2, a3);
        lemma_tokens_add(config, after3, a4);
    }
}

/// A formatted `repeat` loop is tidy.
#[verifier::spinoff_prover]
pub proof fn lemma_formatted_repeat_tidy(state: FormatterState, node: RepeatView)
    ensures
        formatted_repeat(state, node).0.config == state.config,
        formatted_repeat(state, node).0.range == state.range,
        quiet(state) && no_directive(stmt_tokens(StmtView::Repeat(node), true)) ==> tokens_tidy(
            state.config,
            stmt_tokens(StmtView::Repeat(formatted_repeat(state, node).1), true),
        ) && quiet(formatted_repeat(state, node).0),
    decreases node,
{
    reveal(formatted_repeat);
    reveal(stmt_tokens);
    let config = state.config;
    let premise = quiet(state) && no_directive(stmt_tokens(StmtView::Repeat(node), true));
    lemma_formatted_repeat(state, node);
    let extra = state.range_indent_increase(token_range(node.repeat_token));
    let multiline = hangs_condition(
        state,
        extra,
        stripped(seq![node.until_token] + expression_tokens(node.until, true)).len() as int,
        1,
        node.until,
    );
    let (block_state, block) = formatted_nested_block(state, node.block);
    let (condition_state, condition) = formatted_expression(block_state, node.until);
    let end_state = if multiline {
        with_expression_range(condition_state, node.until)
    } else {
        condition_state
    };
    let until = if multiline {
        hang_expression(end_state, condition, extra, None)
    } else {
        last_updated(condition, append(seq![state.newline_trivia()]))
    };
    lemma_formatted_nested_block(state, node.block);
    lemma_formatted_expression(block_state, node.until);
    let b0 = seq![node.repeat_token];
    let a0 = seq![
        with_trivia(
            state.format_symbol(node.repeat_token, false, false),
            FormatTriviaTypeView::Append(seq![state.indent_trivia(extra)]),
            FormatTriviaTypeView::Append(seq![state.newline_trivia()]),
        ),
    ];
    lemma_tokens_one(config, node.repeat_token);
    lemma_tokens_one(
        config,
        with_trivia(
            state.format_symbol(node.repeat_token, false, false),
            FormatTriviaTypeView::Append(seq![state.indent_trivia(extra)]),
            FormatTriviaTypeView::Append(seq![state.newline_trivia()]),
        ),
    );
    let b1 = block_tokens(node.block, true);
    let a1 = block_tokens(formatted_nested_block(state, node.block).1, true);
    lemma_formatted_nested_block_tidy(state, node.block);
    let b2 = seq![node.until_token];
    let a2 = seq![
        with_trivia(
            block_state.format_symbol(node.until_token, false, true),
            FormatTriviaTypeView::Append(seq![block_state.indent_trivia(extra)]),
            FormatTriviaTypeView::NoChange,
        ),
    ];
    lemma_tokens_one(config, node.until_token);
    lemma_tokens_one(
        config,
        with_trivia(
            block_state.format_symbol(node.until_token, false, true),
            FormatTriviaTypeView::Append(seq![block_state.indent_trivia(extra)]),
            FormatTriviaTypeView::NoChange,
        ),
    );
    let b3 = expression_tokens(node.until, true);
    let a3 = expression_tokens(until, true);
    lemma_formatted_expression_tidy(block_state, node.until);
    lemma_tokens_add(config, b0, b1);
    let before1 = b0 + b1;
    let after1 = a0 + a1;
    lemma_tokens_add(config, before1, b2);
    let before2 = before1 + b2;
    let after2 = after1 + a2;
    lemma_tokens_add(config, before2, b3);
    if premise {
        lemma_formatted_token_tidy(config, state, node.repeat_token);
        lemma_made_whitespace(config, state, None);
        lemma_made_whitespace(config, state, extra);
        lemma_made_whitespace(config, state, None);
        lemma_edited_token_tidy(
            config,
            state.format_symbol(node.repeat_token, false, false),
            FormatTriviaTypeView::Append(seq![state.indent_trivia(extra)]),
            FormatTriviaTypeView::Append(seq![state.newline_trivia()]),
        );
        lemma_formatted_token_tidy(config, block_state, node.until_token);
        lemma_made_whitespace(config, block_state, None);
        lemma_made_whitespace(config, block_state, extra);
        lemma_edited_token_tidy(
            config,
            block_state.format_symbol(node.until_token, false, true),
            FormatTriviaTypeView::Append(seq![block_state.indent_trivia(extra)]),
            FormatTriviaTypeView::NoChange,
        );
        lemma_made_whitespace(config, state, None);
        if multiline {
            lemma_hang_expression_tidy(config, end_state, condition, extra, None);
        } else {
            lemma_last_updated_tidy(config, condition, append(seq![state.newline_trivia()]));
        }
        lemma_tokens_add(config, a0, a1);
        lemma_tokens_add(config, after1, a2);
        lemma_tokens_add(config, after2, a3);
    }
}

/// A formatted call that stands as a statement is tidy.
#[verifier::spinoff_prover]
pub proof fn lemma_formatted_call_stmt_tidy(state: FormatterState, node: SuffixedView)
    ensures
        formatted_call_stmt(state, node).0.config == state.config,
        formatted_call_stmt(state, node).0.range == state.range,
        quiet(state) && no_directive(stmt_tokens(StmtView::FunctionCall(node), true)) ==> (
            tokens_tidy(state.config, stmt_tokens(StmtView::FunctionCall(formatted_call_stmt(state, node).1), true))
            && quiet(formatted_call_stmt(state, node).0)
        ),
    decreases node,
{
    reveal(formatted_call_stmt);
    reveal(stmt_tokens);
    let config = state.config;
    let premise = quiet(state) && no_directive(stmt_tokens(StmtView::FunctionCall(node), true));
    lemma_formatted_call_stmt(state, node);
    let extra = tokens_indent_increase(state, prefix_tokens(node.prefix, true));
    let (prefix_state, prefix) = formatted_prefix(state, node.prefix);
    let (end_state, suffixes) = formatted_suffixes(
        prefix_state,
        node.suffixes,
        node.suffixes.len() as int,
    );
    assert(node.suffixes.take(node.suffixes.len() as int) =~= node.suffixes);
    lemma_formatted_prefix_tidy(state, node.prefix);
    lemma_formatted_suffixes_tidy(prefix_state, node.suffixes, node.suffixes.len() as int);
    lemma_tokens_add(
        config,
        prefix_tokens(node.prefix, true),
        suffixes_tokens(node.suffixes, true),
    );
    lemma_tokens_add(config, prefix_tokens(prefix, true), suffixes_tokens(suffixes, true));
    if premise {
        let formatted = SuffixedView { prefix, suffixes };
        lemma_made_whitespace(config, state, extra);
        lemma_suffixed_first_updated_tidy(
            config,
            formatted,
            append(seq![state.indent_trivia(extra)]),
        );
        lemma_suffixed_last_updated_tidy(
            config,
            suffixed_first_updated(formatted, append(seq![state.indent_trivia(extra)])),
            append(seq![state.newline_trivia()]),
        );
    }
}

/// A formatted assignment is tidy.
#[verifier::spinoff_prover]
pub proof fn lemma_formatted_assignment_tidy(state: FormatterState, node: AssignmentView)
    ensures
        formatted_assignment(state, node).0.config == state.config,
        formatted_assignment(state, node).0.range == state.range,
        quiet(state) && no_directive(stmt_tokens(StmtView::Assignment(node), true)) ==> tokens_tidy(
            state.config,
            stmt_tokens(StmtView::Assignment(formatted_assignment(state, node).1), true),
        ) && quiet(formatted_assignment(state, node).0),
    decreases node,
{
    reveal(formatted_assignment);
    reveal(stmt_tokens);
    let config = state.config;
    let premise = quiet(state) && no_directive(stmt_tokens(StmtView::Assignment(node), true));
    lemma_formatted_assignment(state, node);
    let extra = tokens_indent_increase(state, punctuated_tokens(node.var_list, true));
    let width = stripped(assignment_tokens(node)).len() as int;
    let hang = hangs_values(state, extra, width, 2, node.expr_list);
    let (vars_state, vars, var_comments) = formatted_punctuated(state, node.var_list);
    let (end_state, exprs, expr_comments) = formatted_punctuated(vars_state, node.expr_list);
    let equal = vars_state.format_symbol(node.equal_token, true, true);
    let laid = laid_out_values(end_state, exprs, extra, hang);
    let trivia = var_comments + expr_comments + seq![end_state.newline_trivia()];
    let ended = line_end(equal, laid, append(trivia));
    let indented = punctuated_first_updated(vars, append(seq![state.indent_trivia(extra)]));
    lemma_formatted_punctuated(state, node.var_list);
    lemma_formatted_punctuated(vars_state, node.expr_list);
    lemma_formatted_punctuated_tidy(state, node.var_list);
    lemma_formatted_punctuated_tidy(vars_state, node.expr_list);
    lemma_tokens_one(config, node.equal_token);
    lemma_tokens_one(config, ended.0);
    lemma_tokens_add(config, punctuated_tokens(node.var_list, true), seq![node.equal_token]);
    lemma_tokens_add(
        config,
        punctuated_tokens(node.var_list, true) + seq![node.equal_token],
        punctuated_tokens(node.expr_list, true),
    );
    lemma_tokens_add(config, punctuated_tokens(indented, true), seq![ended.0]);
    lemma_tokens_add(
        config,
        punctuated_tokens(indented, true) + seq![ended.0],
        punctuated_tokens(ended.1, true),
    );
    if premise {
        lemma_made_whitespace(config, state, extra);
        lemma_made_whitespace(config, end_state, None);
        lemma_punctuated_first_updated_tidy(config, vars, append(seq![state.indent_trivia(extra)]));
        lemma_formatted_token_tidy(config, vars_state, node.equal_token);
        lemma_laid_out_values_tidy(config, end_state, exprs, extra, hang);
        lemma_trivia_add(config, var_comments, expr_comments);
        lemma_trivia_add(config, var_comments + expr_comments, seq![end_state.newline_trivia()]);
        lemma_line_end_tidy(config, equal, laid, append(trivia));
    }
}

/// A formatted `local` declaration is tidy.
#[verifier::spinoff_prover]
pub proof fn lemma_formatted_local_assignment_tidy(state: FormatterState, node: LocalAssignmentView)
    ensures
        formatted_local_assignment(state, node).0.config == state.config,
        formatted_local_assignment(state, node).0.range == state.range,
        quiet(state) && no_directive(stmt_tokens(StmtView::LocalAssignment(node), true)) ==> tokens_tidy(
            state.config,
            stmt_tokens(StmtView::LocalAssignment(formatted_local_assignment(state, node).1), true),
        ) && quiet(formatted_local_assignment(state, node).0),
    decreases node,
{
    reveal(formatted_local_assignment);
    reveal(stmt_tokens);
    let config = state.config;
    let premise = quiet(state) && no_directive(stmt_tokens(StmtView::LocalAssignment(node), true));
    lemma_formatted_local_assignment(state, node);
    let extra = state.range_indent_increase(token_range(node.local_token));
    let width = stripped(local_assignment_tokens(node)).len() as int;
    let hang = hangs_values(state, extra, width, 3, node.expr_list);
    let local_token = opening(state, state.format_symbol(node.local_token, false, true), extra);
    let (names_state, names, name_comments) = formatted_punctuated(state, node.name_list);
    let (end_state, exprs, expr_comments) = formatted_punctuated(names_state, node.expr_list);
    let trivia = name_comments + expr_comments + seq![end_state.newline_trivia()];
    let result = formatted_local_assignment(state, node).1;
    lemma_formatted_punctuated(state, node.name_list);
    lemma_formatted_punctuated(names_state, node.expr_list);
    lemma_formatted_punctuated_tidy(state, node.name_list);
    lemma_formatted_punctuated_tidy(names_state, node.expr_list);
    lemma_tokens_one(config, node.local_token);
    lemma_tokens_one(config, result.local_token);
    lemma_optional_tidy(config, node.equal_token);
    lemma_optional_tidy(config, result.equal_token);
    lemma_tokens_add(config, seq![node.local_token], punctuated_tokens(node.name_list, true));
    lemma_tokens_add(
        config,
        seq![node.local_token] + punctuated_tokens(node.name_list, true),
        optional_token(node.equal_token),
    );
    lemma_tokens_add(
        config,
        seq![node.local_token] + punctuated_tokens(node.name_list, true) + optional_token(node.equal_token),
        punctuated_tokens(node.expr_list, true),
    );
    lemma_tokens_add(config, seq![result.local_token], punctuated_tokens(result.name_list, true));
    lemma_tokens_add(
        config,
        seq![result.local_token] + punctuated_tokens(result.name_list, true),
        optional_token(result.equal_token),
    );
    lemma_tokens_add(
        config,
        seq![result.local_token] + punctuated_tokens(result.name_list, true) + optional_token(result.equal_token),
        punctuated_tokens(result.expr_list, true),
    );
    if premise {
        lemma_made_whitespace(config, state, extra);
        lemma_made_whitespace(config, end_state, None);
        lemma_formatted_token_tidy(config, state, node.local_token);
        lemma_line_tokens_tidy(
            config,
            state,
            state.format_symbol(node.local_token, false, true),
            extra,
        );
        lemma_trivia_add(config, name_comments, expr_comments);
        lemma_trivia_add(config, name_comments + expr_comments, seq![end_state.newline_trivia()]);
        match node.equal_token {
            Some(equal_token) => {
                lemma_formatted_token_tidy(config, names_state, equal_token);
                lemma_laid_out_values_tidy(config, end_state, exprs, extra, hang);
                lemma_line_end_tidy(
                    config,
                    names_state.format_symbol(equal_token, true, true),
                    laid_out_values(end_state, exprs, extra, hang),
                    append(trivia),
                );
            },
            None => {
                lemma_line_end_tidy(config, local_token, names, append(trivia));
            },
        }
    }
}

/// A formatted declaration of a local function is tidy.
#[verifier::spinoff_prover]
pub proof fn lemma_formatted_local_function_tidy(state: FormatterState, node: LocalFunctionView)
    ensures
        formatted_local_function(state, node).0.config == state.config,
        formatted_local_function(state, node).0.range == state.range,
        quiet(state) && no_directive(stmt_tokens(StmtView::LocalFunction(node), true)) ==> tokens_tidy(
            state.config,
            stmt_tokens(StmtView::LocalFunction(formatted_local_function(state, node).1), true),
        ) && quiet(formatted_local_function(state, node).0),
    decreases node,
{
    reveal(formatted_local_function);
    reveal(stmt_tokens);
    let config = state.config;
    let premise = quiet(state) && no_directive(stmt_tokens(StmtView::LocalFunction(node), true));
    lemma_formatted_local_function(state, node);
    let extra = state.range_indent_increase(token_range(node.local_token));
    let (end_state, body) = formatted_function_body(state, node.body, extra);
    lemma_formatted_function_body(state, node.body, extra);
    let b0 = seq![node.local_token];
    let a0 = seq![
        with_trivia(
            state.format_symbol(node.local_token, false, true),
            FormatTriviaTypeView::Append(seq![state.indent_trivia(extra)]),
            FormatTriviaTypeView::NoChange,
        ),
    ];
    lemma_tokens_one(config, node.local_token);
    lemma_tokens_one(
        config,
        with_trivia(
            state.format_symbol(node.local_token, false, true),
            FormatTriviaTypeView::Append(seq![state.indent_trivia(extra)]),
            FormatTriviaTypeView::NoChange,
        ),
    );
    let b1 = seq![node.function_token];
    let a1 = seq![state.format_symbol(node.function_token, false, true)];
    lemma_tokens_one(config, node.function_token);
    lemma_tokens_one(config, state.format_symbol(node.function_token, false, true));
    let b2 = seq![node.name];
    let a2 = seq![state.format_token_reference(node.name)];
    lemma_tokens_one(config, node.name);
    lemma_tokens_one(config, state.format_token_reference(node.name));
    let b3 = function_body_tokens(node.body, true);
    let a3 = function_body_tokens(closed_body(end_state, body), true);
    lemma_formatted_function_body_tidy(state, node.body, extra);
    lemma_tokens_add(config, b0, b1);
    let before1 = b0 + b1;
    let after1 = a0 + a1;
    lemma_tokens_add(config, before1, b2);
    let before2 = before1 + b2;
    let after2 = after1 + a2;
    lemma_tokens_add(config, before2, b3);
    if premise {
        lemma_formatted_token_tidy(config, state, node.local_token);
        lemma_made_whitespace(config, state, None);
        lemma_made_whitespace(config, state, extra);
        lemma_edited_token_tidy(
            config,
            state.format_symbol(node.local_token, false, true),
            FormatTriviaTypeView::Append(seq![state.indent_trivia(extra)]),
            FormatTriviaTypeView::NoChange,
        );
        lemma_formatted_token_tidy(config, state, node.function_token);
        lemma_formatted_token_tidy(config, state, node.name);
        lemma_made_whitespace(config, end_state, None);
        lemma_body_trail_tidy(
            config,
            body,
            FormatTriviaTypeView::Append(seq![end_state.newline_trivia()]),
        );
        lemma_tokens_add(config, a0, a1);
        lemma_tokens_add(config, after1, a2);
        lemma_tokens_add(config, after2, a3);
    }
}

/// A formatted function declaration is tidy.
#[verifier::spinoff_prover]
pub proof fn lemma_formatted_function_declaration_tidy(
    state: FormatterState,
    node: FunctionDeclarationView,
)
    ensures
        formatted_function_declaration(state, node).0.config == state.config,
        formatted_function_declaration(state, node).0.range == state.range,
        quiet(state) && no_directive(stmt_tokens(StmtView::FunctionDeclaration(node), true)) ==> tokens_tidy(
            state.config,
            stmt_tokens(
                StmtView::FunctionDeclaration(formatted_function_declaration(state, node).1),
                true,
            ),
        ) && quiet(formatted_function_declaration(state, node).0),
    decreases node,
{
    reveal(formatted_function_declaration);
    reveal(stmt_tokens);
    let config = state.config;
    let premise = quiet(state) && no_directive(
        stmt_tokens(StmtView::FunctionDeclaration(node), true),
    );
    lemma_formatted_function_declaration(state, node);
    let extra = state.range_indent_increase(token_range(node.function_token));
    let (end_state, body) = formatted_function_body(state, node.body, extra);
    lemma_formatted_function_body(state, node.body, extra);
    let b0 = seq![node.function_token];
    let a0 = seq![
        with_trivia(
            state.format_symbol(node.function_token, false, true),
            FormatTriviaTypeView::Append(seq![state.indent_trivia(extra)]),
            FormatTriviaTypeView::NoChange,
        ),
    ];
    lemma_tokens_one(config, node.function_token);
    lemma_tokens_one(
        config,
        with_trivia(
            state.format_symbol(node.function_token, false, true),
            FormatTriviaTypeView::Append(seq![state.indent_trivia(extra)]),
            FormatTriviaTypeView::NoChange,
        ),
    );
    let b1 = node.name;
    let a1 = formatted_name(state, node.name);
    let b2 = function_body_tokens(node.body, true);
    let a2 = function_body_tokens(closed_body(end_state, body), true);
    lemma_formatted_function_body_tidy(state, node.body, extra);
    lemma_tokens_add(config, b0, b1);
    let before1 = b0 + b1;
    let after1 = a0 + a1;
    lemma_tokens_add(config, before1, b2);
    if premise {
        lemma_formatted_token_tidy(config, state, node.function_token);
        lemma_made_whitespace(config, state, None);
        lemma_made_whitespace(config, state, extra);
        lemma_edited_token_tidy(
            config,
            state.format_symbol(node.function_token, false, true),
            FormatTriviaTypeView::Append(seq![state.indent_trivia(extra)]),
            FormatTriviaTypeView::NoChange,
        );
        lemma_formatted_name_tidy(config, state, node.name);
        lemma_made_whitespace(config, end_state, None);
        lemma_body_trail_tidy(
            config,
            body,
            FormatTriviaTypeView::Append(seq![end_state.newline_trivia()]),
        );
        lemma_tokens_add(config, a0, a1);
        lemma_tokens_add(config, after1, a2);
    }
}


/// The first formatted suffixes are tidy.
#[verifier::spinoff_prover]
pub proof fn lemma_formatted_suffixes_tidy(
    state: FormatterState,
    suffixes: Seq<SuffixView>,
    count: int,
)
    requires
        0 <= count <= suffixes.len(),
    ensures
        formatted_suffixes(state, suffixes, count).0.config == state.config,
        formatted_suffixes(state, suffixes, count).0.range == state.range,
        quiet(state) && no_directive(suffixes_tokens(suffixes.take(count), true)) ==> tokens_tidy(
            state.config,
            suffixes_tokens(formatted_suffixes(state, suffixes, count).1, true),
        ) && quiet(formatted_suffixes(state, suffixes, count).0),
    decreases suffixes, count,
{
    reveal(formatted_suffixes);
    let config = state.config;
    lemma_formatted_suffixes(state, suffixes, count);
    if count == 0 {
        lemma_suffixes_tokens_push(Seq::empty(), arbitrary(), true);
    } else {
        let (before_state, before) = formatted_suffixes(state, suffixes, count - 1);
        let current = suffixes[count - 1];
        let (end_state, formatted) = formatted_suffix(before_state, current);
        lemma_formatted_suffixes(state, suffixes, count - 1);
        lemma_formatted_suffixes_tidy(state, suffixes, count - 1);
        lemma_formatted_suffix_tidy(before_state, current);
        assert(suffixes.take(count) =~= suffixes.take(count - 1).push(current));
        lemma_suffixes_tokens_push(suffixes.take(count - 1), current, true);
        lemma_suffixes_tokens_push(before, formatted, true);
        lemma_tokens_add(
            config,
            suffixes_tokens(suffixes.take(count - 1), true),
            suffix_tokens(current, true),
        );
        lemma_tokens_add(config, suffixes_tokens(before, true), suffix_tokens(formatted, true));
    }
}

/// The first formatted elements of a list are tidy, and so are the comments
/// taken from them.
#[verifier::spinoff_prover]
pub proof fn lemma_formatted_pairs_tidy(state: FormatterState, pairs: Seq<PairView>, count: int)
    requires
        0 <= count <= pairs.len(),
    ensures
        formatted_pairs(state, pairs, count).0.config == state.config,
        formatted_pairs(state, pairs, count).0.range == state.range,
        quiet(state) && no_directive(pairs_tokens(pairs.take(count), true)) ==> tokens_tidy(
            state.config,
            pairs_tokens(formatted_pairs(state, pairs, count).1, true),
        ) && quiet(formatted_pairs(state, pairs, count).0) && trivia_tidy(
            state.config,
            formatted_pairs(state, pairs, count).2,
        ),
    decreases pairs, count,
{
    reveal(formatted_pairs);
    let config = state.config;
    lemma_formatted_pairs(state, pairs, count);
    lemma_made_whitespace(config, state, None);
    if count == 0 {
        lemma_pairs_tokens_push(Seq::empty(), arbitrary(), true);
    } else {
        let (before_state, before, before_comments) = formatted_pairs(state, pairs, count - 1);
        let current = pairs[count - 1];
        let (end_state, formatted) = formatted_expression(before_state, current.value);
        let value = last_updated(formatted, cleared());
        let result = formatted_pairs(state, pairs, count);
        lemma_formatted_pairs(state, pairs, count - 1);
        lemma_formatted_pairs_tidy(state, pairs, count - 1);
        lemma_formatted_expression(before_state, current.value);
        lemma_formatted_expression_tidy(before_state, current.value);
        let front = pairs.take(count - 1);
        assert(pairs.take(count) =~= front.push(current));
        lemma_push_last(before, result.1.last());
        lemma_pairs_tokens_push(front, current, true);
        lemma_pairs_tokens_push(before, result.1.last(), true);
        lemma_tokens_add(config, pairs_tokens(front, true), expression_tokens(current.value, true));
        lemma_tokens_add(
            config,
            pairs_tokens(front, true) + expression_tokens(current.value, true),
            optional_token(current.separator),
        );
        lemma_tokens_add(config, pairs_tokens(before, true), expression_tokens(value, true));
        lemma_tokens_add(
            config,
            pairs_tokens(before, true) + expression_tokens(value, true),
            optional_token(result.1.last().separator),
        );
        lemma_optional_tidy(config, result.1.last().separator);
        if quiet(state) && no_directive(pairs_tokens(pairs.take(count), true)) {
            lemma_last_updated_tidy(config, formatted, cleared());
            lemma_trivia_add(config, before_comments, last_trailing(formatted));
            match current.separator {
                Some(separator) => {
                    lemma_formatted_token_tidy(config, end_state, separator);
                    lemma_trivia_add(
                        config,
                        before_comments + last_trailing(formatted),
                        dropped_comments(separator),
                    );
                    lemma_trivia_add(
                        config,
                        before_comments + last_trailing(formatted),
                        format_trailing(separator.trailing),
                    );
                },
                None => {},
            }
        }
    }
}

/// A list formatted for one line is tidy, and so are the comments taken from it.
#[verifier::spinoff_prover]
pub proof fn lemma_formatted_punctuated_tidy(state: FormatterState, list: PunctuatedView)
    ensures
        formatted_punctuated(state, list).0.config == state.config,
        formatted_punctuated(state, list).0.range == state.range,
        quiet(state) && no_directive(punctuated_tokens(list, true)) ==> tokens_tidy(
            state.config,
            punctuated_tokens(formatted_punctuated(state, list).1, true),
        ) && quiet(formatted_punctuated(state, list).0) && trivia_tidy(
            state.config,
            formatted_punctuated(state, list).2,
        ),
    decreases list,
{
    reveal(formatted_punctuated);
    let count = list.pairs.len() as int;
    lemma_formatted_pairs_tidy(state, list.pairs, count);
    assert(list.pairs.take(count) =~= list.pairs);
    lemma_punctuated_tokens(list.pairs);
    lemma_punctuated_tokens(formatted_pairs(state, list.pairs, count).1);
}

/// The first formatted fields of a table are tidy, and so are the comments
/// taken from them.
#[verifier::spinoff_prover]
pub proof fn lemma_formatted_fields_tidy(
    state: FormatterState,
    fields: Seq<FieldPairView>,
    count: int,
)
    requires
        0 <= count <= fields.len(),
    ensures
        formatted_fields(state, fields, count).0.config == state.config,
        formatted_fields(state, fields, count).0.range == state.range,
        quiet(state) && no_directive(field_pairs_tokens(fields.take(count), true)) ==> tokens_tidy(
            state.config,
            field_pairs_tokens(formatted_fields(state, fields, count).1, true),
        ) && quiet(formatted_fields(state, fields, count).0) && trivia_tidy(
            state.config,
            formatted_fields(state, fields, count).2,
        ),
    decreases fields, count,
{
    reveal(formatted_fields);
    let config = state.config;
    lemma_formatted_fields(state, fields, count);
    lemma_made_whitespace(config, state, None);
    if count == 0 {
        lemma_field_pairs_tokens_push(Seq::empty(), arbitrary(), true);
    } else {
        let (before_state, before, comments) = formatted_fields(state, fields, count - 1);
        let current = fields[count - 1];
        let (end_state, field) = formatted_field(before_state, current.field);
        let result = formatted_fields(state, fields, count);
        lemma_formatted_fields(state, fields, count - 1);
        lemma_formatted_fields_tidy(state, fields, count - 1);
        lemma_formatted_field(before_state, current.field);
        lemma_formatted_field_tidy(before_state, current.field);
        let front = fields.take(count - 1);
        assert(fields.take(count) =~= front.push(current));
        lemma_push_last(before, result.1.last());
        lemma_field_pairs_tokens_push(front, current, true);
        lemma_field_pairs_tokens_push(before, result.1.last(), true);
        lemma_tokens_add(
            config,
            field_pairs_tokens(front, true),
            field_tokens(current.field, true),
        );
        lemma_tokens_add(
            config,
            field_pairs_tokens(front, true) + field_tokens(current.field, true),
            optional_token(current.separator),
        );
        lemma_tokens_add(config, field_pairs_tokens(before, true), field_tokens(field, true));
        lemma_tokens_add(
            config,
            field_pairs_tokens(before, true) + field_tokens(field, true),
            optional_token(result.1.last().separator),
        );
        lemma_optional_tidy(config, result.1.last().separator);
        if quiet(state) && no_directive(field_pairs_tokens(fields.take(count), true)) {
            match current.separator {
                Some(separator) => {
                    lemma_formatted_token_tidy(config, end_state, separator);
                    lemma_trivia_add(config, comments, dropped_comments(separator));
                    lemma_trivia_add(config, comments, format_trailing(separator.trailing));
                },
                None => {},
            }
        }
    }
}

/// The first formatted statements of a block are tidy.
#[verifier::spinoff_prover]
pub proof fn lemma_formatted_stmts_tidy(
    state: FormatterState,
    stmts: Seq<BlockStmtView>,
    count: int,
)
    requires
        0 <= count <= stmts.len(),
    ensures
        formatted_stmts(state, stmts, count).0.config == state.config,
        formatted_stmts(state, stmts, count).0.range == state.range,
        quiet(state) && no_directive(block_stmts_tokens(stmts.take(count), true)) ==> tokens_tidy(
            state.config,
            block_stmts_tokens(formatted_stmts(state, stmts, count).1, true),
        ) && quiet(formatted_stmts(state, stmts, count).0),
    decreases stmts, count,
{
    reveal(formatted_stmts);
    let config = state.config;
    lemma_formatted_stmts(state, stmts, count);
    if count == 0 {
        lemma_block_stmts_tokens_push(Seq::empty(), arbitrary(), true);
    } else {
        let (before_state, before) = formatted_stmts(state, stmts, count - 1);
        let current = stmts[count - 1];
        let (end_state, stmt) = formatted_stmt(before_state, current.stmt);
        let result = formatted_stmts(state, stmts, count);
        lemma_formatted_stmts(state, stmts, count - 1);
        lemma_formatted_stmts_tidy(state, stmts, count - 1);
        lemma_formatted_stmt(before_state, current.stmt);
        lemma_formatted_stmt_tidy(before_state, current.stmt);
        lemma_decision(before_state, stmt_tokens(current.stmt, true));
        let front = stmts.take(count - 1);
        let formatted = result.1.last();
        assert(stmts.take(count) =~= front.push(current));
        lemma_push_last(before, formatted);
        lemma_block_stmts_tokens_push(front, current, true);
        lemma_block_stmts_tokens_push(before, formatted, true);
        lemma_tokens_add(config, block_stmts_tokens(front, true), stmt_tokens(current.stmt, true));
        lemma_tokens_add(
            config,
            block_stmts_tokens(front, true) + stmt_tokens(current.stmt, true),
            optional_token(current.semicolon),
        );
        lemma_tokens_add(
            config,
            block_stmts_tokens(before, true),
            stmt_tokens(formatted.stmt, true),
        );
        lemma_tokens_add(
            config,
            block_stmts_tokens(before, true) + stmt_tokens(formatted.stmt, true),
            optional_token(formatted.semicolon),
        );
        if quiet(state) && no_directive(block_stmts_tokens(stmts.take(count), true)) {
            lemma_ended_stmt_tidy(config, stmt, current.semicolon);
        }
    }
}

/// The formatted closing statement of a block is tidy.
#[verifier::spinoff_prover]
pub proof fn lemma_formatted_block_last_tidy(
    state: FormatterState,
    last: Option<Box<BlockLastStmtView>>,
)
    ensures
        formatted_block_last(state, last).0.config == state.config,
        formatted_block_last(state, last).0.range == state.range,
        quiet(state) && no_directive(block_last_tokens(last, true)) ==> tokens_tidy(
            state.config,
            block_last_tokens(formatted_block_last(state, last).1, true),
        ) && quiet(formatted_block_last(state, last).0),
    decreases last,
{
    reveal(formatted_block_last);
    reveal(block_last_tokens);
    let config = state.config;
    lemma_formatted_block_last(state, last);
    match last {
        Some(inner) => {
            let (decided, go) = format_decision(state, last_stmt_tokens(inner.stmt, true));
            lemma_decision(state, last_stmt_tokens(inner.stmt, true));
            lemma_tokens_add(
                config,
                last_stmt_tokens(inner.stmt, true),
                optional_token(inner.semicolon),
            );
            if go {
                let (end_state, stmt) = formatted_last_stmt(decided, inner.stmt);
                lemma_formatted_last_stmt(decided, inner.stmt);
                lemma_formatted_last_stmt_tidy(decided, inner.stmt);
                let ended = ended_last_stmt(stmt, inner.semicolon);
                lemma_tokens_add(
                    config,
                    last_stmt_tokens(ended.stmt, true),
                    optional_token(ended.semicolon),
                );
                if quiet(state) && no_directive(block_last_tokens(last, true)) {
                    lemma_ended_last_stmt_tidy(config, stmt, inner.semicolon);
                }
            }
        },
        None => {
            lemma_tokens_one(config, arbitrary());
        },
    }
}

/// A formatted statement is tidy.
#[verifier::spinoff_prover]
pub proof fn lemma_formatted_stmt_tidy(state: FormatterState, stmt: StmtView)
    ensures
        formatted_stmt(state, stmt).0.config == state.config,
        formatted_stmt(state, stmt).0.range == state.range,
        quiet(state) && no_directive(stmt_tokens(stmt, true)) ==> tokens_tidy(
            state.config,
            stmt_tokens(formatted_stmt(state, stmt).1, true),
        ) && quiet(formatted_stmt(state, stmt).0),
    decreases stmt,
{
    reveal(formatted_stmt);
    let (decided, go) = format_decision(state, stmt_tokens(stmt, true));
    lemma_decision(state, stmt_tokens(stmt, true));
    if go {
        match stmt {
            StmtView::Assignment(node) => lemma_formatted_assignment_tidy(decided, node),
            StmtView::Do(node) => lemma_formatted_do_tidy(decided, node),
            StmtView::FunctionCall(node) => lemma_formatted_call_stmt_tidy(decided, node),
            StmtView::FunctionDeclaration(node) => lemma_formatted_function_declaration_tidy(
                decided,
                node,
            ),
            StmtView::GenericFor(node) => lemma_formatted_generic_for_tidy(decided, node),
            StmtView::If(node) => {
                lemma_formatted_if_tidy(decided, node);
                lemma_if_stmt_tokens(node);
                lemma_if_stmt_tokens(formatted_if(decided, node).1);
            },
            StmtView::LocalAssignment(node) => lemma_formatted_local_assignment_tidy(decided, node),
            StmtView::LocalFunction(node) => lemma_formatted_local_function_tidy(decided, node),
            StmtView::NumericFor(node) => lemma_formatted_numeric_for_tidy(decided, node),
            StmtView::Repeat(node) => lemma_formatted_repeat_tidy(decided, node),
            StmtView::While(node) => lemma_formatted_while_tidy(decided, node),
        }
    }
}

/// The tokens of an `if` that stands as a statement are the tokens of the `if`.
#[verifier::spinoff_prover]
pub proof fn lemma_if_stmt_tokens(node: IfView)
    ensures
        stmt_tokens(StmtView::If(node), true) == if_tokens(node, true),
{
    reveal(stmt_tokens);
}

/// The first formatted `elseif` branches are tidy.
#[verifier::spinoff_prover]
pub proof fn lemma_formatted_else_ifs_tidy(
    state: FormatterState,
    branches: Seq<ElseIfView>,
    count: int,
)
    requires
        0 <= count <= branches.len(),
    ensures
        formatted_else_ifs(state, branches, count).0.config == state.config,
        formatted_else_ifs(state, branches, count).0.range == state.range,
        quiet(state) && no_directive(else_ifs_tokens(branches.take(count), true)) ==> tokens_tidy(
            state.config,
            else_ifs_tokens(formatted_else_ifs(state, branches, count).1, true),
        ) && quiet(formatted_else_ifs(state, branches, count).0),
    decreases branches, count,
{
    reveal(formatted_else_ifs);
    let config = state.config;
    lemma_formatted_else_ifs(state, branches, count);
    if count == 0 {
        lemma_else_ifs_tokens_push(Seq::empty(), arbitrary(), true);
    } else {
        let (before_state, before) = formatted_else_ifs(state, branches, count - 1);
        let current = branches[count - 1];
        let (end_state, formatted) = formatted_else_if(before_state, current);
        lemma_formatted_else_ifs(state, branches, count - 1);
        lemma_formatted_else_ifs_tidy(state, branches, count - 1);
        lemma_formatted_else_if_tidy(before_state, current);
        assert(branches.take(count) =~= branches.take(count - 1).push(current));
        lemma_else_ifs_tokens_push(branches.take(count - 1), current, true);
        lemma_else_ifs_tokens_push(before, formatted, true);
        lemma_tokens_add(
            config,
            else_ifs_tokens(branches.take(count - 1), true),
            else_if_tokens(current, true),
        );
        lemma_tokens_add(config, else_ifs_tokens(before, true), else_if_tokens(formatted, true));
    }
}

/// The formatted tokens of the name of a function are tidy.
pub proof fn lemma_formatted_name_tidy(
    config: Config,
    state: FormatterState,
    name: Seq<TokenReferenceView>,
)
    requires
        state.config == config,
    ensures
        tokens_tidy(config, formatted_name(state, name)),
{
    assert forall|i: int| 0 <= i < name.len() implies token_tidy(
        config,
        #[trigger] formatted_name(state, name)[i],
    ) by {
        lemma_formatted_token_tidy(config, state, name[i]);
    }
}

/// Formatting a chunk writes tidy whitespace: where no range restricts the
/// pass and no comment in front of a token of the chunk is a directive, all
/// the whitespace around the tokens of the formatted chunk is an indent, a
/// blank between two tokens, or one line ending of the configured kind.
pub proof fn lemma_format_writes_tidy_whitespace(config: Config, ast: AstView)
    requires
        no_directive(ast_tokens(ast, true)),
    ensures
        tokens_tidy(config, ast_tokens(formatted_ast(config, None, ast), true)),
{
    let state = FormatterState::initial(config, None);
    let (end_state, block) = formatted_block(state, ast.block);
    lemma_formatted_block_tidy(state, ast.block);
    lemma_tokens_add(config, block_tokens(ast.block, true), seq![ast.eof]);
    lemma_tokens_add(config, block_tokens(block, true), seq![formatted_eof(end_state, ast.eof)]);
    lemma_tokens_one(config, formatted_eof(end_state, ast.eof));
    lemma_leading_tidy(config, end_state, ast.eof.leading, 0, None);
    lemma_trailing_tidy(config, ast.eof.trailing, 0);
}

} // verus!
