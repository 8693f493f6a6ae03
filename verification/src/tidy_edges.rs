//! Editing the trivia at the ends of a tidy node with tidy trivia leaves
//! the node tidy.

use vstd::prelude::*;
use crate::config::Config;
use crate::edge_laws::suffixed_last_trailing;
use crate::edges::{
    args_last_trailing, args_last_updated, first_updated, last_trailing, last_updated, lead,
    prefix_first_updated, prefix_last_trailing, prefix_last_updated, suffix_last_trailing,
    suffix_last_updated, suffixed_first_updated, suffixed_last_updated, trail,
};
use crate::flatten::{
    block_tokens, expression_tokens, fields_tokens, function_args_tokens, function_body_tokens,
    prefix_tokens, punctuated_tokens, suffix_tokens, suffixed_tokens, suffixes_tokens, table_tokens,
};
use crate::list_laws::lemma_suffixes_tokens_push;
use crate::tidy::{
    edit_list, lemma_edited_token_tidy, lemma_tokens_add, lemma_tokens_one, tokens_tidy,
    trivia_tidy,
};
use crate::trivia::FormatTriviaTypeView;
use crate::view::{
    ExpressionView, FunctionArgsView, FunctionBodyView, PrefixView, SuffixedView, SuffixView,
    TableConstructorView,
};

verus! {

/// A tidy table whose opening brace gets tidy trivia is tidy.
#[verifier::spinoff_prover]
pub proof fn lemma_table_lead_tidy(
    config: Config,
    table: TableConstructorView,
    edit: FormatTriviaTypeView,
)
    requires
        tokens_tidy(config, table_tokens(table, true)),
        trivia_tidy(config, edit_list(edit)),
    ensures
        tokens_tidy(
            config,
            table_tokens(TableConstructorView { open: lead(table.open, edit), ..table }, true),
        ),
{
    reveal(table_tokens);
    let b0 = seq![table.open];
    let a0 = seq![lead(table.open, edit)];
    lemma_tokens_one(config, table.open);
    lemma_tokens_one(config, lead(table.open, edit));
    let b1 = fields_tokens(table.fields, true);
    let a1 = fields_tokens(table.fields, true);
    let b2 = seq![table.close];
    let a2 = seq![table.close];
    lemma_tokens_one(config, table.close);
    lemma_tokens_add(config, b0, b1);
    let before1 = b0 + b1;
    let after1 = a0 + a1;
    lemma_tokens_add(config, before1, b2);
    lemma_edited_token_tidy(config, table.open, edit, FormatTriviaTypeView::NoChange);
    lemma_tokens_add(config, a0, a1);
    lemma_tokens_add(config, after1, a2);
}

/// A tidy table whose closing brace gets tidy trivia is tidy, and the
/// trivia behind the brace were tidy.
#[verifier::spinoff_prover]
pub proof fn lemma_table_trail_tidy(
    config: Config,
    table: TableConstructorView,
    edit: FormatTriviaTypeView,
)
    requires
        tokens_tidy(config, table_tokens(table, true)),
        trivia_tidy(config, edit_list(edit)),
    ensures
        tokens_tidy(
            config,
            table_tokens(TableConstructorView { close: trail(table.close, edit), ..table }, true),
        ),
        trivia_tidy(config, table.close.trailing),
{
    reveal(table_tokens);
    let b0 = seq![table.open];
    let a0 = seq![table.open];
    lemma_tokens_one(config, table.open);
    let b1 = fields_tokens(table.fields, true);
    let a1 = fields_tokens(table.fields, true);
    let b2 = seq![table.close];
    let a2 = seq![trail(table.close, edit)];
    lemma_tokens_one(config, table.close);
    lemma_tokens_one(config, trail(table.close, edit));
    lemma_tokens_add(config, b0, b1);
    let before1 = b0 + b1;
    let after1 = a0 + a1;
    lemma_tokens_add(config, before1, b2);
    lemma_edited_token_tidy(config, table.close, FormatTriviaTypeView::NoChange, edit);
    lemma_tokens_add(config, a0, a1);
    lemma_tokens_add(config, after1, a2);
}

/// A tidy function body whose `end` gets tidy trivia is tidy, and the
/// trivia behind `end` were tidy.
#[verifier::spinoff_prover]
pub proof fn lemma_body_trail_tidy(
    config: Config,
    body: FunctionBodyView,
    edit: FormatTriviaTypeView,
)
    requires
        tokens_tidy(config, function_body_tokens(body, true)),
        trivia_tidy(config, edit_list(edit)),
    ensures
        tokens_tidy(
            config,
            function_body_tokens(
                FunctionBodyView { end_token: trail(body.end_token, edit), ..body },
                true,
            ),
        ),
        trivia_tidy(config, body.end_token.trailing),
{
    reveal(function_body_tokens);
    let b0 = seq![body.open];
    let a0 = seq![body.open];
    lemma_tokens_one(config, body.open);
    let b1 = punctuated_tokens(body.parameters, true);
    let a1 = punctuated_tokens(body.parameters, true);
    let b2 = seq![body.close];
    let a2 = seq![body.close];
    lemma_tokens_one(config, body.close);
    let b3 = block_tokens(body.block, true);
    let a3 = block_tokens(body.block, true);
    let b4 = seq![body.end_token];
    let a4 = seq![trail(body.end_token, edit)];
    lemma_tokens_one(config, body.end_token);
    lemma_tokens_one(config, trail(body.end_token, edit));
    lemma_tokens_add(config, b0, b1);
    let before1 = b0 + b1;
    let after1 = a0 + a1;
    lemma_tokens_add(config, before1, b2);
    let before2 = before1 + b2;
    let after2 = after1 + a2;
    lemma_tokens_add(config, before2, b3);
    let before3 = before2 + b3;
    let after3 = after2 + a3;
    lemma_tokens_add(config, before3, b4);
    lemma_edited_token_tidy(config, body.end_token, FormatTriviaTypeView::NoChange, edit);
    lemma_tokens_add(config, a0, a1);
    lemma_tokens_add(config, after1, a2);
    lemma_tokens_add(config, after2, a3);
    lemma_tokens_add(config, after3, a4);
}

/// A tidy expression whose first token gets tidy trivia in front of it is tidy.
#[verifier::spinoff_prover]
pub proof fn lemma_first_updated_tidy(config: Config, e: ExpressionView, edit: FormatTriviaTypeView)
    requires
        tokens_tidy(config, expression_tokens(e, true)),
        trivia_tidy(config, edit_list(edit)),
    ensures
        tokens_tidy(config, expression_tokens(first_updated(e, edit), true)),
    decreases e,
{
    reveal(expression_tokens);
    match e {
        ExpressionView::Number(t) => {
            let b0 = seq![t];
            let a0 = seq![lead(t, edit)];
            lemma_tokens_one(config, t);
            lemma_tokens_one(config, lead(t, edit));
            lemma_edited_token_tidy(config, t, edit, FormatTriviaTypeView::NoChange);
        },
        ExpressionView::String(t) => {
            let b0 = seq![t];
            let a0 = seq![lead(t, edit)];
            lemma_tokens_one(config, t);
            lemma_tokens_one(config, lead(t, edit));
            lemma_edited_token_tidy(config, t, edit, FormatTriviaTypeView::NoChange);
        },
        ExpressionView::Symbol(t) => {
            let b0 = seq![t];
            let a0 = seq![lead(t, edit)];
            lemma_tokens_one(config, t);
            lemma_tokens_one(config, lead(t, edit));
            lemma_edited_token_tidy(config, t, edit, FormatTriviaTypeView::NoChange);
        },
        ExpressionView::Name(t) => {
            let b0 = seq![t];
            let a0 = seq![lead(t, edit)];
            lemma_tokens_one(config, t);
            lemma_tokens_one(config, lead(t, edit));
            lemma_edited_token_tidy(config, t, edit, FormatTriviaTypeView::NoChange);
        },
        ExpressionView::Parentheses { open, expression, close } => {
            let b0 = seq![open];
            let a0 = seq![lead(open, edit)];
            lemma_tokens_one(config, open);
            lemma_tokens_one(config, lead(open, edit));
            let b1 = expression_tokens(*expression, true);
            let a1 = expression_tokens(*expression, true);
            let b2 = seq![close];
            let a2 = seq![close];
            lemma_tokens_one(config, close);
            lemma_tokens_add(config, b0, b1);
            let before1 = b0 + b1;
            let after1 = a0 + a1;
            lemma_tokens_add(config, before1, b2);
            lemma_edited_token_tidy(config, open, edit, FormatTriviaTypeView::NoChange);
            lemma_tokens_add(config, a0, a1);
            lemma_tokens_add(config, after1, a2);
        },
        ExpressionView::UnaryOperator { operator, expression } => {
            let b0 = seq![operator];
            let a0 = seq![lead(operator, edit)];
            lemma_tokens_one(config, operator);
            lemma_tokens_one(config, lead(operator, edit));
            let b1 = expression_tokens(*expression, true);
            let a1 = expression_tokens(*expression, true);
            lemma_tokens_add(config, b0, b1);
            lemma_edited_token_tidy(config, operator, edit, FormatTriviaTypeView::NoChange);
            lemma_tokens_add(config, a0, a1);
        },
        ExpressionView::BinaryOperator { lhs, operator, rhs } => {
            let b0 = expression_tokens(*lhs, true);
            let a0 = expression_tokens(first_updated(*lhs, edit), true);
            let b1 = seq![operator];
            let a1 = seq![operator];
            lemma_tokens_one(config, operator);
            let b2 = expression_tokens(*rhs, true);
            let a2 = expression_tokens(*rhs, true);
            lemma_tokens_add(config, b0, b1);
            let before1 = b0 + b1;
            let after1 = a0 + a1;
            lemma_tokens_add(config, before1, b2);
            lemma_first_updated_tidy(config, *lhs, edit);
            lemma_tokens_add(config, a0, a1);
            lemma_tokens_add(config, after1, a2);
        },
        ExpressionView::Function { function_token, body } => {
            let b0 = seq![function_token];
            let a0 = seq![lead(function_token, edit)];
            lemma_tokens_one(config, function_token);
            lemma_tokens_one(config, lead(function_token, edit));
            let b1 = function_body_tokens(body, true);
            let a1 = function_body_tokens(body, true);
            lemma_tokens_add(config, b0, b1);
            lemma_edited_token_tidy(config, function_token, edit, FormatTriviaTypeView::NoChange);
            lemma_tokens_add(config, a0, a1);
        },
        ExpressionView::FunctionCall(call) => {
            let b0 = prefix_tokens(call.prefix, true);
            let a0 = prefix_tokens(prefix_first_updated(call.prefix, edit), true);
            let b1 = suffixes_tokens(call.suffixes, true);
            let a1 = suffixes_tokens(call.suffixes, true);
            lemma_tokens_add(config, b0, b1);
            lemma_prefix_first_updated_tidy(config, call.prefix, edit);
            lemma_tokens_add(config, a0, a1);
        },
        ExpressionView::Var(var) => {
            let b0 = prefix_tokens(var.prefix, true);
            let a0 = prefix_tokens(prefix_first_updated(var.prefix, edit), true);
            let b1 = suffixes_tokens(var.suffixes, true);
            let a1 = suffixes_tokens(var.suffixes, true);
            lemma_tokens_add(config, b0, b1);
            lemma_prefix_first_updated_tidy(config, var.prefix, edit);
            lemma_tokens_add(config, a0, a1);
        },
        ExpressionView::TableConstructor(table) => {
            let b0 = table_tokens(table, true);
            let a0 = table_tokens(
                TableConstructorView { open: lead(table.open, edit), ..table },
                true,
            );
            lemma_table_lead_tidy(config, table, edit);
        },
    }
}

/// A tidy prefix whose first token gets tidy trivia in front of it is tidy.
#[verifier::spinoff_prover]
pub proof fn lemma_prefix_first_updated_tidy(
    config: Config,
    prefix: PrefixView,
    edit: FormatTriviaTypeView,
)
    requires
        tokens_tidy(config, prefix_tokens(prefix, true)),
        trivia_tidy(config, edit_list(edit)),
    ensures
        tokens_tidy(config, prefix_tokens(prefix_first_updated(prefix, edit), true)),
    decreases prefix,
{
    reveal(prefix_tokens);
    match prefix {
        PrefixView::Name(t) => {
            let b0 = seq![t];
            let a0 = seq![lead(t, edit)];
            lemma_tokens_one(config, t);
            lemma_tokens_one(config, lead(t, edit));
            lemma_edited_token_tidy(config, t, edit, FormatTriviaTypeView::NoChange);
        },
        PrefixView::Expression(e) => {
            let b0 = expression_tokens(*e, true);
            let a0 = expression_tokens(first_updated(*e, edit), true);
            lemma_first_updated_tidy(config, *e, edit);
        },
    }
}

/// Tidy arguments whose last token gets tidy trivia behind it are tidy, and
/// the trivia behind the token were tidy.
#[verifier::spinoff_prover]
pub proof fn lemma_args_last_updated_tidy(
    config: Config,
    args: FunctionArgsView,
    edit: FormatTriviaTypeView,
)
    requires
        tokens_tidy(config, function_args_tokens(args, true)),
        trivia_tidy(config, edit_list(edit)),
    ensures
        tokens_tidy(config, function_args_tokens(args_last_updated(args, edit), true)),
        trivia_tidy(config, args_last_trailing(args)),
{
    reveal(function_args_tokens);
    match args {
        FunctionArgsView::Parentheses { open, arguments, close } => {
            let b0 = seq![open];
            let a0 = seq![open];
            lemma_tokens_one(config, open);
            let b1 = punctuated_tokens(arguments, true);
            let a1 = punctuated_tokens(arguments, true);
            let b2 = seq![close];
            let a2 = seq![trail(close, edit)];
            lemma_tokens_one(config, close);
            lemma_tokens_one(config, trail(close, edit));
            lemma_tokens_add(config, b0, b1);
            let before1 = b0 + b1;
            let after1 = a0 + a1;
            lemma_tokens_add(config, before1, b2);
            lemma_edited_token_tidy(config, close, FormatTriviaTypeView::NoChange, edit);
            lemma_tokens_add(config, a0, a1);
            lemma_tokens_add(config, after1, a2);
        },
        FunctionArgsView::String(t) => {
            let b0 = seq![t];
            let a0 = seq![trail(t, edit)];
            lemma_tokens_one(config, t);
            lemma_tokens_one(config, trail(t, edit));
            lemma_edited_token_tidy(config, t, FormatTriviaTypeView::NoChange, edit);
        },
        FunctionArgsView::TableConstructor(table) => {
            let b0 = table_tokens(table, true);
            let a0 = table_tokens(
                TableConstructorView { close: trail(table.close, edit), ..table },
                true,
            );
            lemma_table_trail_tidy(config, table, edit);
        },
    }
}

/// A tidy suffix whose last token gets tidy trivia behind it is tidy, and
/// the trivia behind the token were tidy.
#[verifier::spinoff_prover]
pub proof fn lemma_suffix_last_updated_tidy(
    config: Config,
    suffix: SuffixView,
    edit: FormatTriviaTypeView,
)
    requires
        tokens_tidy(config, suffix_tokens(suffix, true)),
        trivia_tidy(config, edit_list(edit)),
    ensures
        tokens_tidy(config, suffix_tokens(suffix_last_updated(suffix, edit), true)),
        trivia_tidy(config, suffix_last_trailing(suffix)),
{
    reveal(suffix_tokens);
    match suffix {
        SuffixView::Dot { dot, name } => {
            let b0 = seq![dot];
            let a0 = seq![dot];
            lemma_tokens_one(config, dot);
            let b1 = seq![name];
            let a1 = seq![trail(name, edit)];
            lemma_tokens_one(config, name);
            lemma_tokens_one(config, trail(name, edit));
            lemma_tokens_add(config, b0, b1);
            lemma_edited_token_tidy(config, name, FormatTriviaTypeView::NoChange, edit);
            lemma_tokens_add(config, a0, a1);
        },
        SuffixView::Brackets { open, expression, close } => {
            let b0 = seq![open];
            let a0 = seq![open];
            lemma_tokens_one(config, open);
            let b1 = expression_tokens(expression, true);
            let a1 = expression_tokens(expression, true);
            let b2 = seq![close];
            let a2 = seq![trail(close, edit)];
            lemma_tokens_one(config, close);
            lemma_tokens_one(config, trail(close, edit));
            lemma_tokens_add(config, b0, b1);
            let before1 = b0 + b1;
            let after1 = a0 + a1;
            lemma_tokens_add(config, before1, b2);
            lemma_edited_token_tidy(config, close, FormatTriviaTypeView::NoChange, edit);
            lemma_tokens_add(config, a0, a1);
            lemma_tokens_add(config, after1, a2);
        },
        SuffixView::Call(args) => {
            let b0 = function_args_tokens(args, true);
            let a0 = function_args_tokens(args_last_updated(args, edit), true);
            lemma_args_last_updated_tidy(config, args, edit);
        },
        SuffixView::MethodCall { colon, name, args } => {
            let b0 = seq![colon];
            let a0 = seq![colon];
            lemma_tokens_one(config, colon);
            let b1 = seq![name];
            let a1 = seq![name];
            lemma_tokens_one(config, name);
            let b2 = function_args_tokens(args, true);
            let a2 = function_args_tokens(args_last_updated(args, edit), true);
            lemma_tokens_add(config, b0, b1);
            let before1 = b0 + b1;
            let after1 = a0 + a1;
            lemma_tokens_add(config, before1, b2);
            lemma_args_last_updated_tidy(config, args, edit);
            lemma_tokens_add(config, a0, a1);
            lemma_tokens_add(config, after1, a2);
        },
    }
}

/// A tidy expression whose last token gets tidy trivia behind it is tidy,
/// and the trivia behind the token were tidy.
#[verifier::spinoff_prover]
pub proof fn lemma_last_updated_tidy(config: Config, e: ExpressionView, edit: FormatTriviaTypeView)
    requires
        tokens_tidy(config, expression_tokens(e, true)),
        trivia_tidy(config, edit_list(edit)),
    ensures
        tokens_tidy(config, expression_tokens(last_updated(e, edit), true)),
        trivia_tidy(config, last_trailing(e)),
    decreases e, 1nat,
{
    reveal(expression_tokens);
    match e {
        ExpressionView::Number(t) => {
            let b0 = seq![t];
            let a0 = seq![trail(t, edit)];
            lemma_tokens_one(config, t);
            lemma_tokens_one(config, trail(t, edit));
            lemma_edited_token_tidy(config, t, FormatTriviaTypeView::NoChange, edit);
        },
        ExpressionView::String(t) => {
            let b0 = seq![t];
            let a0 = seq![trail(t, edit)];
            lemma_tokens_one(config, t);
            lemma_tokens_one(config, trail(t, edit));
            lemma_edited_token_tidy(config, t, FormatTriviaTypeView::NoChange, edit);
        },
        ExpressionView::Symbol(t) => {
            let b0 = seq![t];
            let a0 = seq![trail(t, edit)];
            lemma_tokens_one(config, t);
            lemma_tokens_one(config, trail(t, edit));
            lemma_edited_token_tidy(config, t, FormatTriviaTypeView::NoChange, edit);
        },
        ExpressionView::Name(t) => {
            let b0 = seq![t];
            let a0 = seq![trail(t, edit)];
            lemma_tokens_one(config, t);
            lemma_tokens_one(config, trail(t, edit));
            lemma_edited_token_tidy(config, t, FormatTriviaTypeView::NoChange, edit);
        },
        ExpressionView::Parentheses { open, expression, close } => {
            let b0 = seq![open];
            let a0 = seq![open];
            lemma_tokens_one(config, open);
            let b1 = expression_tokens(*expression, true);
            let a1 = expression_tokens(*expression, true);
            let b2 = seq![close];
            let a2 = seq![trail(close, edit)];
            lemma_tokens_one(config, close);
            lemma_tokens_one(config, trail(close, edit));
            lemma_tokens_add(config, b0, b1);
            let before1 = b0 + b1;
            let after1 = a0 + a1;
            lemma_tokens_add(config, before1, b2);
            lemma_edited_token_tidy(config, close, FormatTriviaTypeView::NoChange, edit);
            lemma_tokens_add(config, a0, a1);
            lemma_tokens_add(config, after1, a2);
        },
        ExpressionView::UnaryOperator { operator, expression } => {
            let b0 = seq![operator];
            let a0 = seq![operator];
            lemma_tokens_one(config, operator);
            let b1 = expression_tokens(*expression, true);
            let a1 = expression_tokens(last_updated(*expression, edit), true);
            lemma_tokens_add(config, b0, b1);
            lemma_last_updated_tidy(config, *expression, edit);
            lemma_tokens_add(config, a0, a1);
        },
        ExpressionView::BinaryOperator { lhs, operator, rhs } => {
            let b0 = expression_tokens(*lhs, true);
            let a0 = expression_tokens(*lhs, true);
            let b1 = seq![operator];
            let a1 = seq![operator];
            lemma_tokens_one(config, operator);
            let b2 = expression_tokens(*rhs, true);
            let a2 = expression_tokens(last_updated(*rhs, edit), true);
            lemma_tokens_add(config, b0, b1);
            let before1 = b0 + b1;
            let after1 = a0 + a1;
            lemma_tokens_add(config, before1, b2);
            lemma_last_updated_tidy(config, *rhs, edit);
            lemma_tokens_add(config, a0, a1);
            lemma_tokens_add(config, after1, a2);
        },
        ExpressionView::Function { function_token, body } => {
            let b0 = seq![function_token];
            let a0 = seq![function_token];
            lemma_tokens_one(config, function_token);
            let b1 = function_body_tokens(body, true);
            let a1 = function_body_tokens(
                FunctionBodyView { end_token: trail(body.end_token, edit), ..body },
                true,
            );
            lemma_tokens_add(config, b0, b1);
            lemma_body_trail_tidy(config, body, edit);
            lemma_tokens_add(config, a0, a1);
        },
        ExpressionView::FunctionCall(call) => {
            lemma_suffixed_last_updated_tidy(config, call, edit);
        },
        ExpressionView::Var(var) => {
            lemma_suffixed_last_updated_tidy(config, var, edit);
        },
        ExpressionView::TableConstructor(table) => {
            let b0 = table_tokens(table, true);
            let a0 = table_tokens(
                TableConstructorView { close: trail(table.close, edit), ..table },
                true,
            );
            lemma_table_trail_tidy(config, table, edit);
        },
    }
}

/// A tidy prefix whose last token gets tidy trivia behind it is tidy, and
/// the trivia behind the token were tidy.
#[verifier::spinoff_prover]
pub proof fn lemma_prefix_last_updated_tidy(
    config: Config,
    prefix: PrefixView,
    edit: FormatTriviaTypeView,
)
    requires
        tokens_tidy(config, prefix_tokens(prefix, true)),
        trivia_tidy(config, edit_list(edit)),
    ensures
        tokens_tidy(config, prefix_tokens(prefix_last_updated(prefix, edit), true)),
        trivia_tidy(config, prefix_last_trailing(prefix)),
    decreases prefix,
{
    reveal(prefix_tokens);
    match prefix {
        PrefixView::Name(t) => {
            let b0 = seq![t];
            let a0 = seq![trail(t, edit)];
            lemma_tokens_one(config, t);
            lemma_tokens_one(config, trail(t, edit));
            lemma_edited_token_tidy(config, t, FormatTriviaTypeView::NoChange, edit);
        },
        PrefixView::Expression(e) => {
            let b0 = expression_tokens(*e, true);
            let a0 = expression_tokens(last_updated(*e, edit), true);
            lemma_last_updated_tidy(config, *e, edit);
        },
    }
}


/// A tidy call or indexed expression whose last token gets tidy trivia
/// behind it is tidy, and the trivia behind the token were tidy.
#[verifier::spinoff_prover]
pub proof fn lemma_suffixed_last_updated_tidy(
    config: Config,
    node: SuffixedView,
    edit: FormatTriviaTypeView,
)
    requires
        tokens_tidy(config, suffixed_tokens(node, true)),
        trivia_tidy(config, edit_list(edit)),
    ensures
        tokens_tidy(config, suffixed_tokens(suffixed_last_updated(node, edit), true)),
        trivia_tidy(config, suffixed_last_trailing(node)),
    decreases node, 0nat,
{
    lemma_tokens_add(
        config,
        prefix_tokens(node.prefix, true),
        suffixes_tokens(node.suffixes, true),
    );
    if node.suffixes.len() == 0 {
        lemma_prefix_last_updated_tidy(config, node.prefix, edit);
        lemma_tokens_add(
            config,
            prefix_tokens(prefix_last_updated(node.prefix, edit), true),
            suffixes_tokens(node.suffixes, true),
        );
    } else {
        let front = node.suffixes.drop_last();
        let last = node.suffixes.last();
        let updated = suffix_last_updated(last, edit);
        assert(front.push(last) =~= node.suffixes);
        lemma_suffixes_tokens_push(front, last, true);
        lemma_suffixes_tokens_push(front, updated, true);
        lemma_tokens_add(config, suffixes_tokens(front, true), suffix_tokens(last, true));
        lemma_suffix_last_updated_tidy(config, last, edit);
        lemma_tokens_add(config, suffixes_tokens(front, true), suffix_tokens(updated, true));
        lemma_tokens_add(
            config,
            prefix_tokens(node.prefix, true),
            suffixes_tokens(front.push(updated), true),
        );
    }
}

/// A tidy call or indexed expression whose first token gets tidy trivia in
/// front of it is tidy.
pub proof fn lemma_suffixed_first_updated_tidy(
    config: Config,
    node: SuffixedView,
    edit: FormatTriviaTypeView,
)
    requires
        tokens_tidy(config, suffixed_tokens(node, true)),
        trivia_tidy(config, edit_list(edit)),
    ensures
        tokens_tidy(config, suffixed_tokens(suffixed_first_updated(node, edit), true)),
{
    lemma_tokens_add(
        config,
        prefix_tokens(node.prefix, true),
        suffixes_tokens(node.suffixes, true),
    );
    lemma_prefix_first_updated_tidy(config, node.prefix, edit);
    lemma_tokens_add(
        config,
        prefix_tokens(prefix_first_updated(node.prefix, edit), true),
        suffixes_tokens(node.suffixes, true),
    );
}

} // verus!
