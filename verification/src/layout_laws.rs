//! Formatting keeps the tokens of every node and accounts for every comment.
//!
//! For each kind of node there is a proof that what formatting makes of the
//! node is a sound piece: the formatted node has the tokens of the node, and
//! the comments on them are those on the tokens of the node, but for the
//! comments that a list gives away to the token behind it.

use vstd::multiset::Multiset;
use vstd::prelude::*;
use crate::block::{formatted_ast, formatted_eof};
use crate::config::Config;
use crate::edge_laws::{
    lemma_body_trail, lemma_first_updated, lemma_last_cleared, lemma_last_updated,
    lemma_suffixed_first_updated, lemma_suffixed_last_updated, suffixed_piece,
};
use crate::edges::{
    cleared, first_updated, last_trailing, last_updated, punctuated_first_updated,
    suffixed_first_updated, suffixed_last_updated,
};
use crate::ending_laws::{
    block_last_stmt_piece, block_stmt_piece, lemma_ended_last_stmt, lemma_ended_stmt,
};
use crate::endings::ended_last_stmt;
use crate::flatten::block_stmts_tokens;
use crate::flatten::{
    ast_tokens, block_last_tokens, block_tokens, else_if_tokens, else_tokens, expression_tokens,
    field_pairs_tokens, field_tokens, fields_tokens, function_args_tokens, function_body_tokens,
    if_tokens, last_stmt_tokens, optional_token, pairs_tokens, prefix_tokens, punctuated_tokens,
    step_tokens, stmt_tokens, suffix_tokens, table_tokens,
};
use crate::formatter::{count_of, format_trailing, EndTokenType, FormatterState};
use crate::hang::hang_expression;
use crate::hang_laws::{lemma_hang_expression, lemma_laid_out_values};
use crate::laws::{
    atoms_kept, comments_of, kept, lemma_and_then_to, lemma_followed_by, lemma_kept_add,
    lemma_kept_few, lemma_nothing, lemma_same, lemma_token_piece, Piece,
};
use crate::layout::{
    append, assignment_tokens, closed_body, condition_closer, condition_opener, dropped_comments,
    formatted_assignment, formatted_block, formatted_block_last, formatted_call_stmt,
    formatted_condition, formatted_do, formatted_else, formatted_else_if, formatted_else_ifs,
    formatted_expression, formatted_field, formatted_fields, formatted_function_args,
    formatted_function_body, formatted_function_declaration, formatted_generic_for, formatted_if,
    formatted_last_stmt, formatted_local_assignment, formatted_local_function, formatted_name,
    formatted_nested_block, formatted_numeric_for, formatted_pairs, formatted_prefix,
    formatted_punctuated, formatted_repeat, formatted_step, formatted_stmt,
    formatted_stmts, formatted_suffix, formatted_suffixes, formatted_table, formatted_while,
    hangs_condition, hangs_values, header_width, bracket_gap, laid_out_values, line_end, unary_gap,
    list_separator, local_assignment_tokens, opening, token_range, tokens_indent_increase,
    with_expression_range,
};
use crate::list_laws::{
    fronted_piece, lemma_block_stmts_tokens_push, lemma_else_ifs_tokens_push,
    lemma_field_pairs_tokens_push, lemma_fields_tokens, lemma_line_end, lemma_pairs_tokens_push,
    lemma_punctuated_first_updated, lemma_punctuated_tokens, lemma_suffixes_tokens_push,
};
use crate::measure::stripped;
use crate::pieces::{
    block_last_piece, block_piece, block_stmts_piece, else_if_piece, else_ifs_piece, else_piece,
    expression_piece, field_piece, fields_piece, function_args_piece, function_body_piece, if_piece,
    last_stmt_piece, lemma_conclude, lemma_condition_pieces, lemma_dropped_separator,
    lemma_end_piece, lemma_reference_piece, lemma_separator_piece, lemma_symbol_piece,
    lemma_token_edit, prefix_piece, punctuated_piece, step_piece, stmt_piece, suffix_piece,
    suffixes_piece, table_piece,
};
use crate::range::format_decision;
use crate::sequences::{lemma_add_assoc, lemma_add_empty, lemma_push_last};
use crate::token::{TokenReferenceView, TokenView};
use crate::token_laws::{added_by, lemma_kept_whitespace};
use crate::trivia::{space, with_trivia, FormatTriviaTypeView};
use crate::view::{
    AssignmentView, AstView, BlockLastStmtView, BlockStmtView, BlockView, DoView, ElseIfView,
    ElseView, ExpressionView, FieldPairView, FieldView, ForStepView, FunctionArgsView,
    FunctionBodyView, FunctionDeclarationView, GenericForView, IfView, LastStmtView,
    LocalAssignmentView, LocalFunctionView, NumericForView, PairView, PrefixView, PunctuatedView,
    RepeatView, StmtView, SuffixedView, SuffixView, TableConstructorView, WhileView,
};

verus! {

/// The piece of the first elements of a list on one line. Where they are
/// all the elements of the list, the separator behind the last does not
/// count among the tokens that are kept.
pub open spec fn listed_pairs_piece(
    before: Seq<PairView>,
    after: Seq<PairView>,
    whole: bool,
    given: Multiset<TokenView>,
) -> Piece {
    Piece {
        before_all: pairs_tokens(before, true),
        before_kept: if whole {
            punctuated_tokens(PunctuatedView { pairs: before }, false)
        } else {
            pairs_tokens(before, false)
        },
        after_all: pairs_tokens(after, true),
        after_kept: if whole {
            punctuated_tokens(PunctuatedView { pairs: after }, false)
        } else {
            pairs_tokens(after, false)
        },
        taken: Multiset::empty(),
        given,
    }
}

/// The piece of the first fields of a table on one line. Where they are all
/// the fields of the table, the separator behind the last does not count
/// among the tokens that are kept.
pub open spec fn listed_fields_piece(
    before: Seq<FieldPairView>,
    after: Seq<FieldPairView>,
    whole: bool,
    given: Multiset<TokenView>,
) -> Piece {
    Piece {
        before_all: field_pairs_tokens(before, true),
        before_kept: if whole {
            fields_tokens(before, false)
        } else {
            field_pairs_tokens(before, false)
        },
        after_all: field_pairs_tokens(after, true),
        after_kept: if whole {
            fields_tokens(after, false)
        } else {
            field_pairs_tokens(after, false)
        },
        taken: Multiset::empty(),
        given,
    }
}

/// A formatted expression has the tokens of the expression and its comments.
#[verifier::spinoff_prover]
pub proof fn lemma_formatted_expression(state: FormatterState, e: ExpressionView)
    ensures
        formatted_expression(state, e).0.config == state.config,
        expression_piece(
            e,
            formatted_expression(state, e).1,
            Multiset::empty(),
            Multiset::empty(),
        ).sound(state.config),
    decreases e, 0nat,
{
    reveal(formatted_expression);
    reveal(expression_tokens);
    let config = state.config;
    match e {
        ExpressionView::Number(t) => {
            lemma_reference_piece(config, state, t);
            let part0 = Piece::token(
                t,
                state.format_token_reference(t),
                Multiset::empty(),
                Multiset::empty(),
            );
            let whole = part0;
            assert(whole.taken.add(Multiset::empty()) =~= whole.given.add(Multiset::empty()));
            lemma_conclude(
                config,
                whole,
                expression_piece(
                    e,
                    formatted_expression(state, e).1,
                    Multiset::empty(),
                    Multiset::empty(),
                ),
            );
        },
        ExpressionView::String(t) => {
            lemma_reference_piece(config, state, t);
            let part0 = Piece::token(
                t,
                state.format_token_reference(t),
                Multiset::empty(),
                Multiset::empty(),
            );
            let whole = part0;
            assert(whole.taken.add(Multiset::empty()) =~= whole.given.add(Multiset::empty()));
            lemma_conclude(
                config,
                whole,
                expression_piece(
                    e,
                    formatted_expression(state, e).1,
                    Multiset::empty(),
                    Multiset::empty(),
                ),
            );
        },
        ExpressionView::Symbol(t) => {
            lemma_reference_piece(config, state, t);
            let part0 = Piece::token(
                t,
                state.format_token_reference(t),
                Multiset::empty(),
                Multiset::empty(),
            );
            let whole = part0;
            assert(whole.taken.add(Multiset::empty()) =~= whole.given.add(Multiset::empty()));
            lemma_conclude(
                config,
                whole,
                expression_piece(
                    e,
                    formatted_expression(state, e).1,
                    Multiset::empty(),
                    Multiset::empty(),
                ),
            );
        },
        ExpressionView::Name(t) => {
            lemma_reference_piece(config, state, t);
            let part0 = Piece::token(
                t,
                state.format_token_reference(t),
                Multiset::empty(),
                Multiset::empty(),
            );
            let whole = part0;
            assert(whole.taken.add(Multiset::empty()) =~= whole.given.add(Multiset::empty()));
            lemma_conclude(
                config,
                whole,
                expression_piece(
                    e,
                    formatted_expression(state, e).1,
                    Multiset::empty(),
                    Multiset::empty(),
                ),
            );
        },
        ExpressionView::Parentheses { open, expression, close } => {
            let (inner_state, inner) = formatted_expression(state, *expression);
            lemma_symbol_piece(config, state, open, false, false);
            let part0 = Piece::token(
                open,
                state.format_symbol(open, false, false),
                Multiset::empty(),
                Multiset::empty(),
            );
            lemma_formatted_expression(state, *expression);
            let part1 = expression_piece(
                *expression,
                formatted_expression(state, *expression).1,
                Multiset::empty(),
                Multiset::empty(),
            );
            lemma_symbol_piece(config, inner_state, close, false, false);
            let part2 = Piece::token(
                close,
                inner_state.format_symbol(close, false, false),
                Multiset::empty(),
                Multiset::empty(),
            );
            lemma_followed_by(config, part0, part1);
            lemma_followed_by(config, part0.followed_by(part1), part2);
            let whole = part0.followed_by(part1).followed_by(part2);
            assert(whole.taken.add(Multiset::empty()) =~= whole.given.add(Multiset::empty()));
            lemma_conclude(
                config,
                whole,
                expression_piece(
                    e,
                    formatted_expression(state, e).1,
                    Multiset::empty(),
                    Multiset::empty(),
                ),
            );
        },
        ExpressionView::UnaryOperator { operator, expression } => {
            lemma_symbol_piece(
                config,
                state,
                operator,
                false,
                unary_gap(operator, *expression),
            );
            let part0 = Piece::token(
                operator,
                state.format_symbol(operator, false, unary_gap(operator, *expression)),
                Multiset::empty(),
                Multiset::empty(),
            );
            lemma_formatted_expression(state, *expression);
            let part1 = expression_piece(
                *expression,
                formatted_expression(state, *expression).1,
                Multiset::empty(),
                Multiset::empty(),
            );
            lemma_followed_by(config, part0, part1);
            let whole = part0.followed_by(part1);
            assert(whole.taken.add(Multiset::empty()) =~= whole.given.add(Multiset::empty()));
            lemma_conclude(
                config,
                whole,
                expression_piece(
                    e,
                    formatted_expression(state, e).1,
                    Multiset::empty(),
                    Multiset::empty(),
                ),
            );
        },
        ExpressionView::BinaryOperator { lhs, operator, rhs } => {
            let (left_state, left) = formatted_expression(state, *lhs);
            lemma_formatted_expression(state, *lhs);
            let part0 = expression_piece(
                *lhs,
                formatted_expression(state, *lhs).1,
                Multiset::empty(),
                Multiset::empty(),
            );
            lemma_symbol_piece(config, left_state, operator, true, true);
            let part1 = Piece::token(
                operator,
                left_state.format_symbol(operator, true, true),
                Multiset::empty(),
                Multiset::empty(),
            );
            lemma_formatted_expression(left_state, *rhs);
            let part2 = expression_piece(
                *rhs,
                formatted_expression(left_state, *rhs).1,
                Multiset::empty(),
                Multiset::empty(),
            );
            lemma_followed_by(config, part0, part1);
            lemma_followed_by(config, part0.followed_by(part1), part2);
            let whole = part0.followed_by(part1).followed_by(part2);
            assert(whole.taken.add(Multiset::empty()) =~= whole.given.add(Multiset::empty()));
            lemma_conclude(
                config,
                whole,
                expression_piece(
                    e,
                    formatted_expression(state, e).1,
                    Multiset::empty(),
                    Multiset::empty(),
                ),
            );
        },
        ExpressionView::Function { function_token, body } => {
            let extra = state.range_indent_increase(token_range(function_token));
            lemma_symbol_piece(config, state, function_token, false, false);
            let part0 = Piece::token(
                function_token,
                state.format_symbol(function_token, false, false),
                Multiset::empty(),
                Multiset::empty(),
            );
            lemma_formatted_function_body(state, body, extra);
            let part1 = function_body_piece(
                body,
                formatted_function_body(state, body, extra).1,
                Multiset::empty(),
                Multiset::empty(),
            );
            lemma_followed_by(config, part0, part1);
            let whole = part0.followed_by(part1);
            assert(whole.taken.add(Multiset::empty()) =~= whole.given.add(Multiset::empty()));
            lemma_conclude(
                config,
                whole,
                expression_piece(
                    e,
                    formatted_expression(state, e).1,
                    Multiset::empty(),
                    Multiset::empty(),
                ),
            );
        },
        ExpressionView::FunctionCall(call) => {
            let (prefix_state, prefix) = formatted_prefix(state, call.prefix);
            lemma_formatted_prefix(state, call.prefix);
            let part0 = prefix_piece(
                call.prefix,
                formatted_prefix(state, call.prefix).1,
                Multiset::empty(),
                Multiset::empty(),
            );
            lemma_formatted_suffixes(prefix_state, call.suffixes, call.suffixes.len() as int);
            assert(call.suffixes.take(call.suffixes.len() as int) =~= call.suffixes);
            let part1 = suffixes_piece(
                call.suffixes,
                formatted_suffixes(prefix_state, call.suffixes, call.suffixes.len() as int).1,
                Multiset::empty(),
                Multiset::empty(),
            );
            lemma_followed_by(config, part0, part1);
            let whole = part0.followed_by(part1);
            assert(whole.taken.add(Multiset::empty()) =~= whole.given.add(Multiset::empty()));
            lemma_conclude(
                config,
                whole,
                expression_piece(
                    e,
                    formatted_expression(state, e).1,
                    Multiset::empty(),
                    Multiset::empty(),
                ),
            );
        },
        ExpressionView::Var(var) => {
            let (prefix_state, prefix) = formatted_prefix(state, var.prefix);
            lemma_formatted_prefix(state, var.prefix);
            let part0 = prefix_piece(
                var.prefix,
                formatted_prefix(state, var.prefix).1,
                Multiset::empty(),
                Multiset::empty(),
            );
            lemma_formatted_suffixes(prefix_state, var.suffixes, var.suffixes.len() as int);
            assert(var.suffixes.take(var.suffixes.len() as int) =~= var.suffixes);
            let part1 = suffixes_piece(
                var.suffixes,
                formatted_suffixes(prefix_state, var.suffixes, var.suffixes.len() as int).1,
                Multiset::empty(),
                Multiset::empty(),
            );
            lemma_followed_by(config, part0, part1);
            let whole = part0.followed_by(part1);
            assert(whole.taken.add(Multiset::empty()) =~= whole.given.add(Multiset::empty()));
            lemma_conclude(
                config,
                whole,
                expression_piece(
                    e,
                    formatted_expression(state, e).1,
                    Multiset::empty(),
                    Multiset::empty(),
                ),
            );
        },
        ExpressionView::TableConstructor(table) => {
            lemma_formatted_table(state, table);
            let part0 = table_piece(
                table,
                formatted_table(state, table).1,
                Multiset::empty(),
                Multiset::empty(),
            );
            let whole = part0;
            assert(whole.taken.add(Multiset::empty()) =~= whole.given.add(Multiset::empty()));
            lemma_conclude(
                config,
                whole,
                expression_piece(
                    e,
                    formatted_expression(state, e).1,
                    Multiset::empty(),
                    Multiset::empty(),
                ),
            );
        },
    }
}

/// A formatted prefix has the tokens of the prefix and its comments.
#[verifier::spinoff_prover]
pub proof fn lemma_formatted_prefix(state: FormatterState, prefix: PrefixView)
    ensures
        formatted_prefix(state, prefix).0.config == state.config,
        prefix_piece(
            prefix,
            formatted_prefix(state, prefix).1,
            Multiset::empty(),
            Multiset::empty(),
        ).sound(state.config),
    decreases prefix,
{
    reveal(formatted_prefix);
    reveal(prefix_tokens);
    let config = state.config;
    match prefix {
        PrefixView::Name(t) => {
            lemma_reference_piece(config, state, t);
            let part0 = Piece::token(
                t,
                state.format_token_reference(t),
                Multiset::empty(),
                Multiset::empty(),
            );
            let whole = part0;
            assert(whole.taken.add(Multiset::empty()) =~= whole.given.add(Multiset::empty()));
            lemma_conclude(
                config,
                whole,
                prefix_piece(
                    prefix,
                    formatted_prefix(state, prefix).1,
                    Multiset::empty(),
                    Multiset::empty(),
                ),
            );
        },
        PrefixView::Expression(e) => {
            lemma_formatted_expression(state, *e);
            let part0 = expression_piece(
                *e,
                formatted_expression(state, *e).1,
                Multiset::empty(),
                Multiset::empty(),
            );
            let whole = part0;
            assert(whole.taken.add(Multiset::empty()) =~= whole.given.add(Multiset::empty()));
            lemma_conclude(
                config,
                whole,
                prefix_piece(
                    prefix,
                    formatted_prefix(state, prefix).1,
                    Multiset::empty(),
                    Multiset::empty(),
                ),
            );
        },
    }
}

/// A formatted suffix has the tokens of the suffix and its comments.
#[verifier::spinoff_prover]
pub proof fn lemma_formatted_suffix(state: FormatterState, suffix: SuffixView)
    ensures
        formatted_suffix(state, suffix).0.config == state.config,
        suffix_piece(
            suffix,
            formatted_suffix(state, suffix).1,
            Multiset::empty(),
            Multiset::empty(),
        ).sound(state.config),
    decreases suffix,
{
    reveal(formatted_suffix);
    reveal(suffix_tokens);
    let config = state.config;
    match suffix {
        SuffixView::Dot { dot, name } => {
            lemma_symbol_piece(config, state, dot, false, false);
            let part0 = Piece::token(
                dot,
                state.format_symbol(dot, false, false),
                Multiset::empty(),
                Multiset::empty(),
            );
            lemma_reference_piece(config, state, name);
            let part1 = Piece::token(
                name,
                state.format_token_reference(name),
                Multiset::empty(),
                Multiset::empty(),
            );
            lemma_followed_by(config, part0, part1);
            let whole = part0.followed_by(part1);
            assert(whole.taken.add(Multiset::empty()) =~= whole.given.add(Multiset::empty()));
            lemma_conclude(
                config,
                whole,
                suffix_piece(
                    suffix,
                    formatted_suffix(state, suffix).1,
                    Multiset::empty(),
                    Multiset::empty(),
                ),
            );
        },
        SuffixView::Brackets { open, expression, close } => {
            let (end_state, formatted) = formatted_expression(state, expression);
            lemma_symbol_piece(config, state, open, false, bracket_gap(expression));
            let part0 = Piece::token(
                open,
                state.format_symbol(open, false, bracket_gap(expression)),
                Multiset::empty(),
                Multiset::empty(),
            );
            lemma_formatted_expression(state, expression);
            let part1 = expression_piece(
                expression,
                formatted_expression(state, expression).1,
                Multiset::empty(),
                Multiset::empty(),
            );
            lemma_symbol_piece(config, end_state, close, bracket_gap(expression), false);
            let part2 = Piece::token(
                close,
                end_state.format_symbol(close, bracket_gap(expression), false),
                Multiset::empty(),
                Multiset::empty(),
            );
            lemma_followed_by(config, part0, part1);
            lemma_followed_by(config, part0.followed_by(part1), part2);
            let whole = part0.followed_by(part1).followed_by(part2);
            assert(whole.taken.add(Multiset::empty()) =~= whole.given.add(Multiset::empty()));
            lemma_conclude(
                config,
                whole,
                suffix_piece(
                    suffix,
                    formatted_suffix(state, suffix).1,
                    Multiset::empty(),
                    Multiset::empty(),
                ),
            );
        },
        SuffixView::Call(args) => {
            lemma_formatted_function_args(state, args);
            let part0 = function_args_piece(
                args,
                formatted_function_args(state, args).1,
                Multiset::empty(),
                Multiset::empty(),
            );
            let whole = part0;
            assert(whole.taken.add(Multiset::empty()) =~= whole.given.add(Multiset::empty()));
            lemma_conclude(
                config,
                whole,
                suffix_piece(
                    suffix,
                    formatted_suffix(state, suffix).1,
                    Multiset::empty(),
                    Multiset::empty(),
                ),
            );
        },
        SuffixView::MethodCall { colon, name, args } => {
            lemma_symbol_piece(config, state, colon, false, false);
            let part0 = Piece::token(
                colon,
                state.format_symbol(colon, false, false),
                Multiset::empty(),
                Multiset::empty(),
            );
            lemma_reference_piece(config, state, name);
            let part1 = Piece::token(
                name,
                state.format_token_reference(name),
                Multiset::empty(),
                Multiset::empty(),
            );
            lemma_formatted_function_args(state, args);
            let part2 = function_args_piece(
                args,
                formatted_function_args(state, args).1,
                Multiset::empty(),
                Multiset::empty(),
            );
            lemma_followed_by(config, part0, part1);
            lemma_followed_by(config, part0.followed_by(part1), part2);
            let whole = part0.followed_by(part1).followed_by(part2);
            assert(whole.taken.add(Multiset::empty()) =~= whole.given.add(Multiset::empty()));
            lemma_conclude(
                config,
                whole,
                suffix_piece(
                    suffix,
                    formatted_suffix(state, suffix).1,
                    Multiset::empty(),
                    Multiset::empty(),
                ),
            );
        },
    }
}

/// Formatted arguments have the tokens of the arguments and their comments.
#[verifier::spinoff_prover]
pub proof fn lemma_formatted_function_args(state: FormatterState, args: FunctionArgsView)
    ensures
        formatted_function_args(state, args).0.config == state.config,
        function_args_piece(
            args,
            formatted_function_args(state, args).1,
            Multiset::empty(),
            Multiset::empty(),
        ).sound(state.config),
    decreases args,
{
    reveal(formatted_function_args);
    reveal(function_args_tokens);
    let config = state.config;
    match args {
        FunctionArgsView::Parentheses { open, arguments, close } => {
            let (end_state, list, comments) = formatted_punctuated(state, arguments);
            lemma_symbol_piece(config, state, open, false, false);
            let part0 = Piece::token(
                open,
                state.format_symbol(open, false, false),
                Multiset::empty(),
                Multiset::empty(),
            );
            lemma_formatted_punctuated(state, arguments);
            let part1 = punctuated_piece(
                arguments,
                formatted_punctuated(state, arguments).1,
                Multiset::empty(),
                kept(formatted_punctuated(state, arguments).2),
            );
            lemma_symbol_piece(config, end_state, close, false, false);
            lemma_token_edit(
                config,
                close,
                end_state.format_symbol(close, false, false),
                FormatTriviaTypeView::NoChange,
                FormatTriviaTypeView::Append(comments),
            );
            let part2 = Piece::token(
                close,
                with_trivia(
                    end_state.format_symbol(close, false, false),
                    FormatTriviaTypeView::NoChange,
                    FormatTriviaTypeView::Append(comments),
                ),
                kept(added_by(FormatTriviaTypeView::NoChange)).add(
                    kept(added_by(FormatTriviaTypeView::Append(comments))),
                ),
                Multiset::empty(),
            );
            lemma_followed_by(config, part0, part1);
            lemma_followed_by(config, part0.followed_by(part1), part2);
            let whole = part0.followed_by(part1).followed_by(part2);
            lemma_kept_few(space(), space(), space());
            assert(whole.taken.add(Multiset::empty()) =~= whole.given.add(Multiset::empty()));
            lemma_conclude(
                config,
                whole,
                function_args_piece(
                    args,
                    formatted_function_args(state, args).1,
                    Multiset::empty(),
                    Multiset::empty(),
                ),
            );
        },
        FunctionArgsView::String(t) => {
            lemma_reference_piece(config, state, t);
            let part0 = Piece::token(
                t,
                state.format_token_reference(t),
                Multiset::empty(),
                Multiset::empty(),
            );
            let whole = part0;
            assert(whole.taken.add(Multiset::empty()) =~= whole.given.add(Multiset::empty()));
            lemma_conclude(
                config,
                whole,
                function_args_piece(
                    args,
                    formatted_function_args(state, args).1,
                    Multiset::empty(),
                    Multiset::empty(),
                ),
            );
        },
        FunctionArgsView::TableConstructor(table) => {
            lemma_formatted_table(state, table);
            let part0 = table_piece(
                table,
                formatted_table(state, table).1,
                Multiset::empty(),
                Multiset::empty(),
            );
            let whole = part0;
            assert(whole.taken.add(Multiset::empty()) =~= whole.given.add(Multiset::empty()));
            lemma_conclude(
                config,
                whole,
                function_args_piece(
                    args,
                    formatted_function_args(state, args).1,
                    Multiset::empty(),
                    Multiset::empty(),
                ),
            );
        },
    }
}

/// A formatted field has the tokens of the field and its comments.
#[verifier::spinoff_prover]
pub proof fn lemma_formatted_field(state: FormatterState, field: FieldView)
    ensures
        formatted_field(state, field).0.config == state.config,
        field_piece(
            field,
            formatted_field(state, field).1,
            Multiset::empty(),
            Multiset::empty(),
        ).sound(state.config),
    decreases field,
{
    reveal(formatted_field);
    reveal(field_tokens);
    let config = state.config;
    match field {
        FieldView::ExpressionKey { open, key, close, equal, value } => {
            let (key_state, formatted_key) = formatted_expression(state, key);
            lemma_symbol_piece(config, state, open, false, bracket_gap(key));
            let part0 = Piece::token(
                open,
                state.format_symbol(open, false, bracket_gap(key)),
                Multiset::empty(),
                Multiset::empty(),
            );
            lemma_formatted_expression(state, key);
            let part1 = expression_piece(
                key,
                formatted_expression(state, key).1,
                Multiset::empty(),
                Multiset::empty(),
            );
            lemma_symbol_piece(config, key_state, close, bracket_gap(key), false);
            let part2 = Piece::token(
                close,
                key_state.format_symbol(close, bracket_gap(key), false),
                Multiset::empty(),
                Multiset::empty(),
            );
            lemma_symbol_piece(config, key_state, equal, true, true);
            let part3 = Piece::token(
                equal,
                key_state.format_symbol(equal, true, true),
                Multiset::empty(),
                Multiset::empty(),
            );
            lemma_formatted_expression(key_state, value);
            let part4 = expression_piece(
                value,
                formatted_expression(key_state, value).1,
                Multiset::empty(),
                Multiset::empty(),
            );
            lemma_followed_by(config, part0, part1);
            let q1 = part0.followed_by(part1);
            lemma_followed_by(config, q1, part2);
            let q2 = q1.followed_by(part2);
            lemma_followed_by(config, q2, part3);
            let q3 = q2.followed_by(part3);
            lemma_followed_by(config, q3, part4);
            let whole = q3.followed_by(part4);
            assert(whole.taken.add(Multiset::empty()) =~= whole.given.add(Multiset::empty()));
            lemma_conclude(
                config,
                whole,
                field_piece(
                    field,
                    formatted_field(state, field).1,
                    Multiset::empty(),
                    Multiset::empty(),
                ),
            );
        },
        FieldView::NameKey { name, equal, value } => {
            lemma_reference_piece(config, state, name);
            let part0 = Piece::token(
                name,
                state.format_token_reference(name),
                Multiset::empty(),
                Multiset::empty(),
            );
            lemma_symbol_piece(config, state, equal, true, true);
            let part1 = Piece::token(
                equal,
                state.format_symbol(equal, true, true),
                Multiset::empty(),
                Multiset::empty(),
            );
            lemma_formatted_expression(state, value);
            let part2 = expression_piece(
                value,
                formatted_expression(state, value).1,
                Multiset::empty(),
                Multiset::empty(),
            );
            lemma_followed_by(config, part0, part1);
            lemma_followed_by(config, part0.followed_by(part1), part2);
            let whole = part0.followed_by(part1).followed_by(part2);
            assert(whole.taken.add(Multiset::empty()) =~= whole.given.add(Multiset::empty()));
            lemma_conclude(
                config,
                whole,
                field_piece(
                    field,
                    formatted_field(state, field).1,
                    Multiset::empty(),
                    Multiset::empty(),
                ),
            );
        },
        FieldView::NoKey(value) => {
            lemma_formatted_expression(state, value);
            let part0 = expression_piece(
                value,
                formatted_expression(state, value).1,
                Multiset::empty(),
                Multiset::empty(),
            );
            let whole = part0;
            assert(whole.taken.add(Multiset::empty()) =~= whole.given.add(Multiset::empty()));
            lemma_conclude(
                config,
                whole,
                field_piece(
                    field,
                    formatted_field(state, field).1,
                    Multiset::empty(),
                    Multiset::empty(),
                ),
            );
        },
    }
}

/// A formatted table has the tokens of the table and its comments.
#[verifier::spinoff_prover]
pub proof fn lemma_formatted_table(state: FormatterState, table: TableConstructorView)
    ensures
        formatted_table(state, table).0.config == state.config,
        table_piece(
            table,
            formatted_table(state, table).1,
            Multiset::empty(),
            Multiset::empty(),
        ).sound(state.config),
    decreases table,
{
    reveal(formatted_table);
    reveal(table_tokens);
    let config = state.config;
    let spaced = table.fields.len() > 0;
    let (end_state, fields, comments) = formatted_fields(
        state,
        table.fields,
        table.fields.len() as int,
    );
    lemma_formatted_fields(state, table.fields, table.fields.len() as int);
    assert(table.fields.take(table.fields.len() as int) =~= table.fields);
    lemma_fields_tokens(table.fields);
    lemma_fields_tokens(fields);
    lemma_symbol_piece(config, state, table.open, false, spaced);
    let part0 = Piece::token(
        table.open,
        state.format_symbol(table.open, false, spaced),
        Multiset::empty(),
        Multiset::empty(),
    );
    assert(
        Multiset::<TokenView>::empty().add(kept(comments)) =~= kept(comments).add(Multiset::empty())
    );
    lemma_conclude(
        config,
        listed_fields_piece(table.fields, fields, true, kept(comments)),
        fields_piece(table.fields, fields, Multiset::empty(), kept(comments)),
    );
    let part1 = fields_piece(table.fields, fields, Multiset::empty(), kept(comments));
    lemma_symbol_piece(config, end_state, table.close, spaced, false);
    lemma_token_edit(
        config,
        table.close,
        end_state.format_symbol(table.close, spaced, false),
        FormatTriviaTypeView::NoChange,
        FormatTriviaTypeView::Append(comments),
    );
    let part2 = Piece::token(
        table.close,
        with_trivia(
            end_state.format_symbol(table.close, spaced, false),
            FormatTriviaTypeView::NoChange,
            FormatTriviaTypeView::Append(comments),
        ),
        kept(added_by(FormatTriviaTypeView::NoChange)).add(
            kept(added_by(FormatTriviaTypeView::Append(comments))),
        ),
        Multiset::empty(),
    );
    lemma_followed_by(config, part0, part1);
    lemma_followed_by(config, part0.followed_by(part1), part2);
    let whole = part0.followed_by(part1).followed_by(part2);
    lemma_kept_few(space(), space(), space());
    assert(whole.taken.add(Multiset::empty()) =~= whole.given.add(Multiset::empty()));
    lemma_conclude(
        config,
        whole,
        table_piece(table, formatted_table(state, table).1, Multiset::empty(), Multiset::empty()),
    );
}

/// A formatted function body has the tokens of the body and its comments.
#[verifier::spinoff_prover]
pub proof fn lemma_formatted_function_body(
    state: FormatterState,
    body: FunctionBodyView,
    extra: Option<usize>,
)
    ensures
        formatted_function_body(state, body, extra).0.config == state.config,
        function_body_piece(
            body,
            formatted_function_body(state, body, extra).1,
            Multiset::empty(),
            Multiset::empty(),
        ).sound(state.config),
    decreases body,
{
    reveal(formatted_function_body);
    reveal(function_body_tokens);
    let config = state.config;
    let (list_state, parameters, comments) = formatted_punctuated(state, body.parameters);
    let (end_state, block) = formatted_nested_block(list_state, body.block);
    lemma_symbol_piece(config, state, body.open, false, false);
    let part0 = Piece::token(
        body.open,
        state.format_symbol(body.open, false, false),
        Multiset::empty(),
        Multiset::empty(),
    );
    lemma_formatted_punctuated(state, body.parameters);
    let part1 = punctuated_piece(
        body.parameters,
        formatted_punctuated(state, body.parameters).1,
        Multiset::empty(),
        kept(formatted_punctuated(state, body.parameters).2),
    );
    lemma_symbol_piece(config, list_state, body.close, false, false);
    lemma_kept_add(comments, seq![list_state.newline_trivia()]);
    lemma_kept_whitespace(list_state, None);
    lemma_token_edit(
        config,
        body.close,
        list_state.format_symbol(body.close, false, false),
        FormatTriviaTypeView::NoChange,
        FormatTriviaTypeView::Append(comments + seq![list_state.newline_trivia()]),
    );
    let part2 = Piece::token(
        body.close,
        with_trivia(
            list_state.format_symbol(body.close, false, false),
            FormatTriviaTypeView::NoChange,
            FormatTriviaTypeView::Append(comments + seq![list_state.newline_trivia()]),
        ),
        kept(added_by(FormatTriviaTypeView::NoChange)).add(
            kept(
                added_by(
                    FormatTriviaTypeView::Append(comments + seq![list_state.newline_trivia()]),
                ),
            ),
        ),
        Multiset::empty(),
    );
    lemma_formatted_nested_block(list_state, body.block);
    let part3 = block_piece(
        body.block,
        formatted_nested_block(list_state, body.block).1,
        Multiset::empty(),
        Multiset::empty(),
    );
    lemma_end_piece(config, end_state, body.end_token, EndTokenType::BlockEnd);
    lemma_kept_whitespace(end_state, extra);
    lemma_token_edit(
        config,
        body.end_token,
        end_state.format_end_token(body.end_token, EndTokenType::BlockEnd),
        FormatTriviaTypeView::Append(seq![end_state.indent_trivia(extra)]),
        FormatTriviaTypeView::NoChange,
    );
    let part4 = Piece::token(
        body.end_token,
        with_trivia(
            end_state.format_end_token(body.end_token, EndTokenType::BlockEnd),
            FormatTriviaTypeView::Append(seq![end_state.indent_trivia(extra)]),
            FormatTriviaTypeView::NoChange,
        ),
        kept(added_by(FormatTriviaTypeView::Append(seq![end_state.indent_trivia(extra)]))).add(
            kept(added_by(FormatTriviaTypeView::NoChange)),
        ),
        Multiset::empty(),
    );
    lemma_followed_by(config, part0, part1);
    let q1 = part0.followed_by(part1);
    lemma_followed_by(config, q1, part2);
    let q2 = q1.followed_by(part2);
    lemma_followed_by(config, q2, part3);
    let q3 = q2.followed_by(part3);
    lemma_followed_by(config, q3, part4);
    let whole = q3.followed_by(part4);
    lemma_kept_few(space(), space(), space());
    assert(whole.taken.add(Multiset::empty()) =~= whole.given.add(Multiset::empty()));
    lemma_conclude(
        config,
        whole,
        function_body_piece(
            body,
            formatted_function_body(state, body, extra).1,
            Multiset::empty(),
            Multiset::empty(),
        ),
    );
}

/// A formatted nested block has the tokens of the block and its comments.
#[verifier::spinoff_prover]
pub proof fn lemma_formatted_nested_block(state: FormatterState, block: BlockView)
    ensures
        formatted_nested_block(state, block).0.config == state.config,
        block_piece(
            block,
            formatted_nested_block(state, block).1,
            Multiset::empty(),
            Multiset::empty(),
        ).sound(state.config),
    decreases block, 1nat,
{
    reveal(formatted_nested_block);
    lemma_formatted_block(state.nested(), block);
}

/// A formatted block has the tokens of the block and its comments.
#[verifier::spinoff_prover]
pub proof fn lemma_formatted_block(state: FormatterState, block: BlockView)
    ensures
        formatted_block(state, block).0.config == state.config,
        block_piece(
            block,
            formatted_block(state, block).1,
            Multiset::empty(),
            Multiset::empty(),
        ).sound(state.config),
    decreases block, 0nat,
{
    reveal(formatted_block);
    reveal(block_tokens);
    let config = state.config;
    let (stmts_state, stmts) = formatted_stmts(state, block.stmts, block.stmts.len() as int);
    assert(block.stmts.take(block.stmts.len() as int) =~= block.stmts);
    lemma_formatted_stmts(state, block.stmts, block.stmts.len() as int);
    let part0 = block_stmts_piece(block.stmts, stmts, Multiset::empty(), Multiset::empty());
    lemma_formatted_block_last(stmts_state, block.last_stmt);
    let part1 = block_last_piece(
        block.last_stmt,
        formatted_block_last(stmts_state, block.last_stmt).1,
        Multiset::empty(),
        Multiset::empty(),
    );
    lemma_followed_by(config, part0, part1);
    let whole = part0.followed_by(part1);
    assert(whole.taken.add(Multiset::empty()) =~= whole.given.add(Multiset::empty()));
    lemma_conclude(
        config,
        whole,
        block_piece(block, formatted_block(state, block).1, Multiset::empty(), Multiset::empty()),
    );
}

/// A formatted `return` or `break` has the tokens of the statement and its comments.
#[verifier::spinoff_prover]
pub proof fn lemma_formatted_last_stmt(state: FormatterState, stmt: LastStmtView)
    ensures
        formatted_last_stmt(state, stmt).0.config == state.config,
        last_stmt_piece(
            stmt,
            formatted_last_stmt(state, stmt).1,
            Multiset::empty(),
            Multiset::empty(),
        ).sound(state.config),
    decreases stmt,
{
    reveal(formatted_last_stmt);
    reveal(last_stmt_tokens);
    let config = state.config;
    match stmt {
        LastStmtView::Break(t) => {
            let extra = state.range_indent_increase(token_range(t));
            lemma_symbol_piece(config, state, t, false, false);
            lemma_kept_whitespace(state, extra);
            lemma_kept_whitespace(state, None);
            lemma_token_edit(
                config,
                t,
                state.format_symbol(t, false, false),
                FormatTriviaTypeView::Append(seq![state.indent_trivia(extra)]),
                FormatTriviaTypeView::Append(seq![state.newline_trivia()]),
            );
            let part0 = Piece::token(
                t,
                with_trivia(
                    state.format_symbol(t, false, false),
                    FormatTriviaTypeView::Append(seq![state.indent_trivia(extra)]),
                    FormatTriviaTypeView::Append(seq![state.newline_trivia()]),
                ),
                kept(added_by(FormatTriviaTypeView::Append(seq![state.indent_trivia(extra)]))).add(
                    kept(added_by(FormatTriviaTypeView::Append(seq![state.newline_trivia()]))),
                ),
                Multiset::empty(),
            );
            let whole = part0;
            lemma_kept_few(space(), space(), space());
            assert(whole.taken.add(Multiset::empty()) =~= whole.given.add(Multiset::empty()));
            lemma_conclude(
                config,
                whole,
                last_stmt_piece(
                    stmt,
                    formatted_last_stmt(state, stmt).1,
                    Multiset::empty(),
                    Multiset::empty(),
                ),
            );
        },
        LastStmtView::Return { token, values } => {
            let extra = state.range_indent_increase(token_range(token));
            let (end_state, list, comments) = formatted_punctuated(state, values);
            let keyword = opening(
                state,
                state.format_symbol(token, false, values.pairs.len() > 0),
                extra,
            );
            let trivia = comments + seq![state.newline_trivia()];
            let ended = line_end(keyword, list, append(trivia));
            lemma_formatted_punctuated(state, values);
            lemma_kept_add(comments, seq![state.newline_trivia()]);
            lemma_kept_whitespace(state, extra);
            lemma_kept_few(space(), space(), space());
            lemma_symbol_piece(config, state, token, false, values.pairs.len() > 0);
            lemma_token_edit(
                config,
                token,
                state.format_symbol(token, false, values.pairs.len() > 0),
                FormatTriviaTypeView::Append(seq![state.indent_trivia(extra)]),
                FormatTriviaTypeView::NoChange,
            );
            let a = Piece::token(
                token,
                keyword,
                kept(added_by(FormatTriviaTypeView::Append(seq![state.indent_trivia(extra)]))).add(
                    kept(added_by(FormatTriviaTypeView::NoChange)),
                ),
                Multiset::empty(),
            );
            let b = punctuated_piece(values, list, Multiset::empty(), kept(comments));
            lemma_followed_by(config, a, b);
            lemma_line_end(config, keyword, list, trivia);
            let c = fronted_piece(keyword, list, ended, kept(trivia));
            lemma_and_then_to(config, a.followed_by(b), c);
            let whole = a.followed_by(b).and_then_to(c);
            assert(whole.taken.add(Multiset::empty()) =~= whole.given.add(Multiset::empty()));
            lemma_conclude(
                config,
                whole,
                last_stmt_piece(
                    stmt,
                    formatted_last_stmt(state, stmt).1,
                    Multiset::empty(),
                    Multiset::empty(),
                ),
            );
        },
    }
}

/// A formatted `do` block has the tokens of the block and its comments.
#[verifier::spinoff_prover]
pub proof fn lemma_formatted_do(state: FormatterState, node: DoView)
    ensures
        formatted_do(state, node).0.config == state.config,
        stmt_piece(
            StmtView::Do(node),
            StmtView::Do(formatted_do(state, node).1),
            Multiset::empty(),
            Multiset::empty(),
        ).sound(state.config),
    decreases node,
{
    reveal(formatted_do);
    reveal(stmt_tokens);
    let config = state.config;
    let extra = state.range_indent_increase(token_range(node.do_token));
    let (end_state, block) = formatted_nested_block(state, node.block);
    lemma_symbol_piece(config, state, node.do_token, false, false);
    lemma_kept_whitespace(state, extra);
    lemma_kept_whitespace(state, None);
    lemma_token_edit(
        config,
        node.do_token,
        state.format_symbol(node.do_token, false, false),
        FormatTriviaTypeView::Append(seq![state.indent_trivia(extra)]),
        FormatTriviaTypeView::Append(seq![state.newline_trivia()]),
    );
    let part0 = Piece::token(
        node.do_token,
        with_trivia(
            state.format_symbol(node.do_token, false, false),
            FormatTriviaTypeView::Append(seq![state.indent_trivia(extra)]),
            FormatTriviaTypeView::Append(seq![state.newline_trivia()]),
        ),
        kept(added_by(FormatTriviaTypeView::Append(seq![state.indent_trivia(extra)]))).add(
            kept(added_by(FormatTriviaTypeView::Append(seq![state.newline_trivia()]))),
        ),
        Multiset::empty(),
    );
    lemma_formatted_nested_block(state, node.block);
    let part1 = block_piece(
        node.block,
        formatted_nested_block(state, node.block).1,
        Multiset::empty(),
        Multiset::empty(),
    );
    lemma_end_piece(config, end_state, node.end_token, EndTokenType::BlockEnd);
    lemma_kept_whitespace(end_state, extra);
    lemma_kept_whitespace(end_state, None);
    lemma_token_edit(
        config,
        node.end_token,
        end_state.format_end_token(node.end_token, EndTokenType::BlockEnd),
        FormatTriviaTypeView::Append(seq![end_state.indent_trivia(extra)]),
        FormatTriviaTypeView::Append(seq![end_state.newline_trivia()]),
    );
    let part2 = Piece::token(
        node.end_token,
        with_trivia(
            end_state.format_end_token(node.end_token, EndTokenType::BlockEnd),
            FormatTriviaTypeView::Append(seq![end_state.indent_trivia(extra)]),
            FormatTriviaTypeView::Append(seq![end_state.newline_trivia()]),
        ),
        kept(added_by(FormatTriviaTypeView::Append(seq![end_state.indent_trivia(extra)]))).add(
            kept(added_by(FormatTriviaTypeView::Append(seq![end_state.newline_trivia()]))),
        ),
        Multiset::empty(),
    );
    lemma_followed_by(config, part0, part1);
    lemma_followed_by(config, part0.followed_by(part1), part2);
    let whole = part0.followed_by(part1).followed_by(part2);
    lemma_kept_few(space(), space(), space());
    assert(whole.taken.add(Multiset::empty()) =~= whole.given.add(Multiset::empty()));
    lemma_conclude(
        config,
        whole,
        stmt_piece(
            StmtView::Do(node),
            StmtView::Do(formatted_do(state, node).1),
            Multiset::empty(),
            Multiset::empty(),
        ),
    );
}

/// A formatted generic `for` has the tokens of the loop and its comments; the
/// comments taken from its lists stand behind `do`.
#[verifier::spinoff_prover]
pub proof fn lemma_formatted_generic_for(state: FormatterState, node: GenericForView)
    ensures
        formatted_generic_for(state, node).0.config == state.config,
        stmt_piece(
            StmtView::GenericFor(node),
            StmtView::GenericFor(formatted_generic_for(state, node).1),
            Multiset::empty(),
            Multiset::empty(),
        ).sound(state.config),
    decreases node,
{
    reveal(formatted_generic_for);
    reveal(stmt_tokens);
    let config = state.config;
    let extra = state.range_indent_increase(token_range(node.for_token));
    let (names_state, names, name_comments) = formatted_punctuated(state, node.names);
    let (exprs_state, exprs, expr_comments) = formatted_punctuated(names_state, node.expr_list);
    let (end_state, block) = formatted_nested_block(exprs_state, node.block);
    lemma_symbol_piece(config, state, node.for_token, false, true);
    lemma_kept_whitespace(state, extra);
    lemma_token_edit(
        config,
        node.for_token,
        state.format_symbol(node.for_token, false, true),
        FormatTriviaTypeView::Append(seq![state.indent_trivia(extra)]),
        FormatTriviaTypeView::NoChange,
    );
    let part0 = Piece::token(
        node.for_token,
        with_trivia(
            state.format_symbol(node.for_token, false, true),
            FormatTriviaTypeView::Append(seq![state.indent_trivia(extra)]),
            FormatTriviaTypeView::NoChange,
        ),
        kept(added_by(FormatTriviaTypeView::Append(seq![state.indent_trivia(extra)]))).add(
            kept(added_by(FormatTriviaTypeView::NoChange)),
        ),
        Multiset::empty(),
    );
    lemma_formatted_punctuated(state, node.names);
    let part1 = punctuated_piece(
        node.names,
        formatted_punctuated(state, node.names).1,
        Multiset::empty(),
        kept(formatted_punctuated(state, node.names).2),
    );
    lemma_symbol_piece(config, names_state, node.in_token, true, true);
    let part2 = Piece::token(
        node.in_token,
        names_state.format_symbol(node.in_token, true, true),
        Multiset::empty(),
        Multiset::empty(),
    );
    lemma_formatted_punctuated(names_state, node.expr_list);
    let part3 = punctuated_piece(
        node.expr_list,
        formatted_punctuated(names_state, node.expr_list).1,
        Multiset::empty(),
        kept(formatted_punctuated(names_state, node.expr_list).2),
    );
    lemma_symbol_piece(config, exprs_state, node.do_token, true, false);
    lemma_kept_add(name_comments + expr_comments, seq![state.newline_trivia()]);
    lemma_kept_add(name_comments, expr_comments);
    lemma_kept_whitespace(state, None);
    lemma_token_edit(
        config,
        node.do_token,
        exprs_state.format_symbol(node.do_token, true, false),
        FormatTriviaTypeView::NoChange,
        FormatTriviaTypeView::Append(name_comments + expr_comments + seq![state.newline_trivia()]),
    );
    let part4 = Piece::token(
        node.do_token,
        with_trivia(
            exprs_state.format_symbol(node.do_token, true, false),
            FormatTriviaTypeView::NoChange,
            FormatTriviaTypeView::Append(
                name_comments + expr_comments + seq![state.newline_trivia()],
            ),
        ),
        kept(added_by(FormatTriviaTypeView::NoChange)).add(
            kept(
                added_by(
                    FormatTriviaTypeView::Append(
                        name_comments + expr_comments + seq![state.newline_trivia()],
                    ),
                ),
            ),
        ),
        Multiset::empty(),
    );
    lemma_formatted_nested_block(exprs_state, node.block);
    let part5 = block_piece(
        node.block,
        formatted_nested_block(exprs_state, node.block).1,
        Multiset::empty(),
        Multiset::empty(),
    );
    lemma_end_piece(config, end_state, node.end_token, EndTokenType::BlockEnd);
    lemma_kept_whitespace(end_state, extra);
    lemma_kept_whitespace(end_state, None);
    lemma_token_edit(
        config,
        node.end_token,
        end_state.format_end_token(node.end_token, EndTokenType::BlockEnd),
        FormatTriviaTypeView::Append(seq![end_state.indent_trivia(extra)]),
        FormatTriviaTypeView::Append(seq![end_state.newline_trivia()]),
    );
    let part6 = Piece::token(
        node.end_token,
        with_trivia(
            end_state.format_end_token(node.end_token, EndTokenType::BlockEnd),
            FormatTriviaTypeView::Append(seq![end_state.indent_trivia(extra)]),
            FormatTriviaTypeView::Append(seq![end_state.newline_trivia()]),
        ),
        kept(added_by(FormatTriviaTypeView::Append(seq![end_state.indent_trivia(extra)]))).add(
            kept(added_by(FormatTriviaTypeView::Append(seq![end_state.newline_trivia()]))),
        ),
        Multiset::empty(),
    );
    lemma_followed_by(config, part0, part1);
    let q1 = part0.followed_by(part1);
    lemma_followed_by(config, q1, part2);
    let q2 = q1.followed_by(part2);
    lemma_followed_by(config, q2, part3);
    let q3 = q2.followed_by(part3);
    lemma_followed_by(config, q3, part4);
    let q4 = q3.followed_by(part4);
    lemma_followed_by(config, q4, part5);
    let q5 = q4.followed_by(part5);
    lemma_followed_by(config, q5, part6);
    let whole = q5.followed_by(part6);
    lemma_kept_few(space(), space(), space());
    assert(whole.taken.add(Multiset::empty()) =~= whole.given.add(Multiset::empty()));
    lemma_conclude(
        config,
        whole,
        stmt_piece(
            StmtView::GenericFor(node),
            StmtView::GenericFor(formatted_generic_for(state, node).1),
            Multiset::empty(),
            Multiset::empty(),
        ),
    );
}

/// The formatted step of a numeric `for` has the tokens of the step and its comments.
#[verifier::spinoff_prover]
pub proof fn lemma_formatted_step(state: FormatterState, step: Option<ForStepView>)
    ensures
        formatted_step(state, step).0.config == state.config,
        step_piece(
            step,
            formatted_step(state, step).1,
            Multiset::empty(),
            Multiset::empty(),
        ).sound(state.config),
    decreases step,
{
    reveal(formatted_step);
    reveal(step_tokens);
    let config = state.config;
    match step {
        Some(inner) => {
            lemma_symbol_piece(config, state, inner.comma, false, true);
            let part0 = Piece::token(
                inner.comma,
                state.format_symbol(inner.comma, false, true),
                Multiset::empty(),
                Multiset::empty(),
            );
            lemma_formatted_expression(state, inner.step);
            let part1 = expression_piece(
                inner.step,
                formatted_expression(state, inner.step).1,
                Multiset::empty(),
                Multiset::empty(),
            );
            lemma_followed_by(config, part0, part1);
            let whole = part0.followed_by(part1);
            assert(whole.taken.add(Multiset::empty()) =~= whole.given.add(Multiset::empty()));
            lemma_conclude(
                config,
                whole,
                step_piece(
                    step,
                    formatted_step(state, step).1,
                    Multiset::empty(),
                    Multiset::empty(),
                ),
            );
        },
        None => {
            lemma_nothing(config, Piece::nothing());
            let whole = Piece::nothing();
            assert(whole.taken.add(Multiset::empty()) =~= whole.given.add(Multiset::empty()));
            lemma_conclude(
                config,
                whole,
                step_piece(
                    step,
                    formatted_step(state, step).1,
                    Multiset::empty(),
                    Multiset::empty(),
                ),
            );
        },
    }
}

/// A formatted numeric `for` has the tokens of the loop and its comments.
#[verifier::spinoff_prover]
pub proof fn lemma_formatted_numeric_for(state: FormatterState, node: NumericForView)
    ensures
        formatted_numeric_for(state, node).0.config == state.config,
        stmt_piece(
            StmtView::NumericFor(node),
            StmtView::NumericFor(formatted_numeric_for(state, node).1),
            Multiset::empty(),
            Multiset::empty(),
        ).sound(state.config),
    decreases node,
{
    reveal(formatted_numeric_for);
    reveal(stmt_tokens);
    let config = state.config;
    let extra = state.range_indent_increase(token_range(node.for_token));
    let (start_state, start) = formatted_expression(state, node.start);
    let (limit_state, end) = formatted_expression(start_state, node.end);
    let (step_state, step) = formatted_step(limit_state, node.step);
    let (end_state, block) = formatted_nested_block(step_state, node.block);
    lemma_symbol_piece(config, state, node.for_token, false, true);
    lemma_kept_whitespace(state, extra);
    lemma_token_edit(
        config,
        node.for_token,
        state.format_symbol(node.for_token, false, true),
        FormatTriviaTypeView::Append(seq![state.indent_trivia(extra)]),
        FormatTriviaTypeView::NoChange,
    );
    let part0 = Piece::token(
        node.for_token,
        with_trivia(
            state.format_symbol(node.for_token, false, true),
            FormatTriviaTypeView::Append(seq![state.indent_trivia(extra)]),
            FormatTriviaTypeView::NoChange,
        ),
        kept(added_by(FormatTriviaTypeView::Append(seq![state.indent_trivia(extra)]))).add(
            kept(added_by(FormatTriviaTypeView::NoChange)),
        ),
        Multiset::empty(),
    );
    lemma_reference_piece(config, state, node.index_variable);
    let part1 = Piece::token(
        node.index_variable,
        state.format_token_reference(node.index_variable),
        Multiset::empty(),
        Multiset::empty(),
    );
    lemma_symbol_piece(config, state, node.equal_token, true, true);
    let part2 = Piece::token(
        node.equal_token,
        state.format_symbol(node.equal_token, true, true),
        Multiset::empty(),
        Multiset::empty(),
    );
    lemma_formatted_expression(state, node.start);
    let part3 = expression_piece(
        node.start,
        formatted_expression(state, node.start).1,
        Multiset::empty(),
        Multiset::empty(),
    );
    lemma_symbol_piece(config, start_state, node.start_end_comma, false, true);
    let part4 = Piece::token(
        node.start_end_comma,
        start_state.format_symbol(node.start_end_comma, false, true),
        Multiset::empty(),
        Multiset::empty(),
    );
    lemma_formatted_expression(start_state, node.end);
    let part5 = expression_piece(
        node.end,
        formatted_expression(start_state, node.end).1,
        Multiset::empty(),
        Multiset::empty(),
    );
    lemma_formatted_step(limit_state, node.step);
    let part6 = step_piece(
        node.step,
        formatted_step(limit_state, node.step).1,
        Multiset::empty(),
        Multiset::empty(),
    );
    lemma_symbol_piece(config, step_state, node.do_token, true, false);
    lemma_kept_whitespace(state, None);
    lemma_token_edit(
        config,
        node.do_token,
        step_state.format_symbol(node.do_token, true, false),
        FormatTriviaTypeView::NoChange,
        FormatTriviaTypeView::Append(seq![state.newline_trivia()]),
    );
    let part7 = Piece::token(
        node.do_token,
        with_trivia(
            step_state.format_symbol(node.do_token, true, false),
            FormatTriviaTypeView::NoChange,
            FormatTriviaTypeView::Append(seq![state.newline_trivia()]),
        ),
        kept(added_by(FormatTriviaTypeView::NoChange)).add(
            kept(added_by(FormatTriviaTypeView::Append(seq![state.newline_trivia()]))),
        ),
        Multiset::empty(),
    );
    lemma_formatted_nested_block(step_state, node.block);
    let part8 = block_piece(
        node.block,
        formatted_nested_block(step_state, node.block).1,
        Multiset::empty(),
        Multiset::empty(),
    );
    lemma_end_piece(config, end_state, node.end_token, EndTokenType::BlockEnd);
    lemma_kept_whitespace(end_state, extra);
    lemma_kept_whitespace(end_state, None);
    lemma_token_edit(
        config,
        node.end_token,
        end_state.format_end_token(node.end_token, EndTokenType::BlockEnd),
        FormatTriviaTypeView::Append(seq![end_state.indent_trivia(extra)]),
        FormatTriviaTypeView::Append(seq![end_state.newline_trivia()]),
    );
    let part9 = Piece::token(
        node.end_token,
        with_trivia(
            end_state.format_end_token(node.end_token, EndTokenType::BlockEnd),
            FormatTriviaTypeView::Append(seq![end_state.indent_trivia(extra)]),
            FormatTriviaTypeView::Append(seq![end_state.newline_trivia()]),
        ),
        kept(added_by(FormatTriviaTypeView::Append(seq![end_state.indent_trivia(extra)]))).add(
            kept(added_by(FormatTriviaTypeView::Append(seq![end_state.newline_trivia()]))),
        ),
        Multiset::empty(),
    );
    lemma_followed_by(config, part0, part1);
    let q1 = part0.followed_by(part1);
    lemma_followed_by(config, q1, part2);
    let q2 = q1.followed_by(part2);
    lemma_followed_by(config, q2, part3);
    let q3 = q2.followed_by(part3);
    lemma_followed_by(config, q3, part4);
    let q4 = q3.followed_by(part4);
    lemma_followed_by(config, q4, part5);
    let q5 = q4.followed_by(part5);
    lemma_followed_by(config, q5, part6);
    let q6 = q5.followed_by(part6);
    lemma_followed_by(config, q6, part7);
    let q7 = q6.followed_by(part7);
    lemma_followed_by(config, q7, part8);
    let q8 = q7.followed_by(part8);
    lemma_followed_by(config, q8, part9);
    let whole = q8.followed_by(part9);
    lemma_kept_few(space(), space(), space());
    assert(whole.taken.add(Multiset::empty()) =~= whole.given.add(Multiset::empty()));
    lemma_conclude(
        config,
        whole,
        stmt_piece(
            StmtView::NumericFor(node),
            StmtView::NumericFor(formatted_numeric_for(state, node).1),
            Multiset::empty(),
            Multiset::empty(),
        ),
    );
}

/// A formatted condition has the tokens of the condition and its comments.
#[verifier::spinoff_prover]
pub proof fn lemma_formatted_condition(
    state: FormatterState,
    condition: ExpressionView,
    extra: Option<usize>,
    multiline: bool,
)
    ensures
        formatted_condition(state, condition, extra, multiline).0.config == state.config,
        expression_piece(
            condition,
            formatted_condition(state, condition, extra, multiline).1,
            Multiset::empty(),
            Multiset::empty(),
        ).sound(state.config),
    decreases condition, 1nat,
{
    reveal(formatted_condition);
    let config = state.config;
    if multiline {
        let ranged = with_expression_range(state, condition);
        let (end_state, formatted) = formatted_expression(ranged, condition);
        lemma_formatted_expression(ranged, condition);
        let a = expression_piece(condition, formatted, Multiset::empty(), Multiset::empty());
        lemma_hang_expression(config, end_state, formatted, extra, None);
        let hung = hang_expression(end_state, formatted, extra, None);
        let b = expression_piece(formatted, hung, Multiset::empty(), Multiset::empty());
        let indent = seq![end_state.indent_trivia(Some(count_of(extra).saturating_add(1)))];
        lemma_kept_whitespace(end_state, Some(count_of(extra).saturating_add(1)));
        lemma_first_updated(config, hung, indent);
        let c = expression_piece(
            hung,
            first_updated(hung, FormatTriviaTypeView::Append(indent)),
            kept(indent),
            Multiset::empty(),
        );
        lemma_and_then_to(config, a, b);
        lemma_and_then_to(config, a.and_then_to(b), c);
        let whole = a.and_then_to(b).and_then_to(c);
        assert(whole.taken.add(Multiset::empty()) =~= whole.given.add(Multiset::empty()));
        lemma_conclude(
            config,
            whole,
            expression_piece(
                condition,
                formatted_condition(state, condition, extra, multiline).1,
                Multiset::empty(),
                Multiset::empty(),
            ),
        );
    } else {
        lemma_formatted_expression(state, condition);
    }
}

/// A formatted `elseif` branch has the tokens of the branch and its comments.
#[verifier::spinoff_prover]
pub proof fn lemma_formatted_else_if(state: FormatterState, branch: ElseIfView)
    ensures
        formatted_else_if(state, branch).0.config == state.config,
        else_if_piece(
            branch,
            formatted_else_if(state, branch).1,
            Multiset::empty(),
            Multiset::empty(),
        ).sound(state.config),
    decreases branch,
{
    reveal(formatted_else_if);
    reveal(else_if_tokens);
    let config = state.config;
    let extra = state.range_indent_increase(token_range(branch.else_if_token));
    let multiline = hangs_condition(
        state,
        extra,
        header_width(branch.else_if_token, branch.condition, branch.then_token),
        2,
        branch.condition,
    );
    let (condition_state, condition) = formatted_condition(
        state,
        branch.condition,
        extra,
        multiline,
    );
    let (end_state, block) = formatted_nested_block(condition_state, branch.block);
    lemma_end_piece(config, state, branch.else_if_token, EndTokenType::BlockEnd);
    lemma_kept_whitespace(state, extra);
    lemma_kept_few(if multiline { state.newline_trivia() } else { space() }, space(), space());
    lemma_kept_whitespace(state, extra);
    lemma_token_edit(
        config,
        branch.else_if_token,
        state.format_end_token(branch.else_if_token, EndTokenType::BlockEnd),
        FormatTriviaTypeView::Append(seq![state.indent_trivia(extra)]),
        FormatTriviaTypeView::Append(
            seq![if multiline { state.newline_trivia() } else { space() }],
        ),
    );
    let part0 = Piece::token(
        branch.else_if_token,
        with_trivia(
            state.format_end_token(branch.else_if_token, EndTokenType::BlockEnd),
            FormatTriviaTypeView::Append(seq![state.indent_trivia(extra)]),
            FormatTriviaTypeView::Append(
                seq![if multiline { state.newline_trivia() } else { space() }],
            ),
        ),
        kept(added_by(FormatTriviaTypeView::Append(seq![state.indent_trivia(extra)]))).add(
            kept(
                added_by(
                    FormatTriviaTypeView::Append(
                        seq![if multiline { state.newline_trivia() } else { space() }],
                    ),
                ),
            ),
        ),
        Multiset::empty(),
    );
    lemma_formatted_condition(state, branch.condition, extra, multiline);
    let part1 = expression_piece(
        branch.condition,
        formatted_condition(state, branch.condition, extra, multiline).1,
        Multiset::empty(),
        Multiset::empty(),
    );
    lemma_condition_pieces(config, condition_state, branch.then_token, extra, multiline);
    let part2 = Piece::token(
        branch.then_token,
        condition_closer(condition_state, branch.then_token, extra, multiline),
        Multiset::empty(),
        Multiset::empty(),
    );
    lemma_formatted_nested_block(condition_state, branch.block);
    let part3 = block_piece(
        branch.block,
        formatted_nested_block(condition_state, branch.block).1,
        Multiset::empty(),
        Multiset::empty(),
    );
    lemma_followed_by(config, part0, part1);
    let q1 = part0.followed_by(part1);
    lemma_followed_by(config, q1, part2);
    let q2 = q1.followed_by(part2);
    lemma_followed_by(config, q2, part3);
    let whole = q2.followed_by(part3);
    lemma_kept_few(space(), space(), space());
    assert(whole.taken.add(Multiset::empty()) =~= whole.given.add(Multiset::empty()));
    lemma_conclude(
        config,
        whole,
        else_if_piece(
            branch,
            formatted_else_if(state, branch).1,
            Multiset::empty(),
            Multiset::empty(),
        ),
    );
}

/// A formatted `else` branch has the tokens of the branch and its comments.
#[verifier::spinoff_prover]
pub proof fn lemma_formatted_else(
    state: FormatterState,
    branch: Option<ElseView>,
    extra: Option<usize>,
)
    ensures
        formatted_else(state, branch, extra).0.config == state.config,
        else_piece(
            branch,
            formatted_else(state, branch, extra).1,
            Multiset::empty(),
            Multiset::empty(),
        ).sound(state.config),
    decreases branch,
{
    reveal(formatted_else);
    reveal(else_tokens);
    let config = state.config;
    match branch {
        Some(inner) => {
            lemma_end_piece(config, state, inner.else_token, EndTokenType::BlockEnd);
            lemma_kept_whitespace(state, extra);
            lemma_kept_whitespace(state, None);
            lemma_token_edit(
                config,
                inner.else_token,
                state.format_end_token(inner.else_token, EndTokenType::BlockEnd),
                FormatTriviaTypeView::Append(seq![state.indent_trivia(extra)]),
                FormatTriviaTypeView::Append(seq![state.newline_trivia()]),
            );
            let part0 = Piece::token(
                inner.else_token,
                with_trivia(
                    state.format_end_token(inner.else_token, EndTokenType::BlockEnd),
                    FormatTriviaTypeView::Append(seq![state.indent_trivia(extra)]),
                    FormatTriviaTypeView::Append(seq![state.newline_trivia()]),
                ),
                kept(added_by(FormatTriviaTypeView::Append(seq![state.indent_trivia(extra)]))).add(
                    kept(added_by(FormatTriviaTypeView::Append(seq![state.newline_trivia()]))),
                ),
                Multiset::empty(),
            );
            lemma_formatted_nested_block(state, inner.block);
            let part1 = block_piece(
                inner.block,
                formatted_nested_block(state, inner.block).1,
                Multiset::empty(),
                Multiset::empty(),
            );
            lemma_followed_by(config, part0, part1);
            let whole = part0.followed_by(part1);
            lemma_kept_few(space(), space(), space());
            assert(whole.taken.add(Multiset::empty()) =~= whole.given.add(Multiset::empty()));
            lemma_conclude(
                config,
                whole,
                else_piece(
                    branch,
                    formatted_else(state, branch, extra).1,
                    Multiset::empty(),
                    Multiset::empty(),
                ),
            );
        },
        None => {
            lemma_nothing(config, Piece::nothing());
            let whole = Piece::nothing();
            assert(whole.taken.add(Multiset::empty()) =~= whole.given.add(Multiset::empty()));
            lemma_conclude(
                config,
                whole,
                else_piece(
                    branch,
                    formatted_else(state, branch, extra).1,
                    Multiset::empty(),
                    Multiset::empty(),
                ),
            );
        },
    }
}

/// A formatted `if` statement has the tokens of the statement and its comments.
#[verifier::spinoff_prover]
pub proof fn lemma_formatted_if(state: FormatterState, node: IfView)
    ensures
        formatted_if(state, node).0.config == state.config,
        if_piece(
            node,
            formatted_if(state, node).1,
            Multiset::empty(),
            Multiset::empty(),
        ).sound(state.config),
    decreases node,
{
    reveal(formatted_if);
    reveal(if_tokens);
    let config = state.config;
    let extra = state.range_indent_increase(token_range(node.if_token));
    let multiline = hangs_condition(
        state,
        extra,
        header_width(node.if_token, node.condition, node.then_token),
        2,
        node.condition,
    );
    let (condition_state, condition) = formatted_condition(state, node.condition, extra, multiline);
    let (block_state, block) = formatted_nested_block(condition_state, node.block);
    let (branches_state, else_if) = formatted_else_ifs(
        block_state,
        node.else_if,
        node.else_if.len() as int,
    );
    let (end_state, else_branch) = formatted_else(branches_state, node.else_branch, extra);
    assert(node.else_if.take(node.else_if.len() as int) =~= node.else_if);
    lemma_condition_pieces(config, state, node.if_token, extra, multiline);
    let part0 = Piece::token(
        node.if_token,
        condition_opener(state, node.if_token, extra, multiline),
        Multiset::empty(),
        Multiset::empty(),
    );
    lemma_formatted_condition(state, node.condition, extra, multiline);
    let part1 = expression_piece(
        node.condition,
        formatted_condition(state, node.condition, extra, multiline).1,
        Multiset::empty(),
        Multiset::empty(),
    );
    lemma_condition_pieces(config, condition_state, node.then_token, extra, multiline);
    let part2 = Piece::token(
        node.then_token,
        condition_closer(condition_state, node.then_token, extra, multiline),
        Multiset::empty(),
        Multiset::empty(),
    );
    lemma_formatted_nested_block(condition_state, node.block);
    let part3 = block_piece(
        node.block,
        formatted_nested_block(condition_state, node.block).1,
        Multiset::empty(),
        Multiset::empty(),
    );
    lemma_formatted_else_ifs(block_state, node.else_if, node.else_if.len() as int);
    let part4 = else_ifs_piece(node.else_if, else_if, Multiset::empty(), Multiset::empty());
    lemma_formatted_else(branches_state, node.else_branch, extra);
    let part5 = else_piece(
        node.else_branch,
        formatted_else(branches_state, node.else_branch, extra).1,
        Multiset::empty(),
        Multiset::empty(),
    );
    lemma_end_piece(config, end_state, node.end_token, EndTokenType::BlockEnd);
    lemma_kept_whitespace(end_state, extra);
    lemma_kept_whitespace(end_state, None);
    lemma_token_edit(
        config,
        node.end_token,
        end_state.format_end_token(node.end_token, EndTokenType::BlockEnd),
        FormatTriviaTypeView::Append(seq![end_state.indent_trivia(extra)]),
        FormatTriviaTypeView::Append(seq![end_state.newline_trivia()]),
    );
    let part6 = Piece::token(
        node.end_token,
        with_trivia(
            end_state.format_end_token(node.end_token, EndTokenType::BlockEnd),
            FormatTriviaTypeView::Append(seq![end_state.indent_trivia(extra)]),
            FormatTriviaTypeView::Append(seq![end_state.newline_trivia()]),
        ),
        kept(added_by(FormatTriviaTypeView::Append(seq![end_state.indent_trivia(extra)]))).add(
            kept(added_by(FormatTriviaTypeView::Append(seq![end_state.newline_trivia()]))),
        ),
        Multiset::empty(),
    );
    lemma_followed_by(config, part0, part1);
    let q1 = part0.followed_by(part1);
    lemma_followed_by(config, q1, part2);
    let q2 = q1.followed_by(part2);
    lemma_followed_by(config, q2, part3);
    let q3 = q2.followed_by(part3);
    lemma_followed_by(config, q3, part4);
    let q4 = q3.followed_by(part4);
    lemma_followed_by(config, q4, part5);
    let q5 = q4.followed_by(part5);
    lemma_followed_by(config, q5, part6);
    let whole = q5.followed_by(part6);
    lemma_kept_few(space(), space(), space());
    assert(whole.taken.add(Multiset::empty()) =~= whole.given.add(Multiset::empty()));
    lemma_conclude(
        config,
        whole,
        if_piece(node, formatted_if(state, node).1, Multiset::empty(), Multiset::empty()),
    );
}

/// A formatted `while` loop has the tokens of the loop and its comments.
#[verifier::spinoff_prover]
pub proof fn lemma_formatted_while(state: FormatterState, node: WhileView)
    ensures
        formatted_while(state, node).0.config == state.config,
        stmt_piece(
            StmtView::While(node),
            StmtView::While(formatted_while(state, node).1),
            Multiset::empty(),
            Multiset::empty(),
        ).sound(state.config),
    decreases node,
{
    reveal(formatted_while);
    reveal(stmt_tokens);
    let config = state.config;
    let extra = state.range_indent_increase(token_range(node.while_token));
    let multiline = hangs_condition(
        state,
        extra,
        header_width(node.while_token, node.condition, node.do_token),
        2,
        node.condition,
    );
    let (condition_state, condition) = formatted_condition(state, node.condition, extra, multiline);
    let (end_state, block) = formatted_nested_block(condition_state, node.block);
    lemma_condition_pieces(config, state, node.while_token, extra, multiline);
    let part0 = Piece::token(
        node.while_token,
        condition_opener(state, node.while_token, extra, multiline),
        Multiset::empty(),
        Multiset::empty(),
    );
    lemma_formatted_condition(state, node.condition, extra, multiline);
    let part1 = expression_piece(
        node.condition,
        formatted_condition(state, node.condition, extra, multiline).1,
        Multiset::empty(),
        Multiset::empty(),
    );
    lemma_condition_pieces(config, condition_state, node.do_token, extra, multiline);
    let part2 = Piece::token(
        node.do_token,
        condition_closer(condition_state, node.do_token, extra, multiline),
        Multiset::empty(),
        Multiset::empty(),
    );
    lemma_formatted_nested_block(condition_state, node.block);
    let part3 = block_piece(
        node.block,
        formatted_nested_block(condition_state, node.block).1,
        Multiset::empty(),
        Multiset::empty(),
    );
    lemma_end_piece(config, end_state, node.end_token, EndTokenType::BlockEnd);
    lemma_kept_whitespace(end_state, extra);
    lemma_kept_whitespace(end_state, None);
    lemma_token_edit(
        config,
        node.end_token,
        end_state.format_end_token(node.end_token, EndTokenType::BlockEnd),
        FormatTriviaTypeView::Append(seq![end_state.indent_trivia(extra)]),
        FormatTriviaTypeView::Append(seq![end_state.newline_trivia()]),
    );
    let part4 = Piece::token(
        node.end_token,
        with_trivia(
            end_state.format_end_token(node.end_token, EndTokenType::BlockEnd),
            FormatTriviaTypeView::Append(seq![end_state.indent_trivia(extra)]),
            FormatTriviaTypeView::Append(seq![end_state.newline_trivia()]),
        ),
        kept(added_by(FormatTriviaTypeView::Append(seq![end_state.indent_trivia(extra)]))).add(
            kept(added_by(FormatTriviaTypeView::Append(seq![end_state.newline_trivia()]))),
        ),
        Multiset::empty(),
    );
    lemma_followed_by(config, part0, part1);
    let q1 = part0.followed_by(part1);
    lemma_followed_by(config, q1, part2);
    let q2 = q1.followed_by(part2);
    lemma_followed_by(config, q2, part3);
    let q3 = q2.followed_by(part3);
    lemma_followed_by(config, q3, part4);
    let whole = q3.followed_by(part4);
    lemma_kept_few(space(), space(), space());
    assert(whole.taken.add(Multiset::empty()) =~= whole.given.add(Multiset::empty()));
    lemma_conclude(
        config,
        whole,
        stmt_piece(
            StmtView::While(node),
            StmtView::While(formatted_while(state, node).1),
            Multiset::empty(),
            Multiset::empty(),
        ),
    );
}

/// A formatted `repeat` loop has the tokens of the loop and its comments.
#[verifier::spinoff_prover]
pub proof fn lemma_formatted_repeat(state: FormatterState, node: RepeatView)
    ensures
        formatted_repeat(state, node).0.config == state.config,
        stmt_piece(
            StmtView::Repeat(node),
            StmtView::Repeat(formatted_repeat(state, node).1),
            Multiset::empty(),
            Multiset::empty(),
        ).sound(state.config),
    decreases node,
{
    reveal(formatted_repeat);
    reveal(stmt_tokens);
    let config = state.config;
    let extra = state.range_indent_increase(token_range(node.repeat_token));
    let multiline = hangs_condition(
        state,
        extra,
        stripped(seq![node.until_token] + expression_tokens(node.until, true)).len() as int,
        1,
        node.until,
    );
    let (block_state, block) = formatted_nested_block(state, node.block);
    let (condition_state, condition) = formatted_expression(block_state, node.until);
    let end_state = if multiline {
        with_expression_range(condition_state, node.until)
    } else {
        condition_state
    };
    let until = if multiline {
        hang_expression(end_state, condition, extra, None)
    } else {
        last_updated(condition, append(seq![state.newline_trivia()]))
    };
    let newline = seq![state.newline_trivia()];
    lemma_kept_whitespace(state, extra);
    lemma_formatted_nested_block(state, node.block);
    lemma_formatted_expression(block_state, node.until);
    let a = expression_piece(node.until, condition, Multiset::empty(), Multiset::empty());
    let b = expression_piece(
        condition,
        until,
        if multiline { Multiset::empty() } else { kept(newline) },
        Multiset::empty(),
    );
    if multiline {
        lemma_hang_expression(config, end_state, condition, extra, None);
    } else {
        lemma_last_updated(config, condition, newline);
    }
    lemma_and_then_to(config, a, b);
    lemma_symbol_piece(config, state, node.repeat_token, false, false);
    lemma_kept_whitespace(state, extra);
    lemma_kept_whitespace(state, None);
    lemma_token_edit(
        config,
        node.repeat_token,
        state.format_symbol(node.repeat_token, false, false),
        FormatTriviaTypeView::Append(seq![state.indent_trivia(extra)]),
        FormatTriviaTypeView::Append(seq![state.newline_trivia()]),
    );
    let part0 = Piece::token(
        node.repeat_token,
        with_trivia(
            state.format_symbol(node.repeat_token, false, false),
            FormatTriviaTypeView::Append(seq![state.indent_trivia(extra)]),
            FormatTriviaTypeView::Append(seq![state.newline_trivia()]),
        ),
        kept(added_by(FormatTriviaTypeView::Append(seq![state.indent_trivia(extra)]))).add(
            kept(added_by(FormatTriviaTypeView::Append(seq![state.newline_trivia()]))),
        ),
        Multiset::empty(),
    );
    lemma_formatted_nested_block(state, node.block);
    let part1 = block_piece(
        node.block,
        formatted_nested_block(state, node.block).1,
        Multiset::empty(),
        Multiset::empty(),
    );
    lemma_symbol_piece(config, block_state, node.until_token, false, true);
    lemma_kept_whitespace(block_state, extra);
    lemma_token_edit(
        config,
        node.until_token,
        block_state.format_symbol(node.until_token, false, true),
        FormatTriviaTypeView::Append(seq![block_state.indent_trivia(extra)]),
        FormatTriviaTypeView::NoChange,
    );
    let part2 = Piece::token(
        node.until_token,
        with_trivia(
            block_state.format_symbol(node.until_token, false, true),
            FormatTriviaTypeView::Append(seq![block_state.indent_trivia(extra)]),
            FormatTriviaTypeView::NoChange,
        ),
        kept(added_by(FormatTriviaTypeView::Append(seq![block_state.indent_trivia(extra)]))).add(
            kept(added_by(FormatTriviaTypeView::NoChange)),
        ),
        Multiset::empty(),
    );
    let part3 = a.and_then_to(b);
    lemma_followed_by(config, part0, part1);
    let q1 = part0.followed_by(part1);
    lemma_followed_by(config, q1, part2);
    let q2 = q1.followed_by(part2);
    lemma_followed_by(config, q2, part3);
    let whole = q2.followed_by(part3);
    lemma_kept_few(space(), space(), space());
    assert(whole.taken.add(Multiset::empty()) =~= whole.given.add(Multiset::empty()));
    lemma_conclude(
        config,
        whole,
        stmt_piece(
            StmtView::Repeat(node),
            StmtView::Repeat(formatted_repeat(state, node).1),
            Multiset::empty(),
            Multiset::empty(),
        ),
    );
}

/// A formatted call that stands as a statement has the tokens of the call and its comments.
#[verifier::spinoff_prover]
pub proof fn lemma_formatted_call_stmt(state: FormatterState, node: SuffixedView)
    ensures
        formatted_call_stmt(state, node).0.config == state.config,
        stmt_piece(
            StmtView::FunctionCall(node),
            StmtView::FunctionCall(formatted_call_stmt(state, node).1),
            Multiset::empty(),
            Multiset::empty(),
        ).sound(state.config),
    decreases node,
{
    reveal(formatted_call_stmt);
    reveal(stmt_tokens);
    let config = state.config;
    let extra = tokens_indent_increase(state, prefix_tokens(node.prefix, true));
    let (prefix_state, prefix) = formatted_prefix(state, node.prefix);
    let (end_state, suffixes) = formatted_suffixes(
        prefix_state,
        node.suffixes,
        node.suffixes.len() as int,
    );
    assert(node.suffixes.take(node.suffixes.len() as int) =~= node.suffixes);
    lemma_formatted_prefix(state, node.prefix);
    lemma_formatted_suffixes(prefix_state, node.suffixes, node.suffixes.len() as int);
    let part0 = prefix_piece(node.prefix, prefix, Multiset::empty(), Multiset::empty());
    let part1 = suffixes_piece(node.suffixes, suffixes, Multiset::empty(), Multiset::empty());
    lemma_followed_by(config, part0, part1);
    let formatted = SuffixedView { prefix, suffixes };
    let indent = seq![state.indent_trivia(extra)];
    let newline = seq![state.newline_trivia()];
    lemma_kept_whitespace(state, extra);
    lemma_suffixed_first_updated(config, formatted, indent);
    let indented = suffixed_first_updated(formatted, append(indent));
    let b = suffixed_piece(formatted, indented, kept(indent), Multiset::empty());
    lemma_suffixed_last_updated(config, indented, newline);
    let c = suffixed_piece(
        indented,
        suffixed_last_updated(indented, append(newline)),
        kept(newline),
        Multiset::empty(),
    );
    lemma_and_then_to(config, part0.followed_by(part1), b);
    lemma_and_then_to(config, part0.followed_by(part1).and_then_to(b), c);
    let whole = part0.followed_by(part1).and_then_to(b).and_then_to(c);
    assert(whole.taken.add(Multiset::empty()) =~= whole.given.add(Multiset::empty()));
    lemma_conclude(
        config,
        whole,
        stmt_piece(
            StmtView::FunctionCall(node),
            StmtView::FunctionCall(formatted_call_stmt(state, node).1),
            Multiset::empty(),
            Multiset::empty(),
        ),
    );
}

/// A formatted assignment has the tokens of the assignment and its comments.
#[verifier::spinoff_prover]
pub proof fn lemma_formatted_assignment(state: FormatterState, node: AssignmentView)
    ensures
        formatted_assignment(state, node).0.config == state.config,
        stmt_piece(
            StmtView::Assignment(node),
            StmtView::Assignment(formatted_assignment(state, node).1),
            Multiset::empty(),
            Multiset::empty(),
        ).sound(state.config),
    decreases node,
{
    reveal(formatted_assignment);
    reveal(stmt_tokens);
    let config = state.config;
    let extra = tokens_indent_increase(state, punctuated_tokens(node.var_list, true));
    let width = stripped(assignment_tokens(node)).len() as int;
    let hang = hangs_values(state, extra, width, 2, node.expr_list);
    let (vars_state, vars, var_comments) = formatted_punctuated(state, node.var_list);
    let (end_state, exprs, expr_comments) = formatted_punctuated(vars_state, node.expr_list);
    let equal = vars_state.format_symbol(node.equal_token, true, true);
    let laid = laid_out_values(end_state, exprs, extra, hang);
    let trivia = var_comments + expr_comments + seq![end_state.newline_trivia()];
    let ended = line_end(equal, laid, append(trivia));
    let indent = seq![state.indent_trivia(extra)];
    lemma_kept_whitespace(state, extra);
    lemma_kept_whitespace(end_state, None);
    lemma_kept_add(var_comments + expr_comments, seq![end_state.newline_trivia()]);
    lemma_kept_add(var_comments, expr_comments);
    lemma_formatted_punctuated(state, node.var_list);
    lemma_formatted_punctuated(vars_state, node.expr_list);
    let a0 = punctuated_piece(node.var_list, vars, Multiset::empty(), kept(var_comments));
    lemma_punctuated_first_updated(config, vars, indent);
    let a1 = punctuated_piece(
        vars,
        punctuated_first_updated(vars, append(indent)),
        Multiset::empty(),
        Multiset::empty(),
    );
    lemma_and_then_to(config, a0, a1);
    lemma_symbol_piece(config, vars_state, node.equal_token, true, true);
    let b0 = Piece::token(node.equal_token, equal, Multiset::empty(), Multiset::empty());
    let c0 = punctuated_piece(node.expr_list, exprs, Multiset::empty(), kept(expr_comments));
    lemma_laid_out_values(config, end_state, exprs, extra, hang);
    let c1 = punctuated_piece(exprs, laid, Multiset::empty(), Multiset::empty());
    lemma_and_then_to(config, c0, c1);
    lemma_followed_by(config, b0, c0.and_then_to(c1));
    lemma_line_end(config, equal, laid, trivia);
    let d = fronted_piece(equal, laid, ended, kept(trivia));
    lemma_and_then_to(config, b0.followed_by(c0.and_then_to(c1)), d);
    let rest = b0.followed_by(c0.and_then_to(c1)).and_then_to(d);
    lemma_followed_by(config, a0.and_then_to(a1), rest);
    let whole = a0.and_then_to(a1).followed_by(rest);
    lemma_add_assoc(
        punctuated_tokens(node.var_list, true),
        seq![node.equal_token],
        punctuated_tokens(node.expr_list, true),
    );
    lemma_add_assoc(
        punctuated_tokens(node.var_list, false),
        seq![node.equal_token],
        punctuated_tokens(node.expr_list, false),
    );
    lemma_add_assoc(
        punctuated_tokens(punctuated_first_updated(vars, append(indent)), true),
        seq![ended.0],
        punctuated_tokens(ended.1, true),
    );
    lemma_add_assoc(
        punctuated_tokens(punctuated_first_updated(vars, append(indent)), false),
        seq![ended.0],
        punctuated_tokens(ended.1, false),
    );
    assert(whole.taken.add(Multiset::empty()) =~= whole.given.add(Multiset::empty()));
    lemma_conclude(
        config,
        whole,
        stmt_piece(
            StmtView::Assignment(node),
            StmtView::Assignment(formatted_assignment(state, node).1),
            Multiset::empty(),
            Multiset::empty(),
        ),
    );
}

/// A formatted `local` declaration has the tokens of the declaration and its comments.
#[verifier::spinoff_prover]
pub proof fn lemma_formatted_local_assignment(state: FormatterState, node: LocalAssignmentView)
    ensures
        formatted_local_assignment(state, node).0.config == state.config,
        stmt_piece(
            StmtView::LocalAssignment(node),
            StmtView::LocalAssignment(formatted_local_assignment(state, node).1),
            Multiset::empty(),
            Multiset::empty(),
        ).sound(state.config),
    decreases node,
{
    reveal(formatted_local_assignment);
    reveal(stmt_tokens);
    let config = state.config;
    let extra = state.range_indent_increase(token_range(node.local_token));
    let width = stripped(local_assignment_tokens(node)).len() as int;
    let hang = hangs_values(state, extra, width, 3, node.expr_list);
    let local_token = opening(state, state.format_symbol(node.local_token, false, true), extra);
    let (names_state, names, name_comments) = formatted_punctuated(state, node.name_list);
    let (end_state, exprs, expr_comments) = formatted_punctuated(names_state, node.expr_list);
    let trivia = name_comments + expr_comments + seq![end_state.newline_trivia()];
    let indent = FormatTriviaTypeView::Append(seq![state.indent_trivia(extra)]);
    lemma_kept_whitespace(state, extra);
    lemma_kept_whitespace(end_state, None);
    lemma_kept_few(space(), space(), space());
    lemma_kept_add(name_comments + expr_comments, seq![end_state.newline_trivia()]);
    lemma_kept_add(name_comments, expr_comments);
    lemma_formatted_punctuated(state, node.name_list);
    lemma_formatted_punctuated(names_state, node.expr_list);
    lemma_symbol_piece(config, state, node.local_token, false, true);
    lemma_token_edit(
        config,
        node.local_token,
        state.format_symbol(node.local_token, false, true),
        indent,
        FormatTriviaTypeView::NoChange,
    );
    let a = Piece::token(
        node.local_token,
        local_token,
        kept(added_by(indent)).add(kept(added_by(FormatTriviaTypeView::NoChange))),
        Multiset::empty(),
    );
    let b = punctuated_piece(node.name_list, names, Multiset::empty(), kept(name_comments));
    let c = punctuated_piece(node.expr_list, exprs, Multiset::empty(), kept(expr_comments));
    match node.equal_token {
        Some(equal_token) => {
            let equal = names_state.format_symbol(equal_token, true, true);
            let laid = laid_out_values(end_state, exprs, extra, hang);
            let ended = line_end(equal, laid, append(trivia));
            lemma_symbol_piece(config, names_state, equal_token, true, true);
            let e0 = Piece::token(equal_token, equal, Multiset::empty(), Multiset::empty());
            lemma_laid_out_values(config, end_state, exprs, extra, hang);
            let c1 = punctuated_piece(exprs, laid, Multiset::empty(), Multiset::empty());
            lemma_and_then_to(config, c, c1);
            lemma_followed_by(config, e0, c.and_then_to(c1));
            lemma_line_end(config, equal, laid, trivia);
            let d = fronted_piece(equal, laid, ended, kept(trivia));
            lemma_and_then_to(config, e0.followed_by(c.and_then_to(c1)), d);
            let rest = e0.followed_by(c.and_then_to(c1)).and_then_to(d);
            lemma_followed_by(config, a, b);
            lemma_followed_by(config, a.followed_by(b), rest);
            let whole = a.followed_by(b).followed_by(rest);
            lemma_add_assoc(
                seq![node.local_token] + punctuated_tokens(node.name_list, true),
                seq![equal_token],
                punctuated_tokens(node.expr_list, true),
            );
            lemma_add_assoc(
                seq![node.local_token] + punctuated_tokens(node.name_list, false),
                seq![equal_token],
                punctuated_tokens(node.expr_list, false),
            );
            lemma_add_assoc(
                seq![local_token] + punctuated_tokens(names, true),
                seq![ended.0],
                punctuated_tokens(ended.1, true),
            );
            lemma_add_assoc(
                seq![local_token] + punctuated_tokens(names, false),
                seq![ended.0],
                punctuated_tokens(ended.1, false),
            );
            assert(whole.taken.add(Multiset::empty()) =~= whole.given.add(Multiset::empty()));
            lemma_conclude(
                config,
                whole,
                stmt_piece(
                    StmtView::LocalAssignment(node),
                    StmtView::LocalAssignment(formatted_local_assignment(state, node).1),
                    Multiset::empty(),
                    Multiset::empty(),
                ),
            );
        },
        None => {
            let ended = line_end(local_token, names, append(trivia));
            lemma_followed_by(config, a, b);
            lemma_line_end(config, local_token, names, trivia);
            let d = fronted_piece(local_token, names, ended, kept(trivia));
            lemma_and_then_to(config, a.followed_by(b), d);
            lemma_nothing(config, a.followed_by(b).and_then_to(d));
            let front = a.followed_by(b).and_then_to(d).followed_by(Piece::nothing());
            lemma_followed_by(config, front, c);
            let whole = front.followed_by(c);
            assert(whole.taken.add(Multiset::empty()) =~= whole.given.add(Multiset::empty()));
            lemma_conclude(
                config,
                whole,
                stmt_piece(
                    StmtView::LocalAssignment(node),
                    StmtView::LocalAssignment(formatted_local_assignment(state, node).1),
                    Multiset::empty(),
                    Multiset::empty(),
                ),
            );
        },
    }
}

/// A formatted declaration of a local function has the tokens of the
/// declaration and its comments.
#[verifier::spinoff_prover]
pub proof fn lemma_formatted_local_function(state: FormatterState, node: LocalFunctionView)
    ensures
        formatted_local_function(state, node).0.config == state.config,
        stmt_piece(
            StmtView::LocalFunction(node),
            StmtView::LocalFunction(formatted_local_function(state, node).1),
            Multiset::empty(),
            Multiset::empty(),
        ).sound(state.config),
    decreases node,
{
    reveal(formatted_local_function);
    reveal(stmt_tokens);
    let config = state.config;
    let extra = state.range_indent_increase(token_range(node.local_token));
    lemma_formatted_function_body(state, node.body, extra);
    let body = formatted_function_body(state, node.body, extra).1;
    let end_state = formatted_function_body(state, node.body, extra).0;
    let newline = seq![end_state.newline_trivia()];
    lemma_kept_whitespace(end_state, None);
    lemma_body_trail(config, body, newline);
    let f0 = function_body_piece(node.body, body, Multiset::empty(), Multiset::empty());
    let f1 = function_body_piece(
        body,
        closed_body(end_state, body),
        kept(newline),
        Multiset::empty(),
    );
    lemma_and_then_to(config, f0, f1);
    lemma_symbol_piece(config, state, node.local_token, false, true);
    lemma_kept_whitespace(state, extra);
    lemma_token_edit(
        config,
        node.local_token,
        state.format_symbol(node.local_token, false, true),
        FormatTriviaTypeView::Append(seq![state.indent_trivia(extra)]),
        FormatTriviaTypeView::NoChange,
    );
    let part0 = Piece::token(
        node.local_token,
        with_trivia(
            state.format_symbol(node.local_token, false, true),
            FormatTriviaTypeView::Append(seq![state.indent_trivia(extra)]),
            FormatTriviaTypeView::NoChange,
        ),
        kept(added_by(FormatTriviaTypeView::Append(seq![state.indent_trivia(extra)]))).add(
            kept(added_by(FormatTriviaTypeView::NoChange)),
        ),
        Multiset::empty(),
    );
    lemma_symbol_piece(config, state, node.function_token, false, true);
    let part1 = Piece::token(
        node.function_token,
        state.format_symbol(node.function_token, false, true),
        Multiset::empty(),
        Multiset::empty(),
    );
    lemma_reference_piece(config, state, node.name);
    let part2 = Piece::token(
        node.name,
        state.format_token_reference(node.name),
        Multiset::empty(),
        Multiset::empty(),
    );
    let part3 = f0.and_then_to(f1);
    lemma_followed_by(config, part0, part1);
    let q1 = part0.followed_by(part1);
    lemma_followed_by(config, q1, part2);
    let q2 = q1.followed_by(part2);
    lemma_followed_by(config, q2, part3);
    let whole = q2.followed_by(part3);
    lemma_kept_few(space(), space(), space());
    assert(whole.taken.add(Multiset::empty()) =~= whole.given.add(Multiset::empty()));
    lemma_conclude(
        config,
        whole,
        stmt_piece(
            StmtView::LocalFunction(node),
            StmtView::LocalFunction(formatted_local_function(state, node).1),
            Multiset::empty(),
            Multiset::empty(),
        ),
    );
}

/// A formatted function declaration has the tokens of the declaration and
/// its comments.
#[verifier::spinoff_prover]
pub proof fn lemma_formatted_function_declaration(
    state: FormatterState,
    node: FunctionDeclarationView,
)
    ensures
        formatted_function_declaration(state, node).0.config == state.config,
        stmt_piece(
            StmtView::FunctionDeclaration(node),
            StmtView::FunctionDeclaration(formatted_function_declaration(state, node).1),
            Multiset::empty(),
            Multiset::empty(),
        ).sound(state.config),
    decreases node,
{
    reveal(formatted_function_declaration);
    reveal(stmt_tokens);
    let config = state.config;
    let extra = state.range_indent_increase(token_range(node.function_token));
    lemma_formatted_function_body(state, node.body, extra);
    let body = formatted_function_body(state, node.body, extra).1;
    let end_state = formatted_function_body(state, node.body, extra).0;
    let newline = seq![end_state.newline_trivia()];
    lemma_kept_whitespace(end_state, None);
    lemma_body_trail(config, body, newline);
    let f0 = function_body_piece(node.body, body, Multiset::empty(), Multiset::empty());
    let f1 = function_body_piece(
        body,
        closed_body(end_state, body),
        kept(newline),
        Multiset::empty(),
    );
    lemma_and_then_to(config, f0, f1);
    lemma_formatted_name(config, state, node.name);
    lemma_symbol_piece(config, state, node.function_token, false, true);
    lemma_kept_whitespace(state, extra);
    lemma_token_edit(
        config,
        node.function_token,
        state.format_symbol(node.function_token, false, true),
        FormatTriviaTypeView::Append(seq![state.indent_trivia(extra)]),
        FormatTriviaTypeView::NoChange,
    );
    let part0 = Piece::token(
        node.function_token,
        with_trivia(
            state.format_symbol(node.function_token, false, true),
            FormatTriviaTypeView::Append(seq![state.indent_trivia(extra)]),
            FormatTriviaTypeView::NoChange,
        ),
        kept(added_by(FormatTriviaTypeView::Append(seq![state.indent_trivia(extra)]))).add(
            kept(added_by(FormatTriviaTypeView::NoChange)),
        ),
        Multiset::empty(),
    );
    let part1 = Piece {
        before_all: node.name,
        before_kept: node.name,
        after_all: formatted_name(state, node.name),
        after_kept: formatted_name(state, node.name),
        taken: Multiset::empty(),
        given: Multiset::empty(),
    };
    let part2 = f0.and_then_to(f1);
    lemma_followed_by(config, part0, part1);
    lemma_followed_by(config, part0.followed_by(part1), part2);
    let whole = part0.followed_by(part1).followed_by(part2);
    lemma_kept_few(space(), space(), space());
    assert(whole.taken.add(Multiset::empty()) =~= whole.given.add(Multiset::empty()));
    lemma_conclude(
        config,
        whole,
        stmt_piece(
            StmtView::FunctionDeclaration(node),
            StmtView::FunctionDeclaration(formatted_function_declaration(state, node).1),
            Multiset::empty(),
            Multiset::empty(),
        ),
    );
}


/// The first formatted suffixes have the tokens of the suffixes and their comments.
#[verifier::spinoff_prover]
pub proof fn lemma_formatted_suffixes(state: FormatterState, suffixes: Seq<SuffixView>, count: int)
    requires
        0 <= count <= suffixes.len(),
    ensures
        formatted_suffixes(state, suffixes, count).0.config == state.config,
        formatted_suffixes(state, suffixes, count).1.len() == count,
        suffixes_piece(
            suffixes.take(count),
            formatted_suffixes(state, suffixes, count).1,
            Multiset::empty(),
            Multiset::empty(),
        ).sound(state.config),
    decreases suffixes, count,
{
    reveal(formatted_suffixes);
    let config = state.config;
    let target = suffixes_piece(
        suffixes.take(count),
        formatted_suffixes(state, suffixes, count).1,
        Multiset::empty(),
        Multiset::empty(),
    );
    if count == 0 {
        assert(suffixes.take(0) =~= Seq::<SuffixView>::empty());
        lemma_suffixes_tokens_push(Seq::empty(), arbitrary(), true);
        lemma_suffixes_tokens_push(Seq::empty(), arbitrary(), false);
        lemma_nothing(config, Piece::nothing());
        lemma_conclude(config, Piece::nothing(), target);
    } else {
        let (before_state, before) = formatted_suffixes(state, suffixes, count - 1);
        let current = suffixes[count - 1];
        let (end_state, formatted) = formatted_suffix(before_state, current);
        lemma_formatted_suffixes(state, suffixes, count - 1);
        lemma_formatted_suffix(before_state, current);
        assert(suffixes.take(count) =~= suffixes.take(count - 1).push(current));
        lemma_suffixes_tokens_push(suffixes.take(count - 1), current, true);
        lemma_suffixes_tokens_push(suffixes.take(count - 1), current, false);
        lemma_suffixes_tokens_push(before, formatted, true);
        lemma_suffixes_tokens_push(before, formatted, false);
        let part0 = suffixes_piece(
            suffixes.take(count - 1),
            before,
            Multiset::empty(),
            Multiset::empty(),
        );
        let part1 = suffix_piece(current, formatted, Multiset::empty(), Multiset::empty());
        lemma_followed_by(config, part0, part1);
        let whole = part0.followed_by(part1);
        assert(whole.taken.add(Multiset::empty()) =~= whole.given.add(Multiset::empty()));
        lemma_conclude(config, whole, target);
    }
}

/// The first formatted elements of a list have the tokens of the elements;
/// the comments that stood behind their separators are given away.
#[verifier::spinoff_prover]
pub proof fn lemma_formatted_pairs(state: FormatterState, pairs: Seq<PairView>, count: int)
    requires
        0 <= count <= pairs.len(),
    ensures
        formatted_pairs(state, pairs, count).0.config == state.config,
        formatted_pairs(state, pairs, count).1.len() == count,
        listed_pairs_piece(
            pairs.take(count),
            formatted_pairs(state, pairs, count).1,
            count == pairs.len(),
            kept(formatted_pairs(state, pairs, count).2),
        ).sound(state.config),
    decreases pairs, count,
{
    reveal(formatted_pairs);
    let config = state.config;
    let result = formatted_pairs(state, pairs, count);
    let whole_list = count == pairs.len();
    let target = listed_pairs_piece(pairs.take(count), result.1, whole_list, kept(result.2));
    lemma_punctuated_tokens(pairs.take(count));
    lemma_punctuated_tokens(result.1);
    lemma_kept_few(space(), space(), space());
    if count == 0 {
        assert(pairs.take(0) =~= Seq::<PairView>::empty());
        lemma_pairs_tokens_push(Seq::empty(), arbitrary(), true);
        lemma_pairs_tokens_push(Seq::empty(), arbitrary(), false);
        lemma_nothing(config, Piece::nothing());
        lemma_conclude(config, Piece::nothing(), target);
    } else {
        let (before_state, before, before_comments) = formatted_pairs(state, pairs, count - 1);
        let current = pairs[count - 1];
        let (end_state, formatted) = formatted_expression(before_state, current.value);
        let value = last_updated(formatted, cleared());
        let comments = before_comments + last_trailing(formatted);
        lemma_formatted_pairs(state, pairs, count - 1);
        lemma_formatted_expression(before_state, current.value);
        lemma_last_cleared(config, formatted);
        lemma_kept_add(before_comments, last_trailing(formatted));
        let front = pairs.take(count - 1);
        assert(pairs.take(count) =~= front.push(current));
        lemma_push_last(front, current);
        lemma_push_last(before, result.1.last());
        assert(result.1.drop_last() =~= before);
        lemma_pairs_tokens_push(front, current, true);
        lemma_pairs_tokens_push(front, current, false);
        lemma_pairs_tokens_push(before, result.1.last(), true);
        lemma_pairs_tokens_push(before, result.1.last(), false);
        let part0 = listed_pairs_piece(front, before, false, kept(before_comments));
        let formatting = expression_piece(
            current.value,
            formatted,
            Multiset::empty(),
            Multiset::empty(),
        );
        let clearing = expression_piece(
            formatted,
            value,
            Multiset::empty(),
            kept(last_trailing(formatted)),
        );
        lemma_and_then_to(config, formatting, clearing);
        let part1 = formatting.and_then_to(clearing);
        lemma_followed_by(config, part0, part1);
        let values = part0.followed_by(part1);
        match current.separator {
            Some(separator) => {
                if whole_list {
                    lemma_dropped_separator(config, separator);
                    let part2 = Piece::dropped(separator, kept(dropped_comments(separator)));
                    lemma_followed_by(config, values, part2);
                    let whole = values.followed_by(part2);
                    lemma_kept_add(comments, dropped_comments(separator));
                    lemma_add_empty(values.before_kept);
                    lemma_add_empty(values.after_kept);
                    lemma_add_empty(values.after_all);
                    assert(whole.taken.add(kept(result.2)) =~= whole.given.add(Multiset::empty()));
                    lemma_conclude(config, whole, target);
                } else {
                    lemma_separator_piece(config, end_state, separator);
                    let part2 = Piece::token(
                        separator,
                        list_separator(end_state, separator),
                        Multiset::empty(),
                        kept(format_trailing(separator.trailing)),
                    );
                    lemma_followed_by(config, values, part2);
                    let whole = values.followed_by(part2);
                    lemma_kept_add(comments, format_trailing(separator.trailing));
                    assert(whole.taken.add(kept(result.2)) =~= whole.given.add(Multiset::empty()));
                    lemma_conclude(config, whole, target);
                }
            },
            None => {
                lemma_nothing(config, values);
                let whole = values.followed_by(Piece::nothing());
                lemma_add_empty(values.before_kept);
                lemma_add_empty(values.after_kept);
                lemma_add_empty(values.before_all);
                lemma_add_empty(values.after_all);
                assert(whole.taken.add(kept(result.2)) =~= whole.given.add(Multiset::empty()));
                lemma_conclude(config, whole, target);
            },
        }
    }
}

/// A list formatted for one line has the tokens of the list; the comments
/// that stood behind its separators are given away.
#[verifier::spinoff_prover]
pub proof fn lemma_formatted_punctuated(state: FormatterState, list: PunctuatedView)
    ensures
        formatted_punctuated(state, list).0.config == state.config,
        punctuated_piece(
            list,
            formatted_punctuated(state, list).1,
            Multiset::empty(),
            kept(formatted_punctuated(state, list).2),
        ).sound(state.config),
    decreases list,
{
    reveal(formatted_punctuated);
    let config = state.config;
    let count = list.pairs.len() as int;
    let result = formatted_pairs(state, list.pairs, count);
    lemma_formatted_pairs(state, list.pairs, count);
    assert(list.pairs.take(count) =~= list.pairs);
    lemma_punctuated_tokens(list.pairs);
    lemma_punctuated_tokens(result.1);
    assert(Multiset::<TokenView>::empty().add(kept(result.2)) =~= kept(result.2).add(
        Multiset::empty(),
    ));
    lemma_conclude(
        config,
        listed_pairs_piece(list.pairs, result.1, true, kept(result.2)),
        punctuated_piece(
            list,
            formatted_punctuated(state, list).1,
            Multiset::empty(),
            kept(formatted_punctuated(state, list).2),
        ),
    );
}

/// The first formatted fields of a table have the tokens of the fields; the
/// comments that stood behind their separators are given away.
#[verifier::spinoff_prover]
pub proof fn lemma_formatted_fields(state: FormatterState, fields: Seq<FieldPairView>, count: int)
    requires
        0 <= count <= fields.len(),
    ensures
        formatted_fields(state, fields, count).0.config == state.config,
        formatted_fields(state, fields, count).1.len() == count,
        listed_fields_piece(
            fields.take(count),
            formatted_fields(state, fields, count).1,
            count == fields.len(),
            kept(formatted_fields(state, fields, count).2),
        ).sound(state.config),
    decreases fields, count,
{
    reveal(formatted_fields);
    let config = state.config;
    let result = formatted_fields(state, fields, count);
    let whole_list = count == fields.len();
    let target = listed_fields_piece(fields.take(count), result.1, whole_list, kept(result.2));
    lemma_fields_tokens(fields.take(count));
    lemma_fields_tokens(result.1);
    lemma_kept_few(space(), space(), space());
    if count == 0 {
        assert(fields.take(0) =~= Seq::<FieldPairView>::empty());
        lemma_field_pairs_tokens_push(Seq::empty(), arbitrary(), true);
        lemma_field_pairs_tokens_push(Seq::empty(), arbitrary(), false);
        lemma_nothing(config, Piece::nothing());
        lemma_conclude(config, Piece::nothing(), target);
    } else {
        let (before_state, before, comments) = formatted_fields(state, fields, count - 1);
        let current = fields[count - 1];
        let (end_state, field) = formatted_field(before_state, current.field);
        lemma_formatted_fields(state, fields, count - 1);
        lemma_formatted_field(before_state, current.field);
        let front = fields.take(count - 1);
        assert(fields.take(count) =~= front.push(current));
        lemma_push_last(front, current);
        lemma_push_last(before, result.1.last());
        assert(result.1.drop_last() =~= before);
        lemma_field_pairs_tokens_push(front, current, true);
        lemma_field_pairs_tokens_push(front, current, false);
        lemma_field_pairs_tokens_push(before, result.1.last(), true);
        lemma_field_pairs_tokens_push(before, result.1.last(), false);
        let part0 = listed_fields_piece(front, before, false, kept(comments));
        let part1 = field_piece(current.field, field, Multiset::empty(), Multiset::empty());
        lemma_followed_by(config, part0, part1);
        let values = part0.followed_by(part1);
        match current.separator {
            Some(separator) => {
                if whole_list {
                    lemma_dropped_separator(config, separator);
                    let part2 = Piece::dropped(separator, kept(dropped_comments(separator)));
                    lemma_followed_by(config, values, part2);
                    let whole = values.followed_by(part2);
                    lemma_kept_add(comments, dropped_comments(separator));
                    lemma_add_empty(values.before_kept);
                    lemma_add_empty(values.after_kept);
                    lemma_add_empty(values.after_all);
                    assert(whole.taken.add(kept(result.2)) =~= whole.given.add(Multiset::empty()));
                    lemma_conclude(config, whole, target);
                } else {
                    lemma_separator_piece(config, end_state, separator);
                    let part2 = Piece::token(
                        separator,
                        list_separator(end_state, separator),
                        Multiset::empty(),
                        kept(format_trailing(separator.trailing)),
                    );
                    lemma_followed_by(config, values, part2);
                    let whole = values.followed_by(part2);
                    lemma_kept_add(comments, format_trailing(separator.trailing));
                    assert(whole.taken.add(kept(result.2)) =~= whole.given.add(Multiset::empty()));
                    lemma_conclude(config, whole, target);
                }
            },
            None => {
                lemma_nothing(config, values);
                let whole = values.followed_by(Piece::nothing());
                lemma_add_empty(values.before_kept);
                lemma_add_empty(values.after_kept);
                lemma_add_empty(values.before_all);
                lemma_add_empty(values.after_all);
                assert(whole.taken.add(kept(result.2)) =~= whole.given.add(Multiset::empty()));
                lemma_conclude(config, whole, target);
            },
        }
    }
}

/// The first formatted statements of a block have the tokens of the
/// statements and their comments.
#[verifier::spinoff_prover]
pub proof fn lemma_formatted_stmts(state: FormatterState, stmts: Seq<BlockStmtView>, count: int)
    requires
        0 <= count <= stmts.len(),
    ensures
        formatted_stmts(state, stmts, count).0.config == state.config,
        formatted_stmts(state, stmts, count).1.len() == count,
        block_stmts_piece(
            stmts.take(count),
            formatted_stmts(state, stmts, count).1,
            Multiset::empty(),
            Multiset::empty(),
        ).sound(state.config),
    decreases stmts, count,
{
    reveal(formatted_stmts);
    let config = state.config;
    let result = formatted_stmts(state, stmts, count);
    let target = block_stmts_piece(
        stmts.take(count),
        result.1,
        Multiset::empty(),
        Multiset::empty(),
    );
    if count == 0 {
        assert(stmts.take(0) =~= Seq::<BlockStmtView>::empty());
        lemma_block_stmts_tokens_push(Seq::empty(), arbitrary(), true);
        lemma_block_stmts_tokens_push(Seq::empty(), arbitrary(), false);
        lemma_nothing(config, Piece::nothing());
        lemma_conclude(config, Piece::nothing(), target);
    } else {
        let (before_state, before) = formatted_stmts(state, stmts, count - 1);
        let current = stmts[count - 1];
        let (end_state, stmt) = formatted_stmt(before_state, current.stmt);
        lemma_formatted_stmts(state, stmts, count - 1);
        lemma_formatted_stmt(before_state, current.stmt);
        lemma_ended_stmt(config, current, stmt);
        let formatted = result.1.last();
        let front = stmts.take(count - 1);
        assert(stmts.take(count) =~= front.push(current));
        lemma_push_last(before, formatted);
        lemma_block_stmts_tokens_push(front, current, true);
        lemma_block_stmts_tokens_push(front, current, false);
        lemma_block_stmts_tokens_push(before, formatted, true);
        lemma_block_stmts_tokens_push(before, formatted, false);
        let part0 = block_stmts_piece(front, before, Multiset::empty(), Multiset::empty());
        let part1 = block_stmt_piece(current, formatted);
        lemma_followed_by(config, part0, part1);
        let whole = part0.followed_by(part1);
        lemma_add_assoc(
            block_stmts_tokens(front, true),
            stmt_tokens(current.stmt, true),
            optional_token(current.semicolon),
        );
        lemma_add_assoc(
            block_stmts_tokens(front, false),
            stmt_tokens(current.stmt, false),
            optional_token(current.semicolon),
        );
        lemma_add_assoc(
            block_stmts_tokens(before, true),
            stmt_tokens(formatted.stmt, true),
            optional_token(formatted.semicolon),
        );
        lemma_add_assoc(
            block_stmts_tokens(before, false),
            stmt_tokens(formatted.stmt, false),
            optional_token(formatted.semicolon),
        );
        assert(whole.taken.add(Multiset::empty()) =~= whole.given.add(Multiset::empty()));
        lemma_conclude(config, whole, target);
    }
}

/// The formatted closing statement of a block has the tokens of the
/// statement and its comments.
#[verifier::spinoff_prover]
pub proof fn lemma_formatted_block_last(state: FormatterState, last: Option<Box<BlockLastStmtView>>)
    ensures
        formatted_block_last(state, last).0.config == state.config,
        block_last_piece(
            last,
            formatted_block_last(state, last).1,
            Multiset::empty(),
            Multiset::empty(),
        ).sound(state.config),
    decreases last,
{
    reveal(formatted_block_last);
    reveal(block_last_tokens);
    let config = state.config;
    let target = block_last_piece(
        last,
        formatted_block_last(state, last).1,
        Multiset::empty(),
        Multiset::empty(),
    );
    match last {
        Some(inner) => {
            let (decided, go) = format_decision(state, last_stmt_tokens(inner.stmt, true));
            if go {
                let (end_state, stmt) = formatted_last_stmt(decided, inner.stmt);
                lemma_formatted_last_stmt(decided, inner.stmt);
                lemma_ended_last_stmt(config, *inner, stmt);
                let whole = block_last_stmt_piece(*inner, ended_last_stmt(stmt, inner.semicolon));
                assert(whole.taken.add(Multiset::empty()) =~= whole.given.add(Multiset::empty()));
                lemma_conclude(config, whole, target);
            } else {
                lemma_same(config, block_last_tokens(last, true), block_last_tokens(last, false));
            }
        },
        None => {
            lemma_same(config, block_last_tokens(last, true), block_last_tokens(last, false));
        },
    }
}

/// A formatted statement has the tokens of the statement and its comments.
#[verifier::spinoff_prover]
pub proof fn lemma_formatted_stmt(state: FormatterState, stmt: StmtView)
    ensures
        formatted_stmt(state, stmt).0.config == state.config,
        stmt_piece(
            stmt,
            formatted_stmt(state, stmt).1,
            Multiset::empty(),
            Multiset::empty(),
        ).sound(state.config),
    decreases stmt,
{
    reveal(formatted_stmt);
    let config = state.config;
    let (decided, go) = format_decision(state, stmt_tokens(stmt, true));
    if !go {
        lemma_same(config, stmt_tokens(stmt, true), stmt_tokens(stmt, false));
    } else {
        match stmt {
            StmtView::Assignment(node) => lemma_formatted_assignment(decided, node),
            StmtView::Do(node) => lemma_formatted_do(decided, node),
            StmtView::FunctionCall(node) => lemma_formatted_call_stmt(decided, node),
            StmtView::FunctionDeclaration(node) => lemma_formatted_function_declaration(
                decided,
                node,
            ),
            StmtView::GenericFor(node) => lemma_formatted_generic_for(decided, node),
            StmtView::If(node) => {
                lemma_formatted_if(decided, node);
                lemma_if_stmt(node, formatted_if(decided, node).1);
            },
            StmtView::LocalAssignment(node) => lemma_formatted_local_assignment(decided, node),
            StmtView::LocalFunction(node) => lemma_formatted_local_function(decided, node),
            StmtView::NumericFor(node) => lemma_formatted_numeric_for(decided, node),
            StmtView::Repeat(node) => lemma_formatted_repeat(decided, node),
            StmtView::While(node) => lemma_formatted_while(decided, node),
        }
    }
}

/// The piece of an `if` that stands as a statement is the piece of the `if`.
#[verifier::spinoff_prover]
pub proof fn lemma_if_stmt(before: IfView, after: IfView)
    ensures
        stmt_piece(
            StmtView::If(before),
            StmtView::If(after),
            Multiset::empty(),
            Multiset::empty(),
        ) == if_piece(before, after, Multiset::empty(), Multiset::empty()),
{
    reveal(stmt_tokens);
}

/// The first formatted `elseif` branches have the tokens of the branches
/// and their comments.
#[verifier::spinoff_prover]
pub proof fn lemma_formatted_else_ifs(state: FormatterState, branches: Seq<ElseIfView>, count: int)
    requires
        0 <= count <= branches.len(),
    ensures
        formatted_else_ifs(state, branches, count).0.config == state.config,
        formatted_else_ifs(state, branches, count).1.len() == count,
        else_ifs_piece(
            branches.take(count),
            formatted_else_ifs(state, branches, count).1,
            Multiset::empty(),
            Multiset::empty(),
        ).sound(state.config),
    decreases branches, count,
{
    reveal(formatted_else_ifs);
    let config = state.config;
    let target = else_ifs_piece(
        branches.take(count),
        formatted_else_ifs(state, branches, count).1,
        Multiset::empty(),
        Multiset::empty(),
    );
    if count == 0 {
        assert(branches.take(0) =~= Seq::<ElseIfView>::empty());
        lemma_else_ifs_tokens_push(Seq::empty(), arbitrary(), true);
        lemma_else_ifs_tokens_push(Seq::empty(), arbitrary(), false);
        lemma_nothing(config, Piece::nothing());
        lemma_conclude(config, Piece::nothing(), target);
    } else {
        let (before_state, before) = formatted_else_ifs(state, branches, count - 1);
        let current = branches[count - 1];
        let (end_state, formatted) = formatted_else_if(before_state, current);
        lemma_formatted_else_ifs(state, branches, count - 1);
        lemma_formatted_else_if(before_state, current);
        assert(branches.take(count) =~= branches.take(count - 1).push(current));
        lemma_else_ifs_tokens_push(branches.take(count - 1), current, true);
        lemma_else_ifs_tokens_push(branches.take(count - 1), current, false);
        lemma_else_ifs_tokens_push(before, formatted, true);
        lemma_else_ifs_tokens_push(before, formatted, false);
        let part0 = else_ifs_piece(
            branches.take(count - 1),
            before,
            Multiset::empty(),
            Multiset::empty(),
        );
        let part1 = else_if_piece(current, formatted, Multiset::empty(), Multiset::empty());
        lemma_followed_by(config, part0, part1);
        let whole = part0.followed_by(part1);
        assert(whole.taken.add(Multiset::empty()) =~= whole.given.add(Multiset::empty()));
        lemma_conclude(config, whole, target);
    }
}

/// The formatted tokens of the name of a function are the tokens of the
/// name, with their comments.
pub proof fn lemma_formatted_name(
    config: Config,
    state: FormatterState,
    name: Seq<TokenReferenceView>,
)
    requires
        state.config == config,
    ensures
        (Piece {
            before_all: name,
            before_kept: name,
            after_all: formatted_name(state, name),
            after_kept: formatted_name(state, name),
            taken: Multiset::empty(),
            given: Multiset::empty(),
        }).sound(config),
    decreases name.len(),
{
    let target = Piece {
        before_all: name,
        before_kept: name,
        after_all: formatted_name(state, name),
        after_kept: formatted_name(state, name),
        taken: Multiset::empty(),
        given: Multiset::empty(),
    };
    if name.len() == 0 {
        assert(name =~= Seq::<TokenReferenceView>::empty());
        assert(formatted_name(state, name) =~= Seq::<TokenReferenceView>::empty());
        lemma_nothing(config, Piece::nothing());
        lemma_conclude(config, Piece::nothing(), target);
    } else {
        lemma_formatted_name(config, state, name.drop_last());
        let part0 = Piece {
            before_all: name.drop_last(),
            before_kept: name.drop_last(),
            after_all: formatted_name(state, name.drop_last()),
            after_kept: formatted_name(state, name.drop_last()),
            taken: Multiset::empty(),
            given: Multiset::empty(),
        };
        lemma_reference_piece(config, state, name.last());
        let part1 = Piece::token(
            name.last(),
            state.format_token_reference(name.last()),
            Multiset::empty(),
            Multiset::empty(),
        );
        lemma_followed_by(config, part0, part1);
        let whole = part0.followed_by(part1);
        assert(name.drop_last() + seq![name.last()] =~= name);
        assert(formatted_name(state, name.drop_last()) + seq![
            state.format_token_reference(name.last()),
        ] =~= formatted_name(state, name));
        assert(whole.taken.add(Multiset::empty()) =~= whole.given.add(Multiset::empty()));
        lemma_conclude(config, whole, target);
    }
}

/// The first `count` elements of a list formatted for one line are `count`
/// elements, and where they are the whole list, no separator stands behind
/// the last of them.
#[verifier::spinoff_prover]
pub proof fn lemma_formatted_pairs_end_bare(state: FormatterState, pairs: Seq<PairView>, count: int)
    requires
        0 <= count <= pairs.len(),
    ensures
        formatted_pairs(state, pairs, count).1.len() == count,
        0 < count == pairs.len() ==> formatted_pairs(state, pairs, count).1.last().separator
            is None,
    decreases count,
{
    reveal(formatted_pairs);
    if count > 0 {
        lemma_formatted_pairs_end_bare(state, pairs, count - 1);
    }
}

/// A list formatted for one line has the elements of the list, and no
/// separator behind the last of them.
#[verifier::spinoff_prover]
pub proof fn lemma_one_line_list_ends_bare(state: FormatterState, list: PunctuatedView)
    ensures
        formatted_punctuated(state, list).1.pairs.len() == list.pairs.len(),
        list.pairs.len() > 0 ==> formatted_punctuated(state, list).1.pairs.last().separator
            is None,
{
    reveal(formatted_punctuated);
    lemma_formatted_pairs_end_bare(state, list.pairs, list.pairs.len() as int);
    let formatted = formatted_pairs(state, list.pairs, list.pairs.len() as int).1;
    assert(formatted_punctuated(state, list).1 == PunctuatedView { pairs: formatted });
}

/// Formatting a chunk keeps its tokens: the formatted chunk has the tokens of
/// the chunk, one for one and in the same order, where the separators behind
/// the last elements of lists are left out of account. Every token is the
/// token it was, but that a string literal may have other quotes.
pub proof fn lemma_format_keeps_tokens(config: Config, range: Option<(usize, usize)>, ast: AstView)
    ensures
        atoms_kept(
            config,
            ast_tokens(ast, false),
            ast_tokens(formatted_ast(config, range, ast), false),
        ),
{
    lemma_format_ast(config, range, ast);
}

/// Formatting a chunk keeps its comments: the comments on the tokens of the
/// formatted chunk are, as a multiset, the comments on the tokens of the chunk.
pub proof fn lemma_format_keeps_comments(
    config: Config,
    range: Option<(usize, usize)>,
    ast: AstView,
)
    ensures
        comments_of(ast_tokens(formatted_ast(config, range, ast), true)) == comments_of(
            ast_tokens(ast, true),
        ),
{
    lemma_format_ast(config, range, ast);
    let a = comments_of(ast_tokens(formatted_ast(config, range, ast), true));
    let b = comments_of(ast_tokens(ast, true));
    assert(a.add(Multiset::empty()) =~= a);
    assert(b.add(Multiset::empty()) =~= b);
}

/// A formatted chunk is a sound piece of the chunk.
pub proof fn lemma_format_ast(config: Config, range: Option<(usize, usize)>, ast: AstView)
    ensures
        (Piece {
            before_all: ast_tokens(ast, true),
            before_kept: ast_tokens(ast, false),
            after_all: ast_tokens(formatted_ast(config, range, ast), true),
            after_kept: ast_tokens(formatted_ast(config, range, ast), false),
            taken: Multiset::empty(),
            given: Multiset::empty(),
        }).sound(config),
{
    let state = FormatterState::initial(config, range);
    let (end_state, block) = formatted_block(state, ast.block);
    lemma_formatted_block(state, ast.block);
    let part0 = block_piece(ast.block, block, Multiset::empty(), Multiset::empty());
    crate::token_laws::lemma_format_leading(end_state, ast.eof.leading, None);
    crate::token_laws::lemma_format_trailing(ast.eof.trailing);
    lemma_token_piece(
        config,
        ast.eof,
        formatted_eof(end_state, ast.eof),
        Multiset::empty(),
        Multiset::empty(),
    );
    let part1 = Piece::token(
        ast.eof,
        formatted_eof(end_state, ast.eof),
        Multiset::empty(),
        Multiset::empty(),
    );
    lemma_followed_by(config, part0, part1);
    let whole = part0.followed_by(part1);
    assert(whole.taken.add(Multiset::empty()) =~= whole.given.add(Multiset::empty()));
    lemma_conclude(
        config,
        whole,
        Piece {
            before_all: ast_tokens(ast, true),
            before_kept: ast_tokens(ast, false),
            after_all: ast_tokens(formatted_ast(config, range, ast), true),
            after_kept: ast_tokens(formatted_ast(config, range, ast), false),
            taken: Multiset::empty(),
            given: Multiset::empty(),
        },
    );
}

/// A condition that is laid out on one line stands in a header that fits:
/// the indent of the statement, the text of the header without trivia and
/// the blanks between its parts take no more than the configured number of
/// columns, and no comment stands inside the condition.
pub proof fn lemma_one_line_header_fits(
    state: FormatterState,
    extra: Option<usize>,
    first: TokenReferenceView,
    condition: ExpressionView,
    last: TokenReferenceView,
)
    requires
        !hangs_condition(state, extra, header_width(first, condition, last), 2, condition),
    ensures
        (state.indent_level + count_of(extra)) * state.config.indent_width + stripped(
            crate::layout::header_tokens(first, condition, last),
        ).len() + 2 <= state.config.column_width,
        !crate::measure::has_inline_comments(expression_tokens(condition, true)),
{
}

/// The values of an assignment that are laid out on one line stand on a line
/// that fits: the indent of the statement, the `width` columns of its text
/// without trivia and the `spacing` blanks between its parts take no more
/// than the configured number of columns, and no comment stands among the
/// values.
pub proof fn lemma_one_line_values_fit(
    state: FormatterState,
    extra: Option<usize>,
    width: int,
    spacing: int,
    values: PunctuatedView,
)
    requires
        !hangs_values(state, extra, width, spacing, values),
    ensures
        (state.indent_level + count_of(extra)) * state.config.indent_width + width + spacing
            <= state.config.column_width,
        !crate::measure::has_inline_comments(punctuated_tokens(values, true)),
{
}

} // verus!
