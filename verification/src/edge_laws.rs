//! Editing the trivia at the ends of a node keeps the tokens of the node, and
//! adds to its comments what the edit appends.

use vstd::multiset::Multiset;
use vstd::prelude::*;
use crate::config::Config;
use crate::edges::{
    args_last_trailing, args_last_updated, cleared, first_updated, last_trailing, last_updated,
    lead, prefix_first_updated, prefix_last_trailing, prefix_last_updated, suffix_last_trailing,
    suffix_last_updated, suffixed_first_updated, suffixed_last_updated, trail,
};
use crate::flatten::{
    block_tokens, expression_tokens, fields_tokens, function_args_tokens, function_body_tokens,
    prefix_tokens, punctuated_tokens, suffix_tokens, suffixed_tokens, suffixes_tokens, table_tokens,
};
use crate::laws::{kept, lemma_followed_by, lemma_same, lemma_same_token, Piece};
use crate::pieces::{
    expression_piece, function_args_piece, function_body_piece, lemma_conclude, lemma_lead_piece,
    lemma_trail_piece, prefix_piece, suffix_piece, suffixes_piece, table_piece,
};
use crate::sequences::lemma_push_last;
use crate::token::{TokenReferenceView, TokenView};
use crate::trivia::FormatTriviaTypeView;
use crate::view::{
    ExpressionView, FunctionArgsView, FunctionBodyView, PrefixView, SuffixedView, SuffixView,
    TableConstructorView,
};

verus! {

/// The piece of a call or an indexed expression and of what was made of it.
pub open spec fn suffixed_piece(
    before: SuffixedView,
    after: SuffixedView,
    taken: Multiset<TokenView>,
    given: Multiset<TokenView>,
) -> Piece {
    Piece {
        before_all: suffixed_tokens(before, true),
        before_kept: suffixed_tokens(before, false),
        after_all: suffixed_tokens(after, true),
        after_kept: suffixed_tokens(after, false),
        taken,
        given,
    }
}

/// A table with trivia appended in front of its opening brace has its tokens,
/// and its comments and those appended.
#[verifier::spinoff_prover]
pub proof fn lemma_table_lead(config: Config, table: TableConstructorView, list: Seq<TokenView>)
    ensures
        table_piece(
            table,
            TableConstructorView {
                open: lead(table.open, FormatTriviaTypeView::Append(list)),
                ..table
            },
            kept(list),
            Multiset::empty(),
        ).sound(config),
{
    reveal(table_tokens);
    let edit = FormatTriviaTypeView::Append(list);
    lemma_lead_piece(config, table.open, list);
    let part0 = Piece::token(table.open, lead(table.open, edit), kept(list), Multiset::empty());
    lemma_same(config, fields_tokens(table.fields, true), fields_tokens(table.fields, false));
    let part1 = Piece::same(fields_tokens(table.fields, true), fields_tokens(table.fields, false));
    lemma_same_token(config, table.close);
    let part2 = Piece::token(table.close, table.close, Multiset::empty(), Multiset::empty());
    lemma_followed_by(config, part0, part1);
    lemma_followed_by(config, part0.followed_by(part1), part2);
    let whole = part0.followed_by(part1).followed_by(part2);
    assert(whole.taken.add(Multiset::empty()) =~= whole.given.add(kept(list)));
    lemma_conclude(
        config,
        whole,
        table_piece(
            table,
            TableConstructorView { open: lead(table.open, edit), ..table },
            kept(list),
            Multiset::empty(),
        ),
    );
}

/// A table with trivia appended behind its closing brace has its tokens,
/// and its comments and those appended.
#[verifier::spinoff_prover]
pub proof fn lemma_table_trail(config: Config, table: TableConstructorView, list: Seq<TokenView>)
    ensures
        table_piece(
            table,
            TableConstructorView {
                close: trail(table.close, FormatTriviaTypeView::Append(list)),
                ..table
            },
            kept(list),
            Multiset::empty(),
        ).sound(config),
{
    reveal(table_tokens);
    let edit = FormatTriviaTypeView::Append(list);
    lemma_same_token(config, table.open);
    let part0 = Piece::token(table.open, table.open, Multiset::empty(), Multiset::empty());
    lemma_same(config, fields_tokens(table.fields, true), fields_tokens(table.fields, false));
    let part1 = Piece::same(fields_tokens(table.fields, true), fields_tokens(table.fields, false));
    lemma_trail_piece(config, table.close, list);
    let part2 = Piece::token(table.close, trail(table.close, edit), kept(list), Multiset::empty());
    lemma_followed_by(config, part0, part1);
    lemma_followed_by(config, part0.followed_by(part1), part2);
    let whole = part0.followed_by(part1).followed_by(part2);
    assert(whole.taken.add(Multiset::empty()) =~= whole.given.add(kept(list)));
    lemma_conclude(
        config,
        whole,
        table_piece(
            table,
            TableConstructorView { close: trail(table.close, edit), ..table },
            kept(list),
            Multiset::empty(),
        ),
    );
}

/// A function body with trivia appended behind its `end` has its tokens,
/// and its comments and those appended.
#[verifier::spinoff_prover]
pub proof fn lemma_body_trail(config: Config, body: FunctionBodyView, list: Seq<TokenView>)
    ensures
        function_body_piece(
            body,
            FunctionBodyView {
                end_token: trail(body.end_token, FormatTriviaTypeView::Append(list)),
                ..body
            },
            kept(list),
            Multiset::empty(),
        ).sound(config),
{
    reveal(function_body_tokens);
    let edit = FormatTriviaTypeView::Append(list);
    lemma_same_token(config, body.open);
    let part0 = Piece::token(body.open, body.open, Multiset::empty(), Multiset::empty());
    lemma_same(
        config,
        punctuated_tokens(body.parameters, true),
        punctuated_tokens(body.parameters, false),
    );
    let part1 = Piece::same(
        punctuated_tokens(body.parameters, true),
        punctuated_tokens(body.parameters, false),
    );
    lemma_same_token(config, body.close);
    let part2 = Piece::token(body.close, body.close, Multiset::empty(), Multiset::empty());
    lemma_same(config, block_tokens(body.block, true), block_tokens(body.block, false));
    let part3 = Piece::same(block_tokens(body.block, true), block_tokens(body.block, false));
    lemma_trail_piece(config, body.end_token, list);
    let part4 = Piece::token(
        body.end_token,
        trail(body.end_token, edit),
        kept(list),
        Multiset::empty(),
    );
    lemma_followed_by(config, part0, part1);
    let q1 = part0.followed_by(part1);
    lemma_followed_by(config, q1, part2);
    let q2 = q1.followed_by(part2);
    lemma_followed_by(config, q2, part3);
    let q3 = q2.followed_by(part3);
    lemma_followed_by(config, q3, part4);
    let whole = q3.followed_by(part4);
    assert(whole.taken.add(Multiset::empty()) =~= whole.given.add(kept(list)));
    lemma_conclude(
        config,
        whole,
        function_body_piece(
            body,
            FunctionBodyView { end_token: trail(body.end_token, edit), ..body },
            kept(list),
            Multiset::empty(),
        ),
    );
}

/// An expression with trivia appended in front of its first token has its tokens,
/// and its comments and those appended.
#[verifier::spinoff_prover]
pub proof fn lemma_first_updated(config: Config, e: ExpressionView, list: Seq<TokenView>)
    ensures
        expression_piece(
            e,
            first_updated(e, FormatTriviaTypeView::Append(list)),
            kept(list),
            Multiset::empty(),
        ).sound(config),
    decreases e,
{
    reveal(expression_tokens);
    let edit = FormatTriviaTypeView::Append(list);
    match e {
        ExpressionView::Number(t) => {
            lemma_lead_piece(config, t, list);
            let part0 = Piece::token(t, lead(t, edit), kept(list), Multiset::empty());
            let whole = part0;
            assert(whole.taken.add(Multiset::empty()) =~= whole.given.add(kept(list)));
            lemma_conclude(
                config,
                whole,
                expression_piece(e, first_updated(e, edit), kept(list), Multiset::empty()),
            );
        },
        ExpressionView::String(t) => {
            lemma_lead_piece(config, t, list);
            let part0 = Piece::token(t, lead(t, edit), kept(list), Multiset::empty());
            let whole = part0;
            assert(whole.taken.add(Multiset::empty()) =~= whole.given.add(kept(list)));
            lemma_conclude(
                config,
                whole,
                expression_piece(e, first_updated(e, edit), kept(list), Multiset::empty()),
            );
        },
        ExpressionView::Symbol(t) => {
            lemma_lead_piece(config, t, list);
            let part0 = Piece::token(t, lead(t, edit), kept(list), Multiset::empty());
            let whole = part0;
            assert(whole.taken.add(Multiset::empty()) =~= whole.given.add(kept(list)));
            lemma_conclude(
                config,
                whole,
                expression_piece(e, first_updated(e, edit), kept(list), Multiset::empty()),
            );
        },
        ExpressionView::Name(t) => {
            lemma_lead_piece(config, t, list);
            let part0 = Piece::token(t, lead(t, edit), kept(list), Multiset::empty());
            let whole = part0;
            assert(whole.taken.add(Multiset::empty()) =~= whole.given.add(kept(list)));
            lemma_conclude(
                config,
                whole,
                expression_piece(e, first_updated(e, edit), kept(list), Multiset::empty()),
            );
        },
        ExpressionView::Parentheses { open, expression, close } => {
            lemma_lead_piece(config, open, list);
            let part0 = Piece::token(open, lead(open, edit), kept(list), Multiset::empty());
            lemma_same(
                config,
                expression_tokens(*expression, true),
                expression_tokens(*expression, false),
            );
            let part1 = Piece::same(
                expression_tokens(*expression, true),
                expression_tokens(*expression, false),
            );
            lemma_same_token(config, close);
            let part2 = Piece::token(close, close, Multiset::empty(), Multiset::empty());
            lemma_followed_by(config, part0, part1);
            lemma_followed_by(config, part0.followed_by(part1), part2);
            let whole = part0.followed_by(part1).followed_by(part2);
            assert(whole.taken.add(Multiset::empty()) =~= whole.given.add(kept(list)));
            lemma_conclude(
                config,
                whole,
                expression_piece(e, first_updated(e, edit), kept(list), Multiset::empty()),
            );
        },
        ExpressionView::UnaryOperator { operator, expression } => {
            lemma_lead_piece(config, operator, list);
            let part0 = Piece::token(operator, lead(operator, edit), kept(list), Multiset::empty());
            lemma_same(
                config,
                expression_tokens(*expression, true),
                expression_tokens(*expression, false),
            );
            let part1 = Piece::same(
                expression_tokens(*expression, true),
                expression_tokens(*expression, false),
            );
            lemma_followed_by(config, part0, part1);
            let whole = part0.followed_by(part1);
            assert(whole.taken.add(Multiset::empty()) =~= whole.given.add(kept(list)));
            lemma_conclude(
                config,
                whole,
                expression_piece(e, first_updated(e, edit), kept(list), Multiset::empty()),
            );
        },
        ExpressionView::BinaryOperator { lhs, operator, rhs } => {
            lemma_first_updated(config, *lhs, list);
            let part0 = expression_piece(
                *lhs,
                first_updated(*lhs, edit),
                kept(list),
                Multiset::empty(),
            );
            lemma_same_token(config, operator);
            let part1 = Piece::token(operator, operator, Multiset::empty(), Multiset::empty());
            lemma_same(config, expression_tokens(*rhs, true), expression_tokens(*rhs, false));
            let part2 = Piece::same(expression_tokens(*rhs, true), expression_tokens(*rhs, false));
            lemma_followed_by(config, part0, part1);
            lemma_followed_by(config, part0.followed_by(part1), part2);
            let whole = part0.followed_by(part1).followed_by(part2);
            assert(whole.taken.add(Multiset::empty()) =~= whole.given.add(kept(list)));
            lemma_conclude(
                config,
                whole,
                expression_piece(e, first_updated(e, edit), kept(list), Multiset::empty()),
            );
        },
        ExpressionView::Function { function_token, body } => {
            lemma_lead_piece(config, function_token, list);
            let part0 = Piece::token(
                function_token,
                lead(function_token, edit),
                kept(list),
                Multiset::empty(),
            );
            lemma_same(config, function_body_tokens(body, true), function_body_tokens(body, false));
            let part1 = Piece::same(
                function_body_tokens(body, true),
                function_body_tokens(body, false),
            );
            lemma_followed_by(config, part0, part1);
            let whole = part0.followed_by(part1);
            assert(whole.taken.add(Multiset::empty()) =~= whole.given.add(kept(list)));
            lemma_conclude(
                config,
                whole,
                expression_piece(e, first_updated(e, edit), kept(list), Multiset::empty()),
            );
        },
        ExpressionView::FunctionCall(call) => {
            lemma_prefix_first_updated(config, call.prefix, list);
            let part0 = prefix_piece(
                call.prefix,
                prefix_first_updated(call.prefix, edit),
                kept(list),
                Multiset::empty(),
            );
            lemma_same(
                config,
                suffixes_tokens(call.suffixes, true),
                suffixes_tokens(call.suffixes, false),
            );
            let part1 = Piece::same(
                suffixes_tokens(call.suffixes, true),
                suffixes_tokens(call.suffixes, false),
            );
            lemma_followed_by(config, part0, part1);
            let whole = part0.followed_by(part1);
            assert(whole.taken.add(Multiset::empty()) =~= whole.given.add(kept(list)));
            lemma_conclude(
                config,
                whole,
                expression_piece(e, first_updated(e, edit), kept(list), Multiset::empty()),
            );
        },
        ExpressionView::Var(var) => {
            lemma_prefix_first_updated(config, var.prefix, list);
            let part0 = prefix_piece(
                var.prefix,
                prefix_first_updated(var.prefix, edit),
                kept(list),
                Multiset::empty(),
            );
            lemma_same(
                config,
                suffixes_tokens(var.suffixes, true),
                suffixes_tokens(var.suffixes, false),
            );
            let part1 = Piece::same(
                suffixes_tokens(var.suffixes, true),
                suffixes_tokens(var.suffixes, false),
            );
            lemma_followed_by(config, part0, part1);
            let whole = part0.followed_by(part1);
            assert(whole.taken.add(Multiset::empty()) =~= whole.given.add(kept(list)));
            lemma_conclude(
                config,
                whole,
                expression_piece(e, first_updated(e, edit), kept(list), Multiset::empty()),
            );
        },
        ExpressionView::TableConstructor(table) => {
            lemma_table_lead(config, table, list);
            let part0 = table_piece(
                table,
                TableConstructorView { open: lead(table.open, edit), ..table },
                kept(list),
                Multiset::empty(),
            );
            let whole = part0;
            assert(whole.taken.add(Multiset::empty()) =~= whole.given.add(kept(list)));
            lemma_conclude(
                config,
                whole,
                expression_piece(e, first_updated(e, edit), kept(list), Multiset::empty()),
            );
        },
    }
}

/// A prefix with trivia appended in front of its first token has its tokens,
/// and its comments and those appended.
#[verifier::spinoff_prover]
pub proof fn lemma_prefix_first_updated(config: Config, prefix: PrefixView, list: Seq<TokenView>)
    ensures
        prefix_piece(
            prefix,
            prefix_first_updated(prefix, FormatTriviaTypeView::Append(list)),
            kept(list),
            Multiset::empty(),
        ).sound(config),
    decreases prefix,
{
    reveal(prefix_tokens);
    let edit = FormatTriviaTypeView::Append(list);
    match prefix {
        PrefixView::Name(t) => {
            lemma_lead_piece(config, t, list);
            let part0 = Piece::token(t, lead(t, edit), kept(list), Multiset::empty());
            let whole = part0;
            assert(whole.taken.add(Multiset::empty()) =~= whole.given.add(kept(list)));
            lemma_conclude(
                config,
                whole,
                prefix_piece(
                    prefix,
                    prefix_first_updated(prefix, edit),
                    kept(list),
                    Multiset::empty(),
                ),
            );
        },
        PrefixView::Expression(e) => {
            lemma_first_updated(config, *e, list);
            let part0 = expression_piece(
                *e,
                first_updated(*e, edit),
                kept(list),
                Multiset::empty(),
            );
            let whole = part0;
            assert(whole.taken.add(Multiset::empty()) =~= whole.given.add(kept(list)));
            lemma_conclude(
                config,
                whole,
                prefix_piece(
                    prefix,
                    prefix_first_updated(prefix, edit),
                    kept(list),
                    Multiset::empty(),
                ),
            );
        },
    }
}

/// Arguments with trivia appended behind their last token have their tokens,
/// and their comments and those appended.
#[verifier::spinoff_prover]
pub proof fn lemma_args_last_updated(config: Config, args: FunctionArgsView, list: Seq<TokenView>)
    ensures
        function_args_piece(
            args,
            args_last_updated(args, FormatTriviaTypeView::Append(list)),
            kept(list),
            Multiset::empty(),
        ).sound(config),
{
    reveal(function_args_tokens);
    let edit = FormatTriviaTypeView::Append(list);
    match args {
        FunctionArgsView::Parentheses { open, arguments, close } => {
            lemma_same_token(config, open);
            let part0 = Piece::token(open, open, Multiset::empty(), Multiset::empty());
            lemma_same(
                config,
                punctuated_tokens(arguments, true),
                punctuated_tokens(arguments, false),
            );
            let part1 = Piece::same(
                punctuated_tokens(arguments, true),
                punctuated_tokens(arguments, false),
            );
            lemma_trail_piece(config, close, list);
            let part2 = Piece::token(close, trail(close, edit), kept(list), Multiset::empty());
            lemma_followed_by(config, part0, part1);
            lemma_followed_by(config, part0.followed_by(part1), part2);
            let whole = part0.followed_by(part1).followed_by(part2);
            assert(whole.taken.add(Multiset::empty()) =~= whole.given.add(kept(list)));
            lemma_conclude(
                config,
                whole,
                function_args_piece(
                    args,
                    args_last_updated(args, edit),
                    kept(list),
                    Multiset::empty(),
                ),
            );
        },
        FunctionArgsView::String(t) => {
            lemma_trail_piece(config, t, list);
            let part0 = Piece::token(t, trail(t, edit), kept(list), Multiset::empty());
            let whole = part0;
            assert(whole.taken.add(Multiset::empty()) =~= whole.given.add(kept(list)));
            lemma_conclude(
                config,
                whole,
                function_args_piece(
                    args,
                    args_last_updated(args, edit),
                    kept(list),
                    Multiset::empty(),
                ),
            );
        },
        FunctionArgsView::TableConstructor(table) => {
            lemma_table_trail(config, table, list);
            let part0 = table_piece(
                table,
                TableConstructorView { close: trail(table.close, edit), ..table },
                kept(list),
                Multiset::empty(),
            );
            let whole = part0;
            assert(whole.taken.add(Multiset::empty()) =~= whole.given.add(kept(list)));
            lemma_conclude(
                config,
                whole,
                function_args_piece(
                    args,
                    args_last_updated(args, edit),
                    kept(list),
                    Multiset::empty(),
                ),
            );
        },
    }
}

/// A suffix with trivia appended behind its last token has its tokens,
/// and its comments and those appended.
#[verifier::spinoff_prover]
pub proof fn lemma_suffix_last_updated(config: Config, suffix: SuffixView, list: Seq<TokenView>)
    ensures
        suffix_piece(
            suffix,
            suffix_last_updated(suffix, FormatTriviaTypeView::Append(list)),
            kept(list),
            Multiset::empty(),
        ).sound(config),
{
    reveal(suffix_tokens);
    let edit = FormatTriviaTypeView::Append(list);
    match suffix {
        SuffixView::Dot { dot, name } => {
            lemma_same_token(config, dot);
            let part0 = Piece::token(dot, dot, Multiset::empty(), Multiset::empty());
            lemma_trail_piece(config, name, list);
            let part1 = Piece::token(name, trail(name, edit), kept(list), Multiset::empty());
            lemma_followed_by(config, part0, part1);
            let whole = part0.followed_by(part1);
            assert(whole.taken.add(Multiset::empty()) =~= whole.given.add(kept(list)));
            lemma_conclude(
                config,
                whole,
                suffix_piece(
                    suffix,
                    suffix_last_updated(suffix, edit),
                    kept(list),
                    Multiset::empty(),
                ),
            );
        },
        SuffixView::Brackets { open, expression, close } => {
            lemma_same_token(config, open);
            let part0 = Piece::token(open, open, Multiset::empty(), Multiset::empty());
            lemma_same(
                config,
                expression_tokens(expression, true),
                expression_tokens(expression, false),
            );
            let part1 = Piece::same(
                expression_tokens(expression, true),
                expression_tokens(expression, false),
            );
            lemma_trail_piece(config, close, list);
            let part2 = Piece::token(close, trail(close, edit), kept(list), Multiset::empty());
            lemma_followed_by(config, part0, part1);
            lemma_followed_by(config, part0.followed_by(part1), part2);
            let whole = part0.followed_by(part1).followed_by(part2);
            assert(whole.taken.add(Multiset::empty()) =~= whole.given.add(kept(list)));
            lemma_conclude(
                config,
                whole,
                suffix_piece(
                    suffix,
                    suffix_last_updated(suffix, edit),
                    kept(list),
                    Multiset::empty(),
                ),
            );
        },
        SuffixView::Call(args) => {
            lemma_args_last_updated(config, args, list);
            let part0 = function_args_piece(
                args,
                args_last_updated(args, edit),
                kept(list),
                Multiset::empty(),
            );
            let whole = part0;
            assert(whole.taken.add(Multiset::empty()) =~= whole.given.add(kept(list)));
            lemma_conclude(
                config,
                whole,
                suffix_piece(
                    suffix,
                    suffix_last_updated(suffix, edit),
                    kept(list),
                    Multiset::empty(),
                ),
            );
        },
        SuffixView::MethodCall { colon, name, args } => {
            lemma_same_token(config, colon);
            let part0 = Piece::token(colon, colon, Multiset::empty(), Multiset::empty());
            lemma_same_token(config, name);
            let part1 = Piece::token(name, name, Multiset::empty(), Multiset::empty());
            lemma_args_last_updated(config, args, list);
            let part2 = function_args_piece(
                args,
                args_last_updated(args, edit),
                kept(list),
                Multiset::empty(),
            );
            lemma_followed_by(config, part0, part1);
            lemma_followed_by(config, part0.followed_by(part1), part2);
            let whole = part0.followed_by(part1).followed_by(part2);
            assert(whole.taken.add(Multiset::empty()) =~= whole.given.add(kept(list)));
            lemma_conclude(
                config,
                whole,
                suffix_piece(
                    suffix,
                    suffix_last_updated(suffix, edit),
                    kept(list),
                    Multiset::empty(),
                ),
            );
        },
    }
}

/// An expression with trivia appended behind its last token has its tokens,
/// and its comments and those appended.
#[verifier::spinoff_prover]
pub proof fn lemma_last_updated(config: Config, e: ExpressionView, list: Seq<TokenView>)
    ensures
        expression_piece(
            e,
            last_updated(e, FormatTriviaTypeView::Append(list)),
            kept(list),
            Multiset::empty(),
        ).sound(config),
    decreases e, 1nat,
{
    reveal(expression_tokens);
    let edit = FormatTriviaTypeView::Append(list);
    match e {
        ExpressionView::Number(t) => {
            lemma_trail_piece(config, t, list);
            let part0 = Piece::token(t, trail(t, edit), kept(list), Multiset::empty());
            let whole = part0;
            assert(whole.taken.add(Multiset::empty()) =~= whole.given.add(kept(list)));
            lemma_conclude(
                config,
                whole,
                expression_piece(e, last_updated(e, edit), kept(list), Multiset::empty()),
            );
        },
        ExpressionView::String(t) => {
            lemma_trail_piece(config, t, list);
            let part0 = Piece::token(t, trail(t, edit), kept(list), Multiset::empty());
            let whole = part0;
            assert(whole.taken.add(Multiset::empty()) =~= whole.given.add(kept(list)));
            lemma_conclude(
                config,
                whole,
                expression_piece(e, last_updated(e, edit), kept(list), Multiset::empty()),
            );
        },
        ExpressionView::Symbol(t) => {
            lemma_trail_piece(config, t, list);
            let part0 = Piece::token(t, trail(t, edit), kept(list), Multiset::empty());
            let whole = part0;
            assert(whole.taken.add(Multiset::empty()) =~= whole.given.add(kept(list)));
            lemma_conclude(
                config,
                whole,
                expression_piece(e, last_updated(e, edit), kept(list), Multiset::empty()),
            );
        },
        ExpressionView::Name(t) => {
            lemma_trail_piece(config, t, list);
            let part0 = Piece::token(t, trail(t, edit), kept(list), Multiset::empty());
            let whole = part0;
            assert(whole.taken.add(Multiset::empty()) =~= whole.given.add(kept(list)));
            lemma_conclude(
                config,
                whole,
                expression_piece(e, last_updated(e, edit), kept(list), Multiset::empty()),
            );
        },
        ExpressionView::Parentheses { open, expression, close } => {
            lemma_same_token(config, open);
            let part0 = Piece::token(open, open, Multiset::empty(), Multiset::empty());
            lemma_same(
                config,
                expression_tokens(*expression, true),
                expression_tokens(*expression, false),
            );
            let part1 = Piece::same(
                expression_tokens(*expression, true),
                expression_tokens(*expression, false),
            );
            lemma_trail_piece(config, close, list);
            let part2 = Piece::token(close, trail(close, edit), kept(list), Multiset::empty());
            lemma_followed_by(config, part0, part1);
            lemma_followed_by(config, part0.followed_by(part1), part2);
            let whole = part0.followed_by(part1).followed_by(part2);
            assert(whole.taken.add(Multiset::empty()) =~= whole.given.add(kept(list)));
            lemma_conclude(
                config,
                whole,
                expression_piece(e, last_updated(e, edit), kept(list), Multiset::empty()),
            );
        },
        ExpressionView::UnaryOperator { operator, expression } => {
            lemma_same_token(config, operator);
            let part0 = Piece::token(operator, operator, Multiset::empty(), Multiset::empty());
            lemma_last_updated(config, *expression, list);
            let part1 = expression_piece(
                *expression,
                last_updated(*expression, edit),
                kept(list),
                Multiset::empty(),
            );
            lemma_followed_by(config, part0, part1);
            let whole = part0.followed_by(part1);
            assert(whole.taken.add(Multiset::empty()) =~= whole.given.add(kept(list)));
            lemma_conclude(
                config,
                whole,
                expression_piece(e, last_updated(e, edit), kept(list), Multiset::empty()),
            );
        },
        ExpressionView::BinaryOperator { lhs, operator, rhs } => {
            lemma_same(config, expression_tokens(*lhs, true), expression_tokens(*lhs, false));
            let part0 = Piece::same(expression_tokens(*lhs, true), expression_tokens(*lhs, false));
            lemma_same_token(config, operator);
            let part1 = Piece::token(operator, operator, Multiset::empty(), Multiset::empty());
            lemma_last_updated(config, *rhs, list);
            let part2 = expression_piece(
                *rhs,
                last_updated(*rhs, edit),
                kept(list),
                Multiset::empty(),
            );
            lemma_followed_by(config, part0, part1);
            lemma_followed_by(config, part0.followed_by(part1), part2);
            let whole = part0.followed_by(part1).followed_by(part2);
            assert(whole.taken.add(Multiset::empty()) =~= whole.given.add(kept(list)));
            lemma_conclude(
                config,
                whole,
                expression_piece(e, last_updated(e, edit), kept(list), Multiset::empty()),
            );
        },
        ExpressionView::Function { function_token, body } => {
            lemma_same_token(config, function_token);
            let part0 = Piece::token(
                function_token,
                function_token,
                Multiset::empty(),
                Multiset::empty(),
            );
            lemma_body_trail(config, body, list);
            let part1 = function_body_piece(
                body,
                FunctionBodyView { end_token: trail(body.end_token, edit), ..body },
                kept(list),
                Multiset::empty(),
            );
            lemma_followed_by(config, part0, part1);
            let whole = part0.followed_by(part1);
            assert(whole.taken.add(Multiset::empty()) =~= whole.given.add(kept(list)));
            lemma_conclude(
                config,
                whole,
                expression_piece(e, last_updated(e, edit), kept(list), Multiset::empty()),
            );
        },
        ExpressionView::FunctionCall(call) => {
            lemma_suffixed_last_updated(config, call, list);
            reveal(expression_tokens);
        },
        ExpressionView::Var(var) => {
            lemma_suffixed_last_updated(config, var, list);
            reveal(expression_tokens);
        },
        ExpressionView::TableConstructor(table) => {
            lemma_table_trail(config, table, list);
            let part0 = table_piece(
                table,
                TableConstructorView { close: trail(table.close, edit), ..table },
                kept(list),
                Multiset::empty(),
            );
            let whole = part0;
            assert(whole.taken.add(Multiset::empty()) =~= whole.given.add(kept(list)));
            lemma_conclude(
                config,
                whole,
                expression_piece(e, last_updated(e, edit), kept(list), Multiset::empty()),
            );
        },
    }
}

/// A prefix with trivia appended behind its last token has its tokens,
/// and its comments and those appended.
#[verifier::spinoff_prover]
pub proof fn lemma_prefix_last_updated(config: Config, prefix: PrefixView, list: Seq<TokenView>)
    ensures
        prefix_piece(
            prefix,
            prefix_last_updated(prefix, FormatTriviaTypeView::Append(list)),
            kept(list),
            Multiset::empty(),
        ).sound(config),
    decreases prefix,
{
    reveal(prefix_tokens);
    let edit = FormatTriviaTypeView::Append(list);
    match prefix {
        PrefixView::Name(t) => {
            lemma_trail_piece(config, t, list);
            let part0 = Piece::token(t, trail(t, edit), kept(list), Multiset::empty());
            let whole = part0;
            assert(whole.taken.add(Multiset::empty()) =~= whole.given.add(kept(list)));
            lemma_conclude(
                config,
                whole,
                prefix_piece(
                    prefix,
                    prefix_last_updated(prefix, edit),
                    kept(list),
                    Multiset::empty(),
                ),
            );
        },
        PrefixView::Expression(e) => {
            lemma_last_updated(config, *e, list);
            let part0 = expression_piece(*e, last_updated(*e, edit), kept(list), Multiset::empty());
            let whole = part0;
            assert(whole.taken.add(Multiset::empty()) =~= whole.given.add(kept(list)));
            lemma_conclude(
                config,
                whole,
                prefix_piece(
                    prefix,
                    prefix_last_updated(prefix, edit),
                    kept(list),
                    Multiset::empty(),
                ),
            );
        },
    }
}


/// A run of suffixes with trivia appended behind its last token has its
/// tokens, and its comments and those appended.
#[verifier::spinoff_prover]
pub proof fn lemma_suffixes_last_updated(
    config: Config,
    suffixes: Seq<SuffixView>,
    list: Seq<TokenView>,
)
    requires
        suffixes.len() > 0,
    ensures
        suffixes_piece(
            suffixes,
            suffixes.drop_last().push(
                suffix_last_updated(suffixes.last(), FormatTriviaTypeView::Append(list)),
            ),
            kept(list),
            Multiset::empty(),
        ).sound(config),
{
    reveal(suffixes_tokens);
    let edit = FormatTriviaTypeView::Append(list);
    let updated = suffix_last_updated(suffixes.last(), edit);
    let after = suffixes.drop_last().push(updated);
    lemma_push_last(suffixes.drop_last(), updated);
    lemma_same(
        config,
        suffixes_tokens(suffixes.drop_last(), true),
        suffixes_tokens(suffixes.drop_last(), false),
    );
    let part0 = Piece::same(
        suffixes_tokens(suffixes.drop_last(), true),
        suffixes_tokens(suffixes.drop_last(), false),
    );
    lemma_suffix_last_updated(config, suffixes.last(), list);
    let part1 = suffix_piece(suffixes.last(), updated, kept(list), Multiset::empty());
    lemma_followed_by(config, part0, part1);
    let whole = part0.followed_by(part1);
    assert(whole.taken.add(Multiset::empty()) =~= whole.given.add(kept(list)));
    lemma_conclude(config, whole, suffixes_piece(suffixes, after, kept(list), Multiset::empty()));
}

/// A call or an indexed expression with trivia appended behind its last
/// token has its tokens, and its comments and those appended.
#[verifier::spinoff_prover]
pub proof fn lemma_suffixed_last_updated(config: Config, node: SuffixedView, list: Seq<TokenView>)
    ensures
        suffixed_piece(
            node,
            suffixed_last_updated(node, FormatTriviaTypeView::Append(list)),
            kept(list),
            Multiset::empty(),
        ).sound(config),
    decreases node, 0nat,
{
    let edit = FormatTriviaTypeView::Append(list);
    let target = suffixed_piece(
        node,
        suffixed_last_updated(node, edit),
        kept(list),
        Multiset::empty(),
    );
    if node.suffixes.len() == 0 {
        lemma_prefix_last_updated(config, node.prefix, list);
        let part0 = prefix_piece(
            node.prefix,
            prefix_last_updated(node.prefix, edit),
            kept(list),
            Multiset::empty(),
        );
        lemma_same(
            config,
            suffixes_tokens(node.suffixes, true),
            suffixes_tokens(node.suffixes, false),
        );
        let part1 = Piece::same(
            suffixes_tokens(node.suffixes, true),
            suffixes_tokens(node.suffixes, false),
        );
        lemma_followed_by(config, part0, part1);
        let whole = part0.followed_by(part1);
        assert(whole.taken.add(Multiset::empty()) =~= whole.given.add(kept(list)));
        lemma_conclude(config, whole, target);
    } else {
        lemma_same(config, prefix_tokens(node.prefix, true), prefix_tokens(node.prefix, false));
        let part0 = Piece::same(
            prefix_tokens(node.prefix, true),
            prefix_tokens(node.prefix, false),
        );
        lemma_suffixes_last_updated(config, node.suffixes, list);
        let part1 = suffixes_piece(
            node.suffixes,
            node.suffixes.drop_last().push(suffix_last_updated(node.suffixes.last(), edit)),
            kept(list),
            Multiset::empty(),
        );
        lemma_followed_by(config, part0, part1);
        let whole = part0.followed_by(part1);
        assert(whole.taken.add(Multiset::empty()) =~= whole.given.add(kept(list)));
        lemma_conclude(config, whole, target);
    }
}

/// A call or an indexed expression with trivia appended in front of its
/// first token has its tokens, and its comments and those appended.
#[verifier::spinoff_prover]
pub proof fn lemma_suffixed_first_updated(config: Config, node: SuffixedView, list: Seq<TokenView>)
    ensures
        suffixed_piece(
            node,
            suffixed_first_updated(node, FormatTriviaTypeView::Append(list)),
            kept(list),
            Multiset::empty(),
        ).sound(config),
{
    let edit = FormatTriviaTypeView::Append(list);
    lemma_prefix_first_updated(config, node.prefix, list);
    let part0 = prefix_piece(
        node.prefix,
        prefix_first_updated(node.prefix, edit),
        kept(list),
        Multiset::empty(),
    );
    lemma_same(config, suffixes_tokens(node.suffixes, true), suffixes_tokens(node.suffixes, false));
    let part1 = Piece::same(
        suffixes_tokens(node.suffixes, true),
        suffixes_tokens(node.suffixes, false),
    );
    lemma_followed_by(config, part0, part1);
    let whole = part0.followed_by(part1);
    assert(whole.taken.add(Multiset::empty()) =~= whole.given.add(kept(list)));
    lemma_conclude(
        config,
        whole,
        suffixed_piece(node, suffixed_first_updated(node, edit), kept(list), Multiset::empty()),
    );
}

/// A table without the trivia behind its closing brace has its tokens; the
/// comments that stood behind the brace are given away.
#[verifier::spinoff_prover]
pub proof fn lemma_table_cleared(config: Config, table: TableConstructorView)
    ensures
        table_piece(
            table,
            TableConstructorView { close: trail(table.close, cleared()), ..table },
            Multiset::empty(),
            kept(table.close.trailing),
        ).sound(config),
{
    reveal(table_tokens);
    let edit = cleared();
    lemma_same_token(config, table.open);
    let part0 = Piece::token(table.open, table.open, Multiset::empty(), Multiset::empty());
    lemma_same(config, fields_tokens(table.fields, true), fields_tokens(table.fields, false));
    let part1 = Piece::same(fields_tokens(table.fields, true), fields_tokens(table.fields, false));
    lemma_take_piece(config, table.close);
    let part2 = Piece::token(
        table.close,
        trail(table.close, edit),
        Multiset::empty(),
        kept(table.close.trailing),
    );
    lemma_followed_by(config, part0, part1);
    lemma_followed_by(config, part0.followed_by(part1), part2);
    let whole = part0.followed_by(part1).followed_by(part2);
    assert(whole.taken.add(kept(table.close.trailing)) =~= whole.given.add(Multiset::empty()));
    lemma_conclude(
        config,
        whole,
        table_piece(
            table,
            TableConstructorView { close: trail(table.close, edit), ..table },
            Multiset::empty(),
            kept(table.close.trailing),
        ),
    );
}

/// A function body without the trivia behind its `end` has its tokens; the
/// comments that stood behind `end` are given away.
#[verifier::spinoff_prover]
pub proof fn lemma_body_cleared(config: Config, body: FunctionBodyView)
    ensures
        function_body_piece(
            body,
            FunctionBodyView { end_token: trail(body.end_token, cleared()), ..body },
            Multiset::empty(),
            kept(body.end_token.trailing),
        ).sound(config),
{
    reveal(function_body_tokens);
    let edit = cleared();
    lemma_same_token(config, body.open);
    let part0 = Piece::token(body.open, body.open, Multiset::empty(), Multiset::empty());
    lemma_same(
        config,
        punctuated_tokens(body.parameters, true),
        punctuated_tokens(body.parameters, false),
    );
    let part1 = Piece::same(
        punctuated_tokens(body.parameters, true),
        punctuated_tokens(body.parameters, false),
    );
    lemma_same_token(config, body.close);
    let part2 = Piece::token(body.close, body.close, Multiset::empty(), Multiset::empty());
    lemma_same(config, block_tokens(body.block, true), block_tokens(body.block, false));
    let part3 = Piece::same(block_tokens(body.block, true), block_tokens(body.block, false));
    lemma_take_piece(config, body.end_token);
    let part4 = Piece::token(
        body.end_token,
        trail(body.end_token, edit),
        Multiset::empty(),
        kept(body.end_token.trailing),
    );
    lemma_followed_by(config, part0, part1);
    let q1 = part0.followed_by(part1);
    lemma_followed_by(config, q1, part2);
    let q2 = q1.followed_by(part2);
    lemma_followed_by(config, q2, part3);
    let q3 = q2.followed_by(part3);
    lemma_followed_by(config, q3, part4);
    let whole = q3.followed_by(part4);
    assert(whole.taken.add(kept(body.end_token.trailing)) =~= whole.given.add(Multiset::empty()));
    lemma_conclude(
        config,
        whole,
        function_body_piece(
            body,
            FunctionBodyView { end_token: trail(body.end_token, edit), ..body },
            Multiset::empty(),
            kept(body.end_token.trailing),
        ),
    );
}

/// Arguments without the trivia behind their last token have their tokens;
/// the comments that stood behind the token are given away.
#[verifier::spinoff_prover]
pub proof fn lemma_args_last_cleared(config: Config, args: FunctionArgsView)
    ensures
        function_args_piece(
            args,
            args_last_updated(args, cleared()),
            Multiset::empty(),
            kept(args_last_trailing(args)),
        ).sound(config),
{
    reveal(function_args_tokens);
    let edit = cleared();
    match args {
        FunctionArgsView::Parentheses { open, arguments, close } => {
            lemma_same_token(config, open);
            let part0 = Piece::token(open, open, Multiset::empty(), Multiset::empty());
            lemma_same(
                config,
                punctuated_tokens(arguments, true),
                punctuated_tokens(arguments, false),
            );
            let part1 = Piece::same(
                punctuated_tokens(arguments, true),
                punctuated_tokens(arguments, false),
            );
            lemma_take_piece(config, close);
            let part2 = Piece::token(
                close,
                trail(close, edit),
                Multiset::empty(),
                kept(close.trailing),
            );
            lemma_followed_by(config, part0, part1);
            lemma_followed_by(config, part0.followed_by(part1), part2);
            let whole = part0.followed_by(part1).followed_by(part2);
            assert(
                whole.taken.add(kept(args_last_trailing(args)))
                    =~= whole.given.add(Multiset::empty())
            );
            lemma_conclude(
                config,
                whole,
                function_args_piece(
                    args,
                    args_last_updated(args, edit),
                    Multiset::empty(),
                    kept(args_last_trailing(args)),
                ),
            );
        },
        FunctionArgsView::String(t) => {
            lemma_take_piece(config, t);
            let part0 = Piece::token(t, trail(t, edit), Multiset::empty(), kept(t.trailing));
            let whole = part0;
            assert(
                whole.taken.add(kept(args_last_trailing(args)))
                    =~= whole.given.add(Multiset::empty())
            );
            lemma_conclude(
                config,
                whole,
                function_args_piece(
                    args,
                    args_last_updated(args, edit),
                    Multiset::empty(),
                    kept(args_last_trailing(args)),
                ),
            );
        },
        FunctionArgsView::TableConstructor(table) => {
            lemma_table_cleared(config, table);
            let part0 = table_piece(
                table,
                TableConstructorView { close: trail(table.close, edit), ..table },
                Multiset::empty(),
                kept(table.close.trailing),
            );
            let whole = part0;
            assert(
                whole.taken.add(kept(args_last_trailing(args)))
                    =~= whole.given.add(Multiset::empty())
            );
            lemma_conclude(
                config,
                whole,
                function_args_piece(
                    args,
                    args_last_updated(args, edit),
                    Multiset::empty(),
                    kept(args_last_trailing(args)),
                ),
            );
        },
    }
}

/// A suffix without the trivia behind its last token has its tokens; the
/// comments that stood behind the token are given away.
#[verifier::spinoff_prover]
pub proof fn lemma_suffix_last_cleared(config: Config, suffix: SuffixView)
    ensures
        suffix_piece(
            suffix,
            suffix_last_updated(suffix, cleared()),
            Multiset::empty(),
            kept(suffix_last_trailing(suffix)),
        ).sound(config),
{
    reveal(suffix_tokens);
    let edit = cleared();
    match suffix {
        SuffixView::Dot { dot, name } => {
            lemma_same_token(config, dot);
            let part0 = Piece::token(dot, dot, Multiset::empty(), Multiset::empty());
            lemma_take_piece(config, name);
            let part1 = Piece::token(
                name,
                trail(name, edit),
                Multiset::empty(),
                kept(name.trailing),
            );
            lemma_followed_by(config, part0, part1);
            let whole = part0.followed_by(part1);
            assert(
                whole.taken.add(kept(suffix_last_trailing(suffix)))
                    =~= whole.given.add(Multiset::empty())
            );
            lemma_conclude(
                config,
                whole,
                suffix_piece(
                    suffix,
                    suffix_last_updated(suffix, edit),
                    Multiset::empty(),
                    kept(suffix_last_trailing(suffix)),
                ),
            );
        },
        SuffixView::Brackets { open, expression, close } => {
            lemma_same_token(config, open);
            let part0 = Piece::token(open, open, Multiset::empty(), Multiset::empty());
            lemma_same(
                config,
                expression_tokens(expression, true),
                expression_tokens(expression, false),
            );
            let part1 = Piece::same(
                expression_tokens(expression, true),
                expression_tokens(expression, false),
            );
            lemma_take_piece(config, close);
            let part2 = Piece::token(
                close,
                trail(close, edit),
                Multiset::empty(),
                kept(close.trailing),
            );
            lemma_followed_by(config, part0, part1);
            lemma_followed_by(config, part0.followed_by(part1), part2);
            let whole = part0.followed_by(part1).followed_by(part2);
            assert(
                whole.taken.add(kept(suffix_last_trailing(suffix)))
                    =~= whole.given.add(Multiset::empty())
            );
            lemma_conclude(
                config,
                whole,
                suffix_piece(
                    suffix,
                    suffix_last_updated(suffix, edit),
                    Multiset::empty(),
                    kept(suffix_last_trailing(suffix)),
                ),
            );
        },
        SuffixView::Call(args) => {
            lemma_args_last_cleared(config, args);
            let part0 = function_args_piece(
                args,
                args_last_updated(args, edit),
                Multiset::empty(),
                kept(args_last_trailing(args)),
            );
            let whole = part0;
            assert(
                whole.taken.add(kept(suffix_last_trailing(suffix)))
                    =~= whole.given.add(Multiset::empty())
            );
            lemma_conclude(
                config,
                whole,
                suffix_piece(
                    suffix,
                    suffix_last_updated(suffix, edit),
                    Multiset::empty(),
                    kept(suffix_last_trailing(suffix)),
                ),
            );
        },
        SuffixView::MethodCall { colon, name, args } => {
            lemma_same_token(config, colon);
            let part0 = Piece::token(colon, colon, Multiset::empty(), Multiset::empty());
            lemma_same_token(config, name);
            let part1 = Piece::token(name, name, Multiset::empty(), Multiset::empty());
            lemma_args_last_cleared(config, args);
            let part2 = function_args_piece(
                args,
                args_last_updated(args, edit),
                Multiset::empty(),
                kept(args_last_trailing(args)),
            );
            lemma_followed_by(config, part0, part1);
            lemma_followed_by(config, part0.followed_by(part1), part2);
            let whole = part0.followed_by(part1).followed_by(part2);
            assert(
                whole.taken.add(kept(suffix_last_trailing(suffix)))
                    =~= whole.given.add(Multiset::empty())
            );
            lemma_conclude(
                config,
                whole,
                suffix_piece(
                    suffix,
                    suffix_last_updated(suffix, edit),
                    Multiset::empty(),
                    kept(suffix_last_trailing(suffix)),
                ),
            );
        },
    }
}

/// An expression without the trivia behind its last token has its tokens;
/// the comments that stood behind the token are given away.
#[verifier::spinoff_prover]
pub proof fn lemma_last_cleared(config: Config, e: ExpressionView)
    ensures
        expression_piece(
            e,
            last_updated(e, cleared()),
            Multiset::empty(),
            kept(last_trailing(e)),
        ).sound(config),
    decreases e, 1nat,
{
    reveal(expression_tokens);
    let edit = cleared();
    match e {
        ExpressionView::Number(t) => {
            lemma_take_piece(config, t);
            let part0 = Piece::token(t, trail(t, edit), Multiset::empty(), kept(t.trailing));
            let whole = part0;
            assert(whole.taken.add(kept(last_trailing(e))) =~= whole.given.add(Multiset::empty()));
            lemma_conclude(
                config,
                whole,
                expression_piece(
                    e,
                    last_updated(e, edit),
                    Multiset::empty(),
                    kept(last_trailing(e)),
                ),
            );
        },
        ExpressionView::String(t) => {
            lemma_take_piece(config, t);
            let part0 = Piece::token(t, trail(t, edit), Multiset::empty(), kept(t.trailing));
            let whole = part0;
            assert(whole.taken.add(kept(last_trailing(e))) =~= whole.given.add(Multiset::empty()));
            lemma_conclude(
                config,
                whole,
                expression_piece(
                    e,
                    last_updated(e, edit),
                    Multiset::empty(),
                    kept(last_trailing(e)),
                ),
            );
        },
        ExpressionView::Symbol(t) => {
            lemma_take_piece(config, t);
            let part0 = Piece::token(t, trail(t, edit), Multiset::empty(), kept(t.trailing));
            let whole = part0;
            assert(whole.taken.add(kept(last_trailing(e))) =~= whole.given.add(Multiset::empty()));
            lemma_conclude(
                config,
                whole,
                expression_piece(
                    e,
                    last_updated(e, edit),
                    Multiset::empty(),
                    kept(last_trailing(e)),
                ),
            );
        },
        ExpressionView::Name(t) => {
            lemma_take_piece(config, t);
            let part0 = Piece::token(t, trail(t, edit), Multiset::empty(), kept(t.trailing));
            let whole = part0;
            assert(whole.taken.add(kept(last_trailing(e))) =~= whole.given.add(Multiset::empty()));
            lemma_conclude(
                config,
                whole,
                expression_piece(
                    e,
                    last_updated(e, edit),
                    Multiset::empty(),
                    kept(last_trailing(e)),
                ),
            );
        },
        ExpressionView::Parentheses { open, expression, close } => {
            lemma_same_token(config, open);
            let part0 = Piece::token(open, open, Multiset::empty(), Multiset::empty());
            lemma_same(
                config,
                expression_tokens(*expression, true),
                expression_tokens(*expression, false),
            );
            let part1 = Piece::same(
                expression_tokens(*expression, true),
                expression_tokens(*expression, false),
            );
            lemma_take_piece(config, close);
            let part2 = Piece::token(
                close,
                trail(close, edit),
                Multiset::empty(),
                kept(close.trailing),
            );
            lemma_followed_by(config, part0, part1);
            lemma_followed_by(config, part0.followed_by(part1), part2);
            let whole = part0.followed_by(part1).followed_by(part2);
            assert(whole.taken.add(kept(last_trailing(e))) =~= whole.given.add(Multiset::empty()));
            lemma_conclude(
                config,
                whole,
                expression_piece(
                    e,
                    last_updated(e, edit),
                    Multiset::empty(),
                    kept(last_trailing(e)),
                ),
            );
        },
        ExpressionView::UnaryOperator { operator, expression } => {
            lemma_same_token(config, operator);
            let part0 = Piece::token(operator, operator, Multiset::empty(), Multiset::empty());
            lemma_last_cleared(config, *expression);
            let part1 = expression_piece(
                *expression,
                last_updated(*expression, edit),
                Multiset::empty(),
                kept(last_trailing(*expression)),
            );
            lemma_followed_by(config, part0, part1);
            let whole = part0.followed_by(part1);
            assert(whole.taken.add(kept(last_trailing(e))) =~= whole.given.add(Multiset::empty()));
            lemma_conclude(
                config,
                whole,
                expression_piece(
                    e,
                    last_updated(e, edit),
                    Multiset::empty(),
                    kept(last_trailing(e)),
                ),
            );
        },
        ExpressionView::BinaryOperator { lhs, operator, rhs } => {
            lemma_same(config, expression_tokens(*lhs, true), expression_tokens(*lhs, false));
            let part0 = Piece::same(expression_tokens(*lhs, true), expression_tokens(*lhs, false));
            lemma_same_token(config, operator);
            let part1 = Piece::token(operator, operator, Multiset::empty(), Multiset::empty());
            lemma_last_cleared(config, *rhs);
            let part2 = expression_piece(
                *rhs,
                last_updated(*rhs, edit),
                Multiset::empty(),
                kept(last_trailing(*rhs)),
            );
            lemma_followed_by(config, part0, part1);
            lemma_followed_by(config, part0.followed_by(part1), part2);
            let whole = part0.followed_by(part1).followed_by(part2);
            assert(whole.taken.add(kept(last_trailing(e))) =~= whole.given.add(Multiset::empty()));
            lemma_conclude(
                config,
                whole,
                expression_piece(
                    e,
                    last_updated(e, edit),
                    Multiset::empty(),
                    kept(last_trailing(e)),
                ),
            );
        },
        ExpressionView::Function { function_token, body } => {
            lemma_same_token(config, function_token);
            let part0 = Piece::token(
                function_token,
                function_token,
                Multiset::empty(),
                Multiset::empty(),
            );
            lemma_body_cleared(config, body);
            let part1 = function_body_piece(
                body,
                FunctionBodyView { end_token: trail(body.end_token, edit), ..body },
                Multiset::empty(),
                kept(body.end_token.trailing),
            );
            lemma_followed_by(config, part0, part1);
            let whole = part0.followed_by(part1);
            assert(whole.taken.add(kept(last_trailing(e))) =~= whole.given.add(Multiset::empty()));
            lemma_conclude(
                config,
                whole,
                expression_piece(
                    e,
                    last_updated(e, edit),
                    Multiset::empty(),
                    kept(last_trailing(e)),
                ),
            );
        },
        ExpressionView::FunctionCall(call) => {
            lemma_suffixed_last_cleared(config, call);
        },
        ExpressionView::Var(var) => {
            lemma_suffixed_last_cleared(config, var);
        },
        ExpressionView::TableConstructor(table) => {
            lemma_table_cleared(config, table);
            let part0 = table_piece(
                table,
                TableConstructorView { close: trail(table.close, edit), ..table },
                Multiset::empty(),
                kept(table.close.trailing),
            );
            let whole = part0;
            assert(whole.taken.add(kept(last_trailing(e))) =~= whole.given.add(Multiset::empty()));
            lemma_conclude(
                config,
                whole,
                expression_piece(
                    e,
                    last_updated(e, edit),
                    Multiset::empty(),
                    kept(last_trailing(e)),
                ),
            );
        },
    }
}

/// A prefix without the trivia behind its last token has its tokens; the
/// comments that stood behind the token are given away.
#[verifier::spinoff_prover]
pub proof fn lemma_prefix_last_cleared(config: Config, prefix: PrefixView)
    ensures
        prefix_piece(
            prefix,
            prefix_last_updated(prefix, cleared()),
            Multiset::empty(),
            kept(prefix_last_trailing(prefix)),
        ).sound(config),
    decreases prefix,
{
    reveal(prefix_tokens);
    let edit = cleared();
    match prefix {
        PrefixView::Name(t) => {
            lemma_take_piece(config, t);
            let part0 = Piece::token(t, trail(t, edit), Multiset::empty(), kept(t.trailing));
            let whole = part0;
            assert(
                whole.taken.add(kept(prefix_last_trailing(prefix)))
                    =~= whole.given.add(Multiset::empty())
            );
            lemma_conclude(
                config,
                whole,
                prefix_piece(
                    prefix,
                    prefix_last_updated(prefix, edit),
                    Multiset::empty(),
                    kept(prefix_last_trailing(prefix)),
                ),
            );
        },
        PrefixView::Expression(e) => {
            lemma_last_cleared(config, *e);
            let part0 = expression_piece(
                *e,
                last_updated(*e, edit),
                Multiset::empty(),
                kept(last_trailing(*e)),
            );
            let whole = part0;
            assert(
                whole.taken.add(kept(prefix_last_trailing(prefix)))
                    =~= whole.given.add(Multiset::empty())
            );
            lemma_conclude(
                config,
                whole,
                prefix_piece(
                    prefix,
                    prefix_last_updated(prefix, edit),
                    Multiset::empty(),
                    kept(prefix_last_trailing(prefix)),
                ),
            );
        },
    }
}


/// The piece of a token whose trailing trivia are taken away.
pub proof fn lemma_take_piece(config: Config, token: TokenReferenceView)
    ensures
        Piece::token(token, trail(token, cleared()), Multiset::empty(), kept(token.trailing)).sound(
            config,
        ),
{
    crate::laws::lemma_kept_few(
        crate::trivia::space(),
        crate::trivia::space(),
        crate::trivia::space(),
    );
    assert(crate::laws::token_comments(trail(token, cleared())).add(kept(token.trailing))
        =~= crate::laws::token_comments(token).add(Multiset::empty()));
    crate::laws::lemma_token_piece(
        config,
        token,
        trail(token, cleared()),
        Multiset::empty(),
        kept(token.trailing),
    );
}

/// A run of suffixes without the trivia behind its last token has its
/// tokens; the comments that stood behind the token are given away.
#[verifier::spinoff_prover]
pub proof fn lemma_suffixes_last_cleared(config: Config, suffixes: Seq<SuffixView>)
    requires
        suffixes.len() > 0,
    ensures
        suffixes_piece(
            suffixes,
            suffixes.drop_last().push(suffix_last_updated(suffixes.last(), cleared())),
            Multiset::empty(),
            kept(suffix_last_trailing(suffixes.last())),
        ).sound(config),
{
    reveal(suffixes_tokens);
    let updated = suffix_last_updated(suffixes.last(), cleared());
    let after = suffixes.drop_last().push(updated);
    let given = kept(suffix_last_trailing(suffixes.last()));
    lemma_push_last(suffixes.drop_last(), updated);
    lemma_same(
        config,
        suffixes_tokens(suffixes.drop_last(), true),
        suffixes_tokens(suffixes.drop_last(), false),
    );
    let part0 = Piece::same(
        suffixes_tokens(suffixes.drop_last(), true),
        suffixes_tokens(suffixes.drop_last(), false),
    );
    lemma_suffix_last_cleared(config, suffixes.last());
    let part1 = suffix_piece(suffixes.last(), updated, Multiset::empty(), given);
    lemma_followed_by(config, part0, part1);
    let whole = part0.followed_by(part1);
    assert(whole.taken.add(given) =~= whole.given.add(Multiset::empty()));
    lemma_conclude(config, whole, suffixes_piece(suffixes, after, Multiset::empty(), given));
}

/// The trivia behind the last token of a call or an indexed expression.
pub open spec fn suffixed_last_trailing(node: SuffixedView) -> Seq<TokenView> {
    if node.suffixes.len() == 0 {
        prefix_last_trailing(node.prefix)
    } else {
        suffix_last_trailing(node.suffixes.last())
    }
}

/// A call or an indexed expression without the trivia behind its last token
/// has its tokens; the comments that stood behind the token are given away.
#[verifier::spinoff_prover]
pub proof fn lemma_suffixed_last_cleared(config: Config, node: SuffixedView)
    ensures
        suffixed_piece(
            node,
            suffixed_last_updated(node, cleared()),
            Multiset::empty(),
            kept(suffixed_last_trailing(node)),
        ).sound(config),
    decreases node, 0nat,
{
    let given = kept(suffixed_last_trailing(node));
    let target = suffixed_piece(
        node,
        suffixed_last_updated(node, cleared()),
        Multiset::empty(),
        given,
    );
    if node.suffixes.len() == 0 {
        lemma_prefix_last_cleared(config, node.prefix);
        let part0 = prefix_piece(
            node.prefix,
            prefix_last_updated(node.prefix, cleared()),
            Multiset::empty(),
            given,
        );
        lemma_same(
            config,
            suffixes_tokens(node.suffixes, true),
            suffixes_tokens(node.suffixes, false),
        );
        let part1 = Piece::same(
            suffixes_tokens(node.suffixes, true),
            suffixes_tokens(node.suffixes, false),
        );
        lemma_followed_by(config, part0, part1);
        let whole = part0.followed_by(part1);
        assert(whole.taken.add(given) =~= whole.given.add(Multiset::empty()));
        lemma_conclude(config, whole, target);
    } else {
        lemma_same(config, prefix_tokens(node.prefix, true), prefix_tokens(node.prefix, false));
        let part0 = Piece::same(
            prefix_tokens(node.prefix, true),
            prefix_tokens(node.prefix, false),
        );
        lemma_suffixes_last_cleared(config, node.suffixes);
        let part1 = suffixes_piece(
            node.suffixes,
            node.suffixes.drop_last().push(suffix_last_updated(node.suffixes.last(), cleared())),
            Multiset::empty(),
            given,
        );
        lemma_followed_by(config, part0, part1);
        let whole = part0.followed_by(part1);
        assert(whole.taken.add(given) =~= whole.given.add(Multiset::empty()));
        lemma_conclude(config, whole, target);
    }
}

} // verus!
