//! Taking the end of a statement leaves tidy whitespace tidy.

use vstd::prelude::*;
use crate::config::Config;
use crate::edges::{cleared, last_updated, trail};
use crate::endings::{
    body_ended, ended_last_stmt, ended_stmt, joined_semicolon, last_stmt_last_trailing,
    last_stmt_last_updated, line_end_trailing, stmt_last_trailing, stmt_last_updated,
};
use crate::flatten::{
    block_tokens, else_ifs_tokens, else_tokens, expression_tokens, function_body_tokens,
    if_tokens, last_stmt_tokens, optional_token, punctuated_tokens, step_tokens, stmt_tokens,
};
use crate::formatter::format_trailing;
use crate::layout::{dropped_comments, line_end};
use crate::list_laws::lemma_punctuated_tokens;
use crate::tidy::{
    edit_list, lemma_edited_token_tidy, lemma_tokens_add, lemma_tokens_one, lemma_trailing_tidy,
    lemma_trivia_add, token_tidy, tokens_tidy, trivia_tidy,
};
use crate::tidy_edges::{
    lemma_body_trail_tidy, lemma_last_updated_tidy, lemma_suffixed_last_updated_tidy,
};
use crate::tidy_hang::{lemma_line_end_tidy, lemma_optional_tidy, lemma_pairs_tidy, pair_tidy};
use crate::token::{TokenReferenceView, TokenView};
use crate::trivia::FormatTriviaTypeView;
use crate::view::{IfView, LastStmtView, PunctuatedView, StmtView};

verus! {

/// A tidy list at the end of a line, together with the tidy token in front
/// of it, is tidy where the trivia that end the line are; the trivia that
/// ended the line were tidy.
pub proof fn lemma_line_end_taken_tidy(
    config: Config,
    fallback: TokenReferenceView,
    list: PunctuatedView,
    edit: FormatTriviaTypeView,
)
    requires
        token_tidy(config, fallback),
        tokens_tidy(config, punctuated_tokens(list, true)),
        trivia_tidy(config, edit_list(edit)),
    ensures
        token_tidy(config, line_end(fallback, list, edit).0),
        tokens_tidy(config, punctuated_tokens(line_end(fallback, list, edit).1, true)),
        trivia_tidy(config, line_end_trailing(fallback, list)),
{
    lemma_line_end_tidy(config, fallback, list, edit);
    if list.pairs.len() > 0 {
        let last = list.pairs.last();
        lemma_punctuated_tokens(list.pairs);
        lemma_pairs_tidy(config, list.pairs);
        assert(pair_tidy(config, list.pairs[list.pairs.len() - 1]));
        lemma_optional_tidy(config, last.separator);
        match last.separator {
            Some(separator) => {},
            None => {
                lemma_last_updated_tidy(config, last.value, edit);
            },
        }
    }
}

/// A tidy conditional whose `end` gets tidy trivia behind it is tidy, and
/// the trivia behind `end` were tidy.
#[verifier::spinoff_prover]
pub proof fn lemma_if_last_updated_tidy(config: Config, node: IfView, edit: FormatTriviaTypeView)
    requires
        tokens_tidy(config, if_tokens(node, true)),
        trivia_tidy(config, edit_list(edit)),
    ensures
        tokens_tidy(
            config,
            if_tokens(IfView { end_token: trail(node.end_token, edit), ..node }, true),
        ),
        trivia_tidy(config, node.end_token.trailing),
{
    reveal(if_tokens);
    let b0 = seq![node.if_token];
    let a0 = seq![node.if_token];
    lemma_tokens_one(config, node.if_token);
    let b1 = expression_tokens(node.condition, true);
    let a1 = expression_tokens(node.condition, true);
    let b2 = seq![node.then_token];
    let a2 = seq![node.then_token];
    lemma_tokens_one(config, node.then_token);
    let b3 = block_tokens(node.block, true);
    let a3 = block_tokens(node.block, true);
    let b4 = else_ifs_tokens(node.else_if, true);
    let a4 = else_ifs_tokens(node.else_if, true);
    let b5 = else_tokens(node.else_branch, true);
    let a5 = else_tokens(node.else_branch, true);
    let b6 = seq![node.end_token];
    let a6 = seq![trail(node.end_token, edit)];
    lemma_tokens_one(config, node.end_token);
    lemma_tokens_one(config, trail(node.end_token, edit));
    lemma_tokens_add(config, b0, b1);
    let before1 = b0 + b1;
    let after1 = a0 + a1;
    lemma_tokens_add(config, before1, b2);
    let before2 = before1 + b2;
    let after2 = after1 + a2;
    lemma_tokens_add(config, before2, b3);
    let before3 = before2 + b3;
    let after3 = after2 + a3;
    lemma_tokens_add(config, before3, b4);
    let before4 = before3 + b4;
    let after4 = after3 + a4;
    lemma_tokens_add(config, before4, b5);
    let before5 = before4 + b5;
    let after5 = after4 + a5;
    lemma_tokens_add(config, before5, b6);
    lemma_edited_token_tidy(config, node.end_token, FormatTriviaTypeView::NoChange, edit);
    lemma_tokens_add(config, a0, a1);
    lemma_tokens_add(config, after1, a2);
    lemma_tokens_add(config, after2, a3);
    lemma_tokens_add(config, after3, a4);
    lemma_tokens_add(config, after4, a5);
    lemma_tokens_add(config, after5, a6);
}

/// A tidy statement whose last token gets tidy trivia behind it is tidy, and
/// the trivia behind the token were tidy.
#[verifier::spinoff_prover]
pub proof fn lemma_stmt_last_updated_tidy(
    config: Config,
    stmt: StmtView,
    edit: FormatTriviaTypeView,
)
    requires
        tokens_tidy(config, stmt_tokens(stmt, true)),
        trivia_tidy(config, edit_list(edit)),
    ensures
        tokens_tidy(config, stmt_tokens(stmt_last_updated(stmt, edit), true)),
        trivia_tidy(config, stmt_last_trailing(stmt)),
{
    reveal(stmt_tokens);
    match stmt {
        StmtView::Assignment(node) => {
            let b0 = punctuated_tokens(node.var_list, true);
            let a0 = punctuated_tokens(node.var_list, true);
            let b1 = seq![node.equal_token];
            let a1 = seq![line_end(node.equal_token, node.expr_list, edit).0];
            lemma_tokens_one(config, node.equal_token);
            lemma_tokens_one(config, line_end(node.equal_token, node.expr_list, edit).0);
            let b2 = punctuated_tokens(node.expr_list, true);
            let a2 = punctuated_tokens(line_end(node.equal_token, node.expr_list, edit).1, true);
            lemma_tokens_add(config, b0, b1);
            let before1 = b0 + b1;
            let after1 = a0 + a1;
            lemma_tokens_add(config, before1, b2);
            lemma_line_end_taken_tidy(config, node.equal_token, node.expr_list, edit);
            lemma_tokens_add(config, a0, a1);
            lemma_tokens_add(config, after1, a2);
        },
        StmtView::Do(node) => {
            let b0 = seq![node.do_token];
            let a0 = seq![node.do_token];
            lemma_tokens_one(config, node.do_token);
            let b1 = block_tokens(node.block, true);
            let a1 = block_tokens(node.block, true);
            let b2 = seq![node.end_token];
            let a2 = seq![trail(node.end_token, edit)];
            lemma_tokens_one(config, node.end_token);
            lemma_tokens_one(config, trail(node.end_token, edit));
            lemma_tokens_add(config, b0, b1);
            let before1 = b0 + b1;
            let after1 = a0 + a1;
            lemma_tokens_add(config, before1, b2);
            lemma_edited_token_tidy(config, node.end_token, FormatTriviaTypeView::NoChange, edit);
            lemma_tokens_add(config, a0, a1);
            lemma_tokens_add(config, after1, a2);
        },
        StmtView::FunctionCall(call) => {
            lemma_suffixed_last_updated_tidy(config, call, edit);
        },
        StmtView::FunctionDeclaration(node) => {
            let b0 = seq![node.function_token];
            let a0 = seq![node.function_token];
            lemma_tokens_one(config, node.function_token);
            let b1 = node.name;
            let a1 = node.name;
            let b2 = function_body_tokens(node.body, true);
            let a2 = function_body_tokens(body_ended(node.body, edit), true);
            lemma_tokens_add(config, b0, b1);
            let before1 = b0 + b1;
            let after1 = a0 + a1;
            lemma_tokens_add(config, before1, b2);
            lemma_body_trail_tidy(config, node.body, edit);
            lemma_tokens_add(config, a0, a1);
            lemma_tokens_add(config, after1, a2);
        },
        StmtView::GenericFor(node) => {
            let b0 = seq![node.for_token];
            let a0 = seq![node.for_token];
            lemma_tokens_one(config, node.for_token);
            let b1 = punctuated_tokens(node.names, true);
            let a1 = punctuated_tokens(node.names, true);
            let b2 = seq![node.in_token];
            let a2 = seq![node.in_token];
            lemma_tokens_one(config, node.in_token);
            let b3 = punctuated_tokens(node.expr_list, true);
            let a3 = punctuated_tokens(node.expr_list, true);
            let b4 = seq![node.do_token];
            let a4 = seq![node.do_token];
            lemma_tokens_one(config, node.do_token);
            let b5 = block_tokens(node.block, true);
            let a5 = block_tokens(node.block, true);
            let b6 = seq![node.end_token];
            let a6 = seq![trail(node.end_token, edit)];
            lemma_tokens_one(config, node.end_token);
            lemma_tokens_one(config, trail(node.end_token, edit));
            lemma_tokens_add(config, b0, b1);
            let before1 = b0 + b1;
            let after1 = a0 + a1;
            lemma_tokens_add(config, before1, b2);
            let before2 = before1 + b2;
            let after2 = after1 + a2;
            lemma_tokens_add(config, before2, b3);
            let before3 = before2 + b3;
            let after3 = after2 + a3;
            lemma_tokens_add(config, before3, b4);
            let before4 = before3 + b4;
            let after4 = after3 + a4;
            lemma_tokens_add(config, before4, b5);
            let before5 = before4 + b5;
            let after5 = after4 + a5;
            lemma_tokens_add(config, before5, b6);
            lemma_edited_token_tidy(config, node.end_token, FormatTriviaTypeView::NoChange, edit);
            lemma_tokens_add(config, a0, a1);
            lemma_tokens_add(config, after1, a2);
            lemma_tokens_add(config, after2, a3);
            lemma_tokens_add(config, after3, a4);
            lemma_tokens_add(config, after4, a5);
            lemma_tokens_add(config, after5, a6);
        },
        StmtView::If(node) => {
            lemma_if_last_updated_tidy(config, node, edit);
        },
        StmtView::LocalAssignment(node) => {
            match node.equal_token {
                Some(equal) => {
                    let b0 = seq![node.local_token];
                    let a0 = seq![node.local_token];
                    lemma_tokens_one(config, node.local_token);
                    let b1 = punctuated_tokens(node.name_list, true);
                    let a1 = punctuated_tokens(node.name_list, true);
                    let b2 = optional_token(Some(equal));
                    let a2 = optional_token(Some(line_end(equal, node.expr_list, edit).0));
                    lemma_optional_tidy(config, Some(equal));
                    lemma_optional_tidy(config, Some(line_end(equal, node.expr_list, edit).0));
                    let b3 = punctuated_tokens(node.expr_list, true);
                    let a3 = punctuated_tokens(line_end(equal, node.expr_list, edit).1, true);
                    lemma_tokens_add(config, b0, b1);
                    let before1 = b0 + b1;
                    let after1 = a0 + a1;
                    lemma_tokens_add(config, before1, b2);
                    let before2 = before1 + b2;
                    let after2 = after1 + a2;
                    lemma_tokens_add(config, before2, b3);
                    lemma_line_end_taken_tidy(config, equal, node.expr_list, edit);
                    lemma_tokens_add(config, a0, a1);
                    lemma_tokens_add(config, after1, a2);
                    lemma_tokens_add(config, after2, a3);
                },
                None => {
                    let b0 = seq![node.local_token];
                    let a0 = seq![line_end(node.local_token, node.name_list, edit).0];
                    lemma_tokens_one(config, node.local_token);
                    lemma_tokens_one(config, line_end(node.local_token, node.name_list, edit).0);
                    let b1 = punctuated_tokens(node.name_list, true);
                    let a1 = punctuated_tokens(
                        line_end(node.local_token, node.name_list, edit).1,
                        true,
                    );
                    let b2 = optional_token(node.equal_token);
                    let a2 = optional_token(node.equal_token);
                    let b3 = punctuated_tokens(node.expr_list, true);
                    let a3 = punctuated_tokens(node.expr_list, true);
                    lemma_tokens_add(config, b0, b1);
                    let before1 = b0 + b1;
                    let after1 = a0 + a1;
                    lemma_tokens_add(config, before1, b2);
                    let before2 = before1 + b2;
                    let after2 = after1 + a2;
                    lemma_tokens_add(config, before2, b3);
                    lemma_line_end_taken_tidy(config, node.local_token, node.name_list, edit);
                    lemma_tokens_add(config, a0, a1);
                    lemma_tokens_add(config, after1, a2);
                    lemma_tokens_add(config, after2, a3);
                },
            }
        },
        StmtView::LocalFunction(node) => {
            let b0 = seq![node.local_token];
            let a0 = seq![node.local_token];
            lemma_tokens_one(config, node.local_token);
            let b1 = seq![node.function_token];
            let a1 = seq![node.function_token];
            lemma_tokens_one(config, node.function_token);
            let b2 = seq![node.name];
            let a2 = seq![node.name];
            lemma_tokens_one(config, node.name);
            let b3 = function_body_tokens(node.body, true);
            let a3 = function_body_tokens(body_ended(node.body, edit), true);
            lemma_tokens_add(config, b0, b1);
            let before1 = b0 + b1;
            let after1 = a0 + a1;
            lemma_tokens_add(config, before1, b2);
            let before2 = before1 + b2;
            let after2 = after1 + a2;
            lemma_tokens_add(config, before2, b3);
            lemma_body_trail_tidy(config, node.body, edit);
            lemma_tokens_add(config, a0, a1);
            lemma_tokens_add(config, after1, a2);
            lemma_tokens_add(config, after2, a3);
        },
        StmtView::NumericFor(node) => {
            let b0 = seq![node.for_token];
            let a0 = seq![node.for_token];
            lemma_tokens_one(config, node.for_token);
            let b1 = seq![node.index_variable];
            let a1 = seq![node.index_variable];
            lemma_tokens_one(config, node.index_variable);
            let b2 = seq![node.equal_token];
            let a2 = seq![node.equal_token];
            lemma_tokens_one(config, node.equal_token);
            let b3 = expression_tokens(node.start, true);
            let a3 = expression_tokens(node.start, true);
            let b4 = seq![node.start_end_comma];
            let a4 = seq![node.start_end_comma];
            lemma_tokens_one(config, node.start_end_comma);
            let b5 = expression_tokens(node.end, true);
            let a5 = expression_tokens(node.end, true);
            let b6 = step_tokens(node.step, true);
            let a6 = step_tokens(node.step, true);
            let b7 = seq![node.do_token];
            let a7 = seq![node.do_token];
            lemma_tokens_one(config, node.do_token);
            let b8 = block_tokens(node.block, true);
            let a8 = block_tokens(node.block, true);
            let b9 = seq![node.end_token];
            let a9 = seq![trail(node.end_token, edit)];
            lemma_tokens_one(config, node.end_token);
            lemma_tokens_one(config, trail(node.end_token, edit));
            lemma_tokens_add(config, b0, b1);
            let before1 = b0 + b1;
            let after1 = a0 + a1;
            lemma_tokens_add(config, before1, b2);
            let before2 = before1 + b2;
            let after2 = after1 + a2;
            lemma_tokens_add(config, before2, b3);
            let before3 = before2 + b3;
            let after3 = after2 + a3;
            lemma_tokens_add(config, before3, b4);
            let before4 = before3 + b4;
            let after4 = after3 + a4;
            lemma_tokens_add(config, before4, b5);
            let before5 = before4 + b5;
            let after5 = after4 + a5;
            lemma_tokens_add(config, before5, b6);
            let before6 = before5 + b6;
            let after6 = after5 + a6;
            lemma_tokens_add(config, before6, b7);
            let before7 = before6 + b7;
            let after7 = after6 + a7;
            lemma_tokens_add(config, before7, b8);
            let before8 = before7 + b8;
            let after8 = after7 + a8;
            lemma_tokens_add(config, before8, b9);
            lemma_edited_token_tidy(config, node.end_token, FormatTriviaTypeView::NoChange, edit);
            lemma_tokens_add(config, a0, a1);
            lemma_tokens_add(config, after1, a2);
            lemma_tokens_add(config, after2, a3);
            lemma_tokens_add(config, after3, a4);
            lemma_tokens_add(config, after4, a5);
            lemma_tokens_add(config, after5, a6);
            lemma_tokens_add(config, after6, a7);
            lemma_tokens_add(config, after7, a8);
            lemma_tokens_add(config, after8, a9);
        },
        StmtView::Repeat(node) => {
            let b0 = seq![node.repeat_token];
            let a0 = seq![node.repeat_token];
            lemma_tokens_one(config, node.repeat_token);
            let b1 = block_tokens(node.block, true);
            let a1 = block_tokens(node.block, true);
            let b2 = seq![node.until_token];
            let a2 = seq![node.until_token];
            lemma_tokens_one(config, node.until_token);
            let b3 = expression_tokens(node.until, true);
            let a3 = expression_tokens(last_updated(node.until, edit), true);
            lemma_tokens_add(config, b0, b1);
            let before1 = b0 + b1;
            let after1 = a0 + a1;
            lemma_tokens_add(config, before1, b2);
            let before2 = before1 + b2;
            let after2 = after1 + a2;
            lemma_tokens_add(config, before2, b3);
            lemma_last_updated_tidy(config, node.until, edit);
            lemma_tokens_add(config, a0, a1);
            lemma_tokens_add(config, after1, a2);
            lemma_tokens_add(config, after2, a3);
        },
        StmtView::While(node) => {
            let b0 = seq![node.while_token];
            let a0 = seq![node.while_token];
            lemma_tokens_one(config, node.while_token);
            let b1 = expression_tokens(node.condition, true);
            let a1 = expression_tokens(node.condition, true);
            let b2 = seq![node.do_token];
            let a2 = seq![node.do_token];
            lemma_tokens_one(config, node.do_token);
            let b3 = block_tokens(node.block, true);
            let a3 = block_tokens(node.block, true);
            let b4 = seq![node.end_token];
            let a4 = seq![trail(node.end_token, edit)];
            lemma_tokens_one(config, node.end_token);
            lemma_tokens_one(config, trail(node.end_token, edit));
            lemma_tokens_add(config, b0, b1);
            let before1 = b0 + b1;
            let after1 = a0 + a1;
            lemma_tokens_add(config, before1, b2);
            let before2 = before1 + b2;
            let after2 = after1 + a2;
            lemma_tokens_add(config, before2, b3);
            let before3 = before2 + b3;
            let after3 = after2 + a3;
            lemma_tokens_add(config, before3, b4);
            lemma_edited_token_tidy(config, node.end_token, FormatTriviaTypeView::NoChange, edit);
            lemma_tokens_add(config, a0, a1);
            lemma_tokens_add(config, after1, a2);
            lemma_tokens_add(config, after2, a3);
            lemma_tokens_add(config, after3, a4);
        },
    }
}

/// A tidy `return` or `break` whose last token gets tidy trivia behind it is
/// tidy, and the trivia behind the token were tidy.
#[verifier::spinoff_prover]
pub proof fn lemma_last_stmt_last_updated_tidy(
    config: Config,
    stmt: LastStmtView,
    edit: FormatTriviaTypeView,
)
    requires
        tokens_tidy(config, last_stmt_tokens(stmt, true)),
        trivia_tidy(config, edit_list(edit)),
    ensures
        tokens_tidy(config, last_stmt_tokens(last_stmt_last_updated(stmt, edit), true)),
        trivia_tidy(config, last_stmt_last_trailing(stmt)),
{
    reveal(last_stmt_tokens);
    match stmt {
        LastStmtView::Break(token) => {
            let b0 = seq![token];
            let a0 = seq![trail(token, edit)];
            lemma_tokens_one(config, token);
            lemma_tokens_one(config, trail(token, edit));
            lemma_edited_token_tidy(config, token, FormatTriviaTypeView::NoChange, edit);
        },
        LastStmtView::Return { token, values } => {
            let b0 = seq![token];
            let a0 = seq![line_end(token, values, edit).0];
            lemma_tokens_one(config, token);
            lemma_tokens_one(config, line_end(token, values, edit).0);
            let b1 = punctuated_tokens(values, true);
            let a1 = punctuated_tokens(line_end(token, values, edit).1, true);
            lemma_tokens_add(config, b0, b1);
            lemma_line_end_taken_tidy(config, token, values, edit);
            lemma_tokens_add(config, a0, a1);
        },
    }
}

/// The semicolon right behind a statement is tidy where what stood behind
/// the statement is.
pub proof fn lemma_joined_semicolon_tidy(
    config: Config,
    semicolon: TokenReferenceView,
    behind: Seq<TokenView>,
)
    requires
        trivia_tidy(config, behind),
    ensures
        token_tidy(config, joined_semicolon(semicolon, behind)),
{
    lemma_trailing_tidy(config, semicolon.leading, 0);
    lemma_trailing_tidy(config, semicolon.trailing, 0);
    lemma_trivia_add(
        config,
        format_trailing(semicolon.leading),
        format_trailing(semicolon.trailing),
    );
    lemma_trivia_add(config, dropped_comments(semicolon), behind);
}

/// A tidy statement with the semicolon right behind it is tidy.
pub proof fn lemma_ended_stmt_tidy(
    config: Config,
    stmt: StmtView,
    semicolon: Option<TokenReferenceView>,
)
    requires
        tokens_tidy(config, stmt_tokens(stmt, true)),
    ensures
        tokens_tidy(config, stmt_tokens(ended_stmt(stmt, semicolon).stmt, true)),
        tokens_tidy(config, optional_token(ended_stmt(stmt, semicolon).semicolon)),
{
    match semicolon {
        Some(token) => {
            lemma_stmt_last_updated_tidy(config, stmt, cleared());
            lemma_joined_semicolon_tidy(config, token, stmt_last_trailing(stmt));
            lemma_tokens_one(config, joined_semicolon(token, stmt_last_trailing(stmt)));
        },
        None => {},
    }
}

/// A tidy `return` or `break` with the semicolon right behind it is tidy.
pub proof fn lemma_ended_last_stmt_tidy(
    config: Config,
    stmt: LastStmtView,
    semicolon: Option<TokenReferenceView>,
)
    requires
        tokens_tidy(config, last_stmt_tokens(stmt, true)),
    ensures
        tokens_tidy(config, last_stmt_tokens(ended_last_stmt(stmt, semicolon).stmt, true)),
        tokens_tidy(config, optional_token(ended_last_stmt(stmt, semicolon).semicolon)),
{
    match semicolon {
        Some(token) => {
            lemma_last_stmt_last_updated_tidy(config, stmt, cleared());
            lemma_joined_semicolon_tidy(config, token, last_stmt_last_trailing(stmt));
            lemma_tokens_one(config, joined_semicolon(token, last_stmt_last_trailing(stmt)));
        },
        None => {},
    }
}

} // verus!

