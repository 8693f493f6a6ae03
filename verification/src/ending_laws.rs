//! What taking the end of a statement keeps: the tokens of the statement,
//! and its comments but for those that stood behind its last token, which
//! the semicolon behind the statement gets.

use vstd::multiset::Multiset;
use vstd::prelude::*;
use crate::config::Config;
use crate::edge_laws::{
    lemma_body_cleared, lemma_last_cleared, lemma_suffixed_last_cleared, lemma_take_piece,
};
use crate::edges::{
    cleared, last_trailing, last_updated, pair_last_updated, punctuated_last_updated, trail,
};
use crate::endings::{
    body_ended, ended_last_stmt, ended_stmt, joined_semicolon, last_stmt_last_trailing,
    last_stmt_last_updated, line_end_trailing, pair_last_trailing, stmt_last_trailing,
    stmt_last_updated,
};
use crate::flatten::{
    block_tokens, else_ifs_tokens, else_tokens, expression_tokens, if_tokens, last_stmt_tokens,
    optional_token, pairs_tokens, punctuated_tokens, step_tokens, stmt_tokens,
};
use crate::laws::{
    kept, lemma_followed_by, lemma_kept_add, lemma_same, lemma_same_token, lemma_and_then_to,
    lemma_token_piece, token_comments, Piece,
};
use crate::layout::{dropped_comments, line_end};
use crate::list_laws::{lemma_pairs_tokens_push, lemma_punctuated_tokens};
use crate::pieces::{
    expression_piece, function_body_piece, if_piece, last_stmt_piece, lemma_conclude,
    punctuated_piece, stmt_piece,
};
use crate::sequences::{lemma_add_assoc, lemma_add_empty, lemma_push_last};
use crate::token::{TokenReferenceView, TokenView};
use crate::token_laws::lemma_format_trailing;
use crate::view::{
    BlockLastStmtView, BlockStmtView, IfView, LastStmtView, PunctuatedView, StmtView,
};

verus! {

/// A list without the trivia behind its last token has its tokens; the
/// comments that stood behind the token are given away.
pub proof fn lemma_punctuated_last_cleared(config: Config, list: PunctuatedView)
    requires
        list.pairs.len() > 0,
    ensures
        punctuated_piece(
            list,
            punctuated_last_updated(list, cleared()),
            Multiset::empty(),
            kept(pair_last_trailing(list.pairs.last())),
        ).sound(config),
{
    let edit = cleared();
    let after = punctuated_last_updated(list, edit);
    let given = kept(pair_last_trailing(list.pairs.last()));
    let target = punctuated_piece(list, after, Multiset::empty(), given);
    let pairs = list.pairs;
    let front = pairs.drop_last();
    let last = pairs.last();
    let updated = pair_last_updated(last, edit);
    assert(front.push(last) =~= pairs);
    lemma_push_last(front, updated);
    lemma_punctuated_tokens(pairs);
    lemma_punctuated_tokens(after.pairs);
    lemma_pairs_tokens_push(front, last, true);
    lemma_pairs_tokens_push(front, updated, true);
    lemma_same(config, pairs_tokens(front, true), pairs_tokens(front, false));
    let part0 = Piece::same(pairs_tokens(front, true), pairs_tokens(front, false));
    match last.separator {
        Some(separator) => {
            lemma_same(
                config,
                expression_tokens(last.value, true),
                expression_tokens(last.value, false),
            );
            let part1 = Piece::same(
                expression_tokens(last.value, true),
                expression_tokens(last.value, false),
            );
            lemma_take_piece(config, separator);
            let part2 = Piece {
                before_all: seq![separator],
                before_kept: Seq::empty(),
                after_all: seq![trail(separator, edit)],
                after_kept: Seq::empty(),
                taken: Multiset::empty(),
                given,
            };
            lemma_followed_by(config, part0, part1);
            assert(part2.sound(config));
            lemma_followed_by(config, part0.followed_by(part1), part2);
            let whole = part0.followed_by(part1).followed_by(part2);
            lemma_add_empty(part0.followed_by(part1).before_kept);
            assert(whole.taken.add(given) =~= whole.given.add(Multiset::empty()));
            lemma_conclude(config, whole, target);
        },
        None => {
            lemma_last_cleared(config, last.value);
            let part1 = expression_piece(last.value, updated.value, Multiset::empty(), given);
            lemma_followed_by(config, part0, part1);
            let whole = part0.followed_by(part1);
            lemma_add_empty(whole.before_all);
            lemma_add_empty(whole.after_all);
            assert(whole.taken.add(given) =~= whole.given.add(Multiset::empty()));
            lemma_conclude(config, whole, target);
        },
    }
}

/// The piece of a token in front of a list and of the list, and of the two
/// without the trivia at the end of their line.
pub open spec fn ended_piece(fallback: TokenReferenceView, list: PunctuatedView) -> Piece {
    let result = line_end(fallback, list, cleared());
    Piece {
        before_all: seq![fallback] + punctuated_tokens(list, true),
        before_kept: seq![fallback] + punctuated_tokens(list, false),
        after_all: seq![result.0] + punctuated_tokens(result.1, true),
        after_kept: seq![result.0] + punctuated_tokens(result.1, false),
        taken: Multiset::empty(),
        given: kept(line_end_trailing(fallback, list)),
    }
}

/// A list at the end of a line, together with the token in front of it, has
/// its tokens without the trivia that end the line; the comments among those
/// trivia are given away.
pub proof fn lemma_line_end_cleared(
    config: Config,
    fallback: TokenReferenceView,
    list: PunctuatedView,
)
    ensures
        ended_piece(fallback, list).sound(config),
{
    let result = line_end(fallback, list, cleared());
    let given = kept(line_end_trailing(fallback, list));
    let target = ended_piece(fallback, list);
    if list.pairs.len() == 0 {
        lemma_take_piece(config, fallback);
        let part0 = Piece::token(fallback, trail(fallback, cleared()), Multiset::empty(), given);
        lemma_same(config, punctuated_tokens(list, true), punctuated_tokens(list, false));
        let part1 = Piece::same(punctuated_tokens(list, true), punctuated_tokens(list, false));
        lemma_followed_by(config, part0, part1);
        let whole = part0.followed_by(part1);
        assert(whole.taken.add(given) =~= whole.given.add(Multiset::empty()));
        lemma_conclude(config, whole, target);
    } else {
        lemma_same_token(config, fallback);
        let part0 = Piece::token(fallback, fallback, Multiset::empty(), Multiset::empty());
        lemma_punctuated_last_cleared(config, list);
        let part1 = punctuated_piece(list, result.1, Multiset::empty(), given);
        lemma_followed_by(config, part0, part1);
        let whole = part0.followed_by(part1);
        assert(whole.taken.add(given) =~= whole.given.add(Multiset::empty()));
        lemma_conclude(config, whole, target);
    }
}

/// A conditional without the trivia behind its `end` has its tokens; the
/// comments that stood behind `end` are given away.
#[verifier::spinoff_prover]
pub proof fn lemma_if_last_cleared(config: Config, node: IfView)
    ensures
        if_piece(
            node,
            IfView { end_token: trail(node.end_token, cleared()), ..node },
            Multiset::empty(),
            kept(node.end_token.trailing),
        ).sound(config),
{
    reveal(if_tokens);
    lemma_same_token(config, node.if_token);
    let part0 = Piece::token(node.if_token, node.if_token, Multiset::empty(), Multiset::empty());
    lemma_same(
        config,
        expression_tokens(node.condition, true),
        expression_tokens(node.condition, false),
    );
    let part1 = Piece::same(
        expression_tokens(node.condition, true),
        expression_tokens(node.condition, false),
    );
    lemma_same_token(config, node.then_token);
    let part2 = Piece::token(
        node.then_token,
        node.then_token,
        Multiset::empty(),
        Multiset::empty(),
    );
    lemma_same(config, block_tokens(node.block, true), block_tokens(node.block, false));
    let part3 = Piece::same(block_tokens(node.block, true), block_tokens(node.block, false));
    lemma_same(config, else_ifs_tokens(node.else_if, true), else_ifs_tokens(node.else_if, false));
    let part4 = Piece::same(
        else_ifs_tokens(node.else_if, true),
        else_ifs_tokens(node.else_if, false),
    );
    lemma_same(config, else_tokens(node.else_branch, true), else_tokens(node.else_branch, false));
    let part5 = Piece::same(
        else_tokens(node.else_branch, true),
        else_tokens(node.else_branch, false),
    );
    lemma_take_piece(config, node.end_token);
    let part6 = Piece::token(
        node.end_token,
        trail(node.end_token, cleared()),
        Multiset::empty(),
        kept(node.end_token.trailing),
    );
    lemma_followed_by(config, part0, part1);
    let q1 = part0.followed_by(part1);
    lemma_followed_by(config, q1, part2);
    let q2 = q1.followed_by(part2);
    lemma_followed_by(config, q2, part3);
    let q3 = q2.followed_by(part3);
    lemma_followed_by(config, q3, part4);
    let q4 = q3.followed_by(part4);
    lemma_followed_by(config, q4, part5);
    let q5 = q4.followed_by(part5);
    lemma_followed_by(config, q5, part6);
    let whole = q5.followed_by(part6);
    assert(whole.taken.add(kept(node.end_token.trailing)) =~= whole.given.add(Multiset::empty()));
    lemma_conclude(
        config,
        whole,
        if_piece(
            node,
            IfView { end_token: trail(node.end_token, cleared()), ..node },
            Multiset::empty(),
            kept(node.end_token.trailing),
        ),
    );
}

/// A statement without the trivia behind its last token has its tokens; the
/// comments that stood behind the token are given away.
#[verifier::spinoff_prover]
pub proof fn lemma_stmt_last_cleared(config: Config, stmt: StmtView)
    ensures
        stmt_piece(
            stmt,
            stmt_last_updated(stmt, cleared()),
            Multiset::empty(),
            kept(stmt_last_trailing(stmt)),
        ).sound(config),
{
    reveal(stmt_tokens);
    match stmt {
        StmtView::Assignment(node) => {
            lemma_add_assoc(
                punctuated_tokens(node.var_list, true),
                seq![node.equal_token],
                punctuated_tokens(node.expr_list, true),
            );
            lemma_add_assoc(
                punctuated_tokens(node.var_list, true),
                seq![line_end(node.equal_token, node.expr_list, cleared()).0],
                punctuated_tokens(line_end(node.equal_token, node.expr_list, cleared()).1, true),
            );
            lemma_add_assoc(
                punctuated_tokens(node.var_list, false),
                seq![node.equal_token],
                punctuated_tokens(node.expr_list, false),
            );
            lemma_add_assoc(
                punctuated_tokens(node.var_list, false),
                seq![line_end(node.equal_token, node.expr_list, cleared()).0],
                punctuated_tokens(line_end(node.equal_token, node.expr_list, cleared()).1, false),
            );
            lemma_same(
                config,
                punctuated_tokens(node.var_list, true),
                punctuated_tokens(node.var_list, false),
            );
            let part0 = Piece::same(
                punctuated_tokens(node.var_list, true),
                punctuated_tokens(node.var_list, false),
            );
            lemma_line_end_cleared(config, node.equal_token, node.expr_list);
            let part1 = ended_piece(node.equal_token, node.expr_list);
            lemma_followed_by(config, part0, part1);
            let whole = part0.followed_by(part1);
            assert(
                whole.taken.add(kept(stmt_last_trailing(stmt)))
                    =~= whole.given.add(Multiset::empty())
            );
            lemma_conclude(
                config,
                whole,
                stmt_piece(
                    stmt,
                    stmt_last_updated(stmt, cleared()),
                    Multiset::empty(),
                    kept(stmt_last_trailing(stmt)),
                ),
            );
        },
        StmtView::Do(node) => {
            lemma_same_token(config, node.do_token);
            let part0 = Piece::token(
                node.do_token,
                node.do_token,
                Multiset::empty(),
                Multiset::empty(),
            );
            lemma_same(config, block_tokens(node.block, true), block_tokens(node.block, false));
            let part1 = Piece::same(
                block_tokens(node.block, true),
                block_tokens(node.block, false),
            );
            lemma_take_piece(config, node.end_token);
            let part2 = Piece::token(
                node.end_token,
                trail(node.end_token, cleared()),
                Multiset::empty(),
                kept(node.end_token.trailing),
            );
            lemma_followed_by(config, part0, part1);
            lemma_followed_by(config, part0.followed_by(part1), part2);
            let whole = part0.followed_by(part1).followed_by(part2);
            assert(
                whole.taken.add(kept(stmt_last_trailing(stmt)))
                    =~= whole.given.add(Multiset::empty())
            );
            lemma_conclude(
                config,
                whole,
                stmt_piece(
                    stmt,
                    stmt_last_updated(stmt, cleared()),
                    Multiset::empty(),
                    kept(stmt_last_trailing(stmt)),
                ),
            );
        },
        StmtView::FunctionCall(call) => {
            lemma_suffixed_last_cleared(config, call);
        },
        StmtView::FunctionDeclaration(node) => {
            lemma_same_token(config, node.function_token);
            let part0 = Piece::token(
                node.function_token,
                node.function_token,
                Multiset::empty(),
                Multiset::empty(),
            );
            lemma_same(config, node.name, node.name);
            let part1 = Piece::same(node.name, node.name);
            lemma_body_cleared(config, node.body);
            let part2 = function_body_piece(
                node.body,
                body_ended(node.body, cleared()),
                Multiset::empty(),
                kept(node.body.end_token.trailing),
            );
            lemma_followed_by(config, part0, part1);
            lemma_followed_by(config, part0.followed_by(part1), part2);
            let whole = part0.followed_by(part1).followed_by(part2);
            assert(
                whole.taken.add(kept(stmt_last_trailing(stmt)))
                    =~= whole.given.add(Multiset::empty())
            );
            lemma_conclude(
                config,
                whole,
                stmt_piece(
                    stmt,
                    stmt_last_updated(stmt, cleared()),
                    Multiset::empty(),
                    kept(stmt_last_trailing(stmt)),
                ),
            );
        },
        StmtView::GenericFor(node) => {
            lemma_same_token(config, node.for_token);
            let part0 = Piece::token(
                node.for_token,
                node.for_token,
                Multiset::empty(),
                Multiset::empty(),
            );
            lemma_same(
                config,
                punctuated_tokens(node.names, true),
                punctuated_tokens(node.names, false),
            );
            let part1 = Piece::same(
                punctuated_tokens(node.names, true),
                punctuated_tokens(node.names, false),
            );
            lemma_same_token(config, node.in_token);
            let part2 = Piece::token(
                node.in_token,
                node.in_token,
                Multiset::empty(),
                Multiset::empty(),
            );
            lemma_same(
                config,
                punctuated_tokens(node.expr_list, true),
                punctuated_tokens(node.expr_list, false),
            );
            let part3 = Piece::same(
                punctuated_tokens(node.expr_list, true),
                punctuated_tokens(node.expr_list, false),
            );
            lemma_same_token(config, node.do_token);
            let part4 = Piece::token(
                node.do_token,
                node.do_token,
                Multiset::empty(),
                Multiset::empty(),
            );
            lemma_same(config, block_tokens(node.block, true), block_tokens(node.block, false));
            let part5 = Piece::same(
                block_tokens(node.block, true),
                block_tokens(node.block, false),
            );
            lemma_take_piece(config, node.end_token);
            let part6 = Piece::token(
                node.end_token,
                trail(node.end_token, cleared()),
                Multiset::empty(),
                kept(node.end_token.trailing),
            );
            lemma_followed_by(config, part0, part1);
            let q1 = part0.followed_by(part1);
            lemma_followed_by(config, q1, part2);
            let q2 = q1.followed_by(part2);
            lemma_followed_by(config, q2, part3);
            let q3 = q2.followed_by(part3);
            lemma_followed_by(config, q3, part4);
            let q4 = q3.followed_by(part4);
            lemma_followed_by(config, q4, part5);
            let q5 = q4.followed_by(part5);
            lemma_followed_by(config, q5, part6);
            let whole = q5.followed_by(part6);
            assert(
                whole.taken.add(kept(stmt_last_trailing(stmt)))
                    =~= whole.given.add(Multiset::empty())
            );
            lemma_conclude(
                config,
                whole,
                stmt_piece(
                    stmt,
                    stmt_last_updated(stmt, cleared()),
                    Multiset::empty(),
                    kept(stmt_last_trailing(stmt)),
                ),
            );
        },
        StmtView::If(node) => {
            lemma_if_last_cleared(config, node);
        },
        StmtView::LocalAssignment(node) => {
            match node.equal_token {
                Some(equal) => {
                    lemma_add_assoc(
                        seq![node.local_token] + punctuated_tokens(node.name_list, true),
                        seq![equal],
                        punctuated_tokens(node.expr_list, true),
                    );
                    lemma_add_assoc(
                        seq![node.local_token] + punctuated_tokens(node.name_list, true),
                        seq![line_end(equal, node.expr_list, cleared()).0],
                        punctuated_tokens(line_end(equal, node.expr_list, cleared()).1, true),
                    );
                    lemma_add_assoc(
                        seq![node.local_token] + punctuated_tokens(node.name_list, false),
                        seq![equal],
                        punctuated_tokens(node.expr_list, false),
                    );
                    lemma_add_assoc(
                        seq![node.local_token] + punctuated_tokens(node.name_list, false),
                        seq![line_end(equal, node.expr_list, cleared()).0],
                        punctuated_tokens(line_end(equal, node.expr_list, cleared()).1, false),
                    );
                    lemma_same_token(config, node.local_token);
                    let part0 = Piece::token(
                        node.local_token,
                        node.local_token,
                        Multiset::empty(),
                        Multiset::empty(),
                    );
                    lemma_same(
                        config,
                        punctuated_tokens(node.name_list, true),
                        punctuated_tokens(node.name_list, false),
                    );
                    let part1 = Piece::same(
                        punctuated_tokens(node.name_list, true),
                        punctuated_tokens(node.name_list, false),
                    );
                    lemma_line_end_cleared(config, equal, node.expr_list);
                    let part2 = ended_piece(equal, node.expr_list);
                    lemma_followed_by(config, part0, part1);
                    lemma_followed_by(config, part0.followed_by(part1), part2);
                    let whole = part0.followed_by(part1).followed_by(part2);
                    assert(
                        whole.taken.add(kept(stmt_last_trailing(stmt)))
                            =~= whole.given.add(Multiset::empty())
                    );
                    lemma_conclude(
                        config,
                        whole,
                        stmt_piece(
                            stmt,
                            stmt_last_updated(stmt, cleared()),
                            Multiset::empty(),
                            kept(stmt_last_trailing(stmt)),
                        ),
                    );
                },
                None => {
                    lemma_add_empty(
                        seq![node.local_token] + punctuated_tokens(node.name_list, true),
                    );
                    lemma_add_empty(
                        seq![line_end(node.local_token, node.name_list, cleared()).0] + punctuated_tokens(
                            line_end(node.local_token, node.name_list, cleared()).1,
                            true,
                        ),
                    );
                    lemma_add_empty(
                        seq![node.local_token] + punctuated_tokens(node.name_list, false),
                    );
                    lemma_add_empty(
                        seq![line_end(node.local_token, node.name_list, cleared()).0] + punctuated_tokens(
                            line_end(node.local_token, node.name_list, cleared()).1,
                            false,
                        ),
                    );
                    lemma_line_end_cleared(config, node.local_token, node.name_list);
                    let part0 = ended_piece(node.local_token, node.name_list);
                    lemma_same(
                        config,
                        punctuated_tokens(node.expr_list, true),
                        punctuated_tokens(node.expr_list, false),
                    );
                    let part1 = Piece::same(
                        punctuated_tokens(node.expr_list, true),
                        punctuated_tokens(node.expr_list, false),
                    );
                    lemma_followed_by(config, part0, part1);
                    let whole = part0.followed_by(part1);
                    assert(
                        whole.taken.add(kept(stmt_last_trailing(stmt)))
                            =~= whole.given.add(Multiset::empty())
                    );
                    lemma_conclude(
                        config,
                        whole,
                        stmt_piece(
                            stmt,
                            stmt_last_updated(stmt, cleared()),
                            Multiset::empty(),
                            kept(stmt_last_trailing(stmt)),
                        ),
                    );
                },
            }
        },
        StmtView::LocalFunction(node) => {
            lemma_same_token(config, node.local_token);
            let part0 = Piece::token(
                node.local_token,
                node.local_token,
                Multiset::empty(),
                Multiset::empty(),
            );
            lemma_same_token(config, node.function_token);
            let part1 = Piece::token(
                node.function_token,
                node.function_token,
                Multiset::empty(),
                Multiset::empty(),
            );
            lemma_same_token(config, node.name);
            let part2 = Piece::token(node.name, node.name, Multiset::empty(), Multiset::empty());
            lemma_body_cleared(config, node.body);
            let part3 = function_body_piece(
                node.body,
                body_ended(node.body, cleared()),
                Multiset::empty(),
                kept(node.body.end_token.trailing),
            );
            lemma_followed_by(config, part0, part1);
            let q1 = part0.followed_by(part1);
            lemma_followed_by(config, q1, part2);
            let q2 = q1.followed_by(part2);
            lemma_followed_by(config, q2, part3);
            let whole = q2.followed_by(part3);
            assert(
                whole.taken.add(kept(stmt_last_trailing(stmt)))
                    =~= whole.given.add(Multiset::empty())
            );
            lemma_conclude(
                config,
                whole,
                stmt_piece(
                    stmt,
                    stmt_last_updated(stmt, cleared()),
                    Multiset::empty(),
                    kept(stmt_last_trailing(stmt)),
                ),
            );
        },
        StmtView::NumericFor(node) => {
            lemma_same_token(config, node.for_token);
            let part0 = Piece::token(
                node.for_token,
                node.for_token,
                Multiset::empty(),
                Multiset::empty(),
            );
            lemma_same_token(config, node.index_variable);
            let part1 = Piece::token(
                node.index_variable,
                node.index_variable,
                Multiset::empty(),
                Multiset::empty(),
            );
            lemma_same_token(config, node.equal_token);
            let part2 = Piece::token(
                node.equal_token,
                node.equal_token,
                Multiset::empty(),
                Multiset::empty(),
            );
            lemma_same(
                config,
                expression_tokens(node.start, true),
                expression_tokens(node.start, false),
            );
            let part3 = Piece::same(
                expression_tokens(node.start, true),
                expression_tokens(node.start, false),
            );
            lemma_same_token(config, node.start_end_comma);
            let part4 = Piece::token(
                node.start_end_comma,
                node.start_end_comma,
                Multiset::empty(),
                Multiset::empty(),
            );
            lemma_same(
                config,
                expression_tokens(node.end, true),
                expression_tokens(node.end, false),
            );
            let part5 = Piece::same(
                expression_tokens(node.end, true),
                expression_tokens(node.end, false),
            );
            lemma_same(config, step_tokens(node.step, true), step_tokens(node.step, false));
            let part6 = Piece::same(step_tokens(node.step, true), step_tokens(node.step, false));
            lemma_same_token(config, node.do_token);
            let part7 = Piece::token(
                node.do_token,
                node.do_token,
                Multiset::empty(),
                Multiset::empty(),
            );
            lemma_same(config, block_tokens(node.block, true), block_tokens(node.block, false));
            let part8 = Piece::same(
                block_tokens(node.block, true),
                block_tokens(node.block, false),
            );
            lemma_take_piece(config, node.end_token);
            let part9 = Piece::token(
                node.end_token,
                trail(node.end_token, cleared()),
                Multiset::empty(),
                kept(node.end_token.trailing),
            );
            lemma_followed_by(config, part0, part1);
            let q1 = part0.followed_by(part1);
            lemma_followed_by(config, q1, part2);
            let q2 = q1.followed_by(part2);
            lemma_followed_by(config, q2, part3);
            let q3 = q2.followed_by(part3);
            lemma_followed_by(config, q3, part4);
            let q4 = q3.followed_by(part4);
            lemma_followed_by(config, q4, part5);
            let q5 = q4.followed_by(part5);
            lemma_followed_by(config, q5, part6);
            let q6 = q5.followed_by(part6);
            lemma_followed_by(config, q6, part7);
            let q7 = q6.followed_by(part7);
            lemma_followed_by(config, q7, part8);
            let q8 = q7.followed_by(part8);
            lemma_followed_by(config, q8, part9);
            let whole = q8.followed_by(part9);
            assert(
                whole.taken.add(kept(stmt_last_trailing(stmt)))
                    =~= whole.given.add(Multiset::empty())
            );
            lemma_conclude(
                config,
                whole,
                stmt_piece(
                    stmt,
                    stmt_last_updated(stmt, cleared()),
                    Multiset::empty(),
                    kept(stmt_last_trailing(stmt)),
                ),
            );
        },
        StmtView::Repeat(node) => {
            lemma_same_token(config, node.repeat_token);
            let part0 = Piece::token(
                node.repeat_token,
                node.repeat_token,
                Multiset::empty(),
                Multiset::empty(),
            );
            lemma_same(config, block_tokens(node.block, true), block_tokens(node.block, false));
            let part1 = Piece::same(
                block_tokens(node.block, true),
                block_tokens(node.block, false),
            );
            lemma_same_token(config, node.until_token);
            let part2 = Piece::token(
                node.until_token,
                node.until_token,
                Multiset::empty(),
                Multiset::empty(),
            );
            lemma_last_cleared(config, node.until);
            let part3 = expression_piece(
                node.until,
                last_updated(node.until, cleared()),
                Multiset::empty(),
                kept(last_trailing(node.until)),
            );
            lemma_followed_by(config, part0, part1);
            let q1 = part0.followed_by(part1);
            lemma_followed_by(config, q1, part2);
            let q2 = q1.followed_by(part2);
            lemma_followed_by(config, q2, part3);
            let whole = q2.followed_by(part3);
            assert(
                whole.taken.add(kept(stmt_last_trailing(stmt)))
                    =~= whole.given.add(Multiset::empty())
            );
            lemma_conclude(
                config,
                whole,
                stmt_piece(
                    stmt,
                    stmt_last_updated(stmt, cleared()),
                    Multiset::empty(),
                    kept(stmt_last_trailing(stmt)),
                ),
            );
        },
        StmtView::While(node) => {
            lemma_same_token(config, node.while_token);
            let part0 = Piece::token(
                node.while_token,
                node.while_token,
                Multiset::empty(),
                Multiset::empty(),
            );
            lemma_same(
                config,
                expression_tokens(node.condition, true),
                expression_tokens(node.condition, false),
            );
            let part1 = Piece::same(
                expression_tokens(node.condition, true),
                expression_tokens(node.condition, false),
            );
            lemma_same_token(config, node.do_token);
            let part2 = Piece::token(
                node.do_token,
                node.do_token,
                Multiset::empty(),
                Multiset::empty(),
            );
            lemma_same(config, block_tokens(node.block, true), block_tokens(node.block, false));
            let part3 = Piece::same(
                block_tokens(node.block, true),
                block_tokens(node.block, false),
            );
            lemma_take_piece(config, node.end_token);
            let part4 = Piece::token(
                node.end_token,
                trail(node.end_token, cleared()),
                Multiset::empty(),
                kept(node.end_token.trailing),
            );
            lemma_followed_by(config, part0, part1);
            let q1 = part0.followed_by(part1);
            lemma_followed_by(config, q1, part2);
            let q2 = q1.followed_by(part2);
            lemma_followed_by(config, q2, part3);
            let q3 = q2.followed_by(part3);
            lemma_followed_by(config, q3, part4);
            let whole = q3.followed_by(part4);
            assert(
                whole.taken.add(kept(stmt_last_trailing(stmt)))
                    =~= whole.given.add(Multiset::empty())
            );
            lemma_conclude(
                config,
                whole,
                stmt_piece(
                    stmt,
                    stmt_last_updated(stmt, cleared()),
                    Multiset::empty(),
                    kept(stmt_last_trailing(stmt)),
                ),
            );
        },
    }
}

/// A `return` or `break` without the trivia behind its last token has its
/// tokens; the comments that stood behind the token are given away.
#[verifier::spinoff_prover]
pub proof fn lemma_last_stmt_last_cleared(config: Config, stmt: LastStmtView)
    ensures
        last_stmt_piece(
            stmt,
            last_stmt_last_updated(stmt, cleared()),
            Multiset::empty(),
            kept(last_stmt_last_trailing(stmt)),
        ).sound(config),
{
    reveal(last_stmt_tokens);
    match stmt {
        LastStmtView::Break(token) => {
            lemma_take_piece(config, token);
            let part0 = Piece::token(
                token,
                trail(token, cleared()),
                Multiset::empty(),
                kept(token.trailing),
            );
            let whole = part0;
            assert(
                whole.taken.add(kept(last_stmt_last_trailing(stmt)))
                    =~= whole.given.add(Multiset::empty())
            );
            lemma_conclude(
                config,
                whole,
                last_stmt_piece(
                    stmt,
                    last_stmt_last_updated(stmt, cleared()),
                    Multiset::empty(),
                    kept(last_stmt_last_trailing(stmt)),
                ),
            );
        },
        LastStmtView::Return { token, values } => {
            lemma_line_end_cleared(config, token, values);
            let part0 = ended_piece(token, values);
            let whole = part0;
            assert(
                whole.taken.add(kept(last_stmt_last_trailing(stmt)))
                    =~= whole.given.add(Multiset::empty())
            );
            lemma_conclude(
                config,
                whole,
                last_stmt_piece(
                    stmt,
                    last_stmt_last_updated(stmt, cleared()),
                    Multiset::empty(),
                    kept(last_stmt_last_trailing(stmt)),
                ),
            );
        },
    }
}


/// The semicolon right behind a statement is the semicolon; it has its
/// comments and those that stood behind the statement.
pub proof fn lemma_joined_semicolon(
    config: Config,
    semicolon: TokenReferenceView,
    behind: Seq<TokenView>,
)
    ensures
        Piece::token(
            semicolon,
            joined_semicolon(semicolon, behind),
            kept(behind),
            Multiset::empty(),
        ).sound(config),
{
    let joined = joined_semicolon(semicolon, behind);
    lemma_format_trailing(semicolon.leading);
    lemma_format_trailing(semicolon.trailing);
    lemma_kept_add(
        crate::formatter::format_trailing(semicolon.leading),
        crate::formatter::format_trailing(semicolon.trailing),
    );
    lemma_kept_add(dropped_comments(semicolon), behind);
    assert(kept(Seq::<TokenView>::empty()) =~= Multiset::empty());
    assert(token_comments(joined).add(Multiset::empty()) =~= token_comments(semicolon).add(
        kept(behind),
    ));
    lemma_token_piece(config, semicolon, joined, kept(behind), Multiset::empty());
}

/// The piece of a statement with its semicolon and of what was made of the two.
pub open spec fn block_stmt_piece(before: BlockStmtView, after: BlockStmtView) -> Piece {
    Piece {
        before_all: stmt_tokens(before.stmt, true) + optional_token(before.semicolon),
        before_kept: stmt_tokens(before.stmt, false) + optional_token(before.semicolon),
        after_all: stmt_tokens(after.stmt, true) + optional_token(after.semicolon),
        after_kept: stmt_tokens(after.stmt, false) + optional_token(after.semicolon),
        taken: Multiset::empty(),
        given: Multiset::empty(),
    }
}

/// A formatted statement with the semicolon right behind it has the tokens
/// of the statement and of the semicolon, and their comments.
pub proof fn lemma_ended_stmt(
    config: Config,
    before: BlockStmtView,
    formatted: StmtView,
)
    requires
        stmt_piece(before.stmt, formatted, Multiset::empty(), Multiset::empty()).sound(config),
    ensures
        block_stmt_piece(before, ended_stmt(formatted, before.semicolon)).sound(config),
        block_stmt_piece(
            before,
            BlockStmtView { stmt: formatted, semicolon: before.semicolon },
        ).sound(config),
{
    let first = stmt_piece(before.stmt, formatted, Multiset::empty(), Multiset::empty());
    lemma_same(config, optional_token(before.semicolon), optional_token(before.semicolon));
    let same = Piece::same(optional_token(before.semicolon), optional_token(before.semicolon));
    lemma_followed_by(config, first, same);
    lemma_conclude(
        config,
        first.followed_by(same),
        block_stmt_piece(before, BlockStmtView { stmt: formatted, semicolon: before.semicolon }),
    );
    match before.semicolon {
        Some(token) => {
            let behind = stmt_last_trailing(formatted);
            lemma_stmt_last_cleared(config, formatted);
            let next = stmt_piece(
                formatted,
                stmt_last_updated(formatted, cleared()),
                Multiset::empty(),
                kept(behind),
            );
            lemma_and_then_to(config, first, next);
            lemma_joined_semicolon(config, token, behind);
            let last = Piece::token(
                token,
                joined_semicolon(token, behind),
                kept(behind),
                Multiset::empty(),
            );
            lemma_followed_by(config, first.and_then_to(next), last);
            let whole = first.and_then_to(next).followed_by(last);
            assert(whole.taken.add(Multiset::empty()) =~= whole.given.add(Multiset::empty()));
            lemma_conclude(
                config,
                whole,
                block_stmt_piece(before, ended_stmt(formatted, before.semicolon)),
            );
        },
        None => {},
    }
}

/// The piece of a `return` or `break` with its semicolon and of what was made
/// of the two.
pub open spec fn block_last_stmt_piece(before: BlockLastStmtView, after: BlockLastStmtView)
    -> Piece {
    Piece {
        before_all: last_stmt_tokens(before.stmt, true) + optional_token(before.semicolon),
        before_kept: last_stmt_tokens(before.stmt, false) + optional_token(before.semicolon),
        after_all: last_stmt_tokens(after.stmt, true) + optional_token(after.semicolon),
        after_kept: last_stmt_tokens(after.stmt, false) + optional_token(after.semicolon),
        taken: Multiset::empty(),
        given: Multiset::empty(),
    }
}

/// A formatted `return` or `break` with the semicolon right behind it has
/// the tokens of the statement and of the semicolon, and their comments.
pub proof fn lemma_ended_last_stmt(
    config: Config,
    before: BlockLastStmtView,
    formatted: LastStmtView,
)
    requires
        last_stmt_piece(before.stmt, formatted, Multiset::empty(), Multiset::empty()).sound(
            config,
        ),
    ensures
        block_last_stmt_piece(before, ended_last_stmt(formatted, before.semicolon)).sound(config),
{
    let first = last_stmt_piece(before.stmt, formatted, Multiset::empty(), Multiset::empty());
    match before.semicolon {
        Some(token) => {
            let behind = last_stmt_last_trailing(formatted);
            lemma_last_stmt_last_cleared(config, formatted);
            let next = last_stmt_piece(
                formatted,
                last_stmt_last_updated(formatted, cleared()),
                Multiset::empty(),
                kept(behind),
            );
            lemma_and_then_to(config, first, next);
            lemma_joined_semicolon(config, token, behind);
            let last = Piece::token(
                token,
                joined_semicolon(token, behind),
                kept(behind),
                Multiset::empty(),
            );
            lemma_followed_by(config, first.and_then_to(next), last);
            let whole = first.and_then_to(next).followed_by(last);
            assert(whole.taken.add(Multiset::empty()) =~= whole.given.add(Multiset::empty()));
            lemma_conclude(
                config,
                whole,
                block_last_stmt_piece(before, ended_last_stmt(formatted, before.semicolon)),
            );
        },
        None => {
            lemma_same(config, optional_token(before.semicolon), optional_token(before.semicolon));
            let same = Piece::same(
                optional_token(before.semicolon),
                optional_token(before.semicolon),
            );
            lemma_followed_by(config, first, same);
            lemma_conclude(
                config,
                first.followed_by(same),
                block_last_stmt_piece(before, ended_last_stmt(formatted, before.semicolon)),
            );
        },
    }
}

} // verus!

