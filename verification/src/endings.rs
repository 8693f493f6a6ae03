//! The end of a statement: the trivia behind its last token, and the
//! semicolon that may follow it.
//!
//! A formatted statement ends its line: the line break stands behind its last
//! token. A semicolon behind the statement belongs on that line, so it takes
//! over what stood behind the last token.

use vstd::prelude::*;
use crate::ast::{
    Assignment, BlockLastStmt, BlockStmt, Do, FunctionCall, FunctionDeclaration, GenericFor, If,
    LastStmt, LocalAssignment, LocalFunction, NumericFor, Pair, Punctuated, Repeat, Stmt, While,
};
use crate::edge_laws::suffixed_last_trailing;
use crate::edges::{
    cleared, last_trailing, last_updated, lemma_view_suffixes_len, suffixed_last_updated,
    take_body_trailing, take_expression_trailing, take_prefix_trailing, take_suffixes_trailing,
    take_trailing_trivia, trail,
};
use crate::expression::{joined, take_comments};
use crate::layout::{dropped_comments, line_end};
use crate::token::{tokens_view, Token, TokenReference, TokenReferenceView, TokenView};
use crate::trivia::FormatTriviaTypeView;
use crate::view::{
    view_block_stmt, view_if, view_last_stmt, view_optional, view_pair, view_pairs,
    view_punctuated, view_stmt, AssignmentView, BlockLastStmtView, BlockStmtView, DoView,
    FunctionBodyView, FunctionDeclarationView, GenericForView, IfView, LastStmtView,
    LocalAssignmentView, LocalFunctionView, NumericForView, PairView, PunctuatedView, RepeatView,
    StmtView, WhileView,
};

verus! {

/// The trivia behind the last token of the element: behind its separator if
/// it has one, else behind its value.
pub open spec fn pair_last_trailing(pair: PairView) -> Seq<TokenView> {
    match pair.separator {
        Some(separator) => separator.trailing,
        None => last_trailing(pair.value),
    }
}

/// The trivia at the end of a line that a list ends: those behind the last
/// token of the list, or behind `fallback`, the token in front of the list,
/// where the list is empty.
pub open spec fn line_end_trailing(fallback: TokenReferenceView, list: PunctuatedView) -> Seq<
    TokenView,
> {
    if list.pairs.len() == 0 {
        fallback.trailing
    } else {
        pair_last_trailing(list.pairs.last())
    }
}

/// The function body with the trivia behind its `end` edited.
pub open spec fn body_ended(body: FunctionBodyView, edit: FormatTriviaTypeView)
    -> FunctionBodyView {
    FunctionBodyView { end_token: trail(body.end_token, edit), ..body }
}

/// The trivia behind the last token of the statement.
pub open spec fn stmt_last_trailing(stmt: StmtView) -> Seq<TokenView> {
    match stmt {
        StmtView::Assignment(node) => line_end_trailing(node.equal_token, node.expr_list),
        StmtView::Do(node) => node.end_token.trailing,
        StmtView::FunctionCall(call) => suffixed_last_trailing(call),
        StmtView::FunctionDeclaration(node) => node.body.end_token.trailing,
        StmtView::GenericFor(node) => node.end_token.trailing,
        StmtView::If(node) => node.end_token.trailing,
        StmtView::LocalAssignment(node) => match node.equal_token {
            Some(equal) => line_end_trailing(equal, node.expr_list),
            None => line_end_trailing(node.local_token, node.name_list),
        },
        StmtView::LocalFunction(node) => node.body.end_token.trailing,
        StmtView::NumericFor(node) => node.end_token.trailing,
        StmtView::Repeat(node) => last_trailing(node.until),
        StmtView::While(node) => node.end_token.trailing,
    }
}

/// The statement with the trailing trivia of its last token edited.
pub open spec fn stmt_last_updated(stmt: StmtView, edit: FormatTriviaTypeView) -> StmtView {
    match stmt {
        StmtView::Assignment(node) => {
            let (equal_token, expr_list) = line_end(node.equal_token, node.expr_list, edit);
            StmtView::Assignment(AssignmentView { equal_token, expr_list, ..node })
        },
        StmtView::Do(node) => StmtView::Do(
            DoView { end_token: trail(node.end_token, edit), ..node },
        ),
        StmtView::FunctionCall(call) => StmtView::FunctionCall(suffixed_last_updated(call, edit)),
        StmtView::FunctionDeclaration(node) => StmtView::FunctionDeclaration(
            FunctionDeclarationView { body: body_ended(node.body, edit), ..node },
        ),
        StmtView::GenericFor(node) => StmtView::GenericFor(
            GenericForView { end_token: trail(node.end_token, edit), ..node },
        ),
        StmtView::If(node) => StmtView::If(
            IfView { end_token: trail(node.end_token, edit), ..node },
        ),
        StmtView::LocalAssignment(node) => match node.equal_token {
            Some(equal) => {
                let (equal_token, expr_list) = line_end(equal, node.expr_list, edit);
                StmtView::LocalAssignment(
                    LocalAssignmentView { equal_token: Some(equal_token), expr_list, ..node },
                )
            },
            None => {
                let (local_token, name_list) = line_end(node.local_token, node.name_list, edit);
                StmtView::LocalAssignment(LocalAssignmentView { local_token, name_list, ..node })
            },
        },
        StmtView::LocalFunction(node) => StmtView::LocalFunction(
            LocalFunctionView { body: body_ended(node.body, edit), ..node },
        ),
        StmtView::NumericFor(node) => StmtView::NumericFor(
            NumericForView { end_token: trail(node.end_token, edit), ..node },
        ),
        StmtView::Repeat(node) => StmtView::Repeat(
            RepeatView { until: last_updated(node.until, edit), ..node },
        ),
        StmtView::While(node) => StmtView::While(
            WhileView { end_token: trail(node.end_token, edit), ..node },
        ),
    }
}

/// The trivia behind the last token of a `return` or a `break`.
pub open spec fn last_stmt_last_trailing(stmt: LastStmtView) -> Seq<TokenView> {
    match stmt {
        LastStmtView::Break(token) => token.trailing,
        LastStmtView::Return { token, values } => line_end_trailing(token, values),
    }
}

/// The `return` or `break` with the trailing trivia of its last token edited.
pub open spec fn last_stmt_last_updated(stmt: LastStmtView, edit: FormatTriviaTypeView)
    -> LastStmtView {
    match stmt {
        LastStmtView::Break(token) => LastStmtView::Break(trail(token, edit)),
        LastStmtView::Return { token, values } => {
            let (ended, list) = line_end(token, values, edit);
            LastStmtView::Return { token: ended, values: list }
        },
    }
}

/// The semicolon right behind a statement. It ends the line of the
/// statement: behind it stand its own comments and then `behind`, what
/// stood behind the last token of the statement.
pub open spec fn joined_semicolon(semicolon: TokenReferenceView, behind: Seq<TokenView>)
    -> TokenReferenceView {
    TokenReferenceView {
        leading: Seq::empty(),
        token: semicolon.token,
        trailing: dropped_comments(semicolon) + behind,
    }
}

/// A formatted statement with the semicolon that follows it, if there is
/// one: the semicolon stands right behind the statement and ends its line.
pub open spec fn ended_stmt(stmt: StmtView, semicolon: Option<TokenReferenceView>)
    -> BlockStmtView {
    match semicolon {
        Some(token) => BlockStmtView {
            stmt: stmt_last_updated(stmt, cleared()),
            semicolon: Some(joined_semicolon(token, stmt_last_trailing(stmt))),
        },
        None => BlockStmtView { stmt, semicolon: None },
    }
}

/// A formatted `return` or `break` with the semicolon that follows it, if
/// there is one: the semicolon stands right behind it and ends its line.
pub open spec fn ended_last_stmt(stmt: LastStmtView, semicolon: Option<TokenReferenceView>)
    -> BlockLastStmtView {
    match semicolon {
        Some(token) => BlockLastStmtView {
            stmt: last_stmt_last_updated(stmt, cleared()),
            semicolon: Some(joined_semicolon(token, last_stmt_last_trailing(stmt))),
        },
        None => BlockLastStmtView { stmt, semicolon: None },
    }
}

/// The list at the end of a line without the trivia that end the line, and
/// those trivia.
#[verifier::spinoff_prover]
pub fn take_line_end(fallback: TokenReference, list: Punctuated) -> (result: (
    TokenReference,
    Punctuated,
    Vec<Token>,
))
    ensures
        (result.0@, result.1@) == line_end(fallback@, list@, cleared()),
        tokens_view(result.2@) == line_end_trailing(fallback@, list@),
{
    proof {
        reveal(view_punctuated);
        reveal(view_pairs);
        reveal(view_pair);
    }
    let mut pairs = list.pairs;
    if pairs.len() == 0 {
        let (fallback, taken) = take_trailing_trivia(fallback);
        return (fallback, Punctuated { pairs }, taken);
    }
    let ghost before = view_pairs(pairs);
    let last = pairs.pop().unwrap();
    let (updated, taken) = match last.separator {
        Some(separator) => {
            let (separator, taken) = take_trailing_trivia(separator);
            (Pair { value: last.value, separator: Some(separator) }, taken)
        },
        None => {
            let (value, taken) = take_expression_trailing(last.value);
            (Pair { value, separator: None }, taken)
        },
    };
    pairs.push(updated);
    assert(view_pairs(pairs) =~= before.drop_last().push(
        crate::edges::pair_last_updated(before.last(), cleared()),
    ));
    (fallback, Punctuated { pairs }, taken)
}

/// The conditional without the trivia behind its `end`, and those trivia.
#[verifier::spinoff_prover]
pub fn take_if_trailing(node: If) -> (result: (If, Vec<Token>))
    ensures
        result.0@ == (IfView { end_token: trail(node@.end_token, cleared()), ..node@ }),
        tokens_view(result.1@) == node@.end_token.trailing,
{
    proof {
        reveal(view_if);
    }
    let (end_token, taken) = take_trailing_trivia(node.end_token);
    (
        If {
            if_token: node.if_token,
            condition: node.condition,
            then_token: node.then_token,
            block: node.block,
            else_if: node.else_if,
            else_branch: node.else_branch,
            end_token,
        },
        taken,
    )
}

/// The call without the trivia behind its last token, and those trivia.
#[verifier::spinoff_prover]
pub fn take_call_trailing(call: FunctionCall) -> (result: (FunctionCall, Vec<Token>))
    ensures
        result.0@ == suffixed_last_updated(call@, cleared()),
        tokens_view(result.1@) == suffixed_last_trailing(call@),
{
    proof {
        lemma_view_suffixes_len(call.suffixes);
    }
    if call.suffixes.len() == 0 {
        let (prefix, taken) = take_prefix_trailing(call.prefix);
        (FunctionCall { prefix, suffixes: call.suffixes }, taken)
    } else {
        let (suffixes, taken) = take_suffixes_trailing(call.suffixes);
        (FunctionCall { prefix: call.prefix, suffixes }, taken)
    }
}

/// The statement without the trivia behind its last token, and those trivia.
#[verifier::spinoff_prover]
pub fn take_stmt_trailing(stmt: Stmt) -> (result: (Stmt, Vec<Token>))
    ensures
        result.0@ == stmt_last_updated(stmt@, cleared()),
        tokens_view(result.1@) == stmt_last_trailing(stmt@),
{
    proof {
        reveal(view_stmt);
    }
    match stmt {
        Stmt::Assignment(node) => {
            let (equal_token, expr_list, taken) = take_line_end(node.equal_token, node.expr_list);
            (
                Stmt::Assignment(Assignment { var_list: node.var_list, equal_token, expr_list }),
                taken,
            )
        },
        Stmt::Do(node) => {
            let (end_token, taken) = take_trailing_trivia(node.end_token);
            (Stmt::Do(Do { do_token: node.do_token, block: node.block, end_token }), taken)
        },
        Stmt::FunctionCall(call) => {
            let (call, taken) = take_call_trailing(call);
            (Stmt::FunctionCall(call), taken)
        },
        Stmt::FunctionDeclaration(node) => {
            let (body, taken) = take_body_trailing(node.body);
            (
                Stmt::FunctionDeclaration(
                    FunctionDeclaration {
                        function_token: node.function_token,
                        name: node.name,
                        body,
                    },
                ),
                taken,
            )
        },
        Stmt::GenericFor(node) => {
            let (end_token, taken) = take_trailing_trivia(node.end_token);
            (
                Stmt::GenericFor(
                    GenericFor {
                        for_token: node.for_token,
                        names: node.names,
                        in_token: node.in_token,
                        expr_list: node.expr_list,
                        do_token: node.do_token,
                        block: node.block,
                        end_token,
                    },
                ),
                taken,
            )
        },
        Stmt::If(node) => {
            let (node, taken) = take_if_trailing(node);
            (Stmt::If(node), taken)
        },
        Stmt::LocalAssignment(node) => match node.equal_token {
            Some(equal) => {
                let (equal, expr_list, taken) = take_line_end(equal, node.expr_list);
                (
                    Stmt::LocalAssignment(
                        LocalAssignment {
                            local_token: node.local_token,
                            name_list: node.name_list,
                            equal_token: Some(equal),
                            expr_list,
                        },
                    ),
                    taken,
                )
            },
            None => {
                let (local_token, name_list, taken) = take_line_end(
                    node.local_token,
                    node.name_list,
                );
                (
                    Stmt::LocalAssignment(
                        LocalAssignment {
                            local_token,
                            name_list,
                            equal_token: None,
                            expr_list: node.expr_list,
                        },
                    ),
                    taken,
                )
            },
        },
        Stmt::LocalFunction(node) => {
            let (body, taken) = take_body_trailing(node.body);
            (
                Stmt::LocalFunction(
                    LocalFunction {
                        local_token: node.local_token,
                        function_token: node.function_token,
                        name: node.name,
                        body,
                    },
                ),
                taken,
            )
        },
        Stmt::NumericFor(node) => {
            let (end_token, taken) = take_trailing_trivia(node.end_token);
            (
                Stmt::NumericFor(
                    NumericFor {
                        for_token: node.for_token,
                        index_variable: node.index_variable,
                        equal_token: node.equal_token,
                        start: node.start,
                        start_end_comma: node.start_end_comma,
                        end: node.end,
                        step: node.step,
                        do_token: node.do_token,
                        block: node.block,
                        end_token,
                    },
                ),
                taken,
            )
        },
        Stmt::Repeat(node) => {
            let (until, taken) = take_expression_trailing(node.until);
            (
                Stmt::Repeat(
                    Repeat {
                        repeat_token: node.repeat_token,
                        block: node.block,
                        until_token: node.until_token,
                        until,
                    },
                ),
                taken,
            )
        },
        Stmt::While(node) => {
            let (end_token, taken) = take_trailing_trivia(node.end_token);
            (
                Stmt::While(
                    While {
                        while_token: node.while_token,
                        condition: node.condition,
                        do_token: node.do_token,
                        block: node.block,
                        end_token,
                    },
                ),
                taken,
            )
        },
    }
}

/// The `return` or `break` without the trivia behind its last token, and
/// those trivia.
#[verifier::spinoff_prover]
pub fn take_last_stmt_trailing(stmt: LastStmt) -> (result: (LastStmt, Vec<Token>))
    ensures
        result.0@ == last_stmt_last_updated(stmt@, cleared()),
        tokens_view(result.1@) == last_stmt_last_trailing(stmt@),
{
    proof {
        reveal(view_last_stmt);
    }
    match stmt {
        LastStmt::Break(token) => {
            let (token, taken) = take_trailing_trivia(token);
            (LastStmt::Break(token), taken)
        },
        LastStmt::Return { token, values } => {
            let (token, values, taken) = take_line_end(token, values);
            (LastStmt::Return { token, values }, taken)
        },
    }
}

/// The semicolon right behind a statement, with `behind` at its end.
pub fn join_semicolon(semicolon: TokenReference, behind: Vec<Token>) -> (result: TokenReference)
    ensures
        result@ == joined_semicolon(semicolon@, tokens_view(behind@)),
{
    let comments = take_comments(&semicolon);
    let empty: Vec<Token> = Vec::new();
    assert(tokens_view(empty@) =~= Seq::empty());
    TokenReference {
        leading_trivia: empty,
        token: semicolon.token,
        trailing_trivia: joined(comments, behind),
    }
}

/// A formatted statement with the semicolon that follows it, if there is one.
#[verifier::spinoff_prover]
pub fn end_stmt(stmt: Stmt, semicolon: Option<TokenReference>) -> (result: BlockStmt)
    ensures
        view_block_stmt(result) == ended_stmt(stmt@, view_optional(semicolon)),
{
    proof {
        reveal(view_block_stmt);
    }
    match semicolon {
        Some(token) => {
            let (stmt, behind) = take_stmt_trailing(stmt);
            BlockStmt { stmt, semicolon: Some(join_semicolon(token, behind)) }
        },
        None => BlockStmt { stmt, semicolon: None },
    }
}

/// A formatted `return` or `break` with the semicolon that follows it, if
/// there is one.
pub fn end_last_stmt(stmt: LastStmt, semicolon: Option<TokenReference>) -> (result: BlockLastStmt)
    ensures
        result.stmt@ == ended_last_stmt(stmt@, view_optional(semicolon)).stmt,
        view_optional(result.semicolon) == ended_last_stmt(
            stmt@,
            view_optional(semicolon),
        ).semicolon,
{
    match semicolon {
        Some(token) => {
            let (stmt, behind) = take_last_stmt_trailing(stmt);
            BlockLastStmt { stmt, semicolon: Some(join_semicolon(token, behind)) }
        },
        None => BlockLastStmt { stmt, semicolon: None },
    }
}

} // verus!
