//! Formatting blocks and whole chunks.

use vstd::prelude::*;
use crate::ast::{Ast, Block, BlockLastStmt, BlockStmt};
use crate::config::Config;
use crate::flatten::{
    ast_tokens, block_token_list, last_stmt_token_list, push_token, stmt_token_list,
};
use crate::formatter::{format_trailing, format_trailing_trivia, CodeFormatter, FormatterState};
use crate::endings::{end_last_stmt, end_stmt};
use crate::layout::{
    formatted_block, formatted_block_last, formatted_nested_block, formatted_stmts,
};
use crate::measure::{print_tokens, printed};
use crate::token::{TokenReference, TokenReferenceView};
use crate::view::AstView;
use crate::vectors::{
    lemma_view_block_stmts, lemma_view_block_stmts_empty, lemma_view_block_stmts_push, reversed,
};
use crate::view::{view_block, view_block_last, view_block_stmt, view_block_stmts};

verus! {

/// The token that ends the file, formatted: the comments in front of it stand
/// on lines of their own.
pub open spec fn formatted_eof(state: FormatterState, eof: TokenReferenceView)
    -> TokenReferenceView {
    TokenReferenceView {
        leading: state.format_leading(eof.leading, None),
        token: eof.token,
        trailing: format_trailing(eof.trailing),
    }
}

/// The formatted chunk under a configuration, with formatting restricted to
/// `range` where one is given.
pub open spec fn formatted_ast(config: Config, range: Option<(usize, usize)>, ast: AstView)
    -> AstView {
    let (end_state, block) = formatted_block(FormatterState::initial(config, range), ast.block);
    AstView { block, eof: formatted_eof(end_state, ast.eof) }
}

/// Formats a whole chunk under a configuration. Where `range` is given, the
/// statements that lie wholly outside it stay as they are.
pub fn format_ast(ast: Ast, config: Config, range: Option<(usize, usize)>) -> (result: Ast)
    ensures
        result@ == formatted_ast(config, range, ast@),
{
    let mut formatter = CodeFormatter::new(config, range);
    let block = formatter.format_block(ast.block);
    let eof = TokenReference {
        leading_trivia: formatter.format_leading_trivia(&ast.eof.leading_trivia, None),
        token: ast.eof.token,
        trailing_trivia: format_trailing_trivia(&ast.eof.trailing_trivia),
    };
    Ast { block, eof }
}

/// The text of a chunk: every token with its trivia, in order.
pub fn print_ast(ast: &Ast) -> (text: Vec<u8>)
    ensures
        text@ == printed(ast_tokens(ast@, true)),
{
    let mut tokens = block_token_list(&ast.block);
    push_token(&ast.eof, &mut tokens);
    print_tokens(&tokens)
}

impl CodeFormatter {
    /// Formats the statements of a block, one after another.
    #[verifier::spinoff_prover]
    pub fn format_stmts(&mut self, stmts: Vec<BlockStmt>) -> (result: Vec<BlockStmt>)
        ensures
            (final(self)@, view_block_stmts(result)) == formatted_stmts(
                old(self)@,
                view_block_stmts(stmts),
                stmts.len() as int,
            ),
        decreases stmts,
    {
        let ghost whole = stmts;
        let ghost views = view_block_stmts(stmts);
        let ghost start = self@;
        let count = stmts.len();
        let mut rest = reversed(stmts);
        let mut done: Vec<BlockStmt> = Vec::new();
        let mut i: usize = 0;
        proof {
            reveal(formatted_stmts);
            lemma_view_block_stmts(whole);
            lemma_view_block_stmts_empty(done);
        }
        while i < count
            invariant
                i <= count,
                count == whole.len(),
                whole == stmts,
                views == view_block_stmts(whole),
                views.len() == count,
                rest.len() == count - i,
                forall|k: int| 0 <= k < rest.len() ==> rest@[k] == whole@[count - 1 - k],
                (self@, view_block_stmts(done)) == formatted_stmts(start, views, i as int),
            decreases count - i,
        {
            let ghost before = done;
            let current = rest.pop().unwrap();
            proof {
                reveal(formatted_stmts);
                reveal(view_block_stmt);
                lemma_view_block_stmts(whole);
                assert(current == whole@[i as int]);
            }
            let tokens = stmt_token_list(&current.stmt);
            let go = self.would_format(&tokens);
            let stmt = self.format_stmt(current.stmt);
            let formatted = if go {
                end_stmt(stmt, current.semicolon)
            } else {
                BlockStmt { stmt, semicolon: current.semicolon }
            };
            done.push(formatted);
            proof {
                lemma_view_block_stmts_push(before, formatted, done);
            }
            i += 1;
        }
        done
    }

    /// Formats the closing statement of a block, if it has one.
    #[verifier::spinoff_prover]
    pub fn format_block_last(&mut self, last: Option<Box<BlockLastStmt>>) -> (result: Option<
        Box<BlockLastStmt>,
    >)
        ensures
            (final(self)@, view_block_last(result)) == formatted_block_last(
                old(self)@,
                view_block_last(last),
            ),
        decreases last,
    {
        proof {
            reveal(formatted_block_last);
            reveal(view_block_last);
        }
        match last {
            Some(last) => {
                let last = *last;
                let tokens = last_stmt_token_list(&last.stmt);
                if self.should_format(&tokens) {
                    let stmt = self.format_last_stmt(last.stmt);
                    Some(Box::new(end_last_stmt(stmt, last.semicolon)))
                } else {
                    Some(Box::new(last))
                }
            },
            None => None,
        }
    }

    /// Formats a block at the indent depth the formatter is at.
    #[verifier::spinoff_prover]
    pub fn format_block(&mut self, block: Block) -> (result: Block)
        ensures
            (final(self)@, result@) == formatted_block(old(self)@, block@),
        decreases block, 0nat,
    {
        proof {
            reveal(formatted_block);
            reveal(view_block);
            lemma_view_block_stmts(block.stmts);
        }
        let stmts = self.format_stmts(block.stmts);
        let last_stmt = self.format_block_last(block.last_stmt);
        Block { stmts, last_stmt }
    }

    /// Formats a block nested in the one that is being visited: one level
    /// deeper, with the depth as before afterwards.
    #[verifier::spinoff_prover]
    pub fn format_nested_block(&mut self, block: Block) -> (result: Block)
        ensures
            (final(self)@, result@) == formatted_nested_block(old(self)@, block@),
        decreases block, 1nat,
    {
        proof {
            reveal(formatted_nested_block);
        }
        let indent_level = self.indent_level;
        self.indent_level = indent_level.saturating_add(1);
        let formatted = self.format_block(block);
        self.indent_level = indent_level;
        formatted
    }
}

} // verus!
