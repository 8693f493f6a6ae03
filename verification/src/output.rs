//! The text of a formatted chunk.
//!
//! A chunk is formatted as a tree and written out token by token. On the way
//! every single-line comment gets a line break behind it where it has none,
//! so that no comment of the chunk can hold a token of the text.

use vstd::prelude::*;
use crate::ast::Ast;
use crate::block::{format_ast, formatted_ast};
use crate::close::{
    close_tokens, closed_tokens, lemma_closed_tokens, lemma_closed_tokens_comments,
    lemma_closed_tokens_kept, lemma_closed_tokens_same, lemma_closed_tokens_tidy, tokens_closed,
};
use crate::config::Config;
use crate::flatten::{ast_tokens, block_token_list, push_token};
use crate::formatter::{CodeFormatter, FormatterState};
use crate::laws::{atoms_kept, comments_of};
use crate::layout_laws::{lemma_format_keeps_comments, lemma_format_keeps_tokens};
use crate::measure::{print_tokens, printed};
use crate::tidy::{lemma_made_whitespace, no_directive, tokens_tidy};
use crate::tidy_layout::lemma_format_writes_tidy_whitespace;
use crate::token::{TokenReferenceView, TokenView};
use crate::twice::lemma_canonical_whitespace;
use crate::view::AstView;

verus! {

/// The whitespace that ends a line under the configuration.
pub open spec fn line_ending(config: Config) -> TokenView {
    FormatterState::initial(config, None).newline_trivia()
}

/// The tokens of the formatted chunk as they are written out: those of the
/// formatted tree, with a line break behind every single-line comment. With
/// `all` unset, the separators behind the last elements of lists are left out.
pub open spec fn formatted_tokens(
    config: Config,
    range: Option<(usize, usize)>,
    ast: AstView,
    all: bool,
) -> Seq<TokenReferenceView> {
    closed_tokens(line_ending(config), ast_tokens(formatted_ast(config, range, ast), all))
}

/// The text of the formatted chunk.
pub open spec fn formatted_text(config: Config, range: Option<(usize, usize)>, ast: AstView)
    -> Seq<u8> {
    printed(formatted_tokens(config, range, ast, true))
}

/// Formats a chunk under a configuration and writes it out. Where `range` is
/// given, the statements that lie wholly outside it stay as they are.
pub fn format_text(ast: Ast, config: Config, range: Option<(usize, usize)>) -> (text: Vec<u8>)
    ensures
        text@ == formatted_text(config, range, ast@),
{
    let formatted = format_ast(ast, config, range);
    let newline = CodeFormatter::new(config, None).create_newline_trivia();
    let mut tokens = block_token_list(&formatted.block);
    push_token(&formatted.eof, &mut tokens);
    let closed = close_tokens(&tokens, &newline);
    print_tokens(&closed)
}

/// The text keeps the tokens of the chunk: what is written out has the
/// tokens of the chunk, one for one and in the same order, where the
/// separators behind the last elements of lists are left out of account.
/// Every token is the token it was, but that a string literal may have other
/// quotes.
pub proof fn lemma_text_keeps_tokens(config: Config, range: Option<(usize, usize)>, ast: AstView)
    ensures
        atoms_kept(config, ast_tokens(ast, false), formatted_tokens(config, range, ast, false)),
{
    lemma_format_keeps_tokens(config, range, ast);
    lemma_closed_tokens_kept(
        config,
        line_ending(config),
        ast_tokens(ast, false),
        ast_tokens(formatted_ast(config, range, ast), false),
    );
}

/// The text keeps the comments of the chunk: the comments that are written
/// out are, as a multiset, the comments on the tokens of the chunk.
pub proof fn lemma_text_keeps_comments(
    config: Config,
    range: Option<(usize, usize)>,
    ast: AstView,
)
    ensures
        comments_of(formatted_tokens(config, range, ast, true)) == comments_of(
            ast_tokens(ast, true),
        ),
{
    lemma_format_keeps_comments(config, range, ast);
    lemma_closed_tokens_comments(
        line_ending(config),
        ast_tokens(formatted_ast(config, range, ast), true),
    );
}

/// In the text every single-line comment ends its line: a line break follows
/// it, so that no token of the chunk is written on the line of a comment.
pub proof fn lemma_text_ends_comment_lines(
    config: Config,
    range: Option<(usize, usize)>,
    ast: AstView,
    all: bool,
)
    ensures
        tokens_closed(formatted_tokens(config, range, ast, all)),
{
    lemma_canonical_whitespace(FormatterState::initial(config, None), None);
    lemma_closed_tokens(line_ending(config), ast_tokens(formatted_ast(config, range, ast), all));
}

/// The text holds tidy whitespace: where no range restricts the pass and no
/// comment in front of a token of the chunk is a directive, all the
/// whitespace that is written out is an indent, a blank between two tokens,
/// or one line ending of the configured kind.
pub proof fn lemma_text_holds_tidy_whitespace(config: Config, ast: AstView)
    requires
        no_directive(ast_tokens(ast, true)),
    ensures
        tokens_tidy(config, formatted_tokens(config, None, ast, true)),
{
    lemma_format_writes_tidy_whitespace(config, ast);
    lemma_made_whitespace(config, FormatterState::initial(config, None), None);
    lemma_closed_tokens_tidy(
        config,
        line_ending(config),
        ast_tokens(formatted_ast(config, None, ast), true),
    );
}

/// Where every single-line comment of the formatted tree ends its line
/// already, the text is the tree written out as it is.
pub proof fn lemma_text_of_closed_tree(
    config: Config,
    range: Option<(usize, usize)>,
    ast: AstView,
)
    requires
        tokens_closed(ast_tokens(formatted_ast(config, range, ast), true)),
    ensures
        formatted_text(config, range, ast) == printed(
            ast_tokens(formatted_ast(config, range, ast), true),
        ),
{
    lemma_closed_tokens_same(
        line_ending(config),
        ast_tokens(formatted_ast(config, range, ast), true),
    );
}

} // verus!
