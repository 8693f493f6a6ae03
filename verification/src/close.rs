//! Ending the line of every single-line comment.
//!
//! A single-line comment runs to the end of its line: a token that is
//! written behind it on that line becomes part of it. Formatting takes the
//! whitespace around tokens away, so where a chunk has such a comment in the
//! middle of a statement, the token behind it could end up on the comment's
//! line. Before a run of tokens is written out, a line break is therefore put
//! between every single-line comment and the token that follows it, where
//! there is none.

use vstd::prelude::*;
use crate::config::Config;
use crate::laws::{atoms_kept, comments_of, kept, lemma_kept_add, lemma_kept_few, token_comments};
use crate::tidy::{canonical, token_tidy, tokens_tidy, trivia_tidy};
use crate::token::{
    duplicate_tokens, lemma_tokens_view_push, references_view, tokens_view, Token, TokenKind,
    TokenReference, TokenReferenceView, TokenView,
};
use crate::trivia::{has_line_feed, LINE_FEED};

verus! {

/// Whether the trivia is whitespace that ends a line.
pub open spec fn ends_line(trivia: TokenView) -> bool {
    trivia.kind == TokenKind::Whitespace && trivia.text.contains(LINE_FEED)
}

/// Whether a line ends among the trivia.
pub open spec fn has_break(trivia: Seq<TokenView>) -> bool {
    exists|i: int| 0 <= i < trivia.len() && ends_line(#[trigger] trivia[i])
}

/// Whether the first `count` trivia end inside a single-line comment: one
/// stands among them, and no line ends behind it.
pub open spec fn open_upto(trivia: Seq<TokenView>, count: int) -> bool
    decreases count,
{
    if count <= 0 || count > trivia.len() {
        false
    } else if ends_line(trivia[count - 1]) {
        false
    } else if trivia[count - 1].kind == TokenKind::SingleLineComment {
        true
    } else {
        open_upto(trivia, count - 1)
    }
}

/// Whether the trivia end inside a single-line comment.
pub open spec fn open_end(trivia: Seq<TokenView>) -> bool {
    open_upto(trivia, trivia.len() as int)
}

/// Whether there is a token at `index` and a line ends in front of it.
pub open spec fn breaks_at(tokens: Seq<TokenReferenceView>, index: int) -> bool {
    0 <= index < tokens.len() && has_break(tokens[index].leading)
}

/// Whether the token at `index` is not written on the line of a single-line
/// comment in front of it, nor the next token on the line of one behind it.
pub open spec fn token_closed(tokens: Seq<TokenReferenceView>, index: int) -> bool {
    !open_end(tokens[index].leading) && (open_end(tokens[index].trailing) ==> breaks_at(
        tokens,
        index + 1,
    ))
}

/// Whether no token of the run is written on the line of a single-line
/// comment: behind such a comment a line ends before the next token.
pub open spec fn tokens_closed(tokens: Seq<TokenReferenceView>) -> bool {
    forall|i: int| 0 <= i < tokens.len() ==> #[trigger] token_closed(tokens, i)
}

/// The trivia, with `newline` behind them where they end inside a
/// single-line comment and no line break follows them anyway.
pub open spec fn closed_trivia(newline: TokenView, trivia: Seq<TokenView>, next_breaks: bool)
    -> Seq<TokenView> {
    if open_end(trivia) && !next_breaks {
        trivia.push(newline)
    } else {
        trivia
    }
}

/// The token at `index` of the run, with a line break between every
/// single-line comment around it and the token that follows the comment.
pub open spec fn closed_token(newline: TokenView, tokens: Seq<TokenReferenceView>, index: int)
    -> TokenReferenceView {
    TokenReferenceView {
        leading: closed_trivia(newline, tokens[index].leading, false),
        token: tokens[index].token,
        trailing: closed_trivia(newline, tokens[index].trailing, breaks_at(tokens, index + 1)),
    }
}

/// The tokens with a line break between every single-line comment and the
/// token that follows it.
pub open spec fn closed_tokens(newline: TokenView, tokens: Seq<TokenReferenceView>) -> Seq<
    TokenReferenceView,
> {
    Seq::new(tokens.len(), |i: int| closed_token(newline, tokens, i))
}

/// Whether a line ends among the trivia.
pub fn trivia_has_break(trivia: &Vec<Token>) -> (found: bool)
    ensures
        found == has_break(tokens_view(trivia@)),
{
    let ghost views = tokens_view(trivia@);
    let mut i: usize = 0;
    while i < trivia.len()
        invariant
            i <= trivia.len(),
            views == tokens_view(trivia@),
            forall|j: int| 0 <= j < i ==> !ends_line(#[trigger] views[j]),
        decreases trivia.len() - i,
    {
        if trivia[i].kind == TokenKind::Whitespace && has_line_feed(&trivia[i].text) {
            assert(ends_line(views[i as int]));
            return true;
        }
        i += 1;
    }
    false
}

/// Whether the trivia end inside a single-line comment.
pub fn trivia_open_end(trivia: &Vec<Token>) -> (open: bool)
    ensures
        open == open_end(tokens_view(trivia@)),
{
    let ghost views = tokens_view(trivia@);
    let mut count: usize = trivia.len();
    while count > 0
        invariant
            count <= trivia.len(),
            views == tokens_view(trivia@),
            open_end(views) == open_upto(views, count as int),
        decreases count,
    {
        let last = &trivia[count - 1];
        assert(views[count - 1] == last@);
        if last.kind == TokenKind::Whitespace && has_line_feed(&last.text) {
            return false;
        }
        if last.kind == TokenKind::SingleLineComment {
            return true;
        }
        count -= 1;
    }
    false
}

/// The trivia, with `newline` behind them where they end inside a
/// single-line comment and no line break follows them anyway.
pub fn close_trivia(trivia: &Vec<Token>, newline: &Token, next_breaks: bool) -> (closed: Vec<
    Token,
>)
    ensures
        tokens_view(closed@) == closed_trivia(newline@, tokens_view(trivia@), next_breaks),
{
    let mut closed = duplicate_tokens(trivia);
    if !next_breaks && trivia_open_end(trivia) {
        proof {
            lemma_tokens_view_push(closed@, *newline);
        }
        closed.push(newline.duplicate());
    }
    closed
}

/// The tokens with a line break between every single-line comment and the
/// token that follows it.
pub fn close_tokens(tokens: &Vec<TokenReference>, newline: &Token) -> (closed: Vec<TokenReference>)
    ensures
        references_view(closed@) == closed_tokens(newline@, references_view(tokens@)),
{
    let ghost views = references_view(tokens@);
    let mut closed: Vec<TokenReference> = Vec::new();
    let mut i: usize = 0;
    while i < tokens.len()
        invariant
            i <= tokens.len(),
            views == references_view(tokens@),
            closed.len() == i,
            forall|k: int| 0 <= k < i ==> closed@[k]@ == closed_token(newline@, views, k),
        decreases tokens.len() - i,
    {
        let next_breaks = i + 1 < tokens.len() && trivia_has_break(&tokens[i + 1].leading_trivia);
        proof {
            assert(views[i as int] == tokens@[i as int]@);
            if i + 1 < tokens.len() {
                assert(views[i + 1] == tokens@[i + 1]@);
            }
        }
        let token = TokenReference {
            leading_trivia: close_trivia(&tokens[i].leading_trivia, newline, false),
            token: tokens[i].token.duplicate(),
            trailing_trivia: close_trivia(&tokens[i].trailing_trivia, newline, next_breaks),
        };
        closed.push(token);
        i += 1;
    }
    proof {
        assert(references_view(closed@) =~= closed_tokens(newline@, views));
    }
    closed
}

/// Trivia with a line break at their end do not end inside a comment, and a
/// line ends among them.
pub proof fn lemma_closed_end(newline: TokenView, trivia: Seq<TokenView>)
    requires
        ends_line(newline),
    ensures
        !open_end(trivia.push(newline)),
        has_break(trivia.push(newline)),
{
    let all = trivia.push(newline);
    assert(all[all.len() - 1] == newline);
}

/// A line that ends among the trivia ends among them when they are closed.
pub proof fn lemma_break_stays(newline: TokenView, trivia: Seq<TokenView>, next_breaks: bool)
    requires
        has_break(trivia),
    ensures
        has_break(closed_trivia(newline, trivia, next_breaks)),
{
    let i = choose|i: int| 0 <= i < trivia.len() && ends_line(#[trigger] trivia[i]);
    assert(trivia.push(newline)[i] == trivia[i]);
}

/// Closing adds whitespace alone: what is no whitespace among the trivia is
/// there as before.
pub proof fn lemma_closed_kept(newline: TokenView, trivia: Seq<TokenView>, next_breaks: bool)
    requires
        newline.kind == TokenKind::Whitespace,
    ensures
        kept(closed_trivia(newline, trivia, next_breaks)) == kept(trivia),
{
    assert(trivia.push(newline) =~= trivia + seq![newline]);
    lemma_kept_add(trivia, seq![newline]);
    lemma_kept_few(newline, newline, newline);
    assert(kept(trivia).add(kept(seq![newline])) =~= kept(trivia));
}

/// Closing tidy trivia with a line ending of the configured kind leaves them
/// tidy.
pub proof fn lemma_closed_tidy(
    config: Config,
    newline: TokenView,
    trivia: Seq<TokenView>,
    next_breaks: bool,
)
    requires
        canonical(config, newline),
        trivia_tidy(config, trivia),
    ensures
        trivia_tidy(config, closed_trivia(newline, trivia, next_breaks)),
{
}

/// Closed tokens are closed, whatever the tokens were.
pub proof fn lemma_closed_tokens(newline: TokenView, tokens: Seq<TokenReferenceView>)
    requires
        ends_line(newline),
    ensures
        tokens_closed(closed_tokens(newline, tokens)),
{
    let closed = closed_tokens(newline, tokens);
    assert forall|i: int| 0 <= i < closed.len() implies #[trigger] token_closed(closed, i) by {
        lemma_closed_end(newline, tokens[i].leading);
        lemma_closed_end(newline, tokens[i].trailing);
        if breaks_at(tokens, i + 1) {
            lemma_break_stays(newline, tokens[i + 1].leading, false);
        }
    }
}

/// Tokens that are closed stay as they are.
pub proof fn lemma_closed_tokens_same(newline: TokenView, tokens: Seq<TokenReferenceView>)
    requires
        tokens_closed(tokens),
    ensures
        closed_tokens(newline, tokens) == tokens,
{
    assert forall|i: int| 0 <= i < tokens.len() implies closed_token(newline, tokens, i)
        == tokens[i] by {
        assert(token_closed(tokens, i));
    }
    assert(closed_tokens(newline, tokens) =~= tokens);
}

/// Closing closed tokens changes nothing: to close twice is to close once.
pub proof fn lemma_closed_tokens_idempotent(newline: TokenView, tokens: Seq<TokenReferenceView>)
    requires
        ends_line(newline),
    ensures
        closed_tokens(newline, closed_tokens(newline, tokens)) == closed_tokens(newline, tokens),
{
    lemma_closed_tokens(newline, tokens);
    lemma_closed_tokens_same(newline, closed_tokens(newline, tokens));
}

/// Closing keeps every token.
pub proof fn lemma_closed_tokens_kept(
    config: Config,
    newline: TokenView,
    before: Seq<TokenReferenceView>,
    tokens: Seq<TokenReferenceView>,
)
    requires
        atoms_kept(config, before, tokens),
    ensures
        atoms_kept(config, before, closed_tokens(newline, tokens)),
{
}

/// Closing keeps the comments on the first `count` tokens.
pub proof fn lemma_closed_comments_upto(
    newline: TokenView,
    tokens: Seq<TokenReferenceView>,
    count: int,
)
    requires
        newline.kind == TokenKind::Whitespace,
        0 <= count <= tokens.len(),
    ensures
        comments_of(closed_tokens(newline, tokens).take(count)) == comments_of(tokens.take(count)),
    decreases count,
{
    let closed = closed_tokens(newline, tokens);
    if count > 0 {
        lemma_closed_comments_upto(newline, tokens, count - 1);
        assert(closed.take(count).drop_last() =~= closed.take(count - 1));
        assert(tokens.take(count).drop_last() =~= tokens.take(count - 1));
        let last = tokens[count - 1];
        assert(closed.take(count).last() == closed_token(newline, tokens, count - 1));
        lemma_closed_kept(newline, last.leading, false);
        lemma_closed_kept(newline, last.trailing, breaks_at(tokens, count));
        assert(token_comments(closed.take(count).last()) == token_comments(last));
    }
}

/// Closing keeps the comments on the tokens.
pub proof fn lemma_closed_tokens_comments(newline: TokenView, tokens: Seq<TokenReferenceView>)
    requires
        newline.kind == TokenKind::Whitespace,
    ensures
        comments_of(closed_tokens(newline, tokens)) == comments_of(tokens),
{
    lemma_closed_comments_upto(newline, tokens, tokens.len() as int);
    assert(tokens.take(tokens.len() as int) =~= tokens);
    assert(closed_tokens(newline, tokens).take(tokens.len() as int) =~= closed_tokens(
        newline,
        tokens,
    ));
}

/// Closing tidy tokens with a line ending of the configured kind leaves them
/// tidy.
pub proof fn lemma_closed_tokens_tidy(
    config: Config,
    newline: TokenView,
    tokens: Seq<TokenReferenceView>,
)
    requires
        canonical(config, newline),
        tokens_tidy(config, tokens),
    ensures
        tokens_tidy(config, closed_tokens(newline, tokens)),
{
    assert forall|i: int| 0 <= i < tokens.len() implies token_tidy(
        config,
        #[trigger] closed_tokens(newline, tokens)[i],
    ) by {
        assert(token_tidy(config, tokens[i]));
        lemma_closed_tidy(config, newline, tokens[i].leading, false);
        lemma_closed_tidy(config, newline, tokens[i].trailing, breaks_at(tokens, i + 1));
    }
}

} // verus!
