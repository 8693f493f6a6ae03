//! What the formatter measures of a run of tokens: its text, its width without
//! trivia, the bytes of the source it spans, and whether comments stand inside it.

use vstd::prelude::*;
use crate::formatter::{count_of, CodeFormatter, FormatterState};
use crate::sequences::{lemma_add_assoc, lemma_add_empty, lemma_take_ends, lemma_take_next};
use crate::token::{
    references_view, tokens_view, Token, TokenReference, TokenReferenceView, TokenView,
};

verus! {

/// The texts of the tokens one after another.
pub open spec fn joined_text(tokens: Seq<TokenView>) -> Seq<u8>
    decreases tokens.len(),
{
    if tokens.len() == 0 {
        Seq::empty()
    } else {
        joined_text(tokens.drop_last()) + tokens.last().text
    }
}

/// The text of a token with its trivia, as it is written out.
pub open spec fn reference_text(token: TokenReferenceView) -> Seq<u8> {
    joined_text(token.leading) + token.token.text + joined_text(token.trailing)
}

/// The text of a run of tokens with all their trivia, as it is written out.
pub open spec fn printed(tokens: Seq<TokenReferenceView>) -> Seq<u8>
    decreases tokens.len(),
{
    if tokens.len() == 0 {
        Seq::empty()
    } else {
        printed(tokens.drop_last()) + reference_text(tokens.last())
    }
}

/// The text of a run of tokens without any trivia.
pub open spec fn stripped(tokens: Seq<TokenReferenceView>) -> Seq<u8>
    decreases tokens.len(),
{
    if tokens.len() == 0 {
        Seq::empty()
    } else {
        stripped(tokens.drop_last()) + tokens.last().token.text
    }
}

/// Whether a comment stands among the trivia.
pub open spec fn has_comment(trivia: Seq<TokenView>) -> bool {
    exists|i: int| 0 <= i < trivia.len() && (#[trigger] trivia[i]).kind.spec_is_comment()
}

/// Whether the text of the first token of the run starts with `byte`.
pub open spec fn leads_with(tokens: Seq<TokenReferenceView>, byte: u8) -> bool {
    tokens.len() > 0 && tokens[0].token.text.len() > 0 && tokens[0].token.text[0] == byte
}

/// Whether a comment stands in front of the first token of the run.
pub open spec fn leads_with_comment(tokens: Seq<TokenReferenceView>) -> bool {
    tokens.len() > 0 && has_comment(tokens[0].leading)
}

/// Whether a comment stands inside the run of tokens: behind a token that is
/// not the last, or in front of one that is not the first. Comments in front of
/// the first token and behind the last one can stay on lines of their own
/// however the run is laid out.
pub open spec fn has_inline_comments(tokens: Seq<TokenReferenceView>) -> bool {
    exists|i: int|
        0 <= i < tokens.len() && #[trigger] comment_inside(tokens, i)
}

/// Whether the token at `index` carries a comment that stands inside the run.
pub open spec fn comment_inside(tokens: Seq<TokenReferenceView>, index: int) -> bool {
    (index > 0 && has_comment(tokens[index].leading)) || (index + 1 < tokens.len() && has_comment(
        tokens[index].trailing,
    ))
}

/// The bytes of the source from the first token's first byte to the last
/// token's last, if there is a token.
pub open spec fn tokens_range(tokens: Seq<TokenReferenceView>) -> Option<(usize, usize)> {
    if tokens.len() == 0 {
        None
    } else {
        Some((tokens[0].token.start, tokens.last().token.end))
    }
}

/// Whether a line is too wide: `width` columns of text and `spacing` columns
/// of blanks between them, behind the indent of the current block and `extra`
/// more, take more than the configured number of columns.
pub open spec fn exceeds_width(
    state: FormatterState,
    extra: Option<usize>,
    width: int,
    spacing: int,
) -> bool {
    (state.indent_level + count_of(extra)) * state.config.indent_width + width + spacing
        > state.config.column_width
}

/// Adds the text of each token in `tokens` to `out`.
fn push_joined_text(tokens: &Vec<Token>, out: &mut Vec<u8>)
    ensures
        final(out)@ == old(out)@ + joined_text(tokens_view(tokens@)),
{
    let ghost before = out@;
    let ghost views = tokens_view(tokens@);
    let mut i: usize = 0;
    proof {
        lemma_take_ends(views);
        lemma_add_empty(before);
    }
    while i < tokens.len()
        invariant
            i <= tokens.len(),
            views == tokens_view(tokens@),
            out@ == before + joined_text(views.take(i as int)),
        decreases tokens.len() - i,
    {
        let ghost so_far = joined_text(views.take(i as int));
        push_bytes(&tokens[i].text, out);
        proof {
            lemma_take_next(views, i as int);
            lemma_add_assoc(before, so_far, views[i as int].text);
        }
        i += 1;
    }
}

/// Adds the bytes of `text` to `out`.
pub fn push_bytes(text: &Vec<u8>, out: &mut Vec<u8>)
    ensures
        final(out)@ == old(out)@ + text@,
{
    let ghost before = out@;
    let mut i: usize = 0;
    proof {
        lemma_take_ends(text@);
        lemma_add_empty(before);
    }
    while i < text.len()
        invariant
            i <= text.len(),
            out@ == before + text@.take(i as int),
        decreases text.len() - i,
    {
        out.push(text[i]);
        proof {
            lemma_take_next(text@, i as int);
            assert(out@ =~= before + text@.take(i + 1));
        }
        i += 1;
    }
}

/// The text of a run of tokens with all their trivia, as it is written out.
pub fn print_tokens(tokens: &Vec<TokenReference>) -> (text: Vec<u8>)
    ensures
        text@ == printed(references_view(tokens@)),
{
    let ghost views = references_view(tokens@);
    let mut text: Vec<u8> = Vec::new();
    let mut i: usize = 0;
    proof {
        lemma_take_ends(views);
    }
    while i < tokens.len()
        invariant
            i <= tokens.len(),
            views == references_view(tokens@),
            text@ == printed(views.take(i as int)),
        decreases tokens.len() - i,
    {
        let ghost so_far = text@;
        push_joined_text(&tokens[i].leading_trivia, &mut text);
        push_bytes(&tokens[i].token.text, &mut text);
        push_joined_text(&tokens[i].trailing_trivia, &mut text);
        proof {
            lemma_take_next(views, i as int);
            lemma_add_assoc(
                so_far,
                joined_text(views[i as int].leading),
                views[i as int].token.text,
            );
            lemma_add_assoc(
                so_far,
                joined_text(views[i as int].leading) + views[i as int].token.text,
                joined_text(views[i as int].trailing),
            );
        }
        i += 1;
    }
    text
}

/// The text of a run of tokens without any trivia.
pub fn strip_trivia(tokens: &Vec<TokenReference>) -> (text: Vec<u8>)
    ensures
        text@ == stripped(references_view(tokens@)),
{
    let ghost views = references_view(tokens@);
    let mut text: Vec<u8> = Vec::new();
    let mut i: usize = 0;
    proof {
        lemma_take_ends(views);
    }
    while i < tokens.len()
        invariant
            i <= tokens.len(),
            views == references_view(tokens@),
            text@ == stripped(views.take(i as int)),
        decreases tokens.len() - i,
    {
        push_bytes(&tokens[i].token.text, &mut text);
        proof {
            lemma_take_next(views, i as int);
        }
        i += 1;
    }
    text
}

/// Whether a comment stands among the trivia.
pub fn trivia_contains_comments(trivia: &Vec<Token>) -> (found: bool)
    ensures
        found == has_comment(tokens_view(trivia@)),
{
    let mut i: usize = 0;
    while i < trivia.len()
        invariant
            i <= trivia.len(),
            forall|j: int| 0 <= j < i ==> !(#[trigger] tokens_view(trivia@)[j]).kind.spec_is_comment(),
        decreases trivia.len() - i,
    {
        if trivia[i].kind.is_comment() {
            assert(tokens_view(trivia@)[i as int].kind.spec_is_comment());
            return true;
        }
        i += 1;
    }
    false
}

/// Whether the text of the first token of the run starts with `byte`.
pub fn starts_with_byte(tokens: &Vec<TokenReference>, byte: u8) -> (found: bool)
    ensures
        found == leads_with(references_view(tokens@), byte),
{
    tokens.len() > 0 && tokens[0].token.text.len() > 0 && tokens[0].token.text[0] == byte
}

/// Whether a comment stands in front of the first token of the run.
pub fn starts_with_comment(tokens: &Vec<TokenReference>) -> (found: bool)
    ensures
        found == leads_with_comment(references_view(tokens@)),
{
    tokens.len() > 0 && trivia_contains_comments(&tokens[0].leading_trivia)
}

/// Whether a comment stands inside the run of tokens.
pub fn contains_inline_comments(tokens: &Vec<TokenReference>) -> (found: bool)
    ensures
        found == has_inline_comments(references_view(tokens@)),
{
    let ghost views = references_view(tokens@);
    let mut i: usize = 0;
    while i < tokens.len()
        invariant
            i <= tokens.len(),
            views == references_view(tokens@),
            forall|j: int| 0 <= j < i ==> !#[trigger] comment_inside(views, j),
        decreases tokens.len() - i,
    {
        let in_front = i > 0 && trivia_contains_comments(&tokens[i].leading_trivia);
        let behind = i + 1 < tokens.len() && trivia_contains_comments(&tokens[i].trailing_trivia);
        if in_front || behind {
            assert(comment_inside(views, i as int));
            return true;
        }
        i += 1;
    }
    false
}

/// The bytes of the source that a run of tokens spans.
pub fn get_tokens_range(tokens: &Vec<TokenReference>) -> (range: Option<(usize, usize)>)
    ensures
        range == tokens_range(references_view(tokens@)),
{
    if tokens.len() == 0 {
        None
    } else {
        Some((tokens[0].token.start, tokens[tokens.len() - 1].token.end))
    }
}

impl CodeFormatter {
    /// Whether a line of `width` columns of text and `spacing` columns of
    /// blanks, behind the indent of the current block and
    /// `additional_indent_level` more, is wider than the configured width.
    pub fn exceeds_column_width(
        &self,
        additional_indent_level: Option<usize>,
        width: usize,
        spacing: usize,
    ) -> (too_wide: bool)
        ensures
            too_wide == exceeds_width(self@, additional_indent_level, width as int, spacing as int),
    {
        let extra = match additional_indent_level {
            Some(level) => level,
            None => 0,
        };
        let indent_width = self.config.indent_width;
        let limit = self.config.column_width;
        let ghost depth = self.indent_level + extra;
        let indent: usize = if indent_width == 0 {
            assert(depth * 0 == 0) by (nonlinear_arith);
            0
        } else {
            let depth_fits = match self.indent_level.checked_add(extra) {
                Some(d) => d,
                None => {
                    assert(depth * indent_width >= depth) by (nonlinear_arith)
                        requires
                            indent_width >= 1,
                            depth >= 0,
                    ;
                    return true;
                },
            };
            match depth_fits.checked_mul(indent_width) {
                Some(columns) => columns,
                None => {
                    return true;
                },
            }
        };
        match indent.checked_add(width) {
            Some(sum) => match sum.checked_add(spacing) {
                Some(total) => total > limit,
                None => true,
            },
            None => true,
        }
    }
}

} // verus!
