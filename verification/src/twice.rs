//! Formatting what is formatted already.
//!
//! A formatted token is a fixed point of the step that made it: its text is
//! canonical and its trivia are laid out, so the same step, taken in the same
//! state, gives the same token again.

use vstd::prelude::*;
use crate::config::{IndentType, LineEndings};
use crate::formatter::{
    end_comment_indent, format_trailing, line_break_after, newline_text, optional_space,
    trailing_from, EndTokenType, FormatterState,
};
use crate::quote::lemma_normalized_string_idempotent;
use crate::token::{TokenKind, TokenReferenceView, TokenView};
use crate::trivia::{space, CARRIAGE_RETURN, LINE_FEED};

verus! {

/// Whether the trivia is whitespace within one line.
pub open spec fn is_gap(trivia: TokenView) -> bool {
    trivia.kind == TokenKind::Whitespace && !trivia.text.contains(LINE_FEED)
}

/// An indent and a space are whitespace within one line; the whitespace that
/// ends a line holds a line feed.
pub proof fn lemma_canonical_whitespace(state: FormatterState, extra: Option<usize>)
    ensures
        is_gap(state.indent_trivia(extra)),
        is_gap(space()),
        state.newline_trivia().kind == TokenKind::Whitespace,
        state.newline_trivia().text.contains(LINE_FEED),
{
    match state.config.line_endings {
        LineEndings::Unix => {
            assert(seq![LINE_FEED][0] == LINE_FEED);
        },
        LineEndings::Windows => {
            assert(seq![CARRIAGE_RETURN, LINE_FEED][1] == LINE_FEED);
        },
    }
    assert(newline_text(state.config.line_endings).contains(LINE_FEED));
    match state.config.indent_type {
        IndentType::Tabs => {},
        IndentType::Spaces => {},
    }
}

/// The leading trivia from an index on depend on nothing in front of it.
pub proof fn lemma_leading_behind(
    state: FormatterState,
    front: Seq<TokenView>,
    trivia: Seq<TokenView>,
    index: int,
    extra: Option<usize>,
)
    requires
        0 <= index <= trivia.len(),
    ensures
        state.leading_from(front + trivia, front.len() + index, extra) == state.leading_from(
            trivia,
            index,
            extra,
        ),
    decreases trivia.len() - index,
{
    let all = front + trivia;
    let at = front.len() + index;
    if index < trivia.len() {
        assert(all[at] == trivia[index]);
        if index + 1 < trivia.len() {
            assert(all[at + 1] == trivia[index + 1]);
        }
        assert(line_break_after(all, at) == line_break_after(trivia, index));
        lemma_leading_behind(state, front, trivia, index + 1, extra);
        lemma_leading_behind(
            state,
            front,
            trivia,
            index + 1 + line_break_after(trivia, index),
            extra,
        );
    }
}

/// Whitespace within one line at the end of the trivia in front of a token
/// leaves no trace in the formatted trivia.
pub proof fn lemma_leading_gap(
    state: FormatterState,
    trivia: Seq<TokenView>,
    gap: TokenView,
    index: int,
    extra: Option<usize>,
)
    requires
        0 <= index <= trivia.len(),
        is_gap(gap),
    ensures
        state.leading_from(trivia.push(gap), index, extra) == state.leading_from(
            trivia,
            index,
            extra,
        ),
    decreases trivia.len() - index,
{
    let all = trivia.push(gap);
    if index < trivia.len() {
        assert(all[index] == trivia[index]);
        if index + 1 < trivia.len() {
            assert(all[index + 1] == trivia[index + 1]);
        }
        assert(line_break_after(all, index) == line_break_after(trivia, index));
        lemma_leading_gap(state, trivia, gap, index + 1, extra);
        lemma_leading_gap(state, trivia, gap, index + 1 + line_break_after(trivia, index), extra);
    } else {
        assert(all[index] == gap);
        let behind = state.leading_from(all, index + 1, extra);
        assert(behind == Seq::<TokenView>::empty());
    }
}

/// The formatted trivia in front of a token are formatted to themselves.
pub proof fn lemma_leading_idempotent(
    state: FormatterState,
    trivia: Seq<TokenView>,
    index: int,
    extra: Option<usize>,
)
    requires
        0 <= index <= trivia.len(),
    ensures
        state.leading_from(state.leading_from(trivia, index, extra), 0, extra)
            == state.leading_from(trivia, index, extra),
    decreases trivia.len() - index,
{
    lemma_canonical_whitespace(state, extra);
    let laid = state.leading_from(trivia, index, extra);
    if index >= trivia.len() {
    } else if trivia[index].kind == TokenKind::Whitespace {
        lemma_leading_idempotent(state, trivia, index + 1, extra);
    } else if trivia[index].kind.spec_is_comment() {
        let next = index + 1 + line_break_after(trivia, index);
        let rest = state.leading_from(trivia, next, extra);
        let front = seq![state.indent_trivia(extra), trivia[index], state.newline_trivia()];
        assert(laid == front + rest);
        assert(laid[0] == state.indent_trivia(extra));
        assert(laid[1] == trivia[index]);
        assert(laid[2] == state.newline_trivia());
        assert(line_break_after(laid, 1) == 1);
        lemma_leading_behind(state, front, rest, 0, extra);
        lemma_leading_idempotent(state, trivia, next, extra);
        assert(state.leading_from(laid, 3, extra) == rest);
        assert(state.leading_from(laid, 1, extra) == front + rest);
    } else {
        let rest = state.leading_from(trivia, index + 1, extra);
        let front = seq![trivia[index]];
        assert(laid == front + rest);
        assert(laid[0] == trivia[index]);
        lemma_leading_behind(state, front, rest, 0, extra);
        lemma_leading_idempotent(state, trivia, index + 1, extra);
    }
}

/// The trailing trivia from an index on depend on nothing in front of it.
pub proof fn lemma_trailing_behind(front: Seq<TokenView>, trivia: Seq<TokenView>, index: int)
    requires
        0 <= index <= trivia.len(),
    ensures
        trailing_from(front + trivia, front.len() + index) == trailing_from(trivia, index),
    decreases trivia.len() - index,
{
    if index < trivia.len() {
        assert((front + trivia)[front.len() + index] == trivia[index]);
        lemma_trailing_behind(front, trivia, index + 1);
    }
}

/// The formatted trivia behind a token are formatted to themselves.
pub proof fn lemma_trailing_idempotent(trivia: Seq<TokenView>, index: int)
    requires
        0 <= index <= trivia.len(),
    ensures
        trailing_from(trailing_from(trivia, index), 0) == trailing_from(trivia, index),
    decreases trivia.len() - index,
{
    let laid = trailing_from(trivia, index);
    if index >= trivia.len() {
    } else if trivia[index].kind == TokenKind::Whitespace {
        lemma_trailing_idempotent(trivia, index + 1);
    } else if trivia[index].kind.spec_is_comment() {
        let rest = trailing_from(trivia, index + 1);
        let front = seq![space(), trivia[index]];
        assert(laid == front + rest);
        assert(laid[0] == space());
        assert(laid[1] == trivia[index]);
        lemma_trailing_behind(front, rest, 0);
        lemma_trailing_idempotent(trivia, index + 1);
        assert(trailing_from(laid, 2) == rest);
        assert(trailing_from(laid, 1) == front + rest);
    } else {
        let rest = trailing_from(trivia, index + 1);
        let front = seq![trivia[index]];
        assert(laid == front + rest);
        assert(laid[0] == trivia[index]);
        lemma_trailing_behind(front, rest, 0);
        lemma_trailing_idempotent(trivia, index + 1);
    }
}

/// A space in front of trivia behind a token leaves no trace in the formatted trivia.
pub proof fn lemma_trailing_after_space(wanted: bool, trivia: Seq<TokenView>)
    ensures
        format_trailing(optional_space(wanted) + trivia) == format_trailing(trivia),
{
    if wanted {
        let front = seq![space()];
        assert((front + trivia)[0] == space());
        lemma_trailing_behind(front, trivia, 0);
    } else {
        assert(optional_space(wanted) + trivia =~= trivia);
    }
}

/// A space behind trivia in front of a token leaves no trace in the formatted trivia.
pub proof fn lemma_leading_before_space(
    state: FormatterState,
    wanted: bool,
    trivia: Seq<TokenView>,
    extra: Option<usize>,
)
    ensures
        state.format_leading(trivia + optional_space(wanted), extra)
            == state.format_leading(trivia, extra),
{
    if wanted {
        lemma_canonical_whitespace(state, extra);
        assert(trivia + optional_space(wanted) =~= trivia.push(space()));
        lemma_leading_gap(state, trivia, space(), 0, extra);
    } else {
        assert(trivia + optional_space(wanted) =~= trivia);
    }
}

/// The canonical text of a token is canonical: to format a formatted token
/// changes nothing.
pub proof fn lemma_format_token_idempotent(state: FormatterState, token: TokenView)
    ensures
        state.format_token(state.format_token(token)) == state.format_token(token),
{
    lemma_normalized_string_idempotent(token.text, state.config.quote_style);
}

/// To format a formatted token with its trivia changes nothing.
pub proof fn lemma_format_token_reference_idempotent(
    state: FormatterState,
    token: TokenReferenceView,
)
    ensures
        state.format_token_reference(state.format_token_reference(token))
            == state.format_token_reference(token),
{
    lemma_format_token_idempotent(state, token.token);
    lemma_leading_idempotent(state, token.leading, 0, None);
    lemma_trailing_idempotent(token.trailing, 0);
}

/// To format a formatted symbol with the same spaces around it changes nothing.
pub proof fn lemma_format_symbol_idempotent(
    state: FormatterState,
    token: TokenReferenceView,
    space_before: bool,
    space_after: bool,
)
    ensures
        state.format_symbol(
            state.format_symbol(token, space_before, space_after),
            space_before,
            space_after,
        ) == state.format_symbol(token, space_before, space_after),
{
    let leading = state.format_leading(token.leading, None);
    let trailing = format_trailing(token.trailing);
    lemma_leading_before_space(state, space_before, leading, None);
    lemma_leading_idempotent(state, token.leading, 0, None);
    lemma_trailing_after_space(space_after, trailing);
    lemma_trailing_idempotent(token.trailing, 0);
}

/// To format a formatted closing token changes nothing.
pub proof fn lemma_format_end_token_idempotent(
    state: FormatterState,
    token: TokenReferenceView,
    kind: EndTokenType,
)
    ensures
        state.format_end_token(state.format_end_token(token, kind), kind)
            == state.format_end_token(token, kind),
{
    lemma_leading_idempotent(state, token.leading, 0, end_comment_indent(kind));
    lemma_trailing_idempotent(token.trailing, 0);
}

} // verus!
