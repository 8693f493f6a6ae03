//! The whitespace that formatting writes.
//!
//! Whitespace is tidy where it is an indent, a blank between two tokens, or
//! one line ending of the configured kind. The formatter writes no other
//! whitespace, and it keeps none of the whitespace of the tokens it formats.

use vstd::prelude::*;
use crate::config::Config;
use crate::formatter::{
    format_trailing, line_break_after, newline_text, optional_space, trailing_from, EndTokenType,
    FormatterState,
};
use crate::hang::{
    added_separator, hung_closer, hung_opener, hung_operator, lines_from, operator_level,
};
use crate::layout::{
    closing, condition_closer, condition_opener, dropped_comments, list_separator, opening,
    own_line,
};
use crate::range::directive_of;
use crate::token::{TokenKind, TokenReferenceView, TokenView};
use crate::trivia::{edited, space, whitespace, with_trivia, FormatTriviaTypeView, SPACE, TAB};

verus! {

/// Whether the text is made of spaces and tabs alone.
pub open spec fn blank_only(text: Seq<u8>) -> bool {
    forall|i: int| 0 <= i < text.len() ==> text[i] == SPACE || text[i] == TAB
}

/// Whether the trivia, if it is whitespace, is blanks alone or one line
/// ending of the configured kind.
pub open spec fn canonical(config: Config, trivia: TokenView) -> bool {
    trivia.kind == TokenKind::Whitespace ==> blank_only(trivia.text) || trivia.text
        == newline_text(config.line_endings)
}

/// Whether all the whitespace among the trivia is tidy.
pub open spec fn trivia_tidy(config: Config, trivia: Seq<TokenView>) -> bool {
    forall|i: int| 0 <= i < trivia.len() ==> canonical(config, #[trigger] trivia[i])
}

/// Whether all the whitespace around the token is tidy.
pub open spec fn token_tidy(config: Config, token: TokenReferenceView) -> bool {
    trivia_tidy(config, token.leading) && trivia_tidy(config, token.trailing)
}

/// Whether all the whitespace around the tokens is tidy.
pub open spec fn tokens_tidy(config: Config, tokens: Seq<TokenReferenceView>) -> bool {
    forall|i: int| 0 <= i < tokens.len() ==> token_tidy(config, #[trigger] tokens[i])
}

/// Whether no comment among the trivia is a directive.
pub open spec fn trivia_plain(trivia: Seq<TokenView>) -> bool {
    forall|i: int|
        0 <= i < trivia.len() && (#[trigger] trivia[i]).kind.spec_is_comment() ==> directive_of(
            trivia[i].text,
        ) is None
}

/// Whether no comment in front of any of the tokens is a directive.
pub open spec fn no_directive(tokens: Seq<TokenReferenceView>) -> bool {
    forall|i: int| 0 <= i < tokens.len() ==> trivia_plain((#[trigger] tokens[i]).leading)
}

/// Whether the state leaves no statement out: no range restricts the pass,
/// and no directive has switched formatting off.
pub open spec fn quiet(state: FormatterState) -> bool {
    state.range is None && !state.ignoring
}

/// What holds of two runs of tokens holds of the two in a row, and the
/// other way round.
pub proof fn lemma_tokens_add(
    config: Config,
    a: Seq<TokenReferenceView>,
    b: Seq<TokenReferenceView>,
)
    ensures
        tokens_tidy(config, a + b) <==> tokens_tidy(config, a) && tokens_tidy(config, b),
        no_directive(a + b) <==> no_directive(a) && no_directive(b),
{
    if tokens_tidy(config, a + b) {
        assert forall|i: int| 0 <= i < a.len() implies token_tidy(config, #[trigger] a[i]) by {
            assert((a + b)[i] == a[i]);
        }
        assert forall|i: int| 0 <= i < b.len() implies token_tidy(config, #[trigger] b[i]) by {
            assert((a + b)[a.len() + i] == b[i]);
        }
    }
    if no_directive(a + b) {
        assert forall|i: int| 0 <= i < a.len() implies trivia_plain((#[trigger] a[i]).leading) by {
            assert((a + b)[i] == a[i]);
        }
        assert forall|i: int| 0 <= i < b.len() implies trivia_plain((#[trigger] b[i]).leading) by {
            assert((a + b)[a.len() + i] == b[i]);
        }
    }
}

/// What holds of a token holds of the run of that token, and no token is
/// untidy in the empty run.
pub proof fn lemma_tokens_one(config: Config, token: TokenReferenceView)
    ensures
        tokens_tidy(config, seq![token]) <==> token_tidy(config, token),
        no_directive(seq![token]) <==> trivia_plain(token.leading),
        tokens_tidy(config, Seq::<TokenReferenceView>::empty()),
        no_directive(Seq::<TokenReferenceView>::empty()),
{
    assert(seq![token][0] == token);
}

/// Trivia in a row are tidy where both parts are.
pub proof fn lemma_trivia_add(config: Config, a: Seq<TokenView>, b: Seq<TokenView>)
    ensures
        trivia_tidy(config, a + b) <==> trivia_tidy(config, a) && trivia_tidy(config, b),
{
    if trivia_tidy(config, a + b) {
        assert forall|i: int| 0 <= i < a.len() implies canonical(config, #[trigger] a[i]) by {
            assert((a + b)[i] == a[i]);
        }
        assert forall|i: int| 0 <= i < b.len() implies canonical(config, #[trigger] b[i]) by {
            assert((a + b)[a.len() + i] == b[i]);
        }
    }
}

/// The whitespace that the formatter makes is tidy.
pub proof fn lemma_made_whitespace(config: Config, state: FormatterState, extra: Option<usize>)
    requires
        state.config == config,
    ensures
        canonical(config, space()),
        canonical(config, state.indent_trivia(extra)),
        canonical(config, state.newline_trivia()),
        trivia_tidy(config, seq![space()]),
        trivia_tidy(config, seq![state.indent_trivia(extra)]),
        trivia_tidy(config, seq![state.newline_trivia()]),
        trivia_tidy(config, optional_space(true)),
        trivia_tidy(config, optional_space(false)),
        trivia_tidy(config, Seq::<TokenView>::empty()),
{
    assert(blank_only(space().text));
    assert(blank_only(state.indent_text(extra)));
}

/// The trailing trivia of a formatted token are tidy.
pub proof fn lemma_trailing_tidy(config: Config, trivia: Seq<TokenView>, index: int)
    requires
        0 <= index <= trivia.len(),
    ensures
        trivia_tidy(config, trailing_from(trivia, index)),
    decreases trivia.len() - index,
{
    if index < trivia.len() {
        lemma_trailing_tidy(config, trivia, index + 1);
        let behind = trailing_from(trivia, index + 1);
        assert(blank_only(space().text));
        if trivia[index].kind == TokenKind::Whitespace {
        } else if trivia[index].kind.spec_is_comment() {
            lemma_trivia_add(config, seq![space(), trivia[index]], behind);
        } else {
            lemma_trivia_add(config, seq![trivia[index]], behind);
        }
    }
}

/// The leading trivia of a formatted token are tidy.
pub proof fn lemma_leading_tidy(
    config: Config,
    state: FormatterState,
    trivia: Seq<TokenView>,
    index: int,
    extra: Option<usize>,
)
    requires
        state.config == config,
        0 <= index <= trivia.len(),
    ensures
        trivia_tidy(config, state.leading_from(trivia, index, extra)),
    decreases trivia.len() - index,
{
    lemma_made_whitespace(config, state, extra);
    if index < trivia.len() {
        if trivia[index].kind == TokenKind::Whitespace {
            lemma_leading_tidy(config, state, trivia, index + 1, extra);
        } else if trivia[index].kind.spec_is_comment() {
            let next = index + 1 + line_break_after(trivia, index);
            lemma_leading_tidy(config, state, trivia, next, extra);
            lemma_trivia_add(
                config,
                seq![state.indent_trivia(extra), trivia[index], state.newline_trivia()],
                state.leading_from(trivia, next, extra),
            );
        } else {
            lemma_leading_tidy(config, state, trivia, index + 1, extra);
            lemma_trivia_add(
                config,
                seq![trivia[index]],
                state.leading_from(trivia, index + 1, extra),
            );
        }
    }
}

/// The lines made of trivia are tidy.
pub proof fn lemma_lines_tidy(
    config: Config,
    state: FormatterState,
    trivia: Seq<TokenView>,
    index: int,
    extra: Option<usize>,
)
    requires
        state.config == config,
        0 <= index <= trivia.len(),
    ensures
        trivia_tidy(config, lines_from(state, trivia, index, extra)),
    decreases trivia.len() - index,
{
    lemma_made_whitespace(config, state, extra);
    if index < trivia.len() {
        lemma_lines_tidy(config, state, trivia, index + 1, extra);
        if trivia[index].kind != TokenKind::Whitespace {
            lemma_trivia_add(
                config,
                seq![state.indent_trivia(extra), trivia[index], state.newline_trivia()],
                lines_from(state, trivia, index + 1, extra),
            );
        }
    }
}

/// The tokens that the formatter makes of single tokens are tidy, and so
/// are the comments it takes from them.
pub proof fn lemma_formatted_token_tidy(
    config: Config,
    state: FormatterState,
    token: TokenReferenceView,
)
    requires
        state.config == config,
    ensures
        token_tidy(config, state.format_token_reference(token)),
        forall|space_before: bool, space_after: bool|
            token_tidy(config, #[trigger] state.format_symbol(token, space_before, space_after)),
        forall|kind: EndTokenType| token_tidy(config, #[trigger] state.format_end_token(token, kind)),
        token_tidy(config, list_separator(state, token)),
        trivia_tidy(config, format_trailing(token.trailing)),
        trivia_tidy(config, dropped_comments(token)),
        forall|level: usize| token_tidy(config, #[trigger] hung_operator(state, token, level)),
        token_tidy(config, added_separator(state)),
{
    lemma_made_whitespace(config, state, None);
    lemma_leading_tidy(config, state, token.leading, 0, None);
    lemma_leading_tidy(config, state, token.leading, 0, Some(1usize));
    lemma_trailing_tidy(config, token.trailing, 0);
    lemma_trailing_tidy(config, token.leading, 0);
    lemma_trivia_add(config, format_trailing(token.leading), format_trailing(token.trailing));
    assert forall|space_before: bool, space_after: bool|
        token_tidy(
            config,
            #[trigger] state.format_symbol(token, space_before, space_after),
        ) by {
        lemma_trivia_add(
            config,
            state.format_leading(token.leading, None),
            optional_space(space_before),
        );
        lemma_trivia_add(config, optional_space(space_after), format_trailing(token.trailing));
    }
    assert forall|level: usize| token_tidy(config, #[trigger] hung_operator(state, token, level)) by {
        let extra = Some(operator_level(state, token, level));
        lemma_made_whitespace(config, state, extra);
        lemma_lines_tidy(config, state, token.leading, 0, extra);
        lemma_lines_tidy(config, state, token.trailing, 0, extra);
        let front = lines_from(state, token.leading, 0, extra);
        let back = lines_from(state, token.trailing, 0, extra);
        lemma_trivia_add(config, seq![state.newline_trivia()], front);
        lemma_trivia_add(config, seq![state.newline_trivia()] + front, back);
        lemma_trivia_add(
            config,
            seq![state.newline_trivia()] + front + back,
            seq![state.indent_trivia(extra)],
        );
    }
}

/// The tokens around a list laid out over several lines are tidy where
/// they were.
pub proof fn lemma_hung_brackets_tidy(
    config: Config,
    state: FormatterState,
    token: TokenReferenceView,
    inner: usize,
    outer: usize,
)
    requires
        state.config == config,
        token_tidy(config, token),
    ensures
        token_tidy(config, hung_opener(state, token)),
        token_tidy(config, hung_closer(state, token, inner, outer)),
{
    lemma_made_whitespace(config, state, Some(outer));
    lemma_trailing_tidy(config, token.trailing, 0);
    lemma_trivia_add(config, format_trailing(token.trailing), seq![state.newline_trivia()]);
    lemma_lines_tidy(config, state, token.leading, 0, Some(inner));
    lemma_trivia_add(
        config,
        lines_from(state, token.leading, 0, Some(inner)),
        seq![state.indent_trivia(Some(outer))],
    );
}

/// A tidy token whose trivia are edited with tidy trivia is tidy.
pub proof fn lemma_edited_token_tidy(
    config: Config,
    token: TokenReferenceView,
    leading: FormatTriviaTypeView,
    trailing: FormatTriviaTypeView,
)
    requires
        token_tidy(config, token),
        trivia_tidy(config, edit_list(leading)),
        trivia_tidy(config, edit_list(trailing)),
    ensures
        token_tidy(config, with_trivia(token, leading, trailing)),
{
    lemma_trivia_add(config, token.leading, edit_list(leading));
    lemma_trivia_add(config, token.trailing, edit_list(trailing));
}

/// The list that an edit brings: the list that it appends or installs.
pub open spec fn edit_list(edit: FormatTriviaTypeView) -> Seq<TokenView> {
    match edit {
        FormatTriviaTypeView::NoChange => Seq::empty(),
        FormatTriviaTypeView::Append(list) => list,
        FormatTriviaTypeView::Replace(list) => list,
    }
}

/// The tokens put at the start of a line, alone on a line or at the end of
/// a line are tidy where they were; so are the keywords around a condition.
pub proof fn lemma_line_tokens_tidy(
    config: Config,
    state: FormatterState,
    token: TokenReferenceView,
    extra: Option<usize>,
)
    requires
        state.config == config,
        token_tidy(config, token),
    ensures
        token_tidy(config, opening(state, token, extra)),
        token_tidy(config, own_line(state, token, extra)),
        token_tidy(config, closing(state, token)),
{
    lemma_made_whitespace(config, state, extra);
    let indent = FormatTriviaTypeView::Append(seq![state.indent_trivia(extra)]);
    let newline = FormatTriviaTypeView::Append(seq![state.newline_trivia()]);
    lemma_edited_token_tidy(config, token, indent, FormatTriviaTypeView::NoChange);
    lemma_edited_token_tidy(config, token, indent, newline);
    lemma_edited_token_tidy(config, token, FormatTriviaTypeView::NoChange, newline);
}

/// The keywords around a condition are tidy.
pub proof fn lemma_condition_tokens_tidy(
    config: Config,
    state: FormatterState,
    token: TokenReferenceView,
    extra: Option<usize>,
    multiline: bool,
)
    requires
        state.config == config,
    ensures
        token_tidy(config, condition_opener(state, token, extra, multiline)),
        token_tidy(config, condition_closer(state, token, extra, multiline)),
{
    lemma_formatted_token_tidy(config, state, token);
    lemma_line_tokens_tidy(config, state, state.format_symbol(token, false, false), extra);
    lemma_line_tokens_tidy(config, state, state.format_symbol(token, false, true), extra);
    lemma_line_tokens_tidy(config, state, state.format_symbol(token, true, false), extra);
}

} // verus!
