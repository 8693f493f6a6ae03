//! What the formatting of a single token keeps: the token itself, and the
//! comments in front of it and behind it.

use vstd::multiset::Multiset;
use vstd::prelude::*;
use crate::formatter::{
    format_trailing, line_break_after, optional_space, trailing_from, EndTokenType,
    FormatterState,
};
use crate::hang::{
    added_separator, hung_closer, hung_opener, hung_operator, lines_from, operator_level,
};
use crate::laws::{atom_kept, kept, kept_one, lemma_kept_add, lemma_kept_few, token_comments};
use crate::layout::{
    closing, condition_closer, condition_opener, dropped_comments, list_separator, opening,
    own_line,
};
use crate::sequences::lemma_add_empty;
use crate::token::{TokenKind, TokenReferenceView, TokenView};
use crate::trivia::{edited, space, whitespace, with_trivia, FormatTriviaTypeView};

verus! {

/// What is kept of one trivia in front of others.
pub proof fn lemma_kept_front(first: TokenView, rest: Seq<TokenView>)
    ensures
        kept(seq![first] + rest) == kept_one(first).add(kept(rest)),
{
    lemma_kept_add(seq![first], rest);
    lemma_kept_few(first, first, first);
}

/// The trivia from `index` on are the one at `index` and those behind it.
pub proof fn lemma_rest_split(trivia: Seq<TokenView>, index: int)
    requires
        0 <= index < trivia.len(),
    ensures
        trivia.subrange(index, trivia.len() as int) == seq![trivia[index]] + trivia.subrange(
            index + 1,
            trivia.len() as int,
        ),
{
    assert(trivia.subrange(index, trivia.len() as int) =~= seq![trivia[index]] + trivia.subrange(
        index + 1,
        trivia.len() as int,
    ));
}

/// Nothing is kept of whitespace.
pub proof fn lemma_kept_whitespace(state: FormatterState, extra: Option<usize>)
    ensures
        kept_one(space()) == Multiset::<TokenView>::empty(),
        kept_one(state.newline_trivia()) == Multiset::<TokenView>::empty(),
        kept_one(state.indent_trivia(extra)) == Multiset::<TokenView>::empty(),
        kept(seq![space()]) == Multiset::<TokenView>::empty(),
        kept(seq![state.newline_trivia()]) == Multiset::<TokenView>::empty(),
        kept(seq![state.indent_trivia(extra)]) == Multiset::<TokenView>::empty(),
        kept(optional_space(true)) == Multiset::<TokenView>::empty(),
        kept(optional_space(false)) == Multiset::<TokenView>::empty(),
{
    lemma_kept_few(space(), space(), space());
    lemma_kept_few(state.newline_trivia(), space(), space());
    lemma_kept_few(state.indent_trivia(extra), space(), space());
}

/// The trailing trivia of a formatted token hold the comments that stood
/// behind the token, and no other.
pub proof fn lemma_trailing_from(trivia: Seq<TokenView>, index: int)
    requires
        0 <= index <= trivia.len(),
    ensures
        kept(trailing_from(trivia, index)) == kept(trivia.subrange(index, trivia.len() as int)),
    decreases trivia.len() - index,
{
    if index >= trivia.len() {
        assert(trivia.subrange(index, trivia.len() as int) =~= Seq::<TokenView>::empty());
    } else {
        let rest = trivia.subrange(index + 1, trivia.len() as int);
        lemma_rest_split(trivia, index);
        lemma_kept_front(trivia[index], rest);
        lemma_trailing_from(trivia, index + 1);
        let behind = trailing_from(trivia, index + 1);
        if trivia[index].kind == TokenKind::Whitespace {
            assert(kept_one(trivia[index]).add(kept(rest)) =~= kept(rest));
        } else if trivia[index].kind.spec_is_comment() {
            lemma_kept_add(seq![space(), trivia[index]], behind);
            lemma_kept_few(space(), trivia[index], space());
            assert(kept_one(space()).add(kept_one(trivia[index])).add(kept(behind)) =~= kept_one(
                trivia[index],
            ).add(kept(rest)));
        } else {
            lemma_kept_front(trivia[index], behind);
        }
    }
}

/// The trailing trivia of a formatted token hold the comments that stood
/// behind the token, and no other.
pub proof fn lemma_format_trailing(trivia: Seq<TokenView>)
    ensures
        kept(format_trailing(trivia)) == kept(trivia),
{
    lemma_trailing_from(trivia, 0);
    assert(trivia.subrange(0, trivia.len() as int) =~= trivia);
}

/// The leading trivia of a formatted token hold the comments that stood in
/// front of the token, and no other.
pub proof fn lemma_leading_from(
    state: FormatterState,
    trivia: Seq<TokenView>,
    index: int,
    extra: Option<usize>,
)
    requires
        0 <= index <= trivia.len(),
    ensures
        kept(state.leading_from(trivia, index, extra)) == kept(
            trivia.subrange(index, trivia.len() as int),
        ),
    decreases trivia.len() - index,
{
    lemma_kept_whitespace(state, extra);
    if index >= trivia.len() {
        assert(trivia.subrange(index, trivia.len() as int) =~= Seq::<TokenView>::empty());
    } else {
        let rest = trivia.subrange(index + 1, trivia.len() as int);
        lemma_rest_split(trivia, index);
        lemma_kept_front(trivia[index], rest);
        if trivia[index].kind == TokenKind::Whitespace {
            assert(kept_one(trivia[index]).add(kept(rest)) =~= kept(rest));
            lemma_leading_from(state, trivia, index + 1, extra);
        } else if trivia[index].kind.spec_is_comment() {
            let next = index + 1 + line_break_after(trivia, index);
            lemma_leading_from(state, trivia, next, extra);
            let behind = state.leading_from(trivia, next, extra);
            let line = seq![state.indent_trivia(extra), trivia[index], state.newline_trivia()];
            lemma_kept_add(line, behind);
            lemma_kept_few(state.indent_trivia(extra), trivia[index], state.newline_trivia());
            if line_break_after(trivia, index) == 1 {
                let after = trivia.subrange(index + 2, trivia.len() as int);
                lemma_rest_split(trivia, index + 1);
                lemma_kept_front(trivia[index + 1], after);
                assert(kept_one(trivia[index + 1]).add(kept(after)) =~= kept(after));
            }
            assert(kept(line).add(kept(behind)) =~= kept_one(trivia[index]).add(kept(rest)));
        } else {
            lemma_leading_from(state, trivia, index + 1, extra);
            lemma_kept_front(
                trivia[index],
                state.leading_from(trivia, index + 1, extra),
            );
        }
    }
}

/// The leading trivia of a formatted token hold the comments that stood in
/// front of the token, and no other.
pub proof fn lemma_format_leading(
    state: FormatterState,
    trivia: Seq<TokenView>,
    extra: Option<usize>,
)
    ensures
        kept(state.format_leading(trivia, extra)) == kept(trivia),
{
    lemma_leading_from(state, trivia, 0, extra);
    assert(trivia.subrange(0, trivia.len() as int) =~= trivia);
}

/// The lines made of trivia hold what the trivia held but whitespace.
pub proof fn lemma_lines_from(
    state: FormatterState,
    trivia: Seq<TokenView>,
    index: int,
    extra: Option<usize>,
)
    requires
        0 <= index <= trivia.len(),
    ensures
        kept(lines_from(state, trivia, index, extra)) == kept(
            trivia.subrange(index, trivia.len() as int),
        ),
    decreases trivia.len() - index,
{
    lemma_kept_whitespace(state, extra);
    if index >= trivia.len() {
        assert(trivia.subrange(index, trivia.len() as int) =~= Seq::<TokenView>::empty());
    } else {
        let rest = trivia.subrange(index + 1, trivia.len() as int);
        lemma_rest_split(trivia, index);
        lemma_kept_front(trivia[index], rest);
        lemma_lines_from(state, trivia, index + 1, extra);
        let behind = lines_from(state, trivia, index + 1, extra);
        if trivia[index].kind == TokenKind::Whitespace {
            assert(kept_one(trivia[index]).add(kept(rest)) =~= kept(rest));
        } else {
            let line = seq![state.indent_trivia(extra), trivia[index], state.newline_trivia()];
            lemma_kept_add(line, behind);
            lemma_kept_few(state.indent_trivia(extra), trivia[index], state.newline_trivia());
            assert(kept(line).add(kept(behind)) =~= kept_one(trivia[index]).add(kept(rest)));
        }
    }
}

/// The lines made of trivia hold what the trivia held but whitespace.
pub proof fn lemma_lines(state: FormatterState, trivia: Seq<TokenView>, extra: Option<usize>)
    ensures
        kept(lines_from(state, trivia, 0, extra)) == kept(trivia),
{
    lemma_lines_from(state, trivia, 0, extra);
    assert(trivia.subrange(0, trivia.len() as int) =~= trivia);
}

/// A formatted token is the token, or the token with its quotes normalized,
/// and has the comments of the token.
pub proof fn lemma_format_token_reference(state: FormatterState, token: TokenReferenceView)
    ensures
        atom_kept(state.config, token.token, state.format_token_reference(token).token),
        token_comments(state.format_token_reference(token)) == token_comments(token),
{
    lemma_format_leading(state, token.leading, None);
    lemma_format_trailing(token.trailing);
}

/// A formatted symbol is the symbol, and has its comments.
pub proof fn lemma_format_symbol(
    state: FormatterState,
    token: TokenReferenceView,
    space_before: bool,
    space_after: bool,
)
    ensures
        state.format_symbol(token, space_before, space_after).token == token.token,
        token_comments(state.format_symbol(token, space_before, space_after)) == token_comments(
            token,
        ),
{
    lemma_format_leading(state, token.leading, None);
    lemma_format_trailing(token.trailing);
    lemma_kept_whitespace(state, None);
    lemma_kept_add(state.format_leading(token.leading, None), optional_space(space_before));
    lemma_kept_add(optional_space(space_after), format_trailing(token.trailing));
    let formatted = state.format_symbol(token, space_before, space_after);
    assert(token_comments(formatted) =~= token_comments(token));
}

/// A formatted closing token is the token, and has its comments.
pub proof fn lemma_format_end_token(
    state: FormatterState,
    token: TokenReferenceView,
    kind: EndTokenType,
)
    ensures
        state.format_end_token(token, kind).token == token.token,
        token_comments(state.format_end_token(token, kind)) == token_comments(token),
{
    lemma_format_leading(state, token.leading, crate::formatter::end_comment_indent(kind));
    lemma_format_trailing(token.trailing);
}

/// The separator on one line is the separator; the comments that stood
/// behind it are taken away, the others stay.
pub proof fn lemma_list_separator(state: FormatterState, separator: TokenReferenceView)
    ensures
        list_separator(state, separator).token == separator.token,
        token_comments(list_separator(state, separator)).add(
            kept(format_trailing(separator.trailing)),
        ) == token_comments(separator),
{
    lemma_format_leading(state, separator.leading, None);
    lemma_format_trailing(separator.trailing);
    lemma_kept_whitespace(state, None);
    assert(token_comments(list_separator(state, separator)).add(
        kept(format_trailing(separator.trailing)),
    ) =~= token_comments(separator));
}

/// The comments taken from a token that is not written out are its comments.
pub proof fn lemma_dropped_comments(token: TokenReferenceView)
    ensures
        kept(dropped_comments(token)) == token_comments(token),
{
    lemma_format_trailing(token.leading);
    lemma_format_trailing(token.trailing);
    lemma_kept_add(format_trailing(token.leading), format_trailing(token.trailing));
}

/// The list that an edit adds: its list where it appends, nothing where it
/// leaves the trivia as they are.
pub open spec fn added_by(edit: FormatTriviaTypeView) -> Seq<TokenView> {
    match edit {
        FormatTriviaTypeView::Append(list) => list,
        _ => Seq::empty(),
    }
}

/// A token whose trivia are edited without replacing any is the token, and
/// has its comments and those that the edits add.
pub proof fn lemma_with_trivia(
    token: TokenReferenceView,
    leading: FormatTriviaTypeView,
    trailing: FormatTriviaTypeView,
)
    requires
        !(leading is Replace),
        !(trailing is Replace),
    ensures
        with_trivia(token, leading, trailing).token == token.token,
        token_comments(with_trivia(token, leading, trailing)) == token_comments(token).add(
            kept(added_by(leading)),
        ).add(kept(added_by(trailing))),
{
    lemma_kept_few(space(), space(), space());
    lemma_kept_add(token.leading, added_by(leading));
    lemma_kept_add(token.trailing, added_by(trailing));
    lemma_add_empty(token.leading);
    lemma_add_empty(token.trailing);
    assert(edited(token.leading, leading) == token.leading + added_by(leading));
    assert(edited(token.trailing, trailing) == token.trailing + added_by(trailing));
    assert(token_comments(with_trivia(token, leading, trailing)) =~= token_comments(token).add(
        kept(added_by(leading)),
    ).add(kept(added_by(trailing))));
}

/// A token put at the start of a line, alone on a line or at the end of a
/// line is the token, and has its comments.
pub proof fn lemma_line_tokens(
    state: FormatterState,
    token: TokenReferenceView,
    extra: Option<usize>,
)
    ensures
        opening(state, token, extra).token == token.token,
        token_comments(opening(state, token, extra)) == token_comments(token),
        own_line(state, token, extra).token == token.token,
        token_comments(own_line(state, token, extra)) == token_comments(token),
        closing(state, token).token == token.token,
        token_comments(closing(state, token)) == token_comments(token),
{
    lemma_kept_whitespace(state, extra);
    let indent = FormatTriviaTypeView::Append(seq![state.indent_trivia(extra)]);
    let newline = FormatTriviaTypeView::Append(seq![state.newline_trivia()]);
    lemma_with_trivia(token, indent, FormatTriviaTypeView::NoChange);
    lemma_with_trivia(token, indent, newline);
    lemma_with_trivia(token, FormatTriviaTypeView::NoChange, newline);
    lemma_kept_few(space(), space(), space());
    assert(token_comments(opening(state, token, extra)) =~= token_comments(token));
    assert(token_comments(own_line(state, token, extra)) =~= token_comments(token));
    assert(token_comments(closing(state, token)) =~= token_comments(token));
}

/// The keywords around a condition are the keywords, and have their comments.
pub proof fn lemma_condition_tokens(
    state: FormatterState,
    token: TokenReferenceView,
    extra: Option<usize>,
    multiline: bool,
)
    ensures
        condition_opener(state, token, extra, multiline).token == token.token,
        token_comments(condition_opener(state, token, extra, multiline)) == token_comments(token),
        condition_closer(state, token, extra, multiline).token == token.token,
        token_comments(condition_closer(state, token, extra, multiline)) == token_comments(token),
{
    lemma_format_symbol(state, token, false, false);
    lemma_format_symbol(state, token, false, true);
    lemma_format_symbol(state, token, true, false);
    lemma_line_tokens(state, state.format_symbol(token, false, false), extra);
    lemma_line_tokens(state, state.format_symbol(token, false, true), extra);
    lemma_line_tokens(state, state.format_symbol(token, true, false), extra);
}

/// A hung operator is the operator, and has its comments.
pub proof fn lemma_hung_operator(state: FormatterState, operator: TokenReferenceView, level: usize)
    ensures
        hung_operator(state, operator, level).token == operator.token,
        token_comments(hung_operator(state, operator, level)) == token_comments(operator),
{
    let extra = Some(operator_level(state, operator, level));
    lemma_kept_whitespace(state, extra);
    lemma_lines(state, operator.leading, extra);
    lemma_lines(state, operator.trailing, extra);
    let front = lines_from(state, operator.leading, 0, extra);
    let back = lines_from(state, operator.trailing, 0, extra);
    lemma_kept_add(seq![state.newline_trivia()], front);
    lemma_kept_add(seq![state.newline_trivia()] + front, back);
    lemma_kept_add(seq![state.newline_trivia()] + front + back, seq![state.indent_trivia(extra)]);
    assert(token_comments(hung_operator(state, operator, level)) =~= token_comments(operator));
}

/// The tokens around a list laid out over several lines are the tokens, and
/// have their comments; the separator that is added has none.
pub proof fn lemma_hung_brackets(
    state: FormatterState,
    token: TokenReferenceView,
    inner: usize,
    outer: usize,
)
    ensures
        hung_opener(state, token).token == token.token,
        token_comments(hung_opener(state, token)) == token_comments(token),
        hung_closer(state, token, inner, outer).token == token.token,
        token_comments(hung_closer(state, token, inner, outer)) == token_comments(token),
        token_comments(added_separator(state)) == Multiset::<TokenView>::empty(),
{
    lemma_kept_whitespace(state, Some(outer));
    lemma_format_trailing(token.trailing);
    lemma_kept_add(format_trailing(token.trailing), seq![state.newline_trivia()]);
    lemma_lines(state, token.leading, Some(inner));
    lemma_kept_add(
        lines_from(state, token.leading, 0, Some(inner)),
        seq![state.indent_trivia(Some(outer))],
    );
    lemma_kept_few(space(), space(), space());
    assert(token_comments(hung_opener(state, token)) =~= token_comments(token));
    assert(token_comments(hung_closer(state, token, inner, outer)) =~= token_comments(token));
    assert(token_comments(added_separator(state)) =~= Multiset::<TokenView>::empty());
}

} // verus!
