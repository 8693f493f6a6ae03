//! The state of one formatting pass, and how single tokens are formatted.

use vstd::prelude::*;
use crate::config::{Config, IndentType, LineEndings};
use crate::quote::{normalize_string, normalized_string};
use crate::sequences::{lemma_add_assoc, lemma_add_empty, lemma_push_last};
use crate::token::{
    lemma_tokens_view_push, tokens_view, Token, TokenKind, TokenReference, TokenReferenceView,
    TokenView,
};
use crate::trivia::{
    has_line_feed, repeat_byte, repeated, space, space_token, whitespace, CARRIAGE_RETURN,
    LINE_FEED, SPACE, TAB,
};

verus! {

/// What a token closes, which decides how the comments in front of it are indented.
#[derive(Clone, Copy, Debug, PartialEq, Eq, Structural)]
pub enum EndTokenType {
    /// The token ends a block: `end`, `else`, `elseif` or `until`. Comments in
    /// front of it belong to the block and are indented with it.
    BlockEnd,
    /// The token is a closing parenthesis.
    ClosingParens,
    /// The token is a closing brace.
    ClosingBrace,
}

/// The formatter: the configuration and the state of one pass.
#[derive(Debug)]
pub struct CodeFormatter {
    /// The configuration, which never changes during a pass.
    pub config: Config,
    /// The bytes of the source to which formatting is restricted, if any.
    pub range: Option<(usize, usize)>,
    /// The indent depth of the block that is being visited.
    pub indent_level: usize,
    /// The byte ranges whose tokens get one more indent.
    pub indent_ranges: Vec<(usize, usize)>,
    /// Whether a directive has switched formatting off for the statements that follow.
    pub ignoring: bool,
}

/// The mathematical value of a [`CodeFormatter`].
pub ghost struct FormatterState {
    pub config: Config,
    pub range: Option<(usize, usize)>,
    pub indent_level: usize,
    pub indent_ranges: Seq<(usize, usize)>,
    pub ignoring: bool,
}

impl View for CodeFormatter {
    type V = FormatterState;

    open spec fn view(&self) -> FormatterState {
        FormatterState {
            config: self.config,
            range: self.range,
            indent_level: self.indent_level,
            indent_ranges: self.indent_ranges@,
            ignoring: self.ignoring,
        }
    }
}

/// The product of two numbers, or the largest number where it is too large.
pub open spec fn saturating_product(a: usize, b: usize) -> usize {
    if a * b > usize::MAX {
        usize::MAX
    } else {
        (a * b) as usize
    }
}

/// The number of an optional count, none counting as zero.
pub open spec fn count_of(extra: Option<usize>) -> usize {
    match extra {
        Some(n) => n,
        None => 0,
    }
}

/// Whether the range `outer` holds the range `inner`, both ends included.
pub open spec fn covers(outer: (usize, usize), inner: (usize, usize)) -> bool {
    outer.0 <= inner.0 && inner.1 <= outer.1
}

/// The text of a line ending.
pub open spec fn newline_text(line_endings: LineEndings) -> Seq<u8> {
    match line_endings {
        LineEndings::Unix => seq![LINE_FEED],
        LineEndings::Windows => seq![CARRIAGE_RETURN, LINE_FEED],
    }
}

impl FormatterState {
    /// The state at the start of a pass.
    pub open spec fn initial(config: Config, range: Option<(usize, usize)>) -> FormatterState {
        FormatterState {
            config,
            range,
            indent_level: 0,
            indent_ranges: Seq::empty(),
            ignoring: false,
        }
    }

    /// The indent depth of a token that gets `extra` indents beyond those of its block.
    pub open spec fn indent_depth(self, extra: Option<usize>) -> usize {
        self.indent_level.saturating_add(count_of(extra))
    }

    /// The text of the indent of that depth.
    pub open spec fn indent_text(self, extra: Option<usize>) -> Seq<u8> {
        match self.config.indent_type {
            IndentType::Tabs => repeated(TAB, self.indent_depth(extra) as nat),
            IndentType::Spaces => repeated(
                SPACE,
                saturating_product(self.indent_depth(extra), self.config.indent_width) as nat,
            ),
        }
    }

    /// The whitespace that indents a token by the depth of its block and `extra` more.
    pub open spec fn indent_trivia(self, extra: Option<usize>) -> TokenView {
        whitespace(self.indent_text(extra))
    }

    /// The whitespace that ends a line.
    pub open spec fn newline_trivia(self) -> TokenView {
        whitespace(newline_text(self.config.line_endings))
    }

    /// Whether a registered range holds `range`.
    pub open spec fn in_indent_range(self, range: (usize, usize)) -> bool {
        exists|i: int| 0 <= i < self.indent_ranges.len() && covers(#[trigger] self.indent_ranges[i], range)
    }

    /// The indents that a token at `range` gets beyond those of its block:
    /// one if a registered range holds it, none otherwise.
    pub open spec fn range_indent_increase(self, range: (usize, usize)) -> Option<usize> {
        if self.in_indent_range(range) {
            Some(1usize)
        } else {
            None
        }
    }

    /// The state in which `range` is registered too.
    pub open spec fn add_indent_range(self, range: (usize, usize)) -> FormatterState {
        FormatterState { indent_ranges: self.indent_ranges.push(range), ..self }
    }

    /// The state inside a block nested in the one that is being visited.
    pub open spec fn nested(self) -> FormatterState {
        FormatterState { indent_level: self.indent_level.saturating_add(1), ..self }
    }

    /// The state with another indent depth.
    pub open spec fn at_level(self, indent_level: usize) -> FormatterState {
        FormatterState { indent_level, ..self }
    }

    /// The leading trivia of a formatted token, from the trivia at `index` on.
    /// Whitespace goes. Each comment stands on a line of its own, indented by
    /// the depth of the block and `extra` more.
    pub open spec fn leading_from(self, trivia: Seq<TokenView>, index: int, extra: Option<usize>)
        -> Seq<TokenView>
        decreases trivia.len() - index,
    {
        if index < 0 || index >= trivia.len() {
            Seq::empty()
        } else if trivia[index].kind == TokenKind::Whitespace {
            self.leading_from(trivia, index + 1, extra)
        } else if trivia[index].kind.spec_is_comment() {
            seq![self.indent_trivia(extra), trivia[index], self.newline_trivia()]
                + self.leading_from(trivia, index + 1 + line_break_after(trivia, index), extra)
        } else {
            seq![trivia[index]] + self.leading_from(trivia, index + 1, extra)
        }
    }

    /// The leading trivia of a formatted token.
    pub open spec fn format_leading(self, trivia: Seq<TokenView>, extra: Option<usize>) -> Seq<
        TokenView,
    > {
        self.leading_from(trivia, 0, extra)
    }

    /// The token with its text in canonical form: a string literal gets the
    /// quotes that the configuration asks for, any other token stays as it is.
    pub open spec fn format_token(self, token: TokenView) -> TokenView {
        if token.kind == TokenKind::StringLiteral {
            TokenView { text: normalized_string(token.text, self.config.quote_style), ..token }
        } else {
            token
        }
    }

    /// A formatted token: whitespace around it is gone, its comments are kept.
    pub open spec fn format_token_reference(self, token: TokenReferenceView) -> TokenReferenceView {
        TokenReferenceView {
            leading: self.format_leading(token.leading, None),
            token: self.format_token(token.token),
            trailing: format_trailing(token.trailing),
        }
    }

    /// A formatted keyword, operator or punctuation mark, with a space in front
    /// of it where `space_before` holds and one behind it where `space_after` holds.
    pub open spec fn format_symbol(
        self,
        token: TokenReferenceView,
        space_before: bool,
        space_after: bool,
    ) -> TokenReferenceView {
        TokenReferenceView {
            leading: self.format_leading(token.leading, None) + optional_space(space_before),
            token: token.token,
            trailing: optional_space(space_after) + format_trailing(token.trailing),
        }
    }

    /// A formatted token that closes a construct. The comments in front of
    /// it stand as deep as what the construct holds.
    pub open spec fn format_end_token(
        self,
        token: TokenReferenceView,
        kind: EndTokenType,
    ) -> TokenReferenceView {
        TokenReferenceView {
            leading: self.format_leading(token.leading, end_comment_indent(kind)),
            token: token.token,
            trailing: format_trailing(token.trailing),
        }
    }
}

/// The extra indent of the comments in front of a closing token.
pub open spec fn end_comment_indent(kind: EndTokenType) -> Option<usize> {
    match kind {
        EndTokenType::BlockEnd => Some(1usize),
        EndTokenType::ClosingParens => Some(1usize),
        EndTokenType::ClosingBrace => Some(1usize),
    }
}

/// One if the trivia behind the one at `index` is whitespace with a line feed,
/// which is the line break that ends a comment's line; zero otherwise.
pub open spec fn line_break_after(trivia: Seq<TokenView>, index: int) -> int {
    if index + 1 < trivia.len() && trivia[index + 1].kind == TokenKind::Whitespace && trivia[index
        + 1].text.contains(LINE_FEED) {
        1
    } else {
        0
    }
}

/// A space, or nothing.
pub open spec fn optional_space(wanted: bool) -> Seq<TokenView> {
    if wanted {
        seq![space()]
    } else {
        Seq::empty()
    }
}

/// The trailing trivia of a formatted token, from the trivia at `index` on:
/// whitespace goes, and each comment follows after one space.
pub open spec fn trailing_from(trivia: Seq<TokenView>, index: int) -> Seq<TokenView>
    decreases trivia.len() - index,
{
    if index < 0 || index >= trivia.len() {
        Seq::empty()
    } else if trivia[index].kind == TokenKind::Whitespace {
        trailing_from(trivia, index + 1)
    } else if trivia[index].kind.spec_is_comment() {
        seq![space(), trivia[index]] + trailing_from(trivia, index + 1)
    } else {
        seq![trivia[index]] + trailing_from(trivia, index + 1)
    }
}

/// The trailing trivia of a formatted token.
pub open spec fn format_trailing(trivia: Seq<TokenView>) -> Seq<TokenView> {
    trailing_from(trivia, 0)
}

/// The product of two numbers, or the largest number where it is too large.
pub fn saturating_mul(a: usize, b: usize) -> (product: usize)
    ensures
        product == saturating_product(a, b),
{
    match a.checked_mul(b) {
        Some(product) => product,
        None => usize::MAX,
    }
}

/// The trailing trivia of a formatted token.
pub fn format_trailing_trivia(trivia: &Vec<Token>) -> (formatted: Vec<Token>)
    ensures
        tokens_view(formatted@) == format_trailing(tokens_view(trivia@)),
{
    let ghost views = tokens_view(trivia@);
    let mut formatted: Vec<Token> = Vec::new();
    let mut i: usize = 0;
    proof {
        assert(tokens_view(formatted@) =~= Seq::empty());
        lemma_add_empty(trailing_from(views, 0));
    }
    while i < trivia.len()
        invariant
            i <= trivia.len(),
            views == tokens_view(trivia@),
            tokens_view(formatted@) + trailing_from(views, i as int) == trailing_from(views, 0),
        decreases trivia.len() - i,
    {
        let ghost before = tokens_view(formatted@);
        let ghost rest = trailing_from(views, i + 1);
        let kind = trivia[i].kind;
        if kind == TokenKind::Whitespace {
        } else if kind.is_comment() {
            let blank = space_token();
            let comment = trivia[i].duplicate();
            proof {
                lemma_tokens_view_push(formatted@, blank);
                lemma_tokens_view_push(formatted@.push(blank), comment);
                assert(before.push(space()).push(views[i as int]) =~= before + seq![
                    space(),
                    views[i as int],
                ]);
                lemma_add_assoc(before, seq![space(), views[i as int]], rest);
            }
            formatted.push(blank);
            formatted.push(comment);
        } else {
            let other = trivia[i].duplicate();
            proof {
                lemma_tokens_view_push(formatted@, other);
                lemma_push_last(before, views[i as int]);
                lemma_add_assoc(before, seq![views[i as int]], rest);
            }
            formatted.push(other);
        }
        i += 1;
    }
    proof {
        lemma_add_empty(tokens_view(formatted@));
    }
    formatted
}

impl CodeFormatter {
    /// A formatter at the start of a pass over a chunk.
    pub fn new(config: Config, range: Option<(usize, usize)>) -> (formatter: CodeFormatter)
        ensures
            formatter@ == FormatterState::initial(config, range),
    {
        CodeFormatter {
            config,
            range,
            indent_level: 0,
            indent_ranges: Vec::new(),
            ignoring: false,
        }
    }

    /// The whitespace that indents a token by the depth of the current block
    /// and `additional_indent_level` more.
    pub fn create_indent_trivia(&self, additional_indent_level: Option<usize>) -> (token: Token)
        ensures
            token@ == self@.indent_trivia(additional_indent_level),
    {
        let extra = match additional_indent_level {
            Some(level) => level,
            None => 0,
        };
        let depth = self.indent_level.saturating_add(extra);
        let text = match self.config.indent_type {
            IndentType::Tabs => repeat_byte(TAB, depth),
            IndentType::Spaces => repeat_byte(
                SPACE,
                saturating_mul(depth, self.config.indent_width),
            ),
        };
        Token::new(TokenKind::Whitespace, text)
    }

    /// The whitespace that ends a line.
    pub fn create_newline_trivia(&self) -> (token: Token)
        ensures
            token@ == self@.newline_trivia(),
    {
        let mut text: Vec<u8> = Vec::new();
        match self.config.line_endings {
            LineEndings::Unix => {
                text.push(LINE_FEED);
                assert(text@ =~= seq![LINE_FEED]);
            },
            LineEndings::Windows => {
                text.push(CARRIAGE_RETURN);
                text.push(LINE_FEED);
                assert(text@ =~= seq![CARRIAGE_RETURN, LINE_FEED]);
            },
        }
        Token::new(TokenKind::Whitespace, text)
    }

    /// The byte range of a token.
    pub fn get_token_range(token: &TokenReference) -> (range: (usize, usize))
        ensures
            range == (token@.token.start, token@.token.end),
    {
        (token.token.start, token.token.end)
    }

    /// The indents that a token at `range` gets beyond those of its block.
    pub fn get_range_indent_increase(&self, range: (usize, usize)) -> (increase: Option<usize>)
        ensures
            increase == self@.range_indent_increase(range),
    {
        let mut i: usize = 0;
        while i < self.indent_ranges.len()
            invariant
                i <= self.indent_ranges.len(),
                forall|j: int| 0 <= j < i ==> !covers(#[trigger] self.indent_ranges@[j], range),
            decreases self.indent_ranges.len() - i,
        {
            let outer = self.indent_ranges[i];
            if outer.0 <= range.0 && range.1 <= outer.1 {
                assert(covers(self@.indent_ranges[i as int], range));
                assert(self@.in_indent_range(range));
                return Some(1);
            }
            i += 1;
        }
        None
    }

    /// Registers `range`: the tokens in it get one more indent from now on.
    pub fn add_indent_range(&mut self, range: (usize, usize))
        ensures
            final(self)@ == old(self)@.add_indent_range(range),
    {
        self.indent_ranges.push(range);
    }

    /// The leading trivia of a formatted token.
    pub fn format_leading_trivia(&self, trivia: &Vec<Token>, extra: Option<usize>) -> (formatted:
        Vec<Token>)
        ensures
            tokens_view(formatted@) == self@.format_leading(tokens_view(trivia@), extra),
    {
        let ghost views = tokens_view(trivia@);
        let ghost state = self@;
        let mut formatted: Vec<Token> = Vec::new();
        let mut i: usize = 0;
        proof {
            assert(tokens_view(formatted@) =~= Seq::empty());
            lemma_add_empty(state.leading_from(views, 0, extra));
        }
        while i < trivia.len()
            invariant
                i <= trivia.len(),
                views == tokens_view(trivia@),
                state == self@,
                tokens_view(formatted@) + state.leading_from(views, i as int, extra)
                    == state.leading_from(views, 0, extra),
            decreases trivia.len() - i,
        {
            let ghost before = tokens_view(formatted@);
            let kind = trivia[i].kind;
            if kind == TokenKind::Whitespace {
                i += 1;
            } else if kind.is_comment() {
                let indent = self.create_indent_trivia(extra);
                let comment = trivia[i].duplicate();
                let newline = self.create_newline_trivia();
                let skip = i + 1 < trivia.len() && trivia[i + 1].kind == TokenKind::Whitespace
                    && has_line_feed(&trivia[i + 1].text);
                proof {
                    lemma_tokens_view_push(formatted@, indent);
                    lemma_tokens_view_push(formatted@.push(indent), comment);
                    lemma_tokens_view_push(formatted@.push(indent).push(comment), newline);
                    let piece = seq![
                        state.indent_trivia(extra),
                        views[i as int],
                        state.newline_trivia(),
                    ];
                    assert(before.push(state.indent_trivia(extra)).push(views[i as int]).push(
                        state.newline_trivia(),
                    ) =~= before + piece);
                    lemma_add_assoc(
                        before,
                        piece,
                        state.leading_from(views, i + 1 + line_break_after(views, i as int), extra),
                    );
                }
                formatted.push(indent);
                formatted.push(comment);
                formatted.push(newline);
                if skip {
                    i += 2;
                } else {
                    i += 1;
                }
            } else {
                let other = trivia[i].duplicate();
                proof {
                    lemma_tokens_view_push(formatted@, other);
                    lemma_push_last(before, views[i as int]);
                    lemma_add_assoc(
                        before,
                        seq![views[i as int]],
                        state.leading_from(views, i + 1, extra),
                    );
                }
                formatted.push(other);
                i += 1;
            }
        }
        proof {
            lemma_add_empty(tokens_view(formatted@));
        }
        formatted
    }

    /// The token with its text in canonical form.
    pub fn format_token(&self, token: &Token) -> (formatted: Token)
        ensures
            formatted@ == self@.format_token(token@),
    {
        if token.kind == TokenKind::StringLiteral {
            Token {
                kind: token.kind,
                text: normalize_string(&token.text, self.config.quote_style),
                start: token.start,
                end: token.end,
            }
        } else {
            token.duplicate()
        }
    }

    /// A formatted token: whitespace around it is gone, its comments are kept.
    pub fn format_token_reference(&self, token: &TokenReference) -> (formatted: TokenReference)
        ensures
            formatted@ == self@.format_token_reference(token@),
    {
        TokenReference {
            leading_trivia: self.format_leading_trivia(&token.leading_trivia, None),
            token: self.format_token(&token.token),
            trailing_trivia: format_trailing_trivia(&token.trailing_trivia),
        }
    }

    /// A formatted keyword, operator or punctuation mark, with a space in front
    /// of it where `space_before` holds and one behind it where `space_after` holds.
    pub fn format_symbol(&self, token: &TokenReference, space_before: bool, space_after: bool) -> (formatted:
        TokenReference)
        ensures
            formatted@ == self@.format_symbol(token@, space_before, space_after),
    {
        let mut leading = self.format_leading_trivia(&token.leading_trivia, None);
        if space_before {
            let blank = space_token();
            proof {
                lemma_tokens_view_push(leading@, blank);
                lemma_push_last(tokens_view(leading@), space());
            }
            leading.push(blank);
        } else {
            proof {
                lemma_add_empty(tokens_view(leading@));
            }
        }
        let mut trailing: Vec<Token> = Vec::new();
        let mut comments = format_trailing_trivia(&token.trailing_trivia);
        if space_after {
            trailing.push(space_token());
            assert(tokens_view(trailing@) =~= seq![space()]);
        } else {
            assert(tokens_view(trailing@) =~= Seq::empty());
        }
        proof {
            crate::token::lemma_tokens_view_add(trailing@, comments@);
        }
        trailing.append(&mut comments);
        TokenReference {
            leading_trivia: leading,
            token: token.token.duplicate(),
            trailing_trivia: trailing,
        }
    }

    /// A formatted token that closes a construct.
    pub fn format_end_token(&self, token: &TokenReference, kind: EndTokenType) -> (formatted:
        TokenReference)
        ensures
            formatted@ == self@.format_end_token(token@, kind),
    {
        let extra = match kind {
            EndTokenType::BlockEnd => Some(1),
            EndTokenType::ClosingParens => Some(1),
            EndTokenType::ClosingBrace => Some(1),
        };
        TokenReference {
            leading_trivia: self.format_leading_trivia(&token.leading_trivia, extra),
            token: token.token.duplicate(),
            trailing_trivia: format_trailing_trivia(&token.trailing_trivia),
        }
    }
}

} // verus!
