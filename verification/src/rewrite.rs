//! Replacing the text of a token.
//!
//! A token that gets a new text keeps its place in the source and the trivia
//! around it; its kind is read off the new text.

use vstd::prelude::*;
use crate::token::{
    bytes_of, duplicate_tokens, same_text, text_of, Token, TokenKind, TokenReference,
    TokenReferenceView, TokenView,
};
use crate::trivia::{CARRIAGE_RETURN, LINE_FEED, SPACE, TAB};

verus! {

/// The opening bracket of long strings and long comments.
pub const OPEN_BRACKET: u8 = 91;

/// The equals sign, which gives a long bracket its level.
pub const EQUALS: u8 = 61;

/// The dash, two of which start a comment.
pub const DASH: u8 = 45;

/// The dot, which may start a number.
pub const DOT: u8 = 46;

/// The underscore, which may start a name.
pub const UNDERSCORE: u8 = 95;

/// Whether the byte is whitespace.
pub open spec fn is_space(byte: u8) -> bool {
    byte == SPACE || byte == TAB || byte == LINE_FEED || byte == CARRIAGE_RETURN || byte == 11
        || byte == 12
}

/// Whether the byte is a decimal digit.
pub open spec fn is_digit(byte: u8) -> bool {
    48 <= byte <= 57
}

/// Whether the byte is a letter.
pub open spec fn is_letter(byte: u8) -> bool {
    (65 <= byte <= 90) || (97 <= byte <= 122)
}

/// Whether every byte of the text is whitespace.
pub open spec fn all_space(text: Seq<u8>) -> bool {
    forall|i: int| 0 <= i < text.len() ==> is_space(#[trigger] text[i])
}

/// The first index from `index` on at which the text holds no equals sign.
pub open spec fn equals_end(text: Seq<u8>, index: int) -> int
    decreases text.len() - index,
{
    if 0 <= index < text.len() && text[index] == EQUALS {
        equals_end(text, index + 1)
    } else {
        index
    }
}

/// Whether a long bracket opens at `index`: an opening bracket, any number
/// of equals signs, and an opening bracket again.
pub open spec fn opens_long_bracket(text: Seq<u8>, index: int) -> bool {
    0 <= index < text.len() && text[index] == OPEN_BRACKET && equals_end(text, index + 1)
        < text.len() && text[equals_end(text, index + 1)] == OPEN_BRACKET
}

/// Whether the text is one of the reserved words of Lua.
pub open spec fn is_keyword(text: Seq<u8>) -> bool {
    text == text_of("and") || text == text_of("break") || text == text_of("do") || text == text_of(
        "else",
    ) || text == text_of("elseif") || text == text_of("end") || text == text_of("false") || text
        == text_of("for") || text == text_of("function") || text == text_of("if") || text
        == text_of("in") || text == text_of("local") || text == text_of("nil") || text == text_of(
        "not",
    ) || text == text_of("or") || text == text_of("repeat") || text == text_of("return") || text
        == text_of("then") || text == text_of("true") || text == text_of("until") || text
        == text_of("while")
}

/// The kind of the token that a text is.
pub open spec fn kind_of_text(text: Seq<u8>) -> TokenKind {
    if text.len() == 0 {
        TokenKind::Eof
    } else if all_space(text) {
        TokenKind::Whitespace
    } else if text.len() >= 2 && text[0] == DASH && text[1] == DASH {
        if opens_long_bracket(text, 2) {
            TokenKind::MultiLineComment
        } else {
            TokenKind::SingleLineComment
        }
    } else if crate::quote::is_quote(text[0]) || opens_long_bracket(text, 0) {
        TokenKind::StringLiteral
    } else if is_digit(text[0]) || (text.len() >= 2 && text[0] == DOT && is_digit(text[1])) {
        TokenKind::Number
    } else if is_letter(text[0]) || text[0] == UNDERSCORE {
        if is_keyword(text) {
            TokenKind::Keyword
        } else {
            TokenKind::Identifier
        }
    } else {
        TokenKind::Symbol
    }
}

/// The token with another text: its kind is that of the text, its place in
/// the source is as before.
pub open spec fn with_text(token: TokenView, text: Seq<u8>) -> TokenView {
    TokenView { kind: kind_of_text(text), text, start: token.start, end: token.end }
}

/// The token with another text and the trivia that it had.
pub open spec fn rewritten(token: TokenReferenceView, text: Seq<u8>) -> TokenReferenceView {
    TokenReferenceView {
        leading: token.leading,
        token: with_text(token.token, text),
        trailing: token.trailing,
    }
}

/// Whether every byte of the text is whitespace.
fn is_all_space(text: &Vec<u8>) -> (all: bool)
    ensures
        all == all_space(text@),
{
    let mut i: usize = 0;
    while i < text.len()
        invariant
            i <= text.len(),
            forall|j: int| 0 <= j < i ==> is_space(#[trigger] text@[j]),
        decreases text.len() - i,
    {
        let byte = text[i];
        if !(byte == SPACE || byte == TAB || byte == LINE_FEED || byte == CARRIAGE_RETURN || byte
            == 11 || byte == 12) {
            assert(!is_space(text@[i as int]));
            return false;
        }
        i += 1;
    }
    true
}

/// Whether a long bracket opens at `index`.
fn long_bracket_opens(text: &Vec<u8>, index: usize) -> (opens: bool)
    ensures
        opens == opens_long_bracket(text@, index as int),
{
    if index >= text.len() || text[index] != OPEN_BRACKET {
        return false;
    }
    let mut i: usize = index + 1;
    while i < text.len() && text[i] == EQUALS
        invariant
            index < i <= text.len(),
            equals_end(text@, i as int) == equals_end(text@, index + 1),
        decreases text.len() - i,
    {
        i += 1;
    }
    i < text.len() && text[i] == OPEN_BRACKET
}

/// Whether the text is one of the reserved words of Lua.
fn is_reserved(text: &Vec<u8>) -> (reserved: bool)
    ensures
        reserved == is_keyword(text@),
{
    same_text(text, &bytes_of("and")) || same_text(text, &bytes_of("break")) || same_text(
        text,
        &bytes_of("do"),
    ) || same_text(text, &bytes_of("else")) || same_text(text, &bytes_of("elseif")) || same_text(
        text,
        &bytes_of("end"),
    ) || same_text(text, &bytes_of("false")) || same_text(text, &bytes_of("for")) || same_text(
        text,
        &bytes_of("function"),
    ) || same_text(text, &bytes_of("if")) || same_text(text, &bytes_of("in")) || same_text(
        text,
        &bytes_of("local"),
    ) || same_text(text, &bytes_of("nil")) || same_text(text, &bytes_of("not")) || same_text(
        text,
        &bytes_of("or"),
    ) || same_text(text, &bytes_of("repeat")) || same_text(text, &bytes_of("return"))
        || same_text(text, &bytes_of("then")) || same_text(text, &bytes_of("true")) || same_text(
        text,
        &bytes_of("until"),
    ) || same_text(text, &bytes_of("while"))
}

/// The kind of the token that a text is.
pub fn infer_kind(text: &Vec<u8>) -> (kind: TokenKind)
    ensures
        kind == kind_of_text(text@),
{
    if text.len() == 0 {
        return TokenKind::Eof;
    }
    if is_all_space(text) {
        return TokenKind::Whitespace;
    }
    let first = text[0];
    if text.len() >= 2 && first == DASH && text[1] == DASH {
        if long_bracket_opens(text, 2) {
            TokenKind::MultiLineComment
        } else {
            TokenKind::SingleLineComment
        }
    } else if first == crate::quote::DOUBLE_QUOTE || first == crate::quote::SINGLE_QUOTE
        || long_bracket_opens(text, 0) {
        TokenKind::StringLiteral
    } else if (48 <= first && first <= 57) || (text.len() >= 2 && first == DOT && 48 <= text[1]
        && text[1] <= 57) {
        TokenKind::Number
    } else if (65 <= first && first <= 90) || (97 <= first && first <= 122) || first
        == UNDERSCORE {
        if is_reserved(text) {
            TokenKind::Keyword
        } else {
            TokenKind::Identifier
        }
    } else {
        TokenKind::Symbol
    }
}

impl TokenReference {
    /// This token with another text. The trivia around the token stay, and
    /// so does its place in the source; its kind is that of the new text.
    pub fn with_text(&self, text: Vec<u8>) -> (result: TokenReference)
        ensures
            result@ == rewritten(self@, text@),
    {
        TokenReference {
            leading_trivia: duplicate_tokens(&self.leading_trivia),
            token: Token {
                kind: infer_kind(&text),
                text,
                start: self.token.start,
                end: self.token.end,
            },
            trailing_trivia: duplicate_tokens(&self.trailing_trivia),
        }
    }
}

/// A string literal with its quotes normalized is a string literal again:
/// where the formatter replaces the text of a string literal, the kind that
/// is read off the new text is the kind the token had.
pub proof fn lemma_normalized_string_kind(text: Seq<u8>, style: crate::config::QuoteStyle)
    requires
        crate::quote::is_short_string(text),
    ensures
        kind_of_text(crate::quote::normalized_string(text, style)) == TokenKind::StringLiteral,
{
    let normalized = crate::quote::normalized_string(text, style);
    let quote = crate::quote::chosen_quote(style, crate::quote::string_content(text));
    assert(normalized[0] == quote);
    assert(!is_space(normalized[0]));
    assert(normalized[0] != DASH);
}

} // verus!
