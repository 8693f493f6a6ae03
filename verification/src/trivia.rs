//! Editing the trivia of a token.
//!
//! Every edit of one side of a token is one of three operations: leave the
//! trivia as they are, append a list behind them, or replace them by a list.

use vstd::prelude::*;
use crate::token::{
    duplicate_tokens, lemma_tokens_view_add, tokens_view, Token, TokenKind, TokenReference,
    TokenReferenceView, TokenView,
};

verus! {

/// The space character.
pub const SPACE: u8 = 32;

/// The tab character.
pub const TAB: u8 = 9;

/// The line feed, which ends a line.
pub const LINE_FEED: u8 = 10;

/// The carriage return, which precedes the line feed of a Windows line ending.
pub const CARRIAGE_RETURN: u8 = 13;

/// `count` times the byte `byte`.
pub open spec fn repeated(byte: u8, count: nat) -> Seq<u8> {
    Seq::new(count, |i: int| byte)
}

/// `count` times the byte `byte`.
pub fn repeat_byte(byte: u8, count: usize) -> (text: Vec<u8>)
    ensures
        text@ == repeated(byte, count as nat),
{
    let mut text: Vec<u8> = Vec::new();
    let mut i: usize = 0;
    while i < count
        invariant
            i <= count,
            text@ == repeated(byte, i as nat),
        decreases count - i,
    {
        text.push(byte);
        assert(text@ =~= repeated(byte, (i + 1) as nat));
        i += 1;
    }
    text
}

/// Whether the text holds a line feed.
pub fn has_line_feed(text: &Vec<u8>) -> (found: bool)
    ensures
        found == text@.contains(LINE_FEED),
{
    let mut i: usize = 0;
    while i < text.len()
        invariant
            i <= text.len(),
            forall|j: int| 0 <= j < i ==> text@[j] != LINE_FEED,
        decreases text.len() - i,
    {
        if text[i] == LINE_FEED {
            return true;
        }
        i += 1;
    }
    false
}

/// A whitespace token with the given text.
pub open spec fn whitespace(text: Seq<u8>) -> TokenView {
    TokenView { kind: TokenKind::Whitespace, text, start: 0, end: 0 }
}

/// A whitespace token of one space.
pub open spec fn space() -> TokenView {
    whitespace(seq![SPACE])
}

/// A whitespace token of one space.
pub fn space_token() -> (token: Token)
    ensures
        token@ == space(),
{
    let text = repeat_byte(SPACE, 1);
    assert(text@ =~= seq![SPACE]);
    Token::new(TokenKind::Whitespace, text)
}

/// One edit of the trivia on one side of a token.
#[derive(Clone, Debug, PartialEq, Eq)]
pub enum FormatTriviaType {
    /// Leave the trivia as they are.
    NoChange,
    /// Put the list behind the trivia that are there.
    Append(Vec<Token>),
    /// Discard the trivia that are there and install the list.
    Replace(Vec<Token>),
}

/// The mathematical value of a [`FormatTriviaType`].
pub ghost enum FormatTriviaTypeView {
    NoChange,
    Append(Seq<TokenView>),
    Replace(Seq<TokenView>),
}

impl View for FormatTriviaType {
    type V = FormatTriviaTypeView;

    open spec fn view(&self) -> FormatTriviaTypeView {
        match self {
            FormatTriviaType::NoChange => FormatTriviaTypeView::NoChange,
            FormatTriviaType::Append(list) => FormatTriviaTypeView::Append(tokens_view(list@)),
            FormatTriviaType::Replace(list) => FormatTriviaTypeView::Replace(tokens_view(list@)),
        }
    }
}

/// The trivia that an edit makes of the trivia `current`.
pub open spec fn edited(current: Seq<TokenView>, edit: FormatTriviaTypeView) -> Seq<TokenView> {
    match edit {
        FormatTriviaTypeView::NoChange => current,
        FormatTriviaTypeView::Append(list) => current + list,
        FormatTriviaTypeView::Replace(list) => list,
    }
}

/// The token that two edits make of `token`, one for each side.
pub open spec fn with_trivia(
    token: TokenReferenceView,
    leading: FormatTriviaTypeView,
    trailing: FormatTriviaTypeView,
) -> TokenReferenceView {
    TokenReferenceView {
        leading: edited(token.leading, leading),
        token: token.token,
        trailing: edited(token.trailing, trailing),
    }
}

/// The trivia that an edit makes of the trivia `current`.
pub fn edit_trivia(current: Vec<Token>, edit: FormatTriviaType) -> (result: Vec<Token>)
    ensures
        tokens_view(result@) == edited(tokens_view(current@), edit@),
{
    match edit {
        FormatTriviaType::NoChange => current,
        FormatTriviaType::Append(list) => {
            let mut result = current;
            let mut list = list;
            proof {
                lemma_tokens_view_add(result@, list@);
            }
            result.append(&mut list);
            result
        },
        FormatTriviaType::Replace(list) => list,
    }
}

impl FormatTriviaType {
    /// A copy of this edit.
    pub fn duplicate(&self) -> (copy: FormatTriviaType)
        ensures
            copy@ == self@,
    {
        match self {
            FormatTriviaType::NoChange => FormatTriviaType::NoChange,
            FormatTriviaType::Append(list) => FormatTriviaType::Append(duplicate_tokens(list)),
            FormatTriviaType::Replace(list) => FormatTriviaType::Replace(duplicate_tokens(list)),
        }
    }
}

impl TokenReference {
    /// This token with its leading trivia edited by `leading` and its trailing
    /// trivia by `trailing`.
    pub fn update_trivia(self, leading: FormatTriviaType, trailing: FormatTriviaType) -> (result:
        TokenReference)
        ensures
            result@ == with_trivia(self@, leading@, trailing@),
    {
        TokenReference {
            leading_trivia: edit_trivia(self.leading_trivia, leading),
            token: self.token,
            trailing_trivia: edit_trivia(self.trailing_trivia, trailing),
        }
    }

    /// This token with its leading trivia edited.
    pub fn update_leading_trivia(self, leading: FormatTriviaType) -> (result: TokenReference)
        ensures
            result@ == with_trivia(self@, leading@, FormatTriviaTypeView::NoChange),
    {
        self.update_trivia(leading, FormatTriviaType::NoChange)
    }

    /// This token with its trailing trivia edited.
    pub fn update_trailing_trivia(self, trailing: FormatTriviaType) -> (result: TokenReference)
        ensures
            result@ == with_trivia(self@, FormatTriviaTypeView::NoChange, trailing@),
    {
        self.update_trivia(FormatTriviaType::NoChange, trailing)
    }
}

} // verus!
