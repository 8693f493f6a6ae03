//! Tokens, and the whitespace and comments attached to them.

use vstd::prelude::*;
use vstd::string::*;

verus! {

/// The bytes of a piece of text written as a string literal.
pub open spec fn text_of(s: &str) -> Seq<u8> {
    s.spec_bytes()
}

/// The bytes of `s` as a vector.
pub fn bytes_of(s: &str) -> (bytes: Vec<u8>)
    ensures
        bytes@ == text_of(s),
{
    s.as_bytes_vec()
}

/// Whether two texts are the same.
pub fn same_text(a: &Vec<u8>, b: &Vec<u8>) -> (same: bool)
    ensures
        same == (a@ == b@),
{
    if a.len() != b.len() {
        return false;
    }
    let mut i: usize = 0;
    while i < a.len()
        invariant
            i <= a.len(),
            a.len() == b.len(),
            forall|j: int| 0 <= j < i ==> a@[j] == b@[j],
        decreases a.len() - i,
    {
        if a[i] != b[i] {
            return false;
        }
        i += 1;
    }
    assert(a@ =~= b@);
    true
}

/// What kind of lexical atom a token is.
#[derive(Clone, Copy, Debug, PartialEq, Eq, Structural)]
pub enum TokenKind {
    /// The end of the file; its text is empty.
    Eof,
    /// A name.
    Identifier,
    /// A reserved word.
    Keyword,
    /// A comment in long brackets, which may span lines.
    MultiLineComment,
    /// A numeric literal.
    Number,
    /// A comment that runs to the end of its line.
    SingleLineComment,
    /// A string literal, quotes or long brackets included.
    StringLiteral,
    /// An operator or a punctuation mark.
    Symbol,
    /// Spaces, tabs and line breaks.
    Whitespace,
}

impl TokenKind {
    /// Whether tokens of this kind are comments.
    pub open spec fn spec_is_comment(self) -> bool {
        self == TokenKind::SingleLineComment || self == TokenKind::MultiLineComment
    }

    /// Whether tokens of this kind are comments.
    #[verifier::when_used_as_spec(spec_is_comment)]
    pub fn is_comment(self) -> (b: bool)
        ensures
            b == self.spec_is_comment(),
    {
        self == TokenKind::SingleLineComment || self == TokenKind::MultiLineComment
    }

    /// Whether tokens of this kind are trivia: whitespace or comments.
    pub open spec fn spec_is_trivia(self) -> bool {
        self == TokenKind::Whitespace || self.spec_is_comment()
    }

    /// Whether tokens of this kind are trivia: whitespace or comments.
    #[verifier::when_used_as_spec(spec_is_trivia)]
    pub fn is_trivia(self) -> (b: bool)
        ensures
            b == self.spec_is_trivia(),
    {
        self == TokenKind::Whitespace || self.is_comment()
    }
}

/// A lexical atom: its kind, its text and the bytes of the source it came from.
#[derive(Clone, Debug, PartialEq, Eq)]
pub struct Token {
    /// The kind of the token.
    pub kind: TokenKind,
    /// The text of the token as it is written out.
    pub text: Vec<u8>,
    /// The offset of the token's first byte in the source.
    pub start: usize,
    /// The offset just behind the token's last byte in the source.
    pub end: usize,
}

/// The mathematical value of a [`Token`].
pub ghost struct TokenView {
    pub kind: TokenKind,
    pub text: Seq<u8>,
    pub start: usize,
    pub end: usize,
}

impl View for Token {
    type V = TokenView;

    open spec fn view(&self) -> TokenView {
        TokenView { kind: self.kind, text: self.text@, start: self.start, end: self.end }
    }
}

/// The values of a sequence of tokens.
pub open spec fn tokens_view(tokens: Seq<Token>) -> Seq<TokenView> {
    tokens.map_values(|t: Token| t@)
}

/// A token together with the trivia in front of it and behind it.
#[derive(Clone, Debug, PartialEq, Eq)]
pub struct TokenReference {
    /// The trivia between the previous token's line and this token.
    pub leading_trivia: Vec<Token>,
    /// The token itself.
    pub token: Token,
    /// The trivia behind this token on its line.
    pub trailing_trivia: Vec<Token>,
}

/// The mathematical value of a [`TokenReference`].
pub ghost struct TokenReferenceView {
    pub leading: Seq<TokenView>,
    pub token: TokenView,
    pub trailing: Seq<TokenView>,
}

impl View for TokenReference {
    type V = TokenReferenceView;

    open spec fn view(&self) -> TokenReferenceView {
        TokenReferenceView {
            leading: tokens_view(self.leading_trivia@),
            token: self.token@,
            trailing: tokens_view(self.trailing_trivia@),
        }
    }
}

/// The values of a sequence of token references.
pub open spec fn references_view(tokens: Seq<TokenReference>) -> Seq<TokenReferenceView> {
    tokens.map_values(|t: TokenReference| t@)
}

/// The values of a sequence grow with it.
pub proof fn lemma_tokens_view_push(tokens: Seq<Token>, token: Token)
    ensures
        tokens_view(tokens.push(token)) == tokens_view(tokens).push(token@),
{
    assert(tokens_view(tokens.push(token)) =~= tokens_view(tokens).push(token@));
}

/// The values of a concatenation are the concatenation of the values.
pub proof fn lemma_tokens_view_add(a: Seq<Token>, b: Seq<Token>)
    ensures
        tokens_view(a + b) == tokens_view(a) + tokens_view(b),
{
    assert(tokens_view(a + b) =~= tokens_view(a) + tokens_view(b));
}

/// The values of a sequence grow with it.
pub proof fn lemma_references_view_push(tokens: Seq<TokenReference>, token: TokenReference)
    ensures
        references_view(tokens.push(token)) == references_view(tokens).push(token@),
{
    assert(references_view(tokens.push(token)) =~= references_view(tokens).push(token@));
}

impl Token {
    /// A token of the given kind and text that stands for no place in a source.
    pub fn new(kind: TokenKind, text: Vec<u8>) -> (token: Token)
        ensures
            token@ == (TokenView { kind, text: text@, start: 0, end: 0 }),
    {
        Token { kind, text, start: 0, end: 0 }
    }

    /// A copy of this token.
    pub fn duplicate(&self) -> (token: Token)
        ensures
            token@ == self@,
    {
        Token { kind: self.kind, text: self.text.clone(), start: self.start, end: self.end }
    }
}

/// A copy of a list of tokens.
pub fn duplicate_tokens(tokens: &Vec<Token>) -> (copy: Vec<Token>)
    ensures
        tokens_view(copy@) == tokens_view(tokens@),
{
    let mut copy: Vec<Token> = Vec::new();
    let mut i: usize = 0;
    while i < tokens.len()
        invariant
            i <= tokens.len(),
            tokens_view(copy@) == tokens_view(tokens@.take(i as int)),
        decreases tokens.len() - i,
    {
        let token = tokens[i].duplicate();
        proof {
            lemma_tokens_view_push(copy@, token);
            assert(tokens@.take(i + 1) =~= tokens@.take(i as int).push(tokens@[i as int]));
            lemma_tokens_view_push(tokens@.take(i as int), tokens@[i as int]);
        }
        copy.push(token);
        i += 1;
    }
    assert(tokens@.take(tokens.len() as int) =~= tokens@);
    copy
}

impl TokenReference {
    /// A token with the given trivia around it.
    pub fn new(leading_trivia: Vec<Token>, token: Token, trailing_trivia: Vec<Token>) -> (r:
        TokenReference)
        ensures
            r@ == (TokenReferenceView {
                leading: tokens_view(leading_trivia@),
                token: token@,
                trailing: tokens_view(trailing_trivia@),
            }),
    {
        TokenReference { leading_trivia, token, trailing_trivia }
    }

    /// A copy of this token and its trivia.
    pub fn duplicate(&self) -> (r: TokenReference)
        ensures
            r@ == self@,
    {
        TokenReference {
            leading_trivia: duplicate_tokens(&self.leading_trivia),
            token: self.token.duplicate(),
            trailing_trivia: duplicate_tokens(&self.trailing_trivia),
        }
    }
}

} // verus!
