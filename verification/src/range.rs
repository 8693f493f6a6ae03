//! Which statements the formatter leaves as they are.
//!
//! A comment in front of a statement can switch formatting off: for that
//! statement alone, or from that statement on until another comment switches
//! it on again. The caller can also restrict a pass to a range of bytes;
//! a statement that lies wholly outside the range stays as it is.

use vstd::prelude::*;
use crate::formatter::{CodeFormatter, FormatterState};
use crate::measure::{get_tokens_range, tokens_range};
use crate::token::{
    bytes_of, references_view, text_of, tokens_view, TokenReference, TokenReferenceView, TokenView,
};
use crate::trivia::{CARRIAGE_RETURN, SPACE, TAB};

verus! {

/// What a comment in front of a statement asks for.
#[derive(Clone, Copy, Debug, PartialEq, Eq, Structural)]
pub enum Directive {
    /// Leave the statement that follows as it is.
    Ignore,
    /// Leave the statements from here on as they are.
    IgnoreStart,
    /// Format the statements from here on again.
    IgnoreEnd,
}

/// Whether the byte is a blank inside a line.
pub open spec fn is_blank(byte: u8) -> bool {
    byte == SPACE || byte == TAB || byte == CARRIAGE_RETURN
}

/// The first index from `index` on at which the text holds no blank.
pub open spec fn blanks_end(text: Seq<u8>, index: int) -> int
    decreases text.len() - index,
{
    if 0 <= index < text.len() && is_blank(text[index]) {
        blanks_end(text, index + 1)
    } else {
        index
    }
}

/// Whether `word` stands in the text at `index`.
pub open spec fn has_at(text: Seq<u8>, index: int, word: Seq<u8>) -> bool {
    0 <= index && index + word.len() <= text.len() && text.subrange(index, index + word.len())
        == word
}

/// Whether the text of a comment is the two dashes, then `word`, with
/// nothing but blanks around the word.
pub open spec fn says(text: Seq<u8>, word: Seq<u8>) -> bool {
    has_at(text, 0, text_of("--")) && has_at(text, blanks_end(text, 2), word) && blanks_end(
        text,
        blanks_end(text, 2) + word.len(),
    ) >= text.len()
}

/// The directive that the text of a comment gives, if it gives one.
pub open spec fn directive_of(text: Seq<u8>) -> Option<Directive> {
    if says(text, text_of("stylua: ignore start")) {
        Some(Directive::IgnoreStart)
    } else if says(text, text_of("stylua: ignore end")) {
        Some(Directive::IgnoreEnd)
    } else if says(text, text_of("stylua: ignore")) {
        Some(Directive::Ignore)
    } else {
        None
    }
}

/// The directive of the first `count` trivia: that of the last comment among
/// them that gives one.
pub open spec fn directive_among(trivia: Seq<TokenView>, count: int) -> Option<Directive>
    decreases count,
{
    if count <= 0 || count > trivia.len() {
        None
    } else if trivia[count - 1].kind.spec_is_comment() && directive_of(trivia[count - 1].text)
        is Some {
        directive_of(trivia[count - 1].text)
    } else {
        directive_among(trivia, count - 1)
    }
}

/// The directive in front of a run of tokens.
pub open spec fn leading_directive(tokens: Seq<TokenReferenceView>) -> Option<Directive> {
    if tokens.len() == 0 {
        None
    } else {
        directive_among(tokens[0].leading, tokens[0].leading.len() as int)
    }
}

/// Whether `node` lies wholly outside `range`.
pub open spec fn outside(range: Option<(usize, usize)>, node: Option<(usize, usize)>) -> bool {
    match (range, node) {
        (Some(range), Some(node)) => node.1 <= range.0 || range.1 <= node.0,
        _ => false,
    }
}

/// Whether formatting is switched off behind a statement with the directive
/// `directive` in front of it, where it was `ignoring` before.
pub open spec fn ignoring_after(ignoring: bool, directive: Option<Directive>) -> bool {
    match directive {
        Some(Directive::IgnoreStart) => true,
        Some(Directive::IgnoreEnd) => false,
        _ => ignoring,
    }
}

/// The state behind the directive in front of a statement, and whether the
/// statement is formatted: it is unless formatting is switched off, a
/// directive excludes the statement, or it lies wholly outside the range of
/// the pass.
pub open spec fn format_decision(state: FormatterState, tokens: Seq<TokenReferenceView>) -> (
    FormatterState,
    bool,
) {
    let directive = leading_directive(tokens);
    let ignoring = ignoring_after(state.ignoring, directive);
    (
        FormatterState { ignoring, ..state },
        !ignoring && directive != Some(Directive::Ignore) && !outside(
            state.range,
            tokens_range(tokens),
        ),
    )
}

/// The first index from `index` on at which the text holds no blank.
fn skip_blanks(text: &Vec<u8>, index: usize) -> (end: usize)
    requires
        index <= text.len(),
    ensures
        end == blanks_end(text@, index as int),
        index <= end <= text.len(),
{
    let mut i = index;
    while i < text.len() && (text[i] == SPACE || text[i] == TAB || text[i] == CARRIAGE_RETURN)
        invariant
            index <= i <= text.len(),
            blanks_end(text@, i as int) == blanks_end(text@, index as int),
        decreases text.len() - i,
    {
        i += 1;
    }
    i
}

/// Whether `word` stands in the text at `index`.
fn stands_at(text: &Vec<u8>, index: usize, word: &Vec<u8>) -> (found: bool)
    ensures
        found == has_at(text@, index as int, word@),
{
    if index > text.len() || word.len() > text.len() - index {
        return false;
    }
    let mut i: usize = 0;
    while i < word.len()
        invariant
            i <= word.len(),
            index + word.len() <= text.len(),
            forall|j: int| 0 <= j < i ==> text@[index + j] == word@[j],
        decreases word.len() - i,
    {
        if text[index + i] != word[i] {
            assert(text@.subrange(index as int, index + word.len())[i as int] != word@[i as int]);
            return false;
        }
        i += 1;
    }
    assert(text@.subrange(index as int, index + word.len()) =~= word@);
    true
}

/// Whether the text of a comment is the two dashes, then `word`, with
/// nothing but blanks around the word.
fn comment_says(text: &Vec<u8>, word: &str) -> (found: bool)
    ensures
        found == says(text@, text_of(word)),
{
    let dashes = bytes_of("--");
    let word = bytes_of(word);
    proof {
        reveal_strlit("--");
        vstd::string::is_ascii_spec_bytes("--");
        assert("--".is_ascii());
        assert(text_of("--").len() == 2);
    }
    if !stands_at(text, 0, &dashes) {
        return false;
    }
    let start = skip_blanks(text, 2);
    if !stands_at(text, start, &word) {
        return false;
    }
    let end = skip_blanks(text, start + word.len());
    end >= text.len()
}

/// The directive that the text of a comment gives, if it gives one.
pub fn read_directive(text: &Vec<u8>) -> (directive: Option<Directive>)
    ensures
        directive == directive_of(text@),
{
    if comment_says(text, "stylua: ignore start") {
        Some(Directive::IgnoreStart)
    } else if comment_says(text, "stylua: ignore end") {
        Some(Directive::IgnoreEnd)
    } else if comment_says(text, "stylua: ignore") {
        Some(Directive::Ignore)
    } else {
        None
    }
}

/// The directive in front of a run of tokens.
#[verifier::loop_isolation(false)]
pub fn find_directive(tokens: &Vec<TokenReference>) -> (directive: Option<Directive>)
    ensures
        directive == leading_directive(references_view(tokens@)),
{
    if tokens.len() == 0 {
        return None;
    }
    let trivia = &tokens[0].leading_trivia;
    let ghost views = tokens_view(trivia@);
    let mut i: usize = trivia.len();
    while i > 0
        invariant
            i <= trivia.len(),
            views == tokens_view(trivia@),
            directive_among(views, i as int) == directive_among(views, trivia.len() as int),
        decreases i,
    {
        assert(views[i - 1] == trivia@[i - 1]@);
        if trivia[i - 1].kind.is_comment() {
            let found = read_directive(&trivia[i - 1].text);
            if found.is_some() {
                assert(directive_among(views, i as int) == found);
                return found;
            }
        }
        i -= 1;
    }
    None
}

impl CodeFormatter {
    /// Whether the statement made of `tokens` would be formatted in the
    /// state the formatter is in.
    pub fn would_format(&self, tokens: &Vec<TokenReference>) -> (go: bool)
        ensures
            go == format_decision(self@, references_view(tokens@)).1,
    {
        let directive = find_directive(tokens);
        let ignoring = match directive {
            Some(Directive::IgnoreStart) => true,
            Some(Directive::IgnoreEnd) => false,
            _ => self.ignoring,
        };
        let single = match directive {
            Some(Directive::Ignore) => true,
            _ => false,
        };
        let excluded = match (self.range, get_tokens_range(tokens)) {
            (Some(range), Some(node)) => node.1 <= range.0 || range.1 <= node.0,
            _ => false,
        };
        !ignoring && !single && !excluded
    }

    /// Whether the statement made of `tokens` is formatted. A directive in
    /// front of the statement that switches formatting on or off is taken
    /// note of.
    pub fn should_format(&mut self, tokens: &Vec<TokenReference>) -> (go: bool)
        ensures
            (final(self)@, go) == format_decision(old(self)@, references_view(tokens@)),
    {
        let directive = find_directive(tokens);
        match directive {
            Some(Directive::IgnoreStart) => {
                self.ignoring = true;
            },
            Some(Directive::IgnoreEnd) => {
                self.ignoring = false;
            },
            _ => {},
        }
        let single = match directive {
            Some(Directive::Ignore) => true,
            _ => false,
        };
        let excluded = match (self.range, get_tokens_range(tokens)) {
            (Some(range), Some(node)) => node.1 <= range.0 || range.1 <= node.0,
            _ => false,
        };
        !self.ignoring && !single && !excluded
    }
}

} // verus!
