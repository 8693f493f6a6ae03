//! The quotes of string literals.
//!
//! A short string literal is written between two equal quote characters. Inside
//! it a backslash escapes the byte that follows. Which quote character is used
//! changes nothing of what the literal denotes, as long as that character is
//! escaped wherever the content holds it.

use vstd::prelude::*;
use crate::config::QuoteStyle;

verus! {

/// The double quote character.
pub const DOUBLE_QUOTE: u8 = 34;

/// The single quote character.
pub const SINGLE_QUOTE: u8 = 39;

/// The backslash, which escapes the byte behind it.
pub const BACKSLASH: u8 = 92;

/// Whether `byte` is one of the two quote characters.
pub open spec fn is_quote(byte: u8) -> bool {
    byte == DOUBLE_QUOTE || byte == SINGLE_QUOTE
}

/// One unit of what a short string literal holds between its quotes.
pub ghost enum StringUnit {
    /// A byte that stands for itself. A quote character is always such a unit,
    /// whether it was written with a backslash or without.
    Plain(u8),
    /// A backslash and the byte behind it, which is no quote character.
    Escape(u8),
}

/// Whether the content starts with a backslash that escapes a byte.
pub open spec fn starts_with_escape(content: Seq<u8>) -> bool {
    content.len() >= 2 && content[0] == BACKSLASH
}

/// What the content of a short string literal denotes, unit by unit.
pub open spec fn string_units(content: Seq<u8>) -> Seq<StringUnit>
    decreases content.len(),
{
    if content.len() == 0 {
        Seq::empty()
    } else if starts_with_escape(content) {
        let unit = if is_quote(content[1]) {
            StringUnit::Plain(content[1])
        } else {
            StringUnit::Escape(content[1])
        };
        seq![unit] + string_units(content.skip(2))
    } else {
        seq![StringUnit::Plain(content[0])] + string_units(content.skip(1))
    }
}

/// Whether the content holds the quote character `quote`, escaped or not.
pub open spec fn holds_quote(content: Seq<u8>, quote: u8) -> bool
    decreases content.len(),
{
    if content.len() == 0 {
        false
    } else if starts_with_escape(content) {
        content[1] == quote || holds_quote(content.skip(2), quote)
    } else {
        content[0] == quote || holds_quote(content.skip(1), quote)
    }
}

/// The content written for a literal between `quote` characters: `quote` is
/// escaped wherever it occurs, the other quote character is nowhere escaped,
/// and every other byte and escape stays as it is.
pub open spec fn requote(content: Seq<u8>, quote: u8) -> Seq<u8>
    decreases content.len(),
{
    if content.len() == 0 {
        Seq::empty()
    } else if starts_with_escape(content) {
        let unit = if is_quote(content[1]) && content[1] != quote {
            seq![content[1]]
        } else {
            seq![BACKSLASH, content[1]]
        };
        unit + requote(content.skip(2), quote)
    } else if content[0] == quote {
        seq![BACKSLASH, quote] + requote(content.skip(1), quote)
    } else {
        seq![content[0]] + requote(content.skip(1), quote)
    }
}

/// The quote character that `style` asks for around `content`.
pub open spec fn chosen_quote(style: QuoteStyle, content: Seq<u8>) -> u8 {
    let has_double = holds_quote(content, DOUBLE_QUOTE);
    let has_single = holds_quote(content, SINGLE_QUOTE);
    match style {
        QuoteStyle::ForceDouble => DOUBLE_QUOTE,
        QuoteStyle::ForceSingle => SINGLE_QUOTE,
        QuoteStyle::AutoPreferDouble => if has_double && !has_single {
            SINGLE_QUOTE
        } else {
            DOUBLE_QUOTE
        },
        QuoteStyle::AutoPreferSingle => if has_single && !has_double {
            DOUBLE_QUOTE
        } else {
            SINGLE_QUOTE
        },
    }
}

/// Whether `text` is a string literal between two equal quote characters.
/// A literal in long brackets is none.
pub open spec fn is_short_string(text: Seq<u8>) -> bool {
    text.len() >= 2 && is_quote(text[0]) && text[text.len() - 1] == text[0]
}

/// What a short string literal holds between its quotes.
pub open spec fn string_content(text: Seq<u8>) -> Seq<u8>
    recommends
        is_short_string(text),
{
    text.subrange(1, text.len() - 1)
}

/// The text of a string literal under a quote style: a short string gets the
/// quote character the style asks for, any other text stays as it is.
pub open spec fn normalized_string(text: Seq<u8>, style: QuoteStyle) -> Seq<u8> {
    if is_short_string(text) {
        let content = string_content(text);
        let quote = chosen_quote(style, content);
        seq![quote] + requote(content, quote) + seq![quote]
    } else {
        text
    }
}

/// Whether the content holds either quote character is told by one pair of
/// answers.
pub open spec fn quotes_held(content: Seq<u8>) -> (bool, bool) {
    (holds_quote(content, DOUBLE_QUOTE), holds_quote(content, SINGLE_QUOTE))
}

/// An escape that `requote` puts out for `quote` is read back as it was
/// written, with what follows it rewritten on its own.
proof fn lemma_requote_after_escape(escaped: u8, rest: Seq<u8>, quote: u8)
    requires
        is_quote(quote),
        escaped == quote || !is_quote(escaped),
    ensures
        requote(seq![BACKSLASH, escaped] + rest, quote) == seq![BACKSLASH, escaped] + requote(
            rest,
            quote,
        ),
        quotes_held(seq![BACKSLASH, escaped] + rest) == (
            escaped == DOUBLE_QUOTE || holds_quote(rest, DOUBLE_QUOTE),
            escaped == SINGLE_QUOTE || holds_quote(rest, SINGLE_QUOTE),
        ),
        string_units(seq![BACKSLASH, escaped] + rest) == seq![
            if is_quote(escaped) {
                StringUnit::Plain(escaped)
            } else {
                StringUnit::Escape(escaped)
            },
        ] + string_units(rest),
{
    let whole = seq![BACKSLASH, escaped] + rest;
    assert(whole.skip(2) =~= rest);
    assert(starts_with_escape(whole));
}

/// A plain byte that `requote` puts out for `quote` is read back as it was
/// written, with what follows it rewritten on its own.
proof fn lemma_requote_after_plain(byte: u8, rest: Seq<u8>, quote: u8)
    requires
        is_quote(quote),
        byte != quote,
        byte != BACKSLASH || rest.len() == 0,
    ensures
        requote(seq![byte] + rest, quote) == seq![byte] + requote(rest, quote),
        quotes_held(seq![byte] + rest) == (
            byte == DOUBLE_QUOTE || holds_quote(rest, DOUBLE_QUOTE),
            byte == SINGLE_QUOTE || holds_quote(rest, SINGLE_QUOTE),
        ),
        string_units(seq![byte] + rest) == seq![StringUnit::Plain(byte)] + string_units(rest),
{
    let whole = seq![byte] + rest;
    assert(whole.skip(1) =~= rest);
    assert(!starts_with_escape(whole));
}

/// Rewriting the quotes of some content changes nothing of what it denotes,
/// nor which quote characters it holds, and doing it again changes nothing.
pub proof fn lemma_requote(content: Seq<u8>, quote: u8)
    requires
        is_quote(quote),
    ensures
        string_units(requote(content, quote)) == string_units(content),
        quotes_held(requote(content, quote)) == quotes_held(content),
        requote(requote(content, quote), quote) == requote(content, quote),
    decreases content.len(),
{
    if content.len() == 0 {
    } else if starts_with_escape(content) {
        let rest = requote(content.skip(2), quote);
        lemma_requote(content.skip(2), quote);
        if is_quote(content[1]) && content[1] != quote {
            lemma_requote_after_plain(content[1], rest, quote);
        } else {
            lemma_requote_after_escape(content[1], rest, quote);
        }
    } else if content[0] == quote {
        let rest = requote(content.skip(1), quote);
        lemma_requote(content.skip(1), quote);
        lemma_requote_after_escape(quote, rest, quote);
    } else {
        let rest = requote(content.skip(1), quote);
        lemma_requote(content.skip(1), quote);
        if content[0] == BACKSLASH {
            assert(content.len() == 1);
            assert(content.skip(1).len() == 0);
            assert(rest.len() == 0);
        }
        lemma_requote_after_plain(content[0], rest, quote);
    }
}

/// Normalizing the quotes of a literal twice gives what normalizing once gives.
pub proof fn lemma_normalized_string_idempotent(text: Seq<u8>, style: QuoteStyle)
    ensures
        normalized_string(normalized_string(text, style), style) == normalized_string(text, style),
{
    if is_short_string(text) {
        let content = string_content(text);
        let quote = chosen_quote(style, content);
        let once = normalized_string(text, style);
        lemma_requote(content, quote);
        assert(is_short_string(once));
        assert(string_content(once) =~= requote(content, quote));
    }
}

/// A normalized short string is a short string that denotes what the literal
/// denoted; any other text is left alone.
pub proof fn lemma_normalized_string_denotes(text: Seq<u8>, style: QuoteStyle)
    ensures
        is_short_string(text) ==> is_short_string(normalized_string(text, style)) && string_units(
            string_content(normalized_string(text, style)),
        ) == string_units(string_content(text)),
        !is_short_string(text) ==> normalized_string(text, style) == text,
{
    if is_short_string(text) {
        let content = string_content(text);
        let quote = chosen_quote(style, content);
        lemma_requote(content, quote);
        assert(string_content(normalized_string(text, style)) =~= requote(content, quote));
    }
}

/// Whether `content` holds the quote character `quote`, escaped or not.
fn content_holds_quote(content: &Vec<u8>, from: usize, to: usize, quote: u8) -> (found: bool)
    requires
        from <= to <= content.len(),
    ensures
        found == holds_quote(content@.subrange(from as int, to as int), quote),
{
    let mut i: usize = from;
    let mut found = false;
    while i < to
        invariant
            from <= i <= to <= content.len(),
            holds_quote(content@.subrange(from as int, to as int), quote) == (found || holds_quote(
                content@.subrange(i as int, to as int),
                quote,
            )),
        decreases to - i,
    {
        let ghost rest = content@.subrange(i as int, to as int);
        if content[i] == BACKSLASH && to - i >= 2 {
            assert(starts_with_escape(rest));
            assert(rest.skip(2) =~= content@.subrange(i + 2, to as int));
            if content[i + 1] == quote {
                found = true;
            }
            i += 2;
        } else {
            assert(!starts_with_escape(rest));
            assert(rest.skip(1) =~= content@.subrange(i + 1, to as int));
            if content[i] == quote {
                found = true;
            }
            i += 1;
        }
    }
    found
}

/// The quote character that `style` asks for around the bytes of `text`
/// between `from` and `to`.
fn choose_quote(style: QuoteStyle, text: &Vec<u8>, from: usize, to: usize) -> (quote: u8)
    requires
        from <= to <= text.len(),
    ensures
        quote == chosen_quote(style, text@.subrange(from as int, to as int)),
        is_quote(quote),
{
    match style {
        QuoteStyle::ForceDouble => DOUBLE_QUOTE,
        QuoteStyle::ForceSingle => SINGLE_QUOTE,
        QuoteStyle::AutoPreferDouble => {
            let has_double = content_holds_quote(text, from, to, DOUBLE_QUOTE);
            let has_single = content_holds_quote(text, from, to, SINGLE_QUOTE);
            if has_double && !has_single {
                SINGLE_QUOTE
            } else {
                DOUBLE_QUOTE
            }
        },
        QuoteStyle::AutoPreferSingle => {
            let has_double = content_holds_quote(text, from, to, DOUBLE_QUOTE);
            let has_single = content_holds_quote(text, from, to, SINGLE_QUOTE);
            if has_single && !has_double {
                DOUBLE_QUOTE
            } else {
                SINGLE_QUOTE
            }
        },
    }
}

/// The text of a string literal under a quote style.
pub fn normalize_string(text: &Vec<u8>, style: QuoteStyle) -> (normalized: Vec<u8>)
    ensures
        normalized@ == normalized_string(text@, style),
{
    let len = text.len();
    if len < 2 || !(text[0] == DOUBLE_QUOTE || text[0] == SINGLE_QUOTE) || text[len - 1] != text[0] {
        return text.clone();
    }
    let to = len - 1;
    let quote = choose_quote(style, text, 1, to);
    let ghost content = string_content(text@);
    let mut out: Vec<u8> = Vec::new();
    out.push(quote);
    let mut i: usize = 1;
    while i < to
        invariant
            1 <= i <= to,
            to == text.len() - 1,
            is_quote(quote),
            content == text@.subrange(1, to as int),
            seq![quote] + requote(content, quote) == out@ + requote(
                text@.subrange(i as int, to as int),
                quote,
            ),
        decreases to - i,
    {
        let ghost rest = text@.subrange(i as int, to as int);
        let ghost before = out@;
        let byte = text[i];
        if byte == BACKSLASH && to - i >= 2 {
            assert(starts_with_escape(rest));
            assert(rest.skip(2) =~= text@.subrange(i + 2, to as int));
            let next = text[i + 1];
            if (next == DOUBLE_QUOTE || next == SINGLE_QUOTE) && next != quote {
                out.push(next);
                assert(out@ =~= before + seq![next]);
            } else {
                out.push(BACKSLASH);
                out.push(next);
                assert(out@ =~= before + seq![BACKSLASH, next]);
            }
            assert(out@ + requote(rest.skip(2), quote) =~= before + requote(rest, quote));
            i += 2;
        } else {
            assert(!starts_with_escape(rest));
            assert(rest.skip(1) =~= text@.subrange(i + 1, to as int));
            if byte == quote {
                out.push(BACKSLASH);
                out.push(quote);
                assert(out@ =~= before + seq![BACKSLASH, quote]);
            } else {
                out.push(byte);
                assert(out@ =~= before + seq![byte]);
            }
            assert(out@ + requote(rest.skip(1), quote) =~= before + requote(rest, quote));
            i += 1;
        }
    }
    assert(text@.subrange(to as int, to as int) =~= Seq::<u8>::empty());
    assert(out@ =~= seq![quote] + requote(content, quote));
    out.push(quote);
    assert(out@ =~= seq![quote] + requote(content, quote) + seq![quote]);
    out
}

} // verus!
