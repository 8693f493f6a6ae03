use stylua::ast::Expression;
use stylua::close::{close_tokens, close_trivia, trivia_has_break, trivia_open_end};
use stylua::config::{
    Config, IndentType, LineEndings, QuoteStyle, DEFAULT_COLUMN_WIDTH, DEFAULT_INDENT_WIDTH,
};
use stylua::edges::{take_trailing_trivia, update_expression_leading, update_expression_trailing};
use stylua::formatter::{format_trailing_trivia, saturating_mul, CodeFormatter, EndTokenType};
use stylua::measure::{
    contains_inline_comments, get_tokens_range, print_tokens, starts_with_byte,
    starts_with_comment, strip_trivia,
};
use stylua::quote::normalize_string;
use stylua::range::{find_directive, read_directive, Directive};
use stylua::token::{bytes_of, same_text, Token, TokenKind, TokenReference};
use stylua::trivia::{has_line_feed, repeat_byte, space_token, FormatTriviaType};

fn token(kind: TokenKind, text: &str) -> Token {
    Token::new(kind, text.as_bytes().to_vec())
}

fn at(token: Token, start: usize, end: usize) -> Token {
    Token {
        start,
        end,
        ..token
    }
}

fn whitespace(text: &str) -> Token {
    token(TokenKind::Whitespace, text)
}

fn comment(text: &str) -> Token {
    token(TokenKind::SingleLineComment, text)
}

fn bare(kind: TokenKind, text: &str) -> TokenReference {
    TokenReference::new(Vec::new(), token(kind, text), Vec::new())
}

fn texts(tokens: &[Token]) -> Vec<String> {
    tokens
        .iter()
        .map(|token| String::from_utf8(token.text.clone()).expect("a token is text"))
        .collect()
}

fn normalized(text: &str, style: QuoteStyle) -> String {
    String::from_utf8(normalize_string(&text.as_bytes().to_vec(), style)).expect("text")
}

#[test]
fn the_default_configuration() {
    let config = Config::default();
    assert_eq!(config.column_width, 120);
    assert_eq!(config.line_endings, LineEndings::Unix);
    assert_eq!(config.indent_type, IndentType::Tabs);
    assert_eq!(config.indent_width, 4);
    assert_eq!(config.quote_style, QuoteStyle::AutoPreferDouble);
    assert_eq!(Config::new(), config);
    assert_eq!(DEFAULT_COLUMN_WIDTH, 120);
    assert_eq!(DEFAULT_INDENT_WIDTH, 4);
    assert_eq!(LineEndings::default(), LineEndings::Unix);
    assert_eq!(IndentType::default(), IndentType::Tabs);
    assert_eq!(QuoteStyle::default(), QuoteStyle::AutoPreferDouble);
}

#[test]
fn a_configuration_with_other_settings() {
    let config = Config::new()
        .with_column_width(80)
        .with_line_endings(LineEndings::Windows)
        .with_indent_type(IndentType::Spaces)
        .with_indent_width(2)
        .with_quote_style(QuoteStyle::ForceSingle);
    assert_eq!(
        config,
        Config {
            column_width: 80,
            line_endings: LineEndings::Windows,
            indent_type: IndentType::Spaces,
            indent_width: 2,
            quote_style: QuoteStyle::ForceSingle,
        }
    );
}

#[test]
fn the_configuration_of_an_editor_section() {
    assert_eq!(
        Config::from_editor_settings(LineEndings::Windows, IndentType::Spaces, 3),
        Config {
            column_width: 120,
            line_endings: LineEndings::Windows,
            indent_type: IndentType::Spaces,
            indent_width: 3,
            quote_style: QuoteStyle::AutoPreferDouble,
        }
    );
    // A section without an indent size gives a width of zero.
    assert_eq!(
        Config::from_editor_settings(LineEndings::Unix, IndentType::Tabs, 0).indent_width,
        0
    );
}

#[test]
fn quotes_under_each_style() {
    let cases = [
        (r#""foobar""#, r#""foobar""#, "'foobar'", r#""foobar""#, "'foobar'"),
        ("'foobar'", r#""foobar""#, "'foobar'", r#""foobar""#, "'foobar'"),
        (r#""foo\"bar""#, r#"'foo"bar'"#, r#"'foo"bar'"#, r#""foo\"bar""#, r#"'foo"bar'"#),
        (r#"'foo"bar'"#, r#"'foo"bar'"#, r#"'foo"bar'"#, r#""foo\"bar""#, r#"'foo"bar'"#),
        (r#""foo'bar""#, r#""foo'bar""#, r#""foo'bar""#, r#""foo'bar""#, r#"'foo\'bar'"#),
        (r#"'foo\'bar'"#, r#""foo'bar""#, r#""foo'bar""#, r#""foo'bar""#, r#"'foo\'bar'"#),
        (
            r#""foo\"bar'baz""#,
            r#""foo\"bar'baz""#,
            r#"'foo"bar\'baz'"#,
            r#""foo\"bar'baz""#,
            r#"'foo"bar\'baz'"#,
        ),
        (
            r#"'foo"bar\'baz'"#,
            r#""foo\"bar'baz""#,
            r#"'foo"bar\'baz'"#,
            r#""foo\"bar'baz""#,
            r#"'foo"bar\'baz'"#,
        ),
    ];
    for (input, prefer_double, prefer_single, force_double, force_single) in cases {
        assert_eq!(normalized(input, QuoteStyle::AutoPreferDouble), prefer_double);
        assert_eq!(normalized(input, QuoteStyle::AutoPreferSingle), prefer_single);
        assert_eq!(normalized(input, QuoteStyle::ForceDouble), force_double);
        assert_eq!(normalized(input, QuoteStyle::ForceSingle), force_single);
    }
}

#[test]
fn quotes_leave_other_escapes_and_long_brackets_alone() {
    // An escaped backslash does not escape the quote behind it.
    assert_eq!(normalized(r#"'a\\"b'"#, QuoteStyle::ForceDouble), r#""a\\\"b""#);
    assert_eq!(normalized(r#""a\nb\065""#, QuoteStyle::ForceSingle), r#"'a\nb\065'"#);
    assert_eq!(normalized("[[it's \"raw\"]]", QuoteStyle::ForceSingle), "[[it's \"raw\"]]");
    assert_eq!(normalized("[==[x]==]", QuoteStyle::ForceDouble), "[==[x]==]");
    assert_eq!(normalized("''", QuoteStyle::ForceDouble), "\"\"");
    assert_eq!(normalized("'", QuoteStyle::ForceDouble), "'");
    assert_eq!(normalized("", QuoteStyle::ForceDouble), "");
}

#[test]
fn normalizing_quotes_twice_changes_nothing() {
    for input in [r#""foo\"bar'baz""#, r#"'a\\"b'"#, r#"'foo\'bar'"#, "[[x]]"] {
        for style in [
            QuoteStyle::AutoPreferDouble,
            QuoteStyle::AutoPreferSingle,
            QuoteStyle::ForceDouble,
            QuoteStyle::ForceSingle,
        ] {
            let once = normalized(input, style);
            assert_eq!(normalized(&once, style), once);
        }
    }
}

#[test]
fn a_line_is_too_wide_beyond_the_column_width() {
    let mut formatter = CodeFormatter::new(Config::default().with_column_width(40), None);
    // No indent: 36 columns of text and 2 blanks fit, one more does not... up to 40.
    assert!(!formatter.exceeds_column_width(None, 38, 2));
    assert!(formatter.exceeds_column_width(None, 39, 2));
    // One additional indent counts as four columns.
    assert!(!formatter.exceeds_column_width(Some(1), 34, 2));
    assert!(formatter.exceeds_column_width(Some(1), 35, 2));
    formatter.indent_level = 2;
    assert!(!formatter.exceeds_column_width(Some(1), 26, 2));
    assert!(formatter.exceeds_column_width(Some(1), 27, 2));
    // Numbers that do not fit a machine word are too wide.
    assert!(formatter.exceeds_column_width(Some(usize::MAX), 0, 0));
    assert!(formatter.exceeds_column_width(None, usize::MAX, 1));
    formatter.config.indent_width = 0;
    assert!(!formatter.exceeds_column_width(Some(usize::MAX), 40, 0));
    assert_eq!(saturating_mul(3, 4), 12);
    assert_eq!(saturating_mul(usize::MAX, 2), usize::MAX);
}

#[test]
fn a_registered_range_holds_its_ends() {
    let mut formatter = CodeFormatter::new(Config::default(), None);
    assert_eq!(formatter.get_range_indent_increase((3, 5)), None);
    formatter.add_indent_range((3, 9));
    assert_eq!(formatter.get_range_indent_increase((3, 9)), Some(1));
    assert_eq!(formatter.get_range_indent_increase((4, 5)), Some(1));
    assert_eq!(formatter.get_range_indent_increase((2, 5)), None);
    assert_eq!(formatter.get_range_indent_increase((4, 10)), None);
    // A token in two registered ranges still gets one indent.
    formatter.add_indent_range((0, 20));
    assert_eq!(formatter.get_range_indent_increase((4, 5)), Some(1));
    assert_eq!(
        CodeFormatter::get_token_range(&TokenReference::new(
            Vec::new(),
            at(token(TokenKind::Identifier, "x"), 7, 8),
            Vec::new()
        )),
        (7, 8)
    );
}

#[test]
fn indents_and_line_breaks_follow_the_configuration() {
    let mut formatter = CodeFormatter::new(Config::default(), None);
    assert_eq!(formatter.create_indent_trivia(None), whitespace(""));
    assert_eq!(formatter.create_indent_trivia(Some(2)), whitespace("\t\t"));
    formatter.indent_level = 1;
    assert_eq!(formatter.create_indent_trivia(Some(2)), whitespace("\t\t\t"));
    assert_eq!(formatter.create_newline_trivia(), whitespace("\n"));
    let spaces = Config::default()
        .with_indent_type(IndentType::Spaces)
        .with_indent_width(3)
        .with_line_endings(LineEndings::Windows);
    let mut formatter = CodeFormatter::new(spaces, None);
    formatter.indent_level = 2;
    assert_eq!(formatter.create_indent_trivia(None), whitespace("      "));
    assert_eq!(formatter.create_indent_trivia(Some(1)), whitespace("         "));
    assert_eq!(formatter.create_newline_trivia(), whitespace("\r\n"));
    assert_eq!(repeat_byte(b'x', 3), b"xxx".to_vec());
    assert_eq!(space_token(), whitespace(" "));
}

#[test]
fn the_three_edits_of_trivia() {
    let start = TokenReference::new(
        vec![comment("-- a")],
        token(TokenKind::Identifier, "x"),
        vec![comment("-- b")],
    );
    let unchanged = start
        .clone()
        .update_trivia(FormatTriviaType::NoChange, FormatTriviaType::NoChange);
    assert_eq!(unchanged, start);
    let appended = start.clone().update_trivia(
        FormatTriviaType::Append(vec![whitespace("\t")]),
        FormatTriviaType::Append(vec![whitespace("\n")]),
    );
    assert_eq!(texts(&appended.leading_trivia), ["-- a", "\t"]);
    assert_eq!(texts(&appended.trailing_trivia), ["-- b", "\n"]);
    let replaced = start.clone().update_trivia(
        FormatTriviaType::Replace(vec![whitespace(" ")]),
        FormatTriviaType::Replace(Vec::new()),
    );
    assert_eq!(texts(&replaced.leading_trivia), [" "]);
    assert!(replaced.trailing_trivia.is_empty());
    assert_eq!(replaced.token, start.token);
    let led = start
        .clone()
        .update_leading_trivia(FormatTriviaType::Append(vec![whitespace(" ")]));
    assert_eq!(texts(&led.leading_trivia), ["-- a", " "]);
    assert_eq!(led.trailing_trivia, start.trailing_trivia);
    let trailed = start
        .clone()
        .update_trailing_trivia(FormatTriviaType::Replace(vec![whitespace(" ")]));
    assert_eq!(trailed.leading_trivia, start.leading_trivia);
    assert_eq!(texts(&trailed.trailing_trivia), [" "]);
    let (bare_token, taken) = take_trailing_trivia(start.clone());
    assert!(bare_token.trailing_trivia.is_empty());
    assert_eq!(taken, start.trailing_trivia);
}

#[test]
fn formatted_trivia_keep_comments_and_no_whitespace() {
    let mut formatter = CodeFormatter::new(Config::default(), None);
    formatter.indent_level = 1;
    let trivia = vec![
        whitespace("\n"),
        whitespace("\n"),
        whitespace("  "),
        comment("-- a"),
        whitespace("\n"),
        whitespace("\n"),
        comment("-- b"),
        whitespace("\n"),
        whitespace("    "),
    ];
    assert_eq!(
        texts(&formatter.format_leading_trivia(&trivia, None)),
        ["\t", "-- a", "\n", "\t", "-- b", "\n"]
    );
    assert_eq!(
        texts(&formatter.format_leading_trivia(&trivia, Some(1))),
        ["\t\t", "-- a", "\n", "\t\t", "-- b", "\n"]
    );
    assert_eq!(
        texts(&format_trailing_trivia(&vec![
            whitespace("   "),
            comment("-- a"),
            whitespace("\n")
        ])),
        [" ", "-- a"]
    );
    assert!(has_line_feed(&b" \n".to_vec()));
    assert!(!has_line_feed(&b" \r\t".to_vec()));
}

#[test]
fn formatted_tokens() {
    let formatter = CodeFormatter::new(Config::default(), None);
    let symbol = TokenReference::new(
        vec![whitespace("  ")],
        token(TokenKind::Symbol, "="),
        vec![whitespace("  "), comment("-- c")],
    );
    let formatted = formatter.format_symbol(&symbol, true, true);
    assert_eq!(texts(&formatted.leading_trivia), [" "]);
    assert_eq!(texts(&formatted.trailing_trivia), [" ", " ", "-- c"]);
    let tight = formatter.format_symbol(&symbol, false, false);
    assert!(tight.leading_trivia.is_empty());
    assert_eq!(texts(&tight.trailing_trivia), [" ", "-- c"]);
    let string = TokenReference::new(
        vec![whitespace(" ")],
        token(TokenKind::StringLiteral, "'x'"),
        vec![whitespace(" ")],
    );
    let formatted = formatter.format_token_reference(&string);
    assert_eq!(formatted, bare(TokenKind::StringLiteral, "\"x\""));
    // A token that is no string literal keeps its text, quotes or not.
    assert_eq!(
        formatter.format_token(&token(TokenKind::Identifier, "'x'")),
        token(TokenKind::Identifier, "'x'")
    );
    let end = TokenReference::new(
        vec![whitespace("\n"), comment("-- last"), whitespace("\n")],
        token(TokenKind::Symbol, "end"),
        Vec::new(),
    );
    assert_eq!(
        texts(
            &formatter
                .format_end_token(&end, EndTokenType::BlockEnd)
                .leading_trivia
        ),
        ["\t", "-- last", "\n"]
    );
}

#[test]
fn directives() {
    let read = |text: &str| read_directive(&text.as_bytes().to_vec());
    assert_eq!(read("-- stylua: ignore"), Some(Directive::Ignore));
    assert_eq!(read("--stylua: ignore"), Some(Directive::Ignore));
    assert_eq!(read("--  \tstylua: ignore  \r"), Some(Directive::Ignore));
    assert_eq!(read("-- stylua: ignore start"), Some(Directive::IgnoreStart));
    assert_eq!(read("-- stylua: ignore end"), Some(Directive::IgnoreEnd));
    assert_eq!(read("-- stylua: ignore this"), None);
    assert_eq!(read("-- stylua: ignorestart"), None);
    assert_eq!(read("stylua: ignore"), None);
    assert_eq!(read("--[[ stylua: ignore ]]"), None);
    assert_eq!(read("--"), None);
    assert_eq!(read(""), None);
    let first = TokenReference::new(
        vec![
            comment("-- stylua: ignore start"),
            whitespace("\n"),
            comment("-- stylua: ignore end"),
            whitespace("\n"),
            comment("-- a comment"),
        ],
        token(TokenKind::Symbol, "local"),
        vec![comment("-- stylua: ignore")],
    );
    // The last directive in front of the first token counts.
    assert_eq!(find_directive(&vec![first.clone()]), Some(Directive::IgnoreEnd));
    assert_eq!(
        find_directive(&vec![bare(TokenKind::Symbol, "local"), first]),
        None
    );
    assert_eq!(find_directive(&Vec::new()), None);
}

#[test]
fn the_decision_to_format() {
    let plain = vec![TokenReference::new(
        Vec::new(),
        at(token(TokenKind::Identifier, "x"), 10, 11),
        Vec::new(),
    )];
    let ignored = vec![TokenReference::new(
        vec![comment("-- stylua: ignore")],
        at(token(TokenKind::Identifier, "x"), 10, 11),
        Vec::new(),
    )];
    let start = vec![TokenReference::new(
        vec![comment("-- stylua: ignore start")],
        at(token(TokenKind::Identifier, "x"), 10, 11),
        Vec::new(),
    )];
    let end = vec![TokenReference::new(
        vec![comment("-- stylua: ignore end")],
        at(token(TokenKind::Identifier, "x"), 10, 11),
        Vec::new(),
    )];
    let mut formatter = CodeFormatter::new(Config::default(), None);
    assert!(formatter.should_format(&plain));
    assert!(!formatter.should_format(&ignored));
    assert!(formatter.should_format(&plain));
    assert!(!formatter.should_format(&start));
    assert!(formatter.ignoring);
    assert!(!formatter.would_format(&plain));
    assert!(!formatter.should_format(&plain));
    assert!(formatter.would_format(&end));
    assert!(formatter.should_format(&end));
    assert!(!formatter.ignoring);
    let mut ranged = CodeFormatter::new(Config::default(), Some((11, 20)));
    assert!(!ranged.should_format(&plain));
    let mut ranged = CodeFormatter::new(Config::default(), Some((0, 10)));
    assert!(!ranged.should_format(&plain));
    let mut ranged = CodeFormatter::new(Config::default(), Some((10, 11)));
    assert!(ranged.should_format(&plain));
    let mut ranged = CodeFormatter::new(Config::default(), Some((0, 11)));
    assert!(ranged.should_format(&plain));
    assert!(ranged.should_format(&Vec::new()));
}

#[test]
fn what_is_measured_of_tokens() {
    let tokens = vec![
        TokenReference::new(
            vec![comment("-- in front")],
            at(token(TokenKind::Identifier, "alpha"), 3, 8),
            vec![whitespace(" ")],
        ),
        TokenReference::new(
            Vec::new(),
            at(token(TokenKind::Symbol, "+"), 9, 10),
            vec![whitespace(" ")],
        ),
        TokenReference::new(
            Vec::new(),
            at(token(TokenKind::Number, "12"), 11, 13),
            vec![comment("-- behind")],
        ),
    ];
    assert_eq!(strip_trivia(&tokens), b"alpha+12".to_vec());
    assert_eq!(
        print_tokens(&tokens),
        b"-- in frontalpha + 12-- behind".to_vec()
    );
    assert_eq!(get_tokens_range(&tokens), Some((3, 13)));
    assert_eq!(get_tokens_range(&Vec::new()), None);
    // Comments in front of the first token and behind the last do not stand inside.
    assert!(!contains_inline_comments(&tokens));
    let mut inside = tokens.clone();
    inside[1].trailing_trivia.push(comment("-- inside"));
    assert!(contains_inline_comments(&inside));
    let mut inside = tokens.clone();
    inside[2].leading_trivia.push(comment("-- inside"));
    assert!(contains_inline_comments(&inside));
    let mut inside = tokens;
    inside[0].trailing_trivia.push(comment("-- inside"));
    assert!(contains_inline_comments(&inside));
}

#[test]
fn kinds_and_texts() {
    assert!(TokenKind::SingleLineComment.is_comment());
    assert!(TokenKind::MultiLineComment.is_comment());
    assert!(!TokenKind::Whitespace.is_comment());
    assert!(TokenKind::Whitespace.is_trivia());
    assert!(TokenKind::MultiLineComment.is_trivia());
    assert!(!TokenKind::Symbol.is_trivia());
    assert!(same_text(&bytes_of("not"), &b"not".to_vec()));
    assert!(!same_text(&bytes_of("not"), &b"no".to_vec()));
    assert!(!same_text(&bytes_of("not"), &b"nod".to_vec()));
    let original = TokenReference::new(
        vec![whitespace(" ")],
        at(token(TokenKind::Number, "1"), 2, 3),
        vec![comment("-- c")],
    );
    assert_eq!(original.duplicate(), original);
}

#[test]
fn hangs_a_chain_that_was_formatted() {
    let mut formatter = CodeFormatter::new(Config::default(), None);
    let operator = |text: &str, start: usize| {
        TokenReference::new(
            vec![whitespace(" ")],
            at(token(TokenKind::Symbol, text), start, start + text.len()),
            vec![whitespace(" "), whitespace(" "), comment("-- why")],
        )
    };
    let name = |text: &str| Expression::Name(bare(TokenKind::Identifier, text));
    let chain = Expression::BinaryOperator {
        lhs: Box::new(Expression::BinaryOperator {
            lhs: Box::new(name("a")),
            operator: operator("and", 2),
            rhs: Box::new(name("b")),
        }),
        operator: operator("or", 8),
        rhs: Box::new(name("c")),
    };
    formatter.add_indent_range((0, 5));
    let hung = formatter.hang_expression(chain, Some(1), None);
    let mut tokens = Vec::new();
    stylua::flatten::push_expression_tokens(&hung, &mut tokens);
    assert_eq!(
        String::from_utf8(print_tokens(&tokens)).expect("text"),
        "a\n\t\t\t-- why\n\t\t\tand b\n\t\t-- why\n\t\tor c\n"
    );
    let indented = update_expression_leading(
        name("x"),
        FormatTriviaType::Append(vec![whitespace("\t")]),
    );
    let ended = update_expression_trailing(
        indented,
        FormatTriviaType::Append(vec![whitespace("\n")]),
    );
    let mut tokens = Vec::new();
    stylua::flatten::push_expression_tokens(&ended, &mut tokens);
    assert_eq!(print_tokens(&tokens), b"\tx\n".to_vec());
}

#[test]
fn formatting_a_token_twice_changes_nothing() {
    let formatter = CodeFormatter::new(Config::default(), None);
    let name = TokenReference::new(
        vec![
            whitespace("\n\n  "),
            comment("-- first"),
            whitespace("\n"),
            whitespace("\n"),
            comment("-- second"),
            whitespace("\n  "),
        ],
        token(TokenKind::StringLiteral, "'it\\'s'"),
        vec![whitespace("   "), comment("-- behind"), whitespace("\n")],
    );
    let once = formatter.format_token_reference(&name);
    assert_eq!(
        texts(&once.leading_trivia),
        ["", "-- first", "\n", "", "-- second", "\n"]
    );
    assert_eq!(texts(&once.trailing_trivia), [" ", "-- behind"]);
    assert_eq!(once.token.text, b"\"it's\"".to_vec());
    assert_eq!(formatter.format_token_reference(&once), once);
    let symbol = formatter.format_symbol(&name, true, true);
    assert_eq!(formatter.format_symbol(&symbol, true, true), symbol);
    let end = formatter.format_end_token(&name, EndTokenType::ClosingBrace);
    assert_eq!(formatter.format_end_token(&end, EndTokenType::ClosingBrace), end);
}

#[test]
fn a_line_break_ends_the_line_of_a_comment() {
    let newline = whitespace("\n");
    let open = vec![whitespace(" "), comment("-- c")];
    assert!(trivia_open_end(&open));
    assert!(!trivia_has_break(&open));
    assert_eq!(
        texts(&close_trivia(&open, &newline, false)),
        [" ", "-- c", "\n"]
    );
    // The line break in front of the next token ends the line.
    assert_eq!(texts(&close_trivia(&open, &newline, true)), [" ", "-- c"]);
    let merged = vec![comment("-- c"), whitespace(" "), comment("-- d")];
    assert_eq!(
        texts(&close_trivia(&merged, &newline, false)),
        ["-- c", " ", "-- d", "\n"]
    );
    let closed = vec![comment("-- c"), whitespace("\r\n"), whitespace("  ")];
    assert!(!trivia_open_end(&closed));
    assert!(trivia_has_break(&closed));
    assert_eq!(close_trivia(&closed, &newline, false), closed);
    let long = vec![token(TokenKind::MultiLineComment, "--[[ c ]]")];
    assert!(!trivia_open_end(&long));
    assert_eq!(close_trivia(&long, &newline, false), long);
    assert!(!trivia_open_end(&Vec::new()));
}

#[test]
fn no_token_is_written_on_the_line_of_a_comment() {
    let newline = whitespace("\n");
    let local = TokenReference::new(
        Vec::new(),
        token(TokenKind::Symbol, "local"),
        vec![whitespace(" "), comment("-- c")],
    );
    let name = TokenReference::new(
        vec![comment("-- d")],
        token(TokenKind::Identifier, "x"),
        vec![whitespace(" "), comment("-- e")],
    );
    let next = TokenReference::new(
        vec![whitespace("\n")],
        token(TokenKind::Identifier, "y"),
        vec![comment("-- f")],
    );
    let closed = close_tokens(&vec![local, name, next], &newline);
    assert_eq!(
        String::from_utf8(print_tokens(&closed)).expect("text"),
        "local -- c\n-- d\nx -- e\ny-- f\n"
    );
    assert_eq!(texts(&closed[0].trailing_trivia), [" ", "-- c", "\n"]);
    assert_eq!(texts(&closed[1].leading_trivia), ["-- d", "\n"]);
    assert_eq!(texts(&closed[1].trailing_trivia), [" ", "-- e"]);
    assert_eq!(texts(&closed[2].trailing_trivia), ["-- f", "\n"]);
    assert_eq!(close_tokens(&closed, &newline), closed);
}

#[test]
fn what_a_run_of_tokens_starts_with() {
    let minus = bare(TokenKind::Symbol, "-");
    let name = TokenReference::new(
        vec![whitespace(" "), comment("-- c"), whitespace("\n")],
        token(TokenKind::Identifier, "a"),
        Vec::new(),
    );
    assert!(starts_with_byte(&vec![minus.clone(), name.clone()], b'-'));
    assert!(!starts_with_byte(&vec![name.clone(), minus.clone()], b'-'));
    assert!(!starts_with_byte(&Vec::new(), b'-'));
    assert!(starts_with_comment(&vec![name.clone(), minus.clone()]));
    assert!(!starts_with_comment(&vec![minus, name]));
    assert!(!starts_with_comment(&Vec::new()));
}
