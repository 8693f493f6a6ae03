//! The hanging layout: an expression that does not fit on its line, or holds
//! a comment, is laid out over several lines.
//!
//! In a chain of binary operators the left operand stays where it is, and
//! each operator starts a line of its own with its right operand behind it.
//! Only the chain at the top of the expression is laid out this way; the
//! operands stay on one line each, however wide they are. A call that is no
//! chain gets one argument per line, and a table constructor one field per
//! line with a separator behind every field.

use vstd::prelude::*;
use crate::ast::{
    Expression, Field, FieldPair, FunctionArgs, FunctionCall, Pair, Punctuated, Suffix,
    TableConstructor,
};
use crate::edges::{
    first_updated, last_updated, lead, update_expression_leading, update_expression_trailing,
};
use crate::expression::{joined, one_token};
use crate::formatter::{
    count_of, format_trailing, format_trailing_trivia, CodeFormatter, FormatterState,
};
use crate::sequences::{lemma_add_assoc, lemma_add_empty};
use crate::token::{
    bytes_of, lemma_tokens_view_push, text_of, tokens_view, Token, TokenKind, TokenReference,
    TokenReferenceView, TokenView,
};
use crate::trivia::{space, space_token, FormatTriviaType, FormatTriviaTypeView};
use crate::vectors::{
    lemma_view_field_pairs, lemma_view_field_pairs_empty, lemma_view_field_pairs_push,
    lemma_view_pairs, lemma_view_pairs_empty, lemma_view_pairs_push, reversed,
};
use crate::view::{
    view_expression, view_field, view_field_pair, view_field_pairs, view_function_args, view_pair,
    view_pairs, view_punctuated, view_suffix, view_suffixes, view_table, ExpressionView,
    FieldPairView, FieldView, FunctionArgsView, PairView, PunctuatedView, SuffixedView, SuffixView,
    TableConstructorView,
};

verus! {

/// The number of levels by which the operators of a hung chain stand deeper
/// than asked for, where the caller names no other number.
pub const DEFAULT_HANG_LEVEL: usize = 1;

/// The trivia from `index` on that are no whitespace, each on a line of its
/// own, indented by the depth of the block and `extra` more.
pub open spec fn lines_from(
    state: FormatterState,
    trivia: Seq<TokenView>,
    index: int,
    extra: Option<usize>,
) -> Seq<TokenView>
    decreases trivia.len() - index,
{
    if index < 0 || index >= trivia.len() {
        Seq::empty()
    } else if trivia[index].kind == TokenKind::Whitespace {
        lines_from(state, trivia, index + 1, extra)
    } else {
        seq![state.indent_trivia(extra), trivia[index], state.newline_trivia()] + lines_from(
            state,
            trivia,
            index + 1,
            extra,
        )
    }
}

/// The depth of a hung operator beyond that of its block: `level`, and one
/// more where a registered range holds the operator.
pub open spec fn operator_level(state: FormatterState, operator: TokenReferenceView, level: usize)
    -> usize {
    level.saturating_add(
        count_of(state.range_indent_increase((operator.token.start, operator.token.end))),
    )
}

/// The operator at the start of a line of its own. The comments around it
/// stand on lines of their own in front of it, so that none of them can
/// swallow what follows the operator.
pub open spec fn hung_operator(state: FormatterState, operator: TokenReferenceView, level: usize)
    -> TokenReferenceView {
    let extra = Some(operator_level(state, operator, level));
    TokenReferenceView {
        leading: seq![state.newline_trivia()] + lines_from(state, operator.leading, 0, extra)
            + lines_from(state, operator.trailing, 0, extra) + seq![state.indent_trivia(extra)],
        token: operator.token,
        trailing: seq![space()],
    }
}

/// The token that opens a list laid out over several lines: a line break
/// follows it, behind the comments that stood behind it.
pub open spec fn hung_opener(state: FormatterState, open: TokenReferenceView) -> TokenReferenceView {
    TokenReferenceView {
        leading: open.leading,
        token: open.token,
        trailing: format_trailing(open.trailing) + seq![state.newline_trivia()],
    }
}

/// The token that closes a list laid out over several lines: it starts a
/// line, `outer` levels deeper than the block, below the comments that stood
/// in front of it, which stand `inner` levels deeper than the block.
pub open spec fn hung_closer(
    state: FormatterState,
    close: TokenReferenceView,
    inner: usize,
    outer: usize,
) -> TokenReferenceView {
    TokenReferenceView {
        leading: lines_from(state, close.leading, 0, Some(inner)) + seq![
            state.indent_trivia(Some(outer)),
        ],
        token: close.token,
        trailing: close.trailing,
    }
}

/// The separator that ends the line of an element.
pub open spec fn line_separator(state: FormatterState, separator: TokenReferenceView)
    -> TokenReferenceView {
    hung_opener(state, separator)
}

/// The comma that is written behind the last field of a table laid out over
/// several lines, where the field had no separator.
pub open spec fn added_separator(state: FormatterState) -> TokenReferenceView {
    TokenReferenceView {
        leading: Seq::empty(),
        token: TokenView { kind: TokenKind::Symbol, text: text_of(","), start: 0, end: 0 },
        trailing: seq![state.newline_trivia()],
    }
}

/// The argument on a line of its own, `inner` levels deeper than the block.
/// The last argument has no separator behind it.
pub open spec fn hung_pair(state: FormatterState, pair: PairView, inner: usize) -> PairView {
    let value = first_updated(
        pair.value,
        FormatTriviaTypeView::Append(seq![state.indent_trivia(Some(inner))]),
    );
    match pair.separator {
        Some(separator) => PairView { value, separator: Some(line_separator(state, separator)) },
        None => PairView {
            value: last_updated(
                value,
                FormatTriviaTypeView::Append(seq![state.newline_trivia()]),
            ),
            separator: None,
        },
    }
}

/// The arguments, one on each line.
pub open spec fn hung_arguments(state: FormatterState, pairs: Seq<PairView>, inner: usize) -> Seq<
    PairView,
> {
    Seq::new(pairs.len(), |i: int| hung_pair(state, pairs[i], inner))
}

/// The field with its first token indented `inner` levels deeper than the block.
pub open spec fn hung_field(state: FormatterState, field: FieldView, inner: usize) -> FieldView {
    let edit = FormatTriviaTypeView::Append(seq![state.indent_trivia(Some(inner))]);
    match field {
        FieldView::ExpressionKey { open, key, close, equal, value } => FieldView::ExpressionKey {
            open: lead(open, edit),
            key,
            close,
            equal,
            value,
        },
        FieldView::NameKey { name, equal, value } => FieldView::NameKey {
            name: lead(name, edit),
            equal,
            value,
        },
        FieldView::NoKey(value) => FieldView::NoKey(first_updated(value, edit)),
    }
}

/// The field on a line of its own. Its separator ends the line; the last
/// field of a table gets a separator where it has none.
pub open spec fn hung_field_pair(
    state: FormatterState,
    pair: FieldPairView,
    inner: usize,
    last: bool,
) -> FieldPairView {
    FieldPairView {
        field: hung_field(state, pair.field, inner),
        separator: match pair.separator {
            Some(separator) => Some(line_separator(state, separator)),
            None => if last {
                Some(added_separator(state))
            } else {
                None
            },
        },
    }
}

/// The fields, one on each line.
pub open spec fn hung_fields(state: FormatterState, fields: Seq<FieldPairView>, inner: usize)
    -> Seq<FieldPairView> {
    Seq::new(
        fields.len(),
        |i: int| hung_field_pair(state, fields[i], inner, i + 1 == fields.len()),
    )
}

/// The depth of the closing token of a list whose elements stand `inner`
/// levels deeper than the block.
pub open spec fn outer_level(inner: usize) -> usize {
    inner.saturating_sub(1)
}

/// The table laid out over several lines: one field per line, a separator
/// behind every field, and the closing brace on a line of its own. A table
/// without fields stays as it is.
pub open spec fn hung_table(state: FormatterState, table: TableConstructorView, level: usize)
    -> TableConstructorView {
    if table.fields.len() == 0 {
        table
    } else {
        let inner = operator_level(state, table.open, level);
        TableConstructorView {
            open: hung_opener(state, table.open),
            fields: hung_fields(state, table.fields, inner),
            close: hung_closer(state, table.close, inner, outer_level(inner)),
        }
    }
}

/// The arguments of a call laid out over several lines: one argument per
/// line, and the closing parenthesis on a line of its own. Arguments that
/// are not a list in parentheses, and an empty list, stay as they are; a
/// table that is the argument is laid out as a table.
pub open spec fn hung_args(state: FormatterState, args: FunctionArgsView, level: usize)
    -> FunctionArgsView {
    match args {
        FunctionArgsView::Parentheses { open, arguments, close } => {
            if arguments.pairs.len() == 0 {
                args
            } else {
                let inner = operator_level(state, open, level);
                FunctionArgsView::Parentheses {
                    open: hung_opener(state, open),
                    arguments: PunctuatedView {
                        pairs: hung_arguments(state, arguments.pairs, inner),
                    },
                    close: hung_closer(state, close, inner, outer_level(inner)),
                }
            }
        },
        FunctionArgsView::String(_) => args,
        FunctionArgsView::TableConstructor(table) => FunctionArgsView::TableConstructor(
            hung_table(state, table, level),
        ),
    }
}

/// The suffix with its arguments laid out over several lines, if it is a call.
pub open spec fn hung_suffix(state: FormatterState, suffix: SuffixView, level: usize)
    -> SuffixView {
    match suffix {
        SuffixView::Call(args) => SuffixView::Call(hung_args(state, args, level)),
        SuffixView::MethodCall { colon, name, args } => SuffixView::MethodCall {
            colon,
            name,
            args: hung_args(state, args, level),
        },
        _ => suffix,
    }
}

/// The call with the arguments of its last suffix laid out over several lines.
pub open spec fn hung_call(state: FormatterState, call: SuffixedView, level: usize)
    -> SuffixedView {
    if call.suffixes.len() == 0 {
        call
    } else {
        SuffixedView {
            prefix: call.prefix,
            suffixes: call.suffixes.drop_last().push(
                hung_suffix(state, call.suffixes.last(), level),
            ),
        }
    }
}

/// The expression in its hanging layout. In a chain of binary operators
/// every operator of the chain at the top starts a line, `level` levels
/// deeper than the block. A call gets one argument per line, a table one
/// field per line. Any other expression stays as it is.
pub open spec fn hang_layout(state: FormatterState, e: ExpressionView, level: usize)
    -> ExpressionView
    decreases e,
{
    match e {
        ExpressionView::BinaryOperator { lhs, operator, rhs } => ExpressionView::BinaryOperator {
            lhs: Box::new(hang_chain_layout(state, *lhs, level)),
            operator: hung_operator(state, operator, level),
            rhs,
        },
        ExpressionView::FunctionCall(call) => ExpressionView::FunctionCall(
            hung_call(state, call, level),
        ),
        ExpressionView::TableConstructor(table) => ExpressionView::TableConstructor(
            hung_table(state, table, level),
        ),
        _ => e,
    }
}

/// The left operand of a hung operator: where it is a chain itself, its
/// operators hang too; any other expression stays on its line.
pub open spec fn hang_chain_layout(state: FormatterState, e: ExpressionView, level: usize)
    -> ExpressionView
    decreases e,
{
    match e {
        ExpressionView::BinaryOperator { lhs, operator, rhs } => ExpressionView::BinaryOperator {
            lhs: Box::new(hang_chain_layout(state, *lhs, level)),
            operator: hung_operator(state, operator, level),
            rhs,
        },
        _ => e,
    }
}

/// The number of levels by which the operators hang: the additional indent of
/// the statement and the hang level, which is one where none is given.
pub open spec fn hang_depth(additional_indent_level: Option<usize>, hang_level: Option<usize>)
    -> usize {
    count_of(additional_indent_level).saturating_add(
        match hang_level {
            Some(level) => level,
            None => DEFAULT_HANG_LEVEL,
        },
    )
}

/// The hung expression, with the line break that ends it.
pub open spec fn hang_expression(
    state: FormatterState,
    e: ExpressionView,
    additional_indent_level: Option<usize>,
    hang_level: Option<usize>,
) -> ExpressionView {
    last_updated(
        hang_layout(state, e, hang_depth(additional_indent_level, hang_level)),
        FormatTriviaTypeView::Append(seq![state.newline_trivia()]),
    )
}

impl CodeFormatter {
    /// Adds the trivia that are no whitespace to `out`, each on a line of its own.
    pub fn push_comment_lines(
        &self,
        trivia: &Vec<Token>,
        extra: Option<usize>,
        out: &mut Vec<Token>,
    )
        ensures
            tokens_view(final(out)@) == tokens_view(old(out)@) + lines_from(
                self@,
                tokens_view(trivia@),
                0,
                extra,
            ),
    {
        let ghost views = tokens_view(trivia@);
        let ghost state = self@;
        let ghost start = tokens_view(out@);
        let ghost mut done: Seq<TokenView> = Seq::empty();
        let mut i: usize = 0;
        proof {
            lemma_add_empty(start);
            lemma_add_empty(lines_from(state, views, 0, extra));
        }
        while i < trivia.len()
            invariant
                i <= trivia.len(),
                views == tokens_view(trivia@),
                state == self@,
                tokens_view(out@) == start + done,
                done + lines_from(state, views, i as int, extra) == lines_from(
                    state,
                    views,
                    0,
                    extra,
                ),
            decreases trivia.len() - i,
        {
            if trivia[i].kind != TokenKind::Whitespace {
                let indent = self.create_indent_trivia(extra);
                let kept = trivia[i].duplicate();
                let newline = self.create_newline_trivia();
                proof {
                    let piece = seq![
                        state.indent_trivia(extra),
                        views[i as int],
                        state.newline_trivia(),
                    ];
                    lemma_tokens_view_push(out@, indent);
                    lemma_tokens_view_push(out@.push(indent), kept);
                    lemma_tokens_view_push(out@.push(indent).push(kept), newline);
                    assert(tokens_view(out@).push(indent@).push(kept@).push(newline@) =~= tokens_view(
                        out@,
                    ) + piece);
                    lemma_add_assoc(start, done, piece);
                    lemma_add_assoc(done, piece, lines_from(state, views, i + 1, extra));
                    done = done + piece;
                }
                out.push(indent);
                out.push(kept);
                out.push(newline);
            }
            i += 1;
        }
        proof {
            lemma_add_empty(done);
        }
    }

    /// The operator at the start of a line of its own, `level` levels deeper
    /// than the block, and one more where a registered range holds it.
    pub fn hang_operator(&self, operator: TokenReference, level: usize) -> (hung: TokenReference)
        ensures
            hung@ == hung_operator(self@, operator@, level),
    {
        let increase = self.get_range_indent_increase((operator.token.start, operator.token.end));
        let extra = Some(
            level.saturating_add(
                match increase {
                    Some(n) => n,
                    None => 0,
                },
            ),
        );
        let mut leading: Vec<Token> = Vec::new();
        let newline = self.create_newline_trivia();
        proof {
            lemma_tokens_view_push(leading@, newline);
            assert(tokens_view(leading@.push(newline)) =~= seq![self@.newline_trivia()]);
        }
        leading.push(newline);
        self.push_comment_lines(&operator.leading_trivia, extra, &mut leading);
        self.push_comment_lines(&operator.trailing_trivia, extra, &mut leading);
        let indent = self.create_indent_trivia(extra);
        proof {
            lemma_tokens_view_push(leading@, indent);
            assert(tokens_view(leading@).push(indent@) =~= tokens_view(leading@) + seq![indent@]);
        }
        leading.push(indent);
        let mut trailing: Vec<Token> = Vec::new();
        trailing.push(space_token());
        assert(tokens_view(trailing@) =~= seq![space()]);
        TokenReference { leading_trivia: leading, token: operator.token, trailing_trivia: trailing }
    }

    /// The left operand of a hung operator, with the operators of its chain hung.
    #[verifier::spinoff_prover]
    pub fn hang_chain(&self, e: Expression, level: usize) -> (hung: Expression)
        ensures
            hung@ == hang_chain_layout(self@, e@, level),
        decreases e,
    {
        proof {
            reveal(view_expression);
        }
        match e {
            Expression::BinaryOperator { lhs, operator, rhs } => Expression::BinaryOperator {
                lhs: Box::new(self.hang_chain(*lhs, level)),
                operator: self.hang_operator(operator, level),
                rhs,
            },
            other => other,
        }
    }

    /// The depth of the elements of a list that `open` opens.
    pub fn inner_level(&self, open: &TokenReference, level: usize) -> (inner: usize)
        ensures
            inner == operator_level(self@, open@, level),
    {
        let increase = self.get_range_indent_increase((open.token.start, open.token.end));
        level.saturating_add(
            match increase {
                Some(n) => n,
                None => 0,
            },
        )
    }

    /// The token that opens a list laid out over several lines.
    pub fn hang_opener(&self, open: TokenReference) -> (hung: TokenReference)
        ensures
            hung@ == hung_opener(self@, open@),
    {
        TokenReference {
            trailing_trivia: joined(
                format_trailing_trivia(&open.trailing_trivia),
                one_token(self.create_newline_trivia()),
            ),
            leading_trivia: open.leading_trivia,
            token: open.token,
        }
    }

    /// The token that closes a list laid out over several lines.
    pub fn hang_closer(&self, close: TokenReference, inner: usize, outer: usize) -> (hung:
        TokenReference)
        ensures
            hung@ == hung_closer(self@, close@, inner, outer),
    {
        let mut leading: Vec<Token> = Vec::new();
        proof {
            assert(tokens_view(leading@) =~= Seq::empty());
            lemma_add_empty(lines_from(self@, close@.leading, 0, Some(inner)));
        }
        self.push_comment_lines(&close.leading_trivia, Some(inner), &mut leading);
        TokenReference {
            leading_trivia: joined(leading, one_token(self.create_indent_trivia(Some(outer)))),
            token: close.token,
            trailing_trivia: close.trailing_trivia,
        }
    }

    /// The comma behind the last field of a table laid out over several lines.
    pub fn create_separator(&self) -> (separator: TokenReference)
        ensures
            separator@ == added_separator(self@),
    {
        let leading: Vec<Token> = Vec::new();
        assert(tokens_view(leading@) =~= Seq::empty());
        TokenReference {
            leading_trivia: leading,
            token: Token::new(TokenKind::Symbol, bytes_of(",")),
            trailing_trivia: one_token(self.create_newline_trivia()),
        }
    }

    /// The argument on a line of its own.
    #[verifier::spinoff_prover]
    pub fn hang_pair(&self, pair: Pair, inner: usize) -> (hung: Pair)
        ensures
            hung@ == hung_pair(self@, pair@, inner),
    {
        proof {
            reveal(view_pair);
        }
        let value = update_expression_leading(
            pair.value,
            FormatTriviaType::Append(one_token(self.create_indent_trivia(Some(inner)))),
        );
        match pair.separator {
            Some(separator) => Pair { value, separator: Some(self.hang_opener(separator)) },
            None => Pair {
                value: update_expression_trailing(
                    value,
                    FormatTriviaType::Append(one_token(self.create_newline_trivia())),
                ),
                separator: None,
            },
        }
    }

    /// The arguments, one on each line.
    #[verifier::spinoff_prover]
    pub fn hang_arguments(&self, pairs: Vec<Pair>, inner: usize) -> (hung: Vec<Pair>)
        ensures
            view_pairs(hung) == hung_arguments(self@, view_pairs(pairs), inner),
    {
        let ghost whole = pairs;
        let ghost views = view_pairs(pairs);
        let count = pairs.len();
        let mut rest = reversed(pairs);
        let mut done: Vec<Pair> = Vec::new();
        let mut i: usize = 0;
        proof {
            lemma_view_pairs(whole);
            lemma_view_pairs_empty(done);
        }
        while i < count
            invariant
                i <= count,
                count == whole.len(),
                views == view_pairs(whole),
                views.len() == count,
                rest.len() == count - i,
                forall|k: int| 0 <= k < rest.len() ==> rest@[k] == whole@[count - 1 - k],
                view_pairs(done).len() == i,
                forall|k: int|
                    0 <= k < i ==> #[trigger] view_pairs(done)[k] == hung_pair(
                        self@,
                        views[k],
                        inner,
                    ),
            decreases count - i,
        {
            let ghost before = done;
            let pair = rest.pop().unwrap();
            proof {
                lemma_view_pairs(whole);
                assert(pair == whole@[i as int]);
            }
            let formatted = self.hang_pair(pair, inner);
            done.push(formatted);
            proof {
                lemma_view_pairs_push(before, formatted, done);
            }
            i += 1;
        }
        assert(view_pairs(done) =~= hung_arguments(self@, views, inner));
        done
    }

    /// The field with its first token indented.
    #[verifier::spinoff_prover]
    pub fn hang_field(&self, field: Field, inner: usize) -> (hung: Field)
        ensures
            hung@ == hung_field(self@, field@, inner),
    {
        proof {
            reveal(view_field);
        }
        let edit = FormatTriviaType::Append(one_token(self.create_indent_trivia(Some(inner))));
        match field {
            Field::ExpressionKey { open, key, close, equal, value } => Field::ExpressionKey {
                open: open.update_leading_trivia(edit),
                key,
                close,
                equal,
                value,
            },
            Field::NameKey { name, equal, value } => Field::NameKey {
                name: name.update_leading_trivia(edit),
                equal,
                value,
            },
            Field::NoKey(value) => Field::NoKey(update_expression_leading(value, edit)),
        }
    }

    /// The field on a line of its own. The last field of a table gets a
    /// separator where it has none.
    #[verifier::spinoff_prover]
    pub fn hang_field_pair(&self, pair: FieldPair, inner: usize, last: bool) -> (hung: FieldPair)
        ensures
            hung@ == hung_field_pair(self@, pair@, inner, last),
    {
        proof {
            reveal(view_field_pair);
        }
        let field = self.hang_field(pair.field, inner);
        let separator = match pair.separator {
            Some(separator) => Some(self.hang_opener(separator)),
            None => if last {
                Some(self.create_separator())
            } else {
                None
            },
        };
        FieldPair { field, separator }
    }

    /// The fields, one on each line.
    #[verifier::spinoff_prover]
    pub fn hang_fields(&self, fields: Vec<FieldPair>, inner: usize) -> (hung: Vec<FieldPair>)
        ensures
            view_field_pairs(hung) == hung_fields(self@, view_field_pairs(fields), inner),
    {
        let ghost whole = fields;
        let ghost views = view_field_pairs(fields);
        let count = fields.len();
        let mut rest = reversed(fields);
        let mut done: Vec<FieldPair> = Vec::new();
        let mut i: usize = 0;
        proof {
            lemma_view_field_pairs(whole);
            lemma_view_field_pairs_empty(done);
        }
        while i < count
            invariant
                i <= count,
                count == whole.len(),
                views == view_field_pairs(whole),
                views.len() == count,
                rest.len() == count - i,
                forall|k: int| 0 <= k < rest.len() ==> rest@[k] == whole@[count - 1 - k],
                view_field_pairs(done).len() == i,
                forall|k: int|
                    0 <= k < i ==> #[trigger] view_field_pairs(done)[k] == hung_field_pair(
                        self@,
                        views[k],
                        inner,
                        k + 1 == count,
                    ),
            decreases count - i,
        {
            let ghost before = done;
            let pair = rest.pop().unwrap();
            proof {
                lemma_view_field_pairs(whole);
                assert(pair == whole@[i as int]);
            }
            let formatted = self.hang_field_pair(pair, inner, i + 1 == count);
            done.push(formatted);
            proof {
                lemma_view_field_pairs_push(before, formatted, done);
            }
            i += 1;
        }
        assert(view_field_pairs(done) =~= hung_fields(self@, views, inner));
        done
    }

    /// The table laid out over several lines.
    #[verifier::spinoff_prover]
    pub fn hang_table(&self, table: TableConstructor, level: usize) -> (hung: TableConstructor)
        ensures
            hung@ == hung_table(self@, table@, level),
    {
        proof {
            reveal(view_table);
            lemma_view_field_pairs(table.fields);
        }
        if table.fields.len() == 0 {
            return table;
        }
        let inner = self.inner_level(&table.open, level);
        let open = self.hang_opener(table.open);
        let fields = self.hang_fields(table.fields, inner);
        let close = self.hang_closer(table.close, inner, inner.saturating_sub(1));
        TableConstructor { open, fields, close }
    }

    /// The arguments of a call laid out over several lines.
    #[verifier::spinoff_prover]
    pub fn hang_args(&self, args: FunctionArgs, level: usize) -> (hung: FunctionArgs)
        ensures
            hung@ == hung_args(self@, args@, level),
    {
        proof {
            reveal(view_function_args);
        }
        match args {
            FunctionArgs::Parentheses { open, arguments, close } => {
                proof {
                    reveal(view_punctuated);
                    lemma_view_pairs(arguments.pairs);
                }
                if arguments.pairs.len() == 0 {
                    FunctionArgs::Parentheses { open, arguments, close }
                } else {
                    let inner = self.inner_level(&open, level);
                    let open = self.hang_opener(open);
                    let pairs = self.hang_arguments(arguments.pairs, inner);
                    let close = self.hang_closer(close, inner, inner.saturating_sub(1));
                    FunctionArgs::Parentheses { open, arguments: Punctuated { pairs }, close }
                }
            },
            FunctionArgs::String(t) => FunctionArgs::String(t),
            FunctionArgs::TableConstructor(table) => FunctionArgs::TableConstructor(
                self.hang_table(table, level),
            ),
        }
    }

    /// The suffix with its arguments laid out over several lines, if it is a call.
    #[verifier::spinoff_prover]
    pub fn hang_suffix(&self, suffix: Suffix, level: usize) -> (hung: Suffix)
        ensures
            hung@ == hung_suffix(self@, suffix@, level),
    {
        proof {
            reveal(view_suffix);
        }
        match suffix {
            Suffix::Call(args) => Suffix::Call(self.hang_args(args, level)),
            Suffix::MethodCall { colon, name, args } => Suffix::MethodCall {
                colon,
                name,
                args: self.hang_args(args, level),
            },
            other => other,
        }
    }

    /// The call with the arguments of its last suffix laid out over several lines.
    #[verifier::spinoff_prover]
    pub fn hang_call(&self, call: FunctionCall, level: usize) -> (hung: FunctionCall)
        ensures
            hung@ == hung_call(self@, call@, level),
    {
        proof {
            reveal(view_suffixes);
        }
        let mut suffixes = call.suffixes;
        if suffixes.len() == 0 {
            return FunctionCall { prefix: call.prefix, suffixes };
        }
        let ghost before = view_suffixes(suffixes);
        let last = suffixes.pop().unwrap();
        let hung = self.hang_suffix(last, level);
        suffixes.push(hung);
        assert(view_suffixes(suffixes) =~= before.drop_last().push(
            hung_suffix(self@, before.last(), level),
        ));
        FunctionCall { prefix: call.prefix, suffixes }
    }

    /// The expression in its hanging layout.
    #[verifier::spinoff_prover]
    pub fn hang_layout(&self, e: Expression, level: usize) -> (hung: Expression)
        ensures
            hung@ == hang_layout(self@, e@, level),
    {
        proof {
            reveal(view_expression);
        }
        match e {
            Expression::BinaryOperator { lhs, operator, rhs } => Expression::BinaryOperator {
                lhs: Box::new(self.hang_chain(*lhs, level)),
                operator: self.hang_operator(operator, level),
                rhs,
            },
            Expression::FunctionCall(call) => Expression::FunctionCall(self.hang_call(call, level)),
            Expression::TableConstructor(table) => Expression::TableConstructor(
                self.hang_table(table, level),
            ),
            other => other,
        }
    }

    /// The hung expression, with the line break that ends it. The operators of
    /// the chain at the top of `expression` stand `additional_indent_level`
    /// and `hang_level` levels deeper than the block; the hang level is one
    /// where none is given.
    pub fn hang_expression(
        &self,
        expression: Expression,
        additional_indent_level: Option<usize>,
        hang_level: Option<usize>,
    ) -> (hung: Expression)
        ensures
            hung@ == hang_expression(self@, expression@, additional_indent_level, hang_level),
    {
        let additional = match additional_indent_level {
            Some(level) => level,
            None => 0,
        };
        let level = additional.saturating_add(
            match hang_level {
                Some(level) => level,
                None => DEFAULT_HANG_LEVEL,
            },
        );
        let hung = self.hang_layout(expression, level);
        let mut newline: Vec<Token> = Vec::new();
        newline.push(self.create_newline_trivia());
        assert(tokens_view(newline@) =~= seq![self@.newline_trivia()]);
        update_expression_trailing(hung, FormatTriviaType::Append(newline))
    }
}

} // verus!
