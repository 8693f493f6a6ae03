//! The canonical form of every node, as a function of the state of the pass.
//!
//! Each function takes the state before the node is visited and gives the
//! state after it together with the formatted node. The state only changes
//! where a range is registered, a directive is met or a nested block is
//! entered and left.

use vstd::prelude::*;
use crate::edges::{
    cleared, first_updated, last_trailing, last_updated, punctuated_first_updated,
    punctuated_last_updated, suffixed_first_updated, suffixed_last_updated, trail,
};
use crate::endings::{ended_last_stmt, ended_stmt};
use crate::flatten::{
    expression_tokens, last_stmt_tokens, optional_token, prefix_tokens, punctuated_tokens,
    stmt_tokens,
};
use crate::formatter::{count_of, format_trailing, EndTokenType, FormatterState};
use crate::measure::{
    exceeds_width, has_inline_comments, leads_with, leads_with_comment, stripped, tokens_range,
};
use crate::rewrite::{DASH, OPEN_BRACKET};
use crate::range::{format_decision};
use crate::hang::{hang_expression, hang_layout, DEFAULT_HANG_LEVEL};
use crate::token::{text_of, TokenReferenceView, TokenView};
use crate::trivia::{with_trivia, FormatTriviaTypeView};
use crate::view::{
    AssignmentView, BlockLastStmtView, BlockStmtView, BlockView, DoView, ElseIfView, ElseView,
    ExpressionView, FieldPairView, FieldView, ForStepView, FunctionArgsView, FunctionBodyView,
    FunctionDeclarationView, GenericForView, IfView, LastStmtView, LocalAssignmentView,
    LocalFunctionView, NumericForView, PairView, PrefixView, PunctuatedView, RepeatView, StmtView,
    SuffixView, SuffixedView, TableConstructorView, WhileView,
};

verus! {

/// The byte range of a token.
pub open spec fn token_range(token: TokenReferenceView) -> (usize, usize) {
    (token.token.start, token.token.end)
}

/// The edit that appends `list`.
pub open spec fn append(list: Seq<TokenView>) -> FormatTriviaTypeView {
    FormatTriviaTypeView::Append(list)
}

/// The indents that a node gets beyond those of its block, by the range of
/// its tokens, if it has any.
pub open spec fn tokens_indent_increase(state: FormatterState, tokens: Seq<TokenReferenceView>)
    -> Option<usize> {
    match tokens_range(tokens) {
        Some(range) => state.range_indent_increase(range),
        None => None,
    }
}

/// The first token of a statement: indented, and nothing behind it changed.
pub open spec fn opening(
    state: FormatterState,
    token: TokenReferenceView,
    extra: Option<usize>,
) -> TokenReferenceView {
    with_trivia(token, append(seq![state.indent_trivia(extra)]), FormatTriviaTypeView::NoChange)
}

/// A token alone on its line: indented, and a line break behind it.
pub open spec fn own_line(
    state: FormatterState,
    token: TokenReferenceView,
    extra: Option<usize>,
) -> TokenReferenceView {
    with_trivia(
        token,
        append(seq![state.indent_trivia(extra)]),
        append(seq![state.newline_trivia()]),
    )
}

/// A token that ends its line.
pub open spec fn closing(state: FormatterState, token: TokenReferenceView) -> TokenReferenceView {
    trail(token, append(seq![state.newline_trivia()]))
}

/// Whether the operator is written as a word, which needs a space behind it.
pub open spec fn is_word_operator(text: Seq<u8>) -> bool {
    text == text_of("not")
}

/// Whether a space stands behind a unary operator: behind one that is a
/// word, and behind a minus sign that another minus sign or a comment
/// follows, with which it would make up the start of a comment.
pub open spec fn unary_gap(operator: TokenReferenceView, operand: ExpressionView) -> bool {
    is_word_operator(operator.token.text) || (operator.token.text == text_of("-") && (leads_with(
        expression_tokens(operand, true),
        DASH,
    ) || leads_with_comment(expression_tokens(operand, true))))
}

/// Whether blanks stand inside the brackets around an expression: around one
/// that starts with a long bracket, with which the opening bracket would
/// make up a long bracket of its own.
pub open spec fn bracket_gap(inner: ExpressionView) -> bool {
    leads_with(expression_tokens(inner, true), OPEN_BRACKET)
}

/// The separator between two elements of a list on one line: a space behind
/// it, and the comments behind it taken away.
pub open spec fn list_separator(state: FormatterState, separator: TokenReferenceView)
    -> TokenReferenceView {
    TokenReferenceView {
        leading: state.format_leading(separator.leading, None),
        token: separator.token,
        trailing: seq![crate::trivia::space()],
    }
}

/// The comments of a token that is not written out, each behind a space.
pub open spec fn dropped_comments(token: TokenReferenceView) -> Seq<TokenView> {
    format_trailing(token.leading) + format_trailing(token.trailing)
}

/// The formatted expression on one line.
#[verifier::opaque]
pub open spec fn formatted_expression(state: FormatterState, e: ExpressionView) -> (
    FormatterState,
    ExpressionView,
)
    decreases e, 0nat,
{
    match e {
        ExpressionView::Number(t) => (state, ExpressionView::Number(state.format_token_reference(t))),
        ExpressionView::String(t) => (state, ExpressionView::String(state.format_token_reference(t))),
        ExpressionView::Symbol(t) => (state, ExpressionView::Symbol(state.format_token_reference(t))),
        ExpressionView::Name(t) => (state, ExpressionView::Name(state.format_token_reference(t))),
        ExpressionView::Parentheses { open, expression, close } => {
            let (inner_state, inner) = formatted_expression(state, *expression);
            (
                inner_state,
                ExpressionView::Parentheses {
                    open: state.format_symbol(open, false, false),
                    expression: Box::new(inner),
                    close: inner_state.format_symbol(close, false, false),
                },
            )
        },
        ExpressionView::UnaryOperator { operator, expression } => {
            let (inner_state, inner) = formatted_expression(state, *expression);
            (
                inner_state,
                ExpressionView::UnaryOperator {
                    operator: state.format_symbol(
                        operator,
                        false,
                        unary_gap(operator, *expression),
                    ),
                    expression: Box::new(inner),
                },
            )
        },
        ExpressionView::BinaryOperator { lhs, operator, rhs } => {
            let (left_state, left) = formatted_expression(state, *lhs);
            let (right_state, right) = formatted_expression(left_state, *rhs);
            (
                right_state,
                ExpressionView::BinaryOperator {
                    lhs: Box::new(left),
                    operator: left_state.format_symbol(operator, true, true),
                    rhs: Box::new(right),
                },
            )
        },
        ExpressionView::Function { function_token, body } => {
            let extra = state.range_indent_increase(token_range(function_token));
            let (body_state, formatted) = formatted_function_body(state, body, extra);
            (
                body_state,
                ExpressionView::Function {
                    function_token: state.format_symbol(function_token, false, false),
                    body: formatted,
                },
            )
        },
        ExpressionView::FunctionCall(call) => {
            let (prefix_state, prefix) = formatted_prefix(state, call.prefix);
            let (end_state, suffixes) = formatted_suffixes(
                prefix_state,
                call.suffixes,
                call.suffixes.len() as int,
            );
            (end_state, ExpressionView::FunctionCall(SuffixedView { prefix, suffixes }))
        },
        ExpressionView::Var(var) => {
            let (prefix_state, prefix) = formatted_prefix(state, var.prefix);
            let (end_state, suffixes) = formatted_suffixes(
                prefix_state,
                var.suffixes,
                var.suffixes.len() as int,
            );
            (end_state, ExpressionView::Var(SuffixedView { prefix, suffixes }))
        },
        ExpressionView::TableConstructor(table) => {
            let (end_state, formatted) = formatted_table(state, table);
            (end_state, ExpressionView::TableConstructor(formatted))
        },
    }
}

/// The formatted prefix.
#[verifier::opaque]
pub open spec fn formatted_prefix(state: FormatterState, prefix: PrefixView) -> (
    FormatterState,
    PrefixView,
)
    decreases prefix,
{
    match prefix {
        PrefixView::Name(t) => (state, PrefixView::Name(state.format_token_reference(t))),
        PrefixView::Expression(e) => {
            let (end_state, formatted) = formatted_expression(state, *e);
            (end_state, PrefixView::Expression(Box::new(formatted)))
        },
    }
}

/// The formatted suffix.
#[verifier::opaque]
pub open spec fn formatted_suffix(state: FormatterState, suffix: SuffixView) -> (
    FormatterState,
    SuffixView,
)
    decreases suffix,
{
    match suffix {
        SuffixView::Dot { dot, name } => (
            state,
            SuffixView::Dot {
                dot: state.format_symbol(dot, false, false),
                name: state.format_token_reference(name),
            },
        ),
        SuffixView::Brackets { open, expression, close } => {
            let (end_state, formatted) = formatted_expression(state, expression);
            (
                end_state,
                SuffixView::Brackets {
                    open: state.format_symbol(open, false, bracket_gap(expression)),
                    expression: formatted,
                    close: end_state.format_symbol(close, bracket_gap(expression), false),
                },
            )
        },
        SuffixView::Call(args) => {
            let (end_state, formatted) = formatted_function_args(state, args);
            (end_state, SuffixView::Call(formatted))
        },
        SuffixView::MethodCall { colon, name, args } => {
            let (end_state, formatted) = formatted_function_args(state, args);
            (
                end_state,
                SuffixView::MethodCall {
                    colon: state.format_symbol(colon, false, false),
                    name: state.format_token_reference(name),
                    args: formatted,
                },
            )
        },
    }
}

/// The first `count` suffixes, formatted one after another.
#[verifier::opaque]
pub open spec fn formatted_suffixes(state: FormatterState, suffixes: Seq<SuffixView>, count: int)
    -> (FormatterState, Seq<SuffixView>)
    decreases suffixes, count,
{
    if count <= 0 || count > suffixes.len() {
        (state, Seq::empty())
    } else {
        let (before_state, before) = formatted_suffixes(state, suffixes, count - 1);
        let (end_state, formatted) = formatted_suffix(before_state, suffixes[count - 1]);
        (end_state, before.push(formatted))
    }
}

/// The formatted arguments of a call. Comments taken from between the
/// arguments follow behind the closing parenthesis.
#[verifier::opaque]
pub open spec fn formatted_function_args(state: FormatterState, args: FunctionArgsView) -> (
    FormatterState,
    FunctionArgsView,
)
    decreases args,
{
    match args {
        FunctionArgsView::Parentheses { open, arguments, close } => {
            let (end_state, list, comments) = formatted_punctuated(state, arguments);
            (
                end_state,
                FunctionArgsView::Parentheses {
                    open: state.format_symbol(open, false, false),
                    arguments: list,
                    close: trail(end_state.format_symbol(close, false, false), append(comments)),
                },
            )
        },
        FunctionArgsView::String(t) => (
            state,
            FunctionArgsView::String(state.format_token_reference(t)),
        ),
        FunctionArgsView::TableConstructor(table) => {
            let (end_state, formatted) = formatted_table(state, table);
            (end_state, FunctionArgsView::TableConstructor(formatted))
        },
    }
}

/// The first `count` elements of a list, formatted for one line, and the
/// comments taken from behind their values and their separators, so that
/// none of them can swallow what follows on the line. The separator behind
/// the last element of the list is not written out; its comments are taken too.
#[verifier::opaque]
pub open spec fn formatted_pairs(state: FormatterState, pairs: Seq<PairView>, count: int) -> (
    FormatterState,
    Seq<PairView>,
    Seq<TokenView>,
)
    decreases pairs, count,
{
    if count <= 0 || count > pairs.len() {
        (state, Seq::empty(), Seq::empty())
    } else {
        let (before_state, before, before_comments) = formatted_pairs(state, pairs, count - 1);
        let (end_state, formatted) = formatted_expression(before_state, pairs[count - 1].value);
        let value = last_updated(formatted, cleared());
        let comments = before_comments + last_trailing(formatted);
        match pairs[count - 1].separator {
            Some(separator) => if count == pairs.len() {
                (
                    end_state,
                    before.push(PairView { value, separator: None }),
                    comments + dropped_comments(separator),
                )
            } else {
                (
                    end_state,
                    before.push(
                        PairView { value, separator: Some(list_separator(end_state, separator)) },
                    ),
                    comments + format_trailing(separator.trailing),
                )
            },
            None => (end_state, before.push(PairView { value, separator: None }), comments),
        }
    }
}

/// The list formatted for one line, and the comments taken from it.
#[verifier::opaque]
pub open spec fn formatted_punctuated(state: FormatterState, list: PunctuatedView) -> (
    FormatterState,
    PunctuatedView,
    Seq<TokenView>,
)
    decreases list,
{
    let (end_state, pairs, comments) = formatted_pairs(state, list.pairs, list.pairs.len() as int);
    (end_state, PunctuatedView { pairs }, comments)
}

/// The formatted field of a table.
#[verifier::opaque]
pub open spec fn formatted_field(state: FormatterState, field: FieldView) -> (
    FormatterState,
    FieldView,
)
    decreases field,
{
    match field {
        FieldView::ExpressionKey { open, key, close, equal, value } => {
            let (key_state, formatted_key) = formatted_expression(state, key);
            let (end_state, formatted_value) = formatted_expression(key_state, value);
            (
                end_state,
                FieldView::ExpressionKey {
                    open: state.format_symbol(open, false, bracket_gap(key)),
                    key: formatted_key,
                    close: key_state.format_symbol(close, bracket_gap(key), false),
                    equal: key_state.format_symbol(equal, true, true),
                    value: formatted_value,
                },
            )
        },
        FieldView::NameKey { name, equal, value } => {
            let (end_state, formatted_value) = formatted_expression(state, value);
            (
                end_state,
                FieldView::NameKey {
                    name: state.format_token_reference(name),
                    equal: state.format_symbol(equal, true, true),
                    value: formatted_value,
                },
            )
        },
        FieldView::NoKey(value) => {
            let (end_state, formatted_value) = formatted_expression(state, value);
            (end_state, FieldView::NoKey(formatted_value))
        },
    }
}

/// The first `count` fields of a table, formatted for one line, and the
/// comments taken from behind their separators.
#[verifier::opaque]
pub open spec fn formatted_fields(state: FormatterState, fields: Seq<FieldPairView>, count: int)
    -> (FormatterState, Seq<FieldPairView>, Seq<TokenView>)
    decreases fields, count,
{
    if count <= 0 || count > fields.len() {
        (state, Seq::empty(), Seq::empty())
    } else {
        let (before_state, before, comments) = formatted_fields(state, fields, count - 1);
        let (end_state, field) = formatted_field(before_state, fields[count - 1].field);
        match fields[count - 1].separator {
            Some(separator) => if count == fields.len() {
                (
                    end_state,
                    before.push(FieldPairView { field, separator: None }),
                    comments + dropped_comments(separator),
                )
            } else {
                (
                    end_state,
                    before.push(
                        FieldPairView {
                            field,
                            separator: Some(list_separator(end_state, separator)),
                        },
                    ),
                    comments + format_trailing(separator.trailing),
                )
            },
            None => (end_state, before.push(FieldPairView { field, separator: None }), comments),
        }
    }
}

/// The table formatted for one line: nothing between the braces of an empty
/// table, one space inside each brace of any other.
#[verifier::opaque]
pub open spec fn formatted_table(state: FormatterState, table: TableConstructorView) -> (
    FormatterState,
    TableConstructorView,
)
    decreases table,
{
    let spaced = table.fields.len() > 0;
    let (end_state, fields, comments) = formatted_fields(
        state,
        table.fields,
        table.fields.len() as int,
    );
    (
        end_state,
        TableConstructorView {
            open: state.format_symbol(table.open, false, spaced),
            fields,
            close: trail(end_state.format_symbol(table.close, spaced, false), append(comments)),
        },
    )
}

/// The formatted body of a function: the parameters on the line of the
/// opening parenthesis, the block one level deeper, and `end` on a line of its
/// own at the depth of the block around the function and `extra` more.
#[verifier::opaque]
pub open spec fn formatted_function_body(
    state: FormatterState,
    body: FunctionBodyView,
    extra: Option<usize>,
) -> (FormatterState, FunctionBodyView)
    decreases body,
{
    let (list_state, parameters, comments) = formatted_punctuated(state, body.parameters);
    let (end_state, block) = formatted_nested_block(list_state, body.block);
    (
        end_state,
        FunctionBodyView {
            open: state.format_symbol(body.open, false, false),
            parameters,
            close: trail(
                list_state.format_symbol(body.close, false, false),
                append(comments + seq![list_state.newline_trivia()]),
            ),
            block,
            end_token: opening(
                end_state,
                end_state.format_end_token(body.end_token, EndTokenType::BlockEnd),
                extra,
            ),
        },
    )
}

/// The formatted block nested in the one that is being visited: its
/// statements stand one level deeper, and the depth is as before afterwards.
#[verifier::opaque]
pub open spec fn formatted_nested_block(state: FormatterState, block: BlockView) -> (
    FormatterState,
    BlockView,
)
    decreases block, 1nat,
{
    let (end_state, formatted) = formatted_block(state.nested(), block);
    (end_state.at_level(state.indent_level), formatted)
}

/// The formatted block: its statements in order, each on lines of its own.
#[verifier::opaque]
pub open spec fn formatted_block(state: FormatterState, block: BlockView) -> (
    FormatterState,
    BlockView,
)
    decreases block, 0nat,
{
    let (stmts_state, stmts) = formatted_stmts(state, block.stmts, block.stmts.len() as int);
    let (end_state, last_stmt) = formatted_block_last(stmts_state, block.last_stmt);
    (end_state, BlockView { stmts, last_stmt })
}

/// The first `count` statements of a block, formatted one after another.
/// The semicolon behind a statement stands right behind it. A statement that
/// a directive or the range of the pass excludes stays as it is, and so does
/// its semicolon.
#[verifier::opaque]
pub open spec fn formatted_stmts(state: FormatterState, stmts: Seq<BlockStmtView>, count: int) -> (
    FormatterState,
    Seq<BlockStmtView>,
)
    decreases stmts, count,
{
    if count <= 0 || count > stmts.len() {
        (state, Seq::empty())
    } else {
        let (before_state, before) = formatted_stmts(state, stmts, count - 1);
        let current = stmts[count - 1];
        let (end_state, stmt) = formatted_stmt(before_state, current.stmt);
        let entry = if format_decision(before_state, stmt_tokens(current.stmt, true)).1 {
            ended_stmt(stmt, current.semicolon)
        } else {
            BlockStmtView { stmt, semicolon: current.semicolon }
        };
        (end_state, before.push(entry))
    }
}

/// The formatted closing statement of a block, if it has one.
#[verifier::opaque]
pub open spec fn formatted_block_last(
    state: FormatterState,
    last: Option<Box<BlockLastStmtView>>,
) -> (FormatterState, Option<Box<BlockLastStmtView>>)
    decreases last,
{
    match last {
        Some(last) => {
            let (decided, go) = format_decision(state, last_stmt_tokens(last.stmt, true));
            if go {
                let (end_state, stmt) = formatted_last_stmt(decided, last.stmt);
                (end_state, Some(Box::new(ended_last_stmt(stmt, last.semicolon))))
            } else {
                (decided, Some(last))
            }
        },
        None => (state, None),
    }
}

/// A list at the end of a line: `edit` is applied behind the last token of
/// the list, or behind `fallback`, the token in front of the list, where the
/// list is empty.
pub open spec fn line_end(
    fallback: TokenReferenceView,
    list: PunctuatedView,
    edit: FormatTriviaTypeView,
) -> (TokenReferenceView, PunctuatedView) {
    if list.pairs.len() == 0 {
        (trail(fallback, edit), list)
    } else {
        (fallback, punctuated_last_updated(list, edit))
    }
}

/// The formatted `return` or `break`.
#[verifier::opaque]
pub open spec fn formatted_last_stmt(state: FormatterState, stmt: LastStmtView) -> (
    FormatterState,
    LastStmtView,
)
    decreases stmt,
{
    match stmt {
        LastStmtView::Break(t) => {
            let extra = state.range_indent_increase(token_range(t));
            (state, LastStmtView::Break(own_line(state, state.format_symbol(t, false, false), extra)))
        },
        LastStmtView::Return { token, values } => {
            let extra = state.range_indent_increase(token_range(token));
            let (end_state, list, comments) = formatted_punctuated(state, values);
            let keyword = opening(
                state,
                state.format_symbol(token, false, values.pairs.len() > 0),
                extra,
            );
            let (ended_keyword, ended_list) = line_end(
                keyword,
                list,
                append(comments + seq![state.newline_trivia()]),
            );
            (end_state, LastStmtView::Return { token: ended_keyword, values: ended_list })
        },
    }
}

/// The formatted statement. A statement that a directive or the range of the
/// pass excludes stays as it is.
#[verifier::opaque]
pub open spec fn formatted_stmt(state: FormatterState, stmt: StmtView) -> (FormatterState, StmtView)
    decreases stmt,
{
    let (decided, go) = format_decision(state, stmt_tokens(stmt, true));
    if !go {
        (decided, stmt)
    } else {
        match stmt {
            StmtView::Assignment(node) => {
                let (end_state, formatted) = formatted_assignment(decided, node);
                (end_state, StmtView::Assignment(formatted))
            },
            StmtView::Do(node) => {
                let (end_state, formatted) = formatted_do(decided, node);
                (end_state, StmtView::Do(formatted))
            },
            StmtView::FunctionCall(node) => {
                let (end_state, formatted) = formatted_call_stmt(decided, node);
                (end_state, StmtView::FunctionCall(formatted))
            },
            StmtView::FunctionDeclaration(node) => {
                let (end_state, formatted) = formatted_function_declaration(decided, node);
                (end_state, StmtView::FunctionDeclaration(formatted))
            },
            StmtView::GenericFor(node) => {
                let (end_state, formatted) = formatted_generic_for(decided, node);
                (end_state, StmtView::GenericFor(formatted))
            },
            StmtView::If(node) => {
                let (end_state, formatted) = formatted_if(decided, node);
                (end_state, StmtView::If(formatted))
            },
            StmtView::LocalAssignment(node) => {
                let (end_state, formatted) = formatted_local_assignment(decided, node);
                (end_state, StmtView::LocalAssignment(formatted))
            },
            StmtView::LocalFunction(node) => {
                let (end_state, formatted) = formatted_local_function(decided, node);
                (end_state, StmtView::LocalFunction(formatted))
            },
            StmtView::NumericFor(node) => {
                let (end_state, formatted) = formatted_numeric_for(decided, node);
                (end_state, StmtView::NumericFor(formatted))
            },
            StmtView::Repeat(node) => {
                let (end_state, formatted) = formatted_repeat(decided, node);
                (end_state, StmtView::Repeat(formatted))
            },
            StmtView::While(node) => {
                let (end_state, formatted) = formatted_while(decided, node);
                (end_state, StmtView::While(formatted))
            },
        }
    }
}

/// Whether the values of an assignment are laid out over several lines: the
/// line of `width` columns of text and `spacing` blanks is too wide, or a
/// comment stands among the values.
pub open spec fn hangs_values(
    state: FormatterState,
    extra: Option<usize>,
    width: int,
    spacing: int,
    values: PunctuatedView,
) -> bool {
    exceeds_width(state, extra, width, spacing) || has_inline_comments(
        punctuated_tokens(values, true),
    )
}

/// The values of a list, each in its hanging layout.
pub open spec fn hung_pairs(state: FormatterState, pairs: Seq<PairView>, extra: Option<usize>)
    -> Seq<PairView> {
    Seq::new(
        pairs.len(),
        |i: int|
            PairView {
                value: hang_layout(
                    state,
                    pairs[i].value,
                    count_of(extra).saturating_add(DEFAULT_HANG_LEVEL),
                ),
                separator: pairs[i].separator,
            },
    )
}

/// The values behind the `=` of an assignment: on one line, or each in its
/// hanging layout where `hang` holds.
pub open spec fn laid_out_values(
    state: FormatterState,
    list: PunctuatedView,
    extra: Option<usize>,
    hang: bool,
) -> PunctuatedView {
    if hang {
        PunctuatedView { pairs: hung_pairs(state, list.pairs, extra) }
    } else {
        list
    }
}

/// The tokens of an assignment.
pub open spec fn assignment_tokens(node: AssignmentView) -> Seq<TokenReferenceView> {
    punctuated_tokens(node.var_list, true) + seq![node.equal_token] + punctuated_tokens(
        node.expr_list,
        true,
    )
}

/// The tokens of a `local` declaration.
pub open spec fn local_assignment_tokens(node: LocalAssignmentView) -> Seq<TokenReferenceView> {
    seq![node.local_token] + punctuated_tokens(node.name_list, true) + optional_token(
        node.equal_token,
    ) + punctuated_tokens(node.expr_list, true)
}

/// The formatted assignment.
#[verifier::opaque]
pub open spec fn formatted_assignment(state: FormatterState, node: AssignmentView) -> (
    FormatterState,
    AssignmentView,
)
    decreases node,
{
    let extra = tokens_indent_increase(state, punctuated_tokens(node.var_list, true));
    let width = stripped(assignment_tokens(node)).len() as int;
    let hang = hangs_values(state, extra, width, 2, node.expr_list);
    let (vars_state, vars, var_comments) = formatted_punctuated(state, node.var_list);
    let (end_state, exprs, expr_comments) = formatted_punctuated(vars_state, node.expr_list);
    let (equal_token, expr_list) = line_end(
        vars_state.format_symbol(node.equal_token, true, true),
        laid_out_values(end_state, exprs, extra, hang),
        append(var_comments + expr_comments + seq![end_state.newline_trivia()]),
    );
    (
        end_state,
        AssignmentView {
            var_list: punctuated_first_updated(vars, append(seq![state.indent_trivia(extra)])),
            equal_token,
            expr_list,
        },
    )
}

/// The formatted `local` declaration.
#[verifier::opaque]
pub open spec fn formatted_local_assignment(state: FormatterState, node: LocalAssignmentView) -> (
    FormatterState,
    LocalAssignmentView,
)
    decreases node,
{
    let extra = state.range_indent_increase(token_range(node.local_token));
    let width = stripped(local_assignment_tokens(node)).len() as int;
    let hang = hangs_values(state, extra, width, 3, node.expr_list);
    let local_token = opening(state, state.format_symbol(node.local_token, false, true), extra);
    let (names_state, names, name_comments) = formatted_punctuated(state, node.name_list);
    let (end_state, exprs, expr_comments) = formatted_punctuated(names_state, node.expr_list);
    let end_of_line = append(name_comments + expr_comments + seq![end_state.newline_trivia()]);
    match node.equal_token {
        Some(equal) => {
            let (equal_token, expr_list) = line_end(
                names_state.format_symbol(equal, true, true),
                laid_out_values(end_state, exprs, extra, hang),
                end_of_line,
            );
            (
                end_state,
                LocalAssignmentView {
                    local_token,
                    name_list: names,
                    equal_token: Some(equal_token),
                    expr_list,
                },
            )
        },
        None => {
            let (ended_local, name_list) = line_end(local_token, names, end_of_line);
            (
                end_state,
                LocalAssignmentView {
                    local_token: ended_local,
                    name_list,
                    equal_token: None,
                    expr_list: exprs,
                },
            )
        },
    }
}

/// The formatted `do` block.
#[verifier::opaque]
pub open spec fn formatted_do(state: FormatterState, node: DoView) -> (FormatterState, DoView)
    decreases node,
{
    let extra = state.range_indent_increase(token_range(node.do_token));
    let (end_state, block) = formatted_nested_block(state, node.block);
    (
        end_state,
        DoView {
            do_token: own_line(state, state.format_symbol(node.do_token, false, false), extra),
            block,
            end_token: own_line(
                end_state,
                end_state.format_end_token(node.end_token, EndTokenType::BlockEnd),
                extra,
            ),
        },
    )
}

/// The formatted call that stands as a statement.
#[verifier::opaque]
pub open spec fn formatted_call_stmt(state: FormatterState, call: SuffixedView) -> (
    FormatterState,
    SuffixedView,
)
    decreases call,
{
    let extra = tokens_indent_increase(state, prefix_tokens(call.prefix, true));
    let (prefix_state, prefix) = formatted_prefix(state, call.prefix);
    let (end_state, suffixes) = formatted_suffixes(
        prefix_state,
        call.suffixes,
        call.suffixes.len() as int,
    );
    (
        end_state,
        suffixed_last_updated(
            suffixed_first_updated(
                SuffixedView { prefix, suffixes },
                append(seq![state.indent_trivia(extra)]),
            ),
            append(seq![state.newline_trivia()]),
        ),
    )
}

/// The function body that ends a statement: a line break follows its `end`.
pub open spec fn closed_body(state: FormatterState, body: FunctionBodyView) -> FunctionBodyView {
    FunctionBodyView { end_token: closing(state, body.end_token), ..body }
}

/// The formatted tokens of the name of a declared function.
pub open spec fn formatted_name(state: FormatterState, name: Seq<TokenReferenceView>) -> Seq<
    TokenReferenceView,
> {
    Seq::new(name.len(), |i: int| state.format_token_reference(name[i]))
}

/// The formatted function declaration.
#[verifier::opaque]
pub open spec fn formatted_function_declaration(
    state: FormatterState,
    node: FunctionDeclarationView,
) -> (FormatterState, FunctionDeclarationView)
    decreases node,
{
    let extra = state.range_indent_increase(token_range(node.function_token));
    let (end_state, body) = formatted_function_body(state, node.body, extra);
    (
        end_state,
        FunctionDeclarationView {
            function_token: opening(
                state,
                state.format_symbol(node.function_token, false, true),
                extra,
            ),
            name: formatted_name(state, node.name),
            body: closed_body(end_state, body),
        },
    )
}

/// The formatted declaration of a local function.
#[verifier::opaque]
pub open spec fn formatted_local_function(state: FormatterState, node: LocalFunctionView) -> (
    FormatterState,
    LocalFunctionView,
)
    decreases node,
{
    let extra = state.range_indent_increase(token_range(node.local_token));
    let (end_state, body) = formatted_function_body(state, node.body, extra);
    (
        end_state,
        LocalFunctionView {
            local_token: opening(state, state.format_symbol(node.local_token, false, true), extra),
            function_token: state.format_symbol(node.function_token, false, true),
            name: state.format_token_reference(node.name),
            body: closed_body(end_state, body),
        },
    )
}

/// The formatted generic `for`. The comments taken from the names and the
/// values follow behind `do`, so that they stay on the line of the header.
#[verifier::opaque]
pub open spec fn formatted_generic_for(state: FormatterState, node: GenericForView) -> (
    FormatterState,
    GenericForView,
)
    decreases node,
{
    let extra = state.range_indent_increase(token_range(node.for_token));
    let (names_state, names, name_comments) = formatted_punctuated(state, node.names);
    let (exprs_state, exprs, expr_comments) = formatted_punctuated(names_state, node.expr_list);
    let (end_state, block) = formatted_nested_block(exprs_state, node.block);
    (
        end_state,
        GenericForView {
            for_token: opening(state, state.format_symbol(node.for_token, false, true), extra),
            names,
            in_token: names_state.format_symbol(node.in_token, true, true),
            expr_list: exprs,
            do_token: trail(
                exprs_state.format_symbol(node.do_token, true, false),
                append(name_comments + expr_comments + seq![state.newline_trivia()]),
            ),
            block,
            end_token: own_line(
                end_state,
                end_state.format_end_token(node.end_token, EndTokenType::BlockEnd),
                extra,
            ),
        },
    )
}

/// The formatted step of a numeric `for`, if it has one.
#[verifier::opaque]
pub open spec fn formatted_step(state: FormatterState, step: Option<ForStepView>) -> (
    FormatterState,
    Option<ForStepView>,
)
    decreases step,
{
    match step {
        Some(step) => {
            let (end_state, formatted) = formatted_expression(state, step.step);
            (
                end_state,
                Some(
                    ForStepView {
                        comma: state.format_symbol(step.comma, false, true),
                        step: formatted,
                    },
                ),
            )
        },
        None => (state, None),
    }
}

/// The formatted numeric `for`.
#[verifier::opaque]
pub open spec fn formatted_numeric_for(state: FormatterState, node: NumericForView) -> (
    FormatterState,
    NumericForView,
)
    decreases node,
{
    let extra = state.range_indent_increase(token_range(node.for_token));
    let (start_state, start) = formatted_expression(state, node.start);
    let (limit_state, end) = formatted_expression(start_state, node.end);
    let (step_state, step) = formatted_step(limit_state, node.step);
    let (end_state, block) = formatted_nested_block(step_state, node.block);
    (
        end_state,
        NumericForView {
            for_token: opening(state, state.format_symbol(node.for_token, false, true), extra),
            index_variable: state.format_token_reference(node.index_variable),
            equal_token: state.format_symbol(node.equal_token, true, true),
            start,
            start_end_comma: start_state.format_symbol(node.start_end_comma, false, true),
            end,
            step,
            do_token: closing(state, step_state.format_symbol(node.do_token, true, false)),
            block,
            end_token: own_line(
                end_state,
                end_state.format_end_token(node.end_token, EndTokenType::BlockEnd),
                extra,
            ),
        },
    )
}

/// Whether the condition of a statement is laid out over several lines: the
/// header on one line, made of `width` columns of text and `spacing` blanks,
/// is too wide, or a comment stands inside the condition.
pub open spec fn hangs_condition(
    state: FormatterState,
    extra: Option<usize>,
    width: int,
    spacing: int,
    condition: ExpressionView,
) -> bool {
    exceeds_width(state, extra, width, spacing) || has_inline_comments(
        expression_tokens(condition, true),
    )
}

/// The state in which the range of the expression is registered, if the
/// expression has a token.
pub open spec fn with_expression_range(state: FormatterState, e: ExpressionView) -> FormatterState {
    match tokens_range(expression_tokens(e, true)) {
        Some(range) => state.add_indent_range(range),
        None => state,
    }
}

/// The formatted condition of an `if`, an `elseif` or a `while`. On one line
/// it is the formatted expression. Over several lines its range is registered
/// first, and it stands hung, one level deeper than its statement.
#[verifier::opaque]
pub open spec fn formatted_condition(
    state: FormatterState,
    condition: ExpressionView,
    extra: Option<usize>,
    multiline: bool,
) -> (FormatterState, ExpressionView)
    decreases condition, 1nat,
{
    if multiline {
        let (end_state, formatted) = formatted_expression(
            with_expression_range(state, condition),
            condition,
        );
        (
            end_state,
            first_updated(
                hang_expression(end_state, formatted, extra, None),
                append(seq![end_state.indent_trivia(Some(count_of(extra).saturating_add(1)))]),
            ),
        )
    } else {
        formatted_expression(state, condition)
    }
}

/// The keyword in front of a condition: alone on its line where the
/// condition is laid out over several lines, else followed by a space.
pub open spec fn condition_opener(
    state: FormatterState,
    token: TokenReferenceView,
    extra: Option<usize>,
    multiline: bool,
) -> TokenReferenceView {
    if multiline {
        own_line(state, state.format_symbol(token, false, false), extra)
    } else {
        opening(state, state.format_symbol(token, false, true), extra)
    }
}

/// The keyword behind a condition, which ends the line: on a line of its own
/// where the condition is laid out over several lines, else behind a space.
pub open spec fn condition_closer(
    state: FormatterState,
    token: TokenReferenceView,
    extra: Option<usize>,
    multiline: bool,
) -> TokenReferenceView {
    if multiline {
        own_line(state, state.format_symbol(token, false, false), extra)
    } else {
        closing(state, state.format_symbol(token, true, false))
    }
}

/// The tokens of a header: its two keywords and the condition between them.
pub open spec fn header_tokens(
    first: TokenReferenceView,
    condition: ExpressionView,
    last: TokenReferenceView,
) -> Seq<TokenReferenceView> {
    seq![first] + expression_tokens(condition, true) + seq![last]
}

/// The width of a header without trivia: its two keywords and the condition.
pub open spec fn header_width(
    first: TokenReferenceView,
    condition: ExpressionView,
    last: TokenReferenceView,
) -> int {
    stripped(header_tokens(first, condition, last)).len() as int
}

/// The formatted `elseif` branch.
#[verifier::opaque]
pub open spec fn formatted_else_if(state: FormatterState, branch: ElseIfView) -> (
    FormatterState,
    ElseIfView,
)
    decreases branch,
{
    let extra = state.range_indent_increase(token_range(branch.else_if_token));
    let multiline = hangs_condition(
        state,
        extra,
        header_width(branch.else_if_token, branch.condition, branch.then_token),
        2,
        branch.condition,
    );
    let (condition_state, condition) = formatted_condition(
        state,
        branch.condition,
        extra,
        multiline,
    );
    let (end_state, block) = formatted_nested_block(condition_state, branch.block);
    (
        end_state,
        ElseIfView {
            else_if_token: with_trivia(
                state.format_end_token(branch.else_if_token, EndTokenType::BlockEnd),
                append(seq![state.indent_trivia(extra)]),
                append(
                    seq![
                        if multiline {
                            state.newline_trivia()
                        } else {
                            crate::trivia::space()
                        },
                    ],
                ),
            ),
            condition,
            then_token: condition_closer(condition_state, branch.then_token, extra, multiline),
            block,
        },
    )
}

/// The first `count` `elseif` branches, formatted one after another.
#[verifier::opaque]
pub open spec fn formatted_else_ifs(state: FormatterState, branches: Seq<ElseIfView>, count: int)
    -> (FormatterState, Seq<ElseIfView>)
    decreases branches, count,
{
    if count <= 0 || count > branches.len() {
        (state, Seq::empty())
    } else {
        let (before_state, before) = formatted_else_ifs(state, branches, count - 1);
        let (end_state, formatted) = formatted_else_if(before_state, branches[count - 1]);
        (end_state, before.push(formatted))
    }
}

/// The formatted `else` branch, if there is one. `else` stands where `if` stands.
#[verifier::opaque]
pub open spec fn formatted_else(
    state: FormatterState,
    branch: Option<ElseView>,
    extra: Option<usize>,
) -> (FormatterState, Option<ElseView>)
    decreases branch,
{
    match branch {
        Some(branch) => {
            let (end_state, block) = formatted_nested_block(state, branch.block);
            (
                end_state,
                Some(
                    ElseView {
                        else_token: own_line(
                            state,
                            state.format_end_token(branch.else_token, EndTokenType::BlockEnd),
                            extra,
                        ),
                        block,
                    },
                ),
            )
        },
        None => (state, None),
    }
}

/// The formatted `if` statement.
#[verifier::opaque]
pub open spec fn formatted_if(state: FormatterState, node: IfView) -> (FormatterState, IfView)
    decreases node,
{
    let extra = state.range_indent_increase(token_range(node.if_token));
    let multiline = hangs_condition(
        state,
        extra,
        header_width(node.if_token, node.condition, node.then_token),
        2,
        node.condition,
    );
    let (condition_state, condition) = formatted_condition(state, node.condition, extra, multiline);
    let (block_state, block) = formatted_nested_block(condition_state, node.block);
    let (branches_state, else_if) = formatted_else_ifs(
        block_state,
        node.else_if,
        node.else_if.len() as int,
    );
    let (end_state, else_branch) = formatted_else(branches_state, node.else_branch, extra);
    (
        end_state,
        IfView {
            if_token: condition_opener(state, node.if_token, extra, multiline),
            condition,
            then_token: condition_closer(condition_state, node.then_token, extra, multiline),
            block,
            else_if,
            else_branch,
            end_token: own_line(
                end_state,
                end_state.format_end_token(node.end_token, EndTokenType::BlockEnd),
                extra,
            ),
        },
    )
}

/// The formatted `while` loop.
#[verifier::opaque]
pub open spec fn formatted_while(state: FormatterState, node: WhileView) -> (
    FormatterState,
    WhileView,
)
    decreases node,
{
    let extra = state.range_indent_increase(token_range(node.while_token));
    let multiline = hangs_condition(
        state,
        extra,
        header_width(node.while_token, node.condition, node.do_token),
        2,
        node.condition,
    );
    let (condition_state, condition) = formatted_condition(state, node.condition, extra, multiline);
    let (end_state, block) = formatted_nested_block(condition_state, node.block);
    (
        end_state,
        WhileView {
            while_token: condition_opener(state, node.while_token, extra, multiline),
            condition,
            do_token: condition_closer(condition_state, node.do_token, extra, multiline),
            block,
            end_token: own_line(
                end_state,
                end_state.format_end_token(node.end_token, EndTokenType::BlockEnd),
                extra,
            ),
        },
    )
}

/// The formatted `repeat` loop. The condition follows `until` on its line;
/// where it is laid out over several lines, its range is registered and its
/// operators hang below it.
#[verifier::opaque]
pub open spec fn formatted_repeat(state: FormatterState, node: RepeatView) -> (
    FormatterState,
    RepeatView,
)
    decreases node,
{
    let extra = state.range_indent_increase(token_range(node.repeat_token));
    let multiline = hangs_condition(
        state,
        extra,
        stripped(seq![node.until_token] + expression_tokens(node.until, true)).len() as int,
        1,
        node.until,
    );
    let (block_state, block) = formatted_nested_block(state, node.block);
    let (condition_state, condition) = formatted_expression(block_state, node.until);
    let end_state = if multiline {
        with_expression_range(condition_state, node.until)
    } else {
        condition_state
    };
    (
        end_state,
        RepeatView {
            repeat_token: own_line(
                state,
                state.format_symbol(node.repeat_token, false, false),
                extra,
            ),
            block,
            until_token: opening(
                block_state,
                block_state.format_symbol(node.until_token, false, true),
                extra,
            ),
            until: if multiline {
                hang_expression(end_state, condition, extra, None)
            } else {
                last_updated(condition, append(seq![state.newline_trivia()]))
            },
        },
    )
}

} // verus!
