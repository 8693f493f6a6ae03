//! Lists and expressions that are tidy stay tidy where they are edited at
//! their ends or laid out over several lines.

use vstd::prelude::*;
use crate::config::Config;
use crate::edges::{
    first_updated, pair_last_updated, punctuated_first_updated, punctuated_last_updated, trail,
};
use crate::flatten::{
    expression_tokens, field_pairs_tokens, field_tokens, fields_tokens, function_args_tokens,
    optional_token, pairs_tokens, prefix_tokens, punctuated_tokens, suffix_tokens, suffixed_tokens,
    suffixes_tokens, table_tokens,
};
use crate::formatter::{count_of, FormatterState};
use crate::hang::{
    added_separator, hang_chain_layout, hang_depth, hang_expression, hang_layout, hung_args,
    hung_arguments, hung_call, hung_closer, hung_field, hung_field_pair, hung_fields, hung_opener,
    hung_operator, hung_pair, hung_suffix, hung_table, line_separator, operator_level, outer_level,
    DEFAULT_HANG_LEVEL,
};
use crate::layout::{hung_pairs, laid_out_values, line_end};
use crate::list_laws::{
    lemma_field_pairs_tokens_push, lemma_fields_tokens, lemma_pairs_tokens_push,
    lemma_punctuated_tokens, lemma_suffixes_tokens_push,
};
use crate::sequences::lemma_push_last;
use crate::tidy::{
    edit_list, lemma_edited_token_tidy, lemma_formatted_token_tidy, lemma_hung_brackets_tidy,
    lemma_made_whitespace, lemma_tokens_add, lemma_tokens_one, token_tidy, tokens_tidy, trivia_tidy,
};
use crate::tidy_edges::{lemma_first_updated_tidy, lemma_last_updated_tidy};
use crate::token::TokenReferenceView;
use crate::trivia::FormatTriviaTypeView;
use crate::view::{
    ExpressionView, FieldPairView, FieldView, FunctionArgsView, PairView, PunctuatedView,
    SuffixedView, SuffixView, TableConstructorView,
};

verus! {

/// Whether the value of the element and its separator are tidy.
pub open spec fn pair_tidy(config: Config, pair: PairView) -> bool {
    tokens_tidy(config, expression_tokens(pair.value, true)) && tokens_tidy(
        config,
        optional_token(pair.separator),
    )
}

/// Whether the field and its separator are tidy.
pub open spec fn field_pair_tidy(config: Config, pair: FieldPairView) -> bool {
    tokens_tidy(config, field_tokens(pair.field, true)) && tokens_tidy(
        config,
        optional_token(pair.separator),
    )
}

/// The elements of a list are tidy where each of them is.
pub proof fn lemma_pairs_tidy(config: Config, pairs: Seq<PairView>)
    ensures
        tokens_tidy(config, pairs_tokens(pairs, true)) <==> forall|i: int|
            0 <= i < pairs.len() ==> pair_tidy(config, #[trigger] pairs[i]),
    decreases pairs.len(),
{
    if pairs.len() == 0 {
        assert(pairs =~= Seq::<PairView>::empty());
        lemma_pairs_tokens_push(Seq::empty(), arbitrary(), true);
    } else {
        let front = pairs.drop_last();
        let last = pairs.last();
        assert(front.push(last) =~= pairs);
        lemma_pairs_tidy(config, front);
        lemma_pairs_tokens_push(front, last, true);
        lemma_tokens_add(config, pairs_tokens(front, true), expression_tokens(last.value, true));
        lemma_tokens_add(
            config,
            pairs_tokens(front, true) + expression_tokens(last.value, true),
            optional_token(last.separator),
        );
        if tokens_tidy(config, pairs_tokens(pairs, true)) {
            assert forall|i: int| 0 <= i < pairs.len() implies pair_tidy(
                config,
                #[trigger] pairs[i],
            ) by {
                if i < front.len() {
                    assert(front[i] == pairs[i]);
                }
            }
        }
        if forall|i: int| 0 <= i < pairs.len() ==> pair_tidy(config, #[trigger] pairs[i]) {
            assert forall|i: int| 0 <= i < front.len() implies pair_tidy(
                config,
                #[trigger] front[i],
            ) by {
                assert(front[i] == pairs[i]);
            }
            assert(pair_tidy(config, pairs[pairs.len() - 1]));
        }
    }
}

/// The fields of a table are tidy where each of them is.
pub proof fn lemma_field_pairs_tidy(config: Config, fields: Seq<FieldPairView>)
    ensures
        tokens_tidy(config, field_pairs_tokens(fields, true)) <==> forall|i: int|
            0 <= i < fields.len() ==> field_pair_tidy(config, #[trigger] fields[i]),
    decreases fields.len(),
{
    if fields.len() == 0 {
        assert(fields =~= Seq::<FieldPairView>::empty());
        lemma_field_pairs_tokens_push(Seq::empty(), arbitrary(), true);
    } else {
        let front = fields.drop_last();
        let last = fields.last();
        assert(front.push(last) =~= fields);
        lemma_field_pairs_tidy(config, front);
        lemma_field_pairs_tokens_push(front, last, true);
        lemma_tokens_add(config, field_pairs_tokens(front, true), field_tokens(last.field, true));
        lemma_tokens_add(
            config,
            field_pairs_tokens(front, true) + field_tokens(last.field, true),
            optional_token(last.separator),
        );
        if tokens_tidy(config, field_pairs_tokens(fields, true)) {
            assert forall|i: int| 0 <= i < fields.len() implies field_pair_tidy(
                config,
                #[trigger] fields[i],
            ) by {
                if i < front.len() {
                    assert(front[i] == fields[i]);
                }
            }
        }
        if forall|i: int| 0 <= i < fields.len() ==> field_pair_tidy(config, #[trigger] fields[i]) {
            assert forall|i: int| 0 <= i < front.len() implies field_pair_tidy(
                config,
                #[trigger] front[i],
            ) by {
                assert(front[i] == fields[i]);
            }
            assert(field_pair_tidy(config, fields[fields.len() - 1]));
        }
    }
}

/// A token that may be absent is tidy where it is absent or tidy.
pub proof fn lemma_optional_tidy(config: Config, token: Option<TokenReferenceView>)
    ensures
        tokens_tidy(config, optional_token(token)) <==> (token matches Some(t) ==> token_tidy(
            config,
            t,
        )),
{
    match token {
        Some(t) => lemma_tokens_one(config, t),
        None => {},
    }
}

/// A tidy list whose first token gets tidy trivia in front of it is tidy.
pub proof fn lemma_punctuated_first_updated_tidy(
    config: Config,
    list: PunctuatedView,
    edit: FormatTriviaTypeView,
)
    requires
        tokens_tidy(config, punctuated_tokens(list, true)),
        trivia_tidy(config, edit_list(edit)),
    ensures
        tokens_tidy(config, punctuated_tokens(punctuated_first_updated(list, edit), true)),
{
    let after = punctuated_first_updated(list, edit);
    lemma_punctuated_tokens(list.pairs);
    lemma_punctuated_tokens(after.pairs);
    lemma_pairs_tidy(config, list.pairs);
    lemma_pairs_tidy(config, after.pairs);
    if list.pairs.len() > 0 {
        assert(pair_tidy(config, list.pairs[0]));
        lemma_first_updated_tidy(config, list.pairs[0].value, edit);
        assert forall|i: int| 0 <= i < after.pairs.len() implies pair_tidy(
            config,
            #[trigger] after.pairs[i],
        ) by {
            if i > 0 {
                assert(pair_tidy(config, list.pairs[i]));
            }
        }
    }
}

/// A tidy list whose last token gets tidy trivia behind it is tidy.
pub proof fn lemma_punctuated_last_updated_tidy(
    config: Config,
    list: PunctuatedView,
    edit: FormatTriviaTypeView,
)
    requires
        tokens_tidy(config, punctuated_tokens(list, true)),
        trivia_tidy(config, edit_list(edit)),
    ensures
        tokens_tidy(config, punctuated_tokens(punctuated_last_updated(list, edit), true)),
{
    let after = punctuated_last_updated(list, edit);
    lemma_punctuated_tokens(list.pairs);
    lemma_punctuated_tokens(after.pairs);
    lemma_pairs_tidy(config, list.pairs);
    lemma_pairs_tidy(config, after.pairs);
    if list.pairs.len() > 0 {
        let last = list.pairs.last();
        assert(pair_tidy(config, list.pairs[list.pairs.len() - 1]));
        lemma_optional_tidy(config, last.separator);
        match last.separator {
            Some(separator) => {
                lemma_edited_token_tidy(config, separator, FormatTriviaTypeView::NoChange, edit);
                lemma_optional_tidy(config, Some(trail(separator, edit)));
                lemma_made_whitespace(config, FormatterState::initial(config, None), None);
            },
            None => {
                lemma_last_updated_tidy(config, last.value, edit);
            },
        }
        lemma_push_last(list.pairs.drop_last(), pair_last_updated(last, edit));
        assert forall|i: int| 0 <= i < after.pairs.len() implies pair_tidy(
            config,
            #[trigger] after.pairs[i],
        ) by {
            if i < after.pairs.len() - 1 {
                assert(after.pairs[i] == list.pairs[i]);
                assert(pair_tidy(config, list.pairs[i]));
            }
        }
    }
}

/// A tidy list at the end of a line, together with the tidy token in front
/// of it, is tidy where the trivia that end the line are.
pub proof fn lemma_line_end_tidy(
    config: Config,
    fallback: TokenReferenceView,
    list: PunctuatedView,
    edit: FormatTriviaTypeView,
)
    requires
        token_tidy(config, fallback),
        tokens_tidy(config, punctuated_tokens(list, true)),
        trivia_tidy(config, edit_list(edit)),
    ensures
        token_tidy(config, line_end(fallback, list, edit).0),
        tokens_tidy(config, punctuated_tokens(line_end(fallback, list, edit).1, true)),
{
    if list.pairs.len() == 0 {
        lemma_made_whitespace(config, FormatterState::initial(config, None), None);
        lemma_edited_token_tidy(config, fallback, FormatTriviaTypeView::NoChange, edit);
    } else {
        lemma_punctuated_last_updated_tidy(config, list, edit);
    }
}

/// The operators of a tidy chain that is hung are tidy.
#[verifier::spinoff_prover]
pub proof fn lemma_hang_chain_tidy(
    config: Config,
    state: FormatterState,
    e: ExpressionView,
    level: usize,
)
    requires
        state.config == config,
        tokens_tidy(config, expression_tokens(e, true)),
    ensures
        tokens_tidy(config, expression_tokens(hang_chain_layout(state, e, level), true)),
    decreases e,
{
    reveal(expression_tokens);
    match e {
        ExpressionView::BinaryOperator { lhs, operator, rhs } => {
            lemma_tokens_add(config, expression_tokens(*lhs, true), seq![operator]);
            lemma_tokens_add(
                config,
                expression_tokens(*lhs, true) + seq![operator],
                expression_tokens(*rhs, true),
            );
            lemma_hang_chain_tidy(config, state, *lhs, level);
            lemma_formatted_token_tidy(config, state, operator);
            lemma_tokens_one(config, hung_operator(state, operator, level));
            let hung = expression_tokens(hang_chain_layout(state, *lhs, level), true);
            lemma_tokens_add(config, hung, seq![hung_operator(state, operator, level)]);
            lemma_tokens_add(
                config,
                hung + seq![hung_operator(state, operator, level)],
                expression_tokens(*rhs, true),
            );
        },
        _ => {},
    }
}

/// A tidy argument on a line of its own is tidy.
pub proof fn lemma_hung_pair_tidy(
    config: Config,
    state: FormatterState,
    pair: PairView,
    inner: usize,
)
    requires
        state.config == config,
        pair_tidy(config, pair),
    ensures
        pair_tidy(config, hung_pair(state, pair, inner)),
{
    let indent = FormatTriviaTypeView::Append(seq![state.indent_trivia(Some(inner))]);
    let newline = FormatTriviaTypeView::Append(seq![state.newline_trivia()]);
    lemma_made_whitespace(config, state, Some(inner));
    lemma_first_updated_tidy(config, pair.value, indent);
    lemma_optional_tidy(config, pair.separator);
    match pair.separator {
        Some(separator) => {
            lemma_hung_brackets_tidy(config, state, separator, inner, inner);
            lemma_optional_tidy(config, Some(line_separator(state, separator)));
        },
        None => {
            lemma_last_updated_tidy(config, first_updated(pair.value, indent), newline);
        },
    }
}

/// A tidy field with its first token indented is tidy.
#[verifier::spinoff_prover]
pub proof fn lemma_hung_field_tidy(
    config: Config,
    state: FormatterState,
    field: FieldView,
    inner: usize,
)
    requires
        state.config == config,
        tokens_tidy(config, field_tokens(field, true)),
    ensures
        tokens_tidy(config, field_tokens(hung_field(state, field, inner), true)),
{
    reveal(field_tokens);
    let edit = FormatTriviaTypeView::Append(seq![state.indent_trivia(Some(inner))]);
    let no = FormatTriviaTypeView::NoChange;
    lemma_made_whitespace(config, state, Some(inner));
    match field {
        FieldView::ExpressionKey { open, key, close, equal, value } => {
            let rest = expression_tokens(key, true) + seq![close] + seq![equal]
                + expression_tokens(value, true);
            lemma_tokens_one(config, open);
            lemma_tokens_one(config, crate::edges::lead(open, edit));
            lemma_tokens_add(config, seq![open], expression_tokens(key, true));
            lemma_tokens_add(config, seq![open] + expression_tokens(key, true), seq![close]);
            lemma_tokens_add(
                config,
                seq![open] + expression_tokens(key, true) + seq![close],
                seq![equal],
            );
            lemma_tokens_add(
                config,
                seq![open] + expression_tokens(key, true) + seq![close] + seq![equal],
                expression_tokens(value, true),
            );
            lemma_edited_token_tidy(config, open, edit, no);
            let first = seq![crate::edges::lead(open, edit)];
            lemma_tokens_add(config, first, expression_tokens(key, true));
            lemma_tokens_add(config, first + expression_tokens(key, true), seq![close]);
            lemma_tokens_add(
                config,
                first + expression_tokens(key, true) + seq![close],
                seq![equal],
            );
            lemma_tokens_add(
                config,
                first + expression_tokens(key, true) + seq![close] + seq![equal],
                expression_tokens(value, true),
            );
        },
        FieldView::NameKey { name, equal, value } => {
            lemma_tokens_one(config, name);
            lemma_tokens_one(config, crate::edges::lead(name, edit));
            lemma_tokens_add(config, seq![name], seq![equal]);
            lemma_tokens_add(config, seq![name] + seq![equal], expression_tokens(value, true));
            lemma_edited_token_tidy(config, name, edit, no);
            let first = seq![crate::edges::lead(name, edit)];
            lemma_tokens_add(config, first, seq![equal]);
            lemma_tokens_add(config, first + seq![equal], expression_tokens(value, true));
        },
        FieldView::NoKey(value) => {
            lemma_first_updated_tidy(config, value, edit);
        },
    }
}

/// A tidy field on a line of its own is tidy.
pub proof fn lemma_hung_field_pair_tidy(
    config: Config,
    state: FormatterState,
    pair: FieldPairView,
    inner: usize,
    last: bool,
)
    requires
        state.config == config,
        field_pair_tidy(config, pair),
    ensures
        field_pair_tidy(config, hung_field_pair(state, pair, inner, last)),
{
    lemma_hung_field_tidy(config, state, pair.field, inner);
    lemma_optional_tidy(config, pair.separator);
    lemma_optional_tidy(config, hung_field_pair(state, pair, inner, last).separator);
    match pair.separator {
        Some(separator) => {
            lemma_hung_brackets_tidy(config, state, separator, inner, inner);
        },
        None => {
            lemma_formatted_token_tidy(config, state, added_separator(state));
        },
    }
}

/// A tidy table laid out over several lines is tidy.
#[verifier::spinoff_prover]
pub proof fn lemma_hung_table_tidy(
    config: Config,
    state: FormatterState,
    table: TableConstructorView,
    level: usize,
)
    requires
        state.config == config,
        tokens_tidy(config, table_tokens(table, true)),
    ensures
        tokens_tidy(config, table_tokens(hung_table(state, table, level), true)),
{
    reveal(table_tokens);
    if table.fields.len() > 0 {
        let inner = operator_level(state, table.open, level);
        let after = hung_fields(state, table.fields, inner);
        lemma_fields_tokens(table.fields);
        lemma_fields_tokens(after);
        lemma_tokens_one(config, table.open);
        lemma_tokens_one(config, table.close);
        lemma_tokens_add(config, seq![table.open], fields_tokens(table.fields, true));
        lemma_tokens_add(
            config,
            seq![table.open] + fields_tokens(table.fields, true),
            seq![table.close],
        );
        lemma_hung_brackets_tidy(config, state, table.open, inner, outer_level(inner));
        lemma_hung_brackets_tidy(config, state, table.close, inner, outer_level(inner));
        lemma_field_pairs_tidy(config, table.fields);
        lemma_field_pairs_tidy(config, after);
        assert forall|i: int| 0 <= i < after.len() implies field_pair_tidy(
            config,
            #[trigger] after[i],
        ) by {
            assert(field_pair_tidy(config, table.fields[i]));
            lemma_hung_field_pair_tidy(
                config,
                state,
                table.fields[i],
                inner,
                i + 1 == table.fields.len(),
            );
        }
        let open = hung_opener(state, table.open);
        let close = hung_closer(state, table.close, inner, outer_level(inner));
        lemma_tokens_one(config, open);
        lemma_tokens_one(config, close);
        lemma_tokens_add(config, seq![open], fields_tokens(after, true));
        lemma_tokens_add(config, seq![open] + fields_tokens(after, true), seq![close]);
    }
}

/// Tidy arguments laid out over several lines are tidy.
#[verifier::spinoff_prover]
pub proof fn lemma_hung_args_tidy(
    config: Config,
    state: FormatterState,
    args: FunctionArgsView,
    level: usize,
)
    requires
        state.config == config,
        tokens_tidy(config, function_args_tokens(args, true)),
    ensures
        tokens_tidy(config, function_args_tokens(hung_args(state, args, level), true)),
{
    reveal(function_args_tokens);
    match args {
        FunctionArgsView::Parentheses { open, arguments, close } => {
            if arguments.pairs.len() > 0 {
                let inner = operator_level(state, open, level);
                let after = hung_arguments(state, arguments.pairs, inner);
                lemma_punctuated_tokens(arguments.pairs);
                lemma_punctuated_tokens(after);
                lemma_tokens_one(config, open);
                lemma_tokens_one(config, close);
                lemma_tokens_add(config, seq![open], punctuated_tokens(arguments, true));
                lemma_tokens_add(
                    config,
                    seq![open] + punctuated_tokens(arguments, true),
                    seq![close],
                );
                lemma_hung_brackets_tidy(config, state, open, inner, outer_level(inner));
                lemma_hung_brackets_tidy(config, state, close, inner, outer_level(inner));
                lemma_pairs_tidy(config, arguments.pairs);
                lemma_pairs_tidy(config, after);
                assert forall|i: int| 0 <= i < after.len() implies pair_tidy(
                    config,
                    #[trigger] after[i],
                ) by {
                    assert(pair_tidy(config, arguments.pairs[i]));
                    lemma_hung_pair_tidy(config, state, arguments.pairs[i], inner);
                }
                let hung_open = hung_opener(state, open);
                let hung_close = hung_closer(state, close, inner, outer_level(inner));
                let list = PunctuatedView { pairs: after };
                lemma_tokens_one(config, hung_open);
                lemma_tokens_one(config, hung_close);
                lemma_tokens_add(config, seq![hung_open], punctuated_tokens(list, true));
                lemma_tokens_add(
                    config,
                    seq![hung_open] + punctuated_tokens(list, true),
                    seq![hung_close],
                );
            }
        },
        FunctionArgsView::String(_) => {},
        FunctionArgsView::TableConstructor(table) => {
            lemma_hung_table_tidy(config, state, table, level);
        },
    }
}

/// A tidy suffix whose arguments are laid out over several lines is tidy.
#[verifier::spinoff_prover]
pub proof fn lemma_hung_suffix_tidy(
    config: Config,
    state: FormatterState,
    suffix: SuffixView,
    level: usize,
)
    requires
        state.config == config,
        tokens_tidy(config, suffix_tokens(suffix, true)),
    ensures
        tokens_tidy(config, suffix_tokens(hung_suffix(state, suffix, level), true)),
{
    reveal(suffix_tokens);
    match suffix {
        SuffixView::Call(args) => {
            lemma_hung_args_tidy(config, state, args, level);
        },
        SuffixView::MethodCall { colon, name, args } => {
            lemma_tokens_add(config, seq![colon], seq![name]);
            lemma_tokens_add(config, seq![colon] + seq![name], function_args_tokens(args, true));
            lemma_hung_args_tidy(config, state, args, level);
            lemma_tokens_add(
                config,
                seq![colon] + seq![name],
                function_args_tokens(hung_args(state, args, level), true),
            );
        },
        _ => {},
    }
}

/// A tidy call whose arguments are laid out over several lines is tidy.
pub proof fn lemma_hung_call_tidy(
    config: Config,
    state: FormatterState,
    call: SuffixedView,
    level: usize,
)
    requires
        state.config == config,
        tokens_tidy(config, suffixed_tokens(call, true)),
    ensures
        tokens_tidy(config, suffixed_tokens(hung_call(state, call, level), true)),
{
    if call.suffixes.len() > 0 {
        let front = call.suffixes.drop_last();
        let last = call.suffixes.last();
        let hung = hung_suffix(state, last, level);
        assert(front.push(last) =~= call.suffixes);
        lemma_suffixes_tokens_push(front, last, true);
        lemma_suffixes_tokens_push(front, hung, true);
        lemma_tokens_add(
            config,
            prefix_tokens(call.prefix, true),
            suffixes_tokens(call.suffixes, true),
        );
        lemma_tokens_add(config, suffixes_tokens(front, true), suffix_tokens(last, true));
        lemma_hung_suffix_tidy(config, state, last, level);
        lemma_tokens_add(config, suffixes_tokens(front, true), suffix_tokens(hung, true));
        lemma_tokens_add(
            config,
            prefix_tokens(call.prefix, true),
            suffixes_tokens(front.push(hung), true),
        );
    }
}

/// A tidy expression in its hanging layout is tidy.
#[verifier::spinoff_prover]
pub proof fn lemma_hang_layout_tidy(
    config: Config,
    state: FormatterState,
    e: ExpressionView,
    level: usize,
)
    requires
        state.config == config,
        tokens_tidy(config, expression_tokens(e, true)),
    ensures
        tokens_tidy(config, expression_tokens(hang_layout(state, e, level), true)),
{
    reveal(expression_tokens);
    match e {
        ExpressionView::BinaryOperator { lhs, operator, rhs } => {
            lemma_tokens_add(config, expression_tokens(*lhs, true), seq![operator]);
            lemma_tokens_add(
                config,
                expression_tokens(*lhs, true) + seq![operator],
                expression_tokens(*rhs, true),
            );
            lemma_hang_chain_tidy(config, state, *lhs, level);
            lemma_formatted_token_tidy(config, state, operator);
            lemma_tokens_one(config, hung_operator(state, operator, level));
            let hung = expression_tokens(hang_chain_layout(state, *lhs, level), true);
            lemma_tokens_add(config, hung, seq![hung_operator(state, operator, level)]);
            lemma_tokens_add(
                config,
                hung + seq![hung_operator(state, operator, level)],
                expression_tokens(*rhs, true),
            );
        },
        ExpressionView::FunctionCall(call) => {
            lemma_hung_call_tidy(config, state, call, level);
        },
        ExpressionView::TableConstructor(table) => {
            lemma_hung_table_tidy(config, state, table, level);
        },
        _ => {},
    }
}

/// A tidy expression that is hung is tidy.
pub proof fn lemma_hang_expression_tidy(
    config: Config,
    state: FormatterState,
    e: ExpressionView,
    additional_indent_level: Option<usize>,
    hang_level: Option<usize>,
)
    requires
        state.config == config,
        tokens_tidy(config, expression_tokens(e, true)),
    ensures
        tokens_tidy(
            config,
            expression_tokens(
                hang_expression(state, e, additional_indent_level, hang_level),
                true,
            ),
        ),
{
    let level = hang_depth(additional_indent_level, hang_level);
    lemma_made_whitespace(config, state, None);
    lemma_hang_layout_tidy(config, state, e, level);
    lemma_last_updated_tidy(
        config,
        hang_layout(state, e, level),
        FormatTriviaTypeView::Append(seq![state.newline_trivia()]),
    );
}

/// The tidy values of an assignment, laid out on one line or hung, are tidy.
pub proof fn lemma_laid_out_values_tidy(
    config: Config,
    state: FormatterState,
    list: PunctuatedView,
    extra: Option<usize>,
    hang: bool,
)
    requires
        state.config == config,
        tokens_tidy(config, punctuated_tokens(list, true)),
    ensures
        tokens_tidy(config, punctuated_tokens(laid_out_values(state, list, extra, hang), true)),
{
    if hang {
        let level = count_of(extra).saturating_add(DEFAULT_HANG_LEVEL);
        let after = hung_pairs(state, list.pairs, extra);
        lemma_punctuated_tokens(list.pairs);
        lemma_punctuated_tokens(after);
        lemma_pairs_tidy(config, list.pairs);
        lemma_pairs_tidy(config, after);
        assert forall|i: int| 0 <= i < after.len() implies pair_tidy(config, #[trigger] after[i]) by {
            assert(pair_tidy(config, list.pairs[i]));
            lemma_hang_layout_tidy(config, state, list.pairs[i].value, level);
        }
    }
}

} // verus!
