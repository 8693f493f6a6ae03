//! The hanging layout keeps the tokens of an expression and its comments.

use vstd::multiset::Multiset;
use vstd::prelude::*;
use crate::config::Config;
use crate::edge_laws::{lemma_first_updated, lemma_last_updated, suffixed_piece};
use crate::edges::{first_updated, lead};
use crate::flatten::{
    expression_tokens, field_tokens, function_args_tokens, optional_token, prefix_tokens,
    punctuated_tokens, suffix_tokens, suffixes_tokens, table_tokens,
};
use crate::formatter::FormatterState;
use crate::hang::{
    added_separator, hang_chain_layout, hang_depth, hang_expression, hang_layout, hung_args,
    hung_arguments, hung_call, hung_closer, hung_field, hung_field_pair, hung_fields, hung_opener,
    hung_operator, hung_pair, hung_suffix, hung_table, line_separator, operator_level, outer_level,
    DEFAULT_HANG_LEVEL,
};
use crate::laws::{
    kept, lemma_added_piece, lemma_and_then_to, lemma_comments_one, lemma_followed_by,
    lemma_nothing, lemma_same, lemma_same_token, lemma_token_piece, Piece,
};
use crate::layout::{hung_pairs, laid_out_values};
use crate::list_laws::{
    lemma_field_pairs_tokens_push, lemma_fields_tokens, lemma_pairs_tokens_push,
    lemma_punctuated_tokens, lemma_suffixes_tokens_push,
};
use crate::pieces::{
    expression_piece, field_pairs_piece, field_piece, fields_piece, function_args_piece,
    lemma_conclude, lemma_lead_piece, pairs_piece, punctuated_piece, suffix_piece, table_piece,
};
use crate::sequences::lemma_add_empty;
use crate::token_laws::{lemma_hung_brackets, lemma_hung_operator, lemma_kept_whitespace};
use crate::trivia::FormatTriviaTypeView;
use crate::view::{
    ExpressionView, FieldPairView, FieldView, FunctionArgsView, PairView, PunctuatedView,
    SuffixedView, SuffixView, TableConstructorView,
};

verus! {

/// The piece of an element of a list with its separator.
pub open spec fn pair_piece(before: PairView, after: PairView) -> Piece {
    Piece {
        before_all: expression_tokens(before.value, true) + optional_token(before.separator),
        before_kept: expression_tokens(before.value, false) + optional_token(before.separator),
        after_all: expression_tokens(after.value, true) + optional_token(after.separator),
        after_kept: expression_tokens(after.value, false) + optional_token(after.separator),
        taken: Multiset::empty(),
        given: Multiset::empty(),
    }
}

/// The piece of the last element of a list, whose separator does not count
/// among the tokens that are kept.
pub open spec fn last_pair_piece(before: PairView, after: PairView) -> Piece {
    Piece {
        before_all: expression_tokens(before.value, true) + optional_token(before.separator),
        before_kept: expression_tokens(before.value, false),
        after_all: expression_tokens(after.value, true) + optional_token(after.separator),
        after_kept: expression_tokens(after.value, false),
        taken: Multiset::empty(),
        given: Multiset::empty(),
    }
}

/// The piece of a field of a table with its separator.
pub open spec fn field_pair_piece(before: FieldPairView, after: FieldPairView) -> Piece {
    Piece {
        before_all: field_tokens(before.field, true) + optional_token(before.separator),
        before_kept: field_tokens(before.field, false) + optional_token(before.separator),
        after_all: field_tokens(after.field, true) + optional_token(after.separator),
        after_kept: field_tokens(after.field, false) + optional_token(after.separator),
        taken: Multiset::empty(),
        given: Multiset::empty(),
    }
}

/// The piece of the last field of a table, whose separator does not count
/// among the tokens that are kept.
pub open spec fn last_field_pair_piece(before: FieldPairView, after: FieldPairView) -> Piece {
    Piece {
        before_all: field_tokens(before.field, true) + optional_token(before.separator),
        before_kept: field_tokens(before.field, false),
        after_all: field_tokens(after.field, true) + optional_token(after.separator),
        after_kept: field_tokens(after.field, false),
        taken: Multiset::empty(),
        given: Multiset::empty(),
    }
}

/// Lists whose elements make sound pieces one by one make a sound piece.
pub proof fn lemma_pairs_pointwise(config: Config, before: Seq<PairView>, after: Seq<PairView>)
    requires
        before.len() == after.len(),
        forall|i: int| 0 <= i < before.len() ==> pair_piece(before[i], after[i]).sound(config),
    ensures
        pairs_piece(before, after, Multiset::empty(), Multiset::empty()).sound(config),
    decreases before.len(),
{
    let target = pairs_piece(before, after, Multiset::empty(), Multiset::empty());
    if before.len() == 0 {
        assert(before =~= Seq::<PairView>::empty());
        assert(after =~= Seq::<PairView>::empty());
        lemma_pairs_tokens_push(Seq::empty(), arbitrary(), true);
        lemma_pairs_tokens_push(Seq::empty(), arbitrary(), false);
        lemma_nothing(config, Piece::nothing());
        lemma_conclude(config, Piece::nothing(), target);
    } else {
        lemma_pairs_pointwise(config, before.drop_last(), after.drop_last());
        assert(before.drop_last().push(before.last()) =~= before);
        assert(after.drop_last().push(after.last()) =~= after);
        lemma_pairs_tokens_push(before.drop_last(), before.last(), true);
        lemma_pairs_tokens_push(before.drop_last(), before.last(), false);
        lemma_pairs_tokens_push(after.drop_last(), after.last(), true);
        lemma_pairs_tokens_push(after.drop_last(), after.last(), false);
        let part0 = pairs_piece(
            before.drop_last(),
            after.drop_last(),
            Multiset::empty(),
            Multiset::empty(),
        );
        let part1 = pair_piece(before.last(), after.last());
        lemma_followed_by(config, part0, part1);
        let whole = part0.followed_by(part1);
        crate::sequences::lemma_add_assoc(
            part0.before_all,
            expression_tokens(before.last().value, true),
            optional_token(before.last().separator),
        );
        crate::sequences::lemma_add_assoc(
            part0.before_kept,
            expression_tokens(before.last().value, false),
            optional_token(before.last().separator),
        );
        crate::sequences::lemma_add_assoc(
            part0.after_all,
            expression_tokens(after.last().value, true),
            optional_token(after.last().separator),
        );
        crate::sequences::lemma_add_assoc(
            part0.after_kept,
            expression_tokens(after.last().value, false),
            optional_token(after.last().separator),
        );
        assert(whole.taken.add(Multiset::empty()) =~= whole.given.add(Multiset::empty()));
        lemma_conclude(config, whole, target);
    }
}

/// Lists whose elements make sound pieces one by one make a sound piece,
/// also without the separator behind the last element.
pub proof fn lemma_punctuated_pointwise(config: Config, before: Seq<PairView>, after: Seq<PairView>)
    requires
        before.len() == after.len(),
        forall|i: int| 0 <= i < before.len() ==> pair_piece(before[i], after[i]).sound(config),
        before.len() > 0 ==> last_pair_piece(before.last(), after.last()).sound(config),
    ensures
        punctuated_piece(
            PunctuatedView { pairs: before },
            PunctuatedView { pairs: after },
            Multiset::empty(),
            Multiset::empty(),
        ).sound(config),
{
    let target = punctuated_piece(
        PunctuatedView { pairs: before },
        PunctuatedView { pairs: after },
        Multiset::empty(),
        Multiset::empty(),
    );
    lemma_punctuated_tokens(before);
    lemma_punctuated_tokens(after);
    lemma_pairs_pointwise(config, before, after);
    let all = pairs_piece(before, after, Multiset::empty(), Multiset::empty());
    if before.len() == 0 {
        lemma_nothing(config, Piece::nothing());
        let whole = Piece {
            before_kept: Seq::empty(),
            after_kept: Seq::empty(),
            ..all
        };
        assert(whole.sound(config));
        lemma_conclude(config, whole, target);
    } else {
        lemma_pairs_pointwise(config, before.drop_last(), after.drop_last());
        let part0 = pairs_piece(
            before.drop_last(),
            after.drop_last(),
            Multiset::empty(),
            Multiset::empty(),
        );
        let part1 = last_pair_piece(before.last(), after.last());
        lemma_followed_by(config, part0, part1);
        let kept_side = part0.followed_by(part1);
        let whole = Piece {
            before_kept: kept_side.before_kept,
            after_kept: kept_side.after_kept,
            ..all
        };
        assert(whole.sound(config));
        lemma_conclude(config, whole, target);
    }
}

/// Tables whose fields make sound pieces one by one make a sound piece.
pub proof fn lemma_field_pairs_pointwise(
    config: Config,
    before: Seq<FieldPairView>,
    after: Seq<FieldPairView>,
)
    requires
        before.len() == after.len(),
        forall|i: int| 0 <= i < before.len() ==> field_pair_piece(before[i], after[i]).sound(config),
    ensures
        field_pairs_piece(before, after, Multiset::empty(), Multiset::empty()).sound(config),
    decreases before.len(),
{
    let target = field_pairs_piece(before, after, Multiset::empty(), Multiset::empty());
    if before.len() == 0 {
        assert(before =~= Seq::<FieldPairView>::empty());
        assert(after =~= Seq::<FieldPairView>::empty());
        lemma_field_pairs_tokens_push(Seq::empty(), arbitrary(), true);
        lemma_field_pairs_tokens_push(Seq::empty(), arbitrary(), false);
        lemma_nothing(config, Piece::nothing());
        lemma_conclude(config, Piece::nothing(), target);
    } else {
        lemma_field_pairs_pointwise(config, before.drop_last(), after.drop_last());
        assert(before.drop_last().push(before.last()) =~= before);
        assert(after.drop_last().push(after.last()) =~= after);
        lemma_field_pairs_tokens_push(before.drop_last(), before.last(), true);
        lemma_field_pairs_tokens_push(before.drop_last(), before.last(), false);
        lemma_field_pairs_tokens_push(after.drop_last(), after.last(), true);
        lemma_field_pairs_tokens_push(after.drop_last(), after.last(), false);
        let part0 = field_pairs_piece(
            before.drop_last(),
            after.drop_last(),
            Multiset::empty(),
            Multiset::empty(),
        );
        let part1 = field_pair_piece(before.last(), after.last());
        lemma_followed_by(config, part0, part1);
        let whole = part0.followed_by(part1);
        crate::sequences::lemma_add_assoc(
            part0.before_all,
            field_tokens(before.last().field, true),
            optional_token(before.last().separator),
        );
        crate::sequences::lemma_add_assoc(
            part0.before_kept,
            field_tokens(before.last().field, false),
            optional_token(before.last().separator),
        );
        crate::sequences::lemma_add_assoc(
            part0.after_all,
            field_tokens(after.last().field, true),
            optional_token(after.last().separator),
        );
        crate::sequences::lemma_add_assoc(
            part0.after_kept,
            field_tokens(after.last().field, false),
            optional_token(after.last().separator),
        );
        assert(whole.taken.add(Multiset::empty()) =~= whole.given.add(Multiset::empty()));
        lemma_conclude(config, whole, target);
    }
}

/// The operators of a hung chain are the operators of the chain, with their comments.
#[verifier::spinoff_prover]
pub proof fn lemma_hang_chain(
    config: Config,
    state: FormatterState,
    e: ExpressionView,
    level: usize,
)
    ensures
        expression_piece(
            e,
            hang_chain_layout(state, e, level),
            Multiset::empty(),
            Multiset::empty(),
        ).sound(config),
    decreases e,
{
    reveal(expression_tokens);
    let target = expression_piece(
        e,
        hang_chain_layout(state, e, level),
        Multiset::empty(),
        Multiset::empty(),
    );
    match e {
        ExpressionView::BinaryOperator { lhs, operator, rhs } => {
            lemma_hang_chain(config, state, *lhs, level);
            let part0 = expression_piece(
                *lhs,
                hang_chain_layout(state, *lhs, level),
                Multiset::empty(),
                Multiset::empty(),
            );
            lemma_hung_operator(state, operator, level);
            lemma_token_piece(
                config,
                operator,
                hung_operator(state, operator, level),
                Multiset::empty(),
                Multiset::empty(),
            );
            let part1 = Piece::token(
                operator,
                hung_operator(state, operator, level),
                Multiset::empty(),
                Multiset::empty(),
            );
            lemma_same(config, expression_tokens(*rhs, true), expression_tokens(*rhs, false));
            let part2 = Piece::same(expression_tokens(*rhs, true), expression_tokens(*rhs, false));
            lemma_followed_by(config, part0, part1);
            lemma_followed_by(config, part0.followed_by(part1), part2);
            let whole = part0.followed_by(part1).followed_by(part2);
            assert(whole.taken.add(Multiset::empty()) =~= whole.given.add(Multiset::empty()));
            lemma_conclude(config, whole, target);
        },
        _ => {
            lemma_same(config, expression_tokens(e, true), expression_tokens(e, false));
        },
    }
}

/// An argument on a line of its own has the tokens of the argument, with
/// their comments.
pub proof fn lemma_hung_pair(config: Config, state: FormatterState, pair: PairView, inner: usize)
    ensures
        pair_piece(pair, hung_pair(state, pair, inner)).sound(config),
        last_pair_piece(pair, hung_pair(state, pair, inner)).sound(config),
{
    let indent = seq![state.indent_trivia(Some(inner))];
    let newline = seq![state.newline_trivia()];
    let hung = hung_pair(state, pair, inner);
    lemma_kept_whitespace(state, Some(inner));
    lemma_first_updated(config, pair.value, indent);
    let first = first_updated(pair.value, FormatTriviaTypeView::Append(indent));
    let a = expression_piece(pair.value, first, kept(indent), Multiset::empty());
    match pair.separator {
        Some(separator) => {
            lemma_hung_brackets(state, separator, inner, inner);
            lemma_comments_one(separator);
            lemma_comments_one(line_separator(state, separator));
            lemma_token_piece(
                config,
                separator,
                line_separator(state, separator),
                Multiset::empty(),
                Multiset::empty(),
            );
            let b = Piece::token(
                separator,
                line_separator(state, separator),
                Multiset::empty(),
                Multiset::empty(),
            );
            lemma_followed_by(config, a, b);
            let whole = a.followed_by(b);
            assert(whole.taken.add(Multiset::empty()) =~= whole.given.add(Multiset::empty()));
            lemma_conclude(config, whole, pair_piece(pair, hung));
            let c = Piece::dropped_edit(
                separator,
                line_separator(state, separator),
                Multiset::empty(),
            );
            assert(c.sound(config));
            lemma_followed_by(config, a, c);
            let last = a.followed_by(c);
            lemma_add_empty(a.before_kept);
            lemma_add_empty(a.after_kept);
            assert(last.taken.add(Multiset::empty()) =~= last.given.add(Multiset::empty()));
            lemma_conclude(config, last, last_pair_piece(pair, hung));
        },
        None => {
            lemma_last_updated(config, first, newline);
            let b = expression_piece(first, hung.value, kept(newline), Multiset::empty());
            lemma_and_then_to(config, a, b);
            let value = a.and_then_to(b);
            lemma_add_empty(value.before_all);
            lemma_add_empty(value.before_kept);
            lemma_add_empty(value.after_all);
            lemma_add_empty(value.after_kept);
            assert(value.taken.add(Multiset::empty()) =~= value.given.add(Multiset::empty()));
            lemma_conclude(config, value, pair_piece(pair, hung));
            lemma_conclude(config, value, last_pair_piece(pair, hung));
        },
    }
}

/// A field with its first token indented has the tokens of the field, with
/// their comments.
#[verifier::spinoff_prover]
pub proof fn lemma_hung_field(config: Config, state: FormatterState, field: FieldView, inner: usize)
    ensures
        field_piece(
            field,
            hung_field(state, field, inner),
            Multiset::empty(),
            Multiset::empty(),
        ).sound(config),
{
    reveal(field_tokens);
    let list = seq![state.indent_trivia(Some(inner))];
    let edit = FormatTriviaTypeView::Append(list);
    let target = field_piece(
        field,
        hung_field(state, field, inner),
        Multiset::empty(),
        Multiset::empty(),
    );
    lemma_kept_whitespace(state, Some(inner));
    match field {
        FieldView::ExpressionKey { open, key, close, equal, value } => {
            lemma_lead_piece(config, open, list);
            let part0 = Piece::token(open, lead(open, edit), kept(list), Multiset::empty());
            lemma_same(config, expression_tokens(key, true), expression_tokens(key, false));
            let part1 = Piece::same(expression_tokens(key, true), expression_tokens(key, false));
            lemma_same_token(config, close);
            let part2 = Piece::token(close, close, Multiset::empty(), Multiset::empty());
            lemma_same_token(config, equal);
            let part3 = Piece::token(equal, equal, Multiset::empty(), Multiset::empty());
            lemma_same(config, expression_tokens(value, true), expression_tokens(value, false));
            let part4 = Piece::same(
                expression_tokens(value, true),
                expression_tokens(value, false),
            );
            lemma_followed_by(config, part0, part1);
            lemma_followed_by(config, part0.followed_by(part1), part2);
            lemma_followed_by(config, part0.followed_by(part1).followed_by(part2), part3);
            lemma_followed_by(
                config,
                part0.followed_by(part1).followed_by(part2).followed_by(part3),
                part4,
            );
            let whole = part0.followed_by(part1).followed_by(part2).followed_by(part3).followed_by(
                part4,
            );
            assert(whole.taken.add(Multiset::empty()) =~= whole.given.add(Multiset::empty()));
            lemma_conclude(config, whole, target);
        },
        FieldView::NameKey { name, equal, value } => {
            lemma_lead_piece(config, name, list);
            let part0 = Piece::token(name, lead(name, edit), kept(list), Multiset::empty());
            lemma_same_token(config, equal);
            let part1 = Piece::token(equal, equal, Multiset::empty(), Multiset::empty());
            lemma_same(config, expression_tokens(value, true), expression_tokens(value, false));
            let part2 = Piece::same(
                expression_tokens(value, true),
                expression_tokens(value, false),
            );
            lemma_followed_by(config, part0, part1);
            lemma_followed_by(config, part0.followed_by(part1), part2);
            let whole = part0.followed_by(part1).followed_by(part2);
            assert(whole.taken.add(Multiset::empty()) =~= whole.given.add(Multiset::empty()));
            lemma_conclude(config, whole, target);
        },
        FieldView::NoKey(value) => {
            lemma_first_updated(config, value, list);
            let whole = expression_piece(
                value,
                first_updated(value, edit),
                kept(list),
                Multiset::empty(),
            );
            assert(whole.taken.add(Multiset::empty()) =~= whole.given.add(Multiset::empty()));
            lemma_conclude(config, whole, target);
        },
    }
}

/// A field on a line of its own has the tokens of the field, with their
/// comments; a separator that is added behind the last field does not count
/// among the tokens that are kept.
pub proof fn lemma_hung_field_pair(
    config: Config,
    state: FormatterState,
    pair: FieldPairView,
    inner: usize,
    last: bool,
)
    ensures
        !last ==> field_pair_piece(pair, hung_field_pair(state, pair, inner, last)).sound(config),
        last ==> last_field_pair_piece(pair, hung_field_pair(state, pair, inner, last)).sound(
            config,
        ),
{
    let hung = hung_field_pair(state, pair, inner, last);
    lemma_hung_field(config, state, pair.field, inner);
    let a = field_piece(pair.field, hung.field, Multiset::empty(), Multiset::empty());
    let target = if last {
        last_field_pair_piece(pair, hung)
    } else {
        field_pair_piece(pair, hung)
    };
    match pair.separator {
        Some(separator) => {
            lemma_hung_brackets(state, separator, inner, inner);
            lemma_comments_one(separator);
            lemma_comments_one(line_separator(state, separator));
            if last {
                let c = Piece::dropped_edit(
                    separator,
                    line_separator(state, separator),
                    Multiset::empty(),
                );
                assert(c.sound(config));
                lemma_followed_by(config, a, c);
                let whole = a.followed_by(c);
                lemma_add_empty(a.before_kept);
                lemma_add_empty(a.after_kept);
                assert(whole.taken.add(Multiset::empty()) =~= whole.given.add(Multiset::empty()));
                lemma_conclude(config, whole, target);
            } else {
                lemma_token_piece(
                    config,
                    separator,
                    line_separator(state, separator),
                    Multiset::empty(),
                    Multiset::empty(),
                );
                let b = Piece::token(
                    separator,
                    line_separator(state, separator),
                    Multiset::empty(),
                    Multiset::empty(),
                );
                lemma_followed_by(config, a, b);
                let whole = a.followed_by(b);
                assert(whole.taken.add(Multiset::empty()) =~= whole.given.add(Multiset::empty()));
                lemma_conclude(config, whole, target);
            }
        },
        None => {
            if last {
                lemma_hung_brackets(state, added_separator(state), inner, inner);
                lemma_added_piece(config, added_separator(state));
                let b = Piece::added(added_separator(state));
                lemma_followed_by(config, a, b);
                let whole = a.followed_by(b);
                lemma_add_empty(a.before_all);
                lemma_add_empty(a.before_kept);
                lemma_add_empty(a.after_kept);
                assert(whole.taken.add(Multiset::empty()) =~= whole.given.add(Multiset::empty()));
                lemma_conclude(config, whole, target);
            } else {
                lemma_nothing(config, a);
                let whole = a.followed_by(Piece::nothing());
                lemma_conclude(config, whole, target);
            }
        },
    }
}

/// A table laid out over several lines has the tokens of the table, with
/// their comments.
#[verifier::spinoff_prover]
pub proof fn lemma_hung_table(
    config: Config,
    state: FormatterState,
    table: TableConstructorView,
    level: usize,
)
    ensures
        table_piece(
            table,
            hung_table(state, table, level),
            Multiset::empty(),
            Multiset::empty(),
        ).sound(config),
{
    reveal(table_tokens);
    let hung = hung_table(state, table, level);
    let target = table_piece(table, hung, Multiset::empty(), Multiset::empty());
    if table.fields.len() == 0 {
        lemma_same(config, table_tokens(table, true), table_tokens(table, false));
    } else {
        let inner = operator_level(state, table.open, level);
        let before = table.fields;
        let after = hung_fields(state, before, inner);
        lemma_hung_brackets(state, table.open, inner, outer_level(inner));
        lemma_hung_brackets(state, table.close, inner, outer_level(inner));
        lemma_token_piece(
            config,
            table.open,
            hung_opener(state, table.open),
            Multiset::empty(),
            Multiset::empty(),
        );
        lemma_token_piece(
            config,
            table.close,
            hung_closer(state, table.close, inner, outer_level(inner)),
            Multiset::empty(),
            Multiset::empty(),
        );
        let part0 = Piece::token(
            table.open,
            hung_opener(state, table.open),
            Multiset::empty(),
            Multiset::empty(),
        );
        let part2 = Piece::token(
            table.close,
            hung_closer(state, table.close, inner, outer_level(inner)),
            Multiset::empty(),
            Multiset::empty(),
        );
        // The fields before the last, one by one, and the last.
        assert forall|i: int| 0 <= i < before.drop_last().len() implies field_pair_piece(
            before.drop_last()[i],
            after.drop_last()[i],
        ).sound(config) by {
            lemma_hung_field_pair(config, state, before[i], inner, false);
        }
        lemma_field_pairs_pointwise(config, before.drop_last(), after.drop_last());
        let front = field_pairs_piece(
            before.drop_last(),
            after.drop_last(),
            Multiset::empty(),
            Multiset::empty(),
        );
        lemma_hung_field_pair(config, state, before.last(), inner, true);
        let last = last_field_pair_piece(before.last(), after.last());
        lemma_followed_by(config, front, last);
        let fields = front.followed_by(last);
        lemma_fields_tokens(before);
        lemma_fields_tokens(after);
        assert(before.drop_last().push(before.last()) =~= before);
        assert(after.drop_last().push(after.last()) =~= after);
        lemma_field_pairs_tokens_push(before.drop_last(), before.last(), true);
        lemma_field_pairs_tokens_push(after.drop_last(), after.last(), true);
        crate::sequences::lemma_add_assoc(
            front.before_all,
            field_tokens(before.last().field, true),
            optional_token(before.last().separator),
        );
        crate::sequences::lemma_add_assoc(
            front.after_all,
            field_tokens(after.last().field, true),
            optional_token(after.last().separator),
        );
        let part1 = fields_piece(before, after, Multiset::empty(), Multiset::empty());
        assert(fields.taken.add(Multiset::empty()) =~= fields.given.add(Multiset::empty()));
        lemma_conclude(config, fields, part1);
        lemma_followed_by(config, part0, part1);
        lemma_followed_by(config, part0.followed_by(part1), part2);
        let whole = part0.followed_by(part1).followed_by(part2);
        assert(whole.taken.add(Multiset::empty()) =~= whole.given.add(Multiset::empty()));
        lemma_conclude(config, whole, target);
    }
}

/// Arguments laid out over several lines have the tokens of the arguments,
/// with their comments.
#[verifier::spinoff_prover]
pub proof fn lemma_hung_args(
    config: Config,
    state: FormatterState,
    args: FunctionArgsView,
    level: usize,
)
    ensures
        function_args_piece(
            args,
            hung_args(state, args, level),
            Multiset::empty(),
            Multiset::empty(),
        ).sound(config),
{
    reveal(function_args_tokens);
    let target = function_args_piece(
        args,
        hung_args(state, args, level),
        Multiset::empty(),
        Multiset::empty(),
    );
    match args {
        FunctionArgsView::Parentheses { open, arguments, close } => {
            if arguments.pairs.len() == 0 {
                lemma_same(
                    config,
                    function_args_tokens(args, true),
                    function_args_tokens(args, false),
                );
            } else {
                let inner = operator_level(state, open, level);
                let before = arguments.pairs;
                let after = hung_arguments(state, before, inner);
                lemma_hung_brackets(state, open, inner, outer_level(inner));
                lemma_hung_brackets(state, close, inner, outer_level(inner));
                lemma_token_piece(
                    config,
                    open,
                    hung_opener(state, open),
                    Multiset::empty(),
                    Multiset::empty(),
                );
                lemma_token_piece(
                    config,
                    close,
                    hung_closer(state, close, inner, outer_level(inner)),
                    Multiset::empty(),
                    Multiset::empty(),
                );
                let part0 = Piece::token(
                    open,
                    hung_opener(state, open),
                    Multiset::empty(),
                    Multiset::empty(),
                );
                let part2 = Piece::token(
                    close,
                    hung_closer(state, close, inner, outer_level(inner)),
                    Multiset::empty(),
                    Multiset::empty(),
                );
                assert forall|i: int| 0 <= i < before.len() implies pair_piece(
                    before[i],
                    after[i],
                ).sound(config) by {
                    lemma_hung_pair(config, state, before[i], inner);
                }
                lemma_hung_pair(config, state, before.last(), inner);
                lemma_punctuated_pointwise(config, before, after);
                let part1 = punctuated_piece(
                    arguments,
                    PunctuatedView { pairs: after },
                    Multiset::empty(),
                    Multiset::empty(),
                );
                lemma_followed_by(config, part0, part1);
                lemma_followed_by(config, part0.followed_by(part1), part2);
                let whole = part0.followed_by(part1).followed_by(part2);
                assert(whole.taken.add(Multiset::empty()) =~= whole.given.add(Multiset::empty()));
                lemma_conclude(config, whole, target);
            }
        },
        FunctionArgsView::String(_) => {
            lemma_same(config, function_args_tokens(args, true), function_args_tokens(args, false));
        },
        FunctionArgsView::TableConstructor(table) => {
            lemma_hung_table(config, state, table, level);
        },
    }
}

/// A suffix whose arguments are laid out over several lines has the tokens
/// of the suffix, with their comments.
#[verifier::spinoff_prover]
pub proof fn lemma_hung_suffix(
    config: Config,
    state: FormatterState,
    suffix: SuffixView,
    level: usize,
)
    ensures
        suffix_piece(
            suffix,
            hung_suffix(state, suffix, level),
            Multiset::empty(),
            Multiset::empty(),
        ).sound(config),
{
    reveal(suffix_tokens);
    let target = suffix_piece(
        suffix,
        hung_suffix(state, suffix, level),
        Multiset::empty(),
        Multiset::empty(),
    );
    match suffix {
        SuffixView::Call(args) => {
            lemma_hung_args(config, state, args, level);
        },
        SuffixView::MethodCall { colon, name, args } => {
            lemma_same_token(config, colon);
            let part0 = Piece::token(colon, colon, Multiset::empty(), Multiset::empty());
            lemma_same_token(config, name);
            let part1 = Piece::token(name, name, Multiset::empty(), Multiset::empty());
            lemma_hung_args(config, state, args, level);
            let part2 = function_args_piece(
                args,
                hung_args(state, args, level),
                Multiset::empty(),
                Multiset::empty(),
            );
            lemma_followed_by(config, part0, part1);
            lemma_followed_by(config, part0.followed_by(part1), part2);
            let whole = part0.followed_by(part1).followed_by(part2);
            assert(whole.taken.add(Multiset::empty()) =~= whole.given.add(Multiset::empty()));
            lemma_conclude(config, whole, target);
        },
        _ => {
            lemma_same(config, suffix_tokens(suffix, true), suffix_tokens(suffix, false));
        },
    }
}

/// A call whose arguments are laid out over several lines has the tokens of
/// the call, with their comments.
pub proof fn lemma_hung_call(
    config: Config,
    state: FormatterState,
    call: SuffixedView,
    level: usize,
)
    ensures
        suffixed_piece(
            call,
            hung_call(state, call, level),
            Multiset::empty(),
            Multiset::empty(),
        ).sound(config),
{
    let target = suffixed_piece(
        call,
        hung_call(state, call, level),
        Multiset::empty(),
        Multiset::empty(),
    );
    if call.suffixes.len() == 0 {
        lemma_same(
            config,
            crate::flatten::suffixed_tokens(call, true),
            crate::flatten::suffixed_tokens(call, false),
        );
    } else {
        let front = call.suffixes.drop_last();
        let last = call.suffixes.last();
        let hung = hung_suffix(state, last, level);
        assert(front.push(last) =~= call.suffixes);
        lemma_suffixes_tokens_push(front, last, true);
        lemma_suffixes_tokens_push(front, last, false);
        lemma_suffixes_tokens_push(front, hung, true);
        lemma_suffixes_tokens_push(front, hung, false);
        lemma_same(config, prefix_tokens(call.prefix, true), prefix_tokens(call.prefix, false));
        let part0 = Piece::same(
            prefix_tokens(call.prefix, true),
            prefix_tokens(call.prefix, false),
        );
        lemma_same(config, suffixes_tokens(front, true), suffixes_tokens(front, false));
        let part1 = Piece::same(suffixes_tokens(front, true), suffixes_tokens(front, false));
        lemma_hung_suffix(config, state, last, level);
        let part2 = suffix_piece(last, hung, Multiset::empty(), Multiset::empty());
        lemma_followed_by(config, part1, part2);
        lemma_followed_by(config, part0, part1.followed_by(part2));
        let whole = part0.followed_by(part1.followed_by(part2));
        assert(whole.taken.add(Multiset::empty()) =~= whole.given.add(Multiset::empty()));
        lemma_conclude(config, whole, target);
    }
}

/// An expression in its hanging layout has the tokens of the expression,
/// with their comments.
#[verifier::spinoff_prover]
pub proof fn lemma_hang_layout(
    config: Config,
    state: FormatterState,
    e: ExpressionView,
    level: usize,
)
    ensures
        expression_piece(
            e,
            hang_layout(state, e, level),
            Multiset::empty(),
            Multiset::empty(),
        ).sound(config),
{
    reveal(expression_tokens);
    let target = expression_piece(
        e,
        hang_layout(state, e, level),
        Multiset::empty(),
        Multiset::empty(),
    );
    match e {
        ExpressionView::BinaryOperator { lhs, operator, rhs } => {
            lemma_hang_chain(config, state, *lhs, level);
            let part0 = expression_piece(
                *lhs,
                hang_chain_layout(state, *lhs, level),
                Multiset::empty(),
                Multiset::empty(),
            );
            lemma_hung_operator(state, operator, level);
            lemma_token_piece(
                config,
                operator,
                hung_operator(state, operator, level),
                Multiset::empty(),
                Multiset::empty(),
            );
            let part1 = Piece::token(
                operator,
                hung_operator(state, operator, level),
                Multiset::empty(),
                Multiset::empty(),
            );
            lemma_same(config, expression_tokens(*rhs, true), expression_tokens(*rhs, false));
            let part2 = Piece::same(expression_tokens(*rhs, true), expression_tokens(*rhs, false));
            lemma_followed_by(config, part0, part1);
            lemma_followed_by(config, part0.followed_by(part1), part2);
            let whole = part0.followed_by(part1).followed_by(part2);
            assert(whole.taken.add(Multiset::empty()) =~= whole.given.add(Multiset::empty()));
            lemma_conclude(config, whole, target);
        },
        ExpressionView::FunctionCall(call) => {
            lemma_hung_call(config, state, call, level);
        },
        ExpressionView::TableConstructor(table) => {
            lemma_hung_table(config, state, table, level);
        },
        _ => {
            lemma_same(config, expression_tokens(e, true), expression_tokens(e, false));
        },
    }
}

/// A hung expression has the tokens of the expression, with their comments.
pub proof fn lemma_hang_expression(
    config: Config,
    state: FormatterState,
    e: ExpressionView,
    additional_indent_level: Option<usize>,
    hang_level: Option<usize>,
)
    ensures
        expression_piece(
            e,
            hang_expression(state, e, additional_indent_level, hang_level),
            Multiset::empty(),
            Multiset::empty(),
        ).sound(config),
{
    let level = hang_depth(additional_indent_level, hang_level);
    let newline = seq![state.newline_trivia()];
    lemma_kept_whitespace(state, None);
    lemma_hang_layout(config, state, e, level);
    let laid = hang_layout(state, e, level);
    let a = expression_piece(e, laid, Multiset::empty(), Multiset::empty());
    lemma_last_updated(config, laid, newline);
    let b = expression_piece(
        laid,
        hang_expression(state, e, additional_indent_level, hang_level),
        kept(newline),
        Multiset::empty(),
    );
    lemma_and_then_to(config, a, b);
    let whole = a.and_then_to(b);
    assert(whole.taken.add(Multiset::empty()) =~= whole.given.add(Multiset::empty()));
    lemma_conclude(
        config,
        whole,
        expression_piece(
            e,
            hang_expression(state, e, additional_indent_level, hang_level),
            Multiset::empty(),
            Multiset::empty(),
        ),
    );
}

/// The values of an assignment, laid out on one line or hung, have their
/// tokens, with their comments.
pub proof fn lemma_laid_out_values(
    config: Config,
    state: FormatterState,
    list: PunctuatedView,
    extra: Option<usize>,
    hang: bool,
)
    ensures
        punctuated_piece(
            list,
            laid_out_values(state, list, extra, hang),
            Multiset::empty(),
            Multiset::empty(),
        ).sound(config),
{
    if hang {
        let level = crate::formatter::count_of(extra).saturating_add(DEFAULT_HANG_LEVEL);
        let before = list.pairs;
        let after = hung_pairs(state, before, extra);
        assert forall|i: int| 0 <= i < before.len() implies pair_piece(before[i], after[i]).sound(
            config,
        ) && last_pair_piece(before[i], after[i]).sound(config) by {
            lemma_hang_layout(config, state, before[i].value, level);
            let a = expression_piece(
                before[i].value,
                after[i].value,
                Multiset::empty(),
                Multiset::empty(),
            );
            lemma_same(
                config,
                optional_token(before[i].separator),
                optional_token(before[i].separator),
            );
            let b = Piece::same(
                optional_token(before[i].separator),
                optional_token(before[i].separator),
            );
            lemma_followed_by(config, a, b);
            let whole = a.followed_by(b);
            assert(whole.taken.add(Multiset::empty()) =~= whole.given.add(Multiset::empty()));
            lemma_conclude(config, whole, pair_piece(before[i], after[i]));
            let c = Piece {
                before_kept: Seq::empty(),
                after_kept: Seq::empty(),
                ..b
            };
            assert(c.sound(config));
            lemma_followed_by(config, a, c);
            let last = a.followed_by(c);
            lemma_add_empty(a.before_kept);
            lemma_add_empty(a.after_kept);
            assert(last.taken.add(Multiset::empty()) =~= last.given.add(Multiset::empty()));
            lemma_conclude(config, last, last_pair_piece(before[i], after[i]));
        }
        lemma_punctuated_pointwise(config, before, after);
    } else {
        lemma_same(config, punctuated_tokens(list, true), punctuated_tokens(list, false));
    }
}

} // verus!
