//! The tokens of lists, element by element, and what edits at the ends of a
//! list keep.

use vstd::multiset::Multiset;
use vstd::prelude::*;
use crate::config::Config;
use crate::edge_laws::{lemma_first_updated, lemma_last_updated};
use crate::edges::{
    first_updated, pair_last_updated, punctuated_first_updated, punctuated_last_updated, trail,
};
use crate::flatten::{
    block_stmts_tokens, else_if_tokens, else_ifs_tokens, expression_tokens, field_pairs_tokens,
    field_tokens, fields_tokens, optional_token, pairs_tokens, punctuated_tokens, stmt_tokens,
    suffix_tokens, suffixes_tokens,
};
use crate::laws::{kept, lemma_followed_by, lemma_nothing, lemma_same, lemma_same_token, Piece};
use crate::layout::line_end;
use crate::pieces::{
    expression_piece, lemma_conclude, lemma_trail_piece, pairs_piece, punctuated_piece,
};
use crate::sequences::{lemma_add_empty, lemma_push_last};
use crate::token::{TokenReferenceView, TokenView};
use crate::trivia::FormatTriviaTypeView;
use crate::view::{BlockStmtView, ElseIfView, FieldPairView, PairView, PunctuatedView, SuffixView};

verus! {

/// The tokens of the elements of a list that has grown by one element, and
/// of no elements.
#[verifier::spinoff_prover]
pub proof fn lemma_pairs_tokens_push(pairs: Seq<PairView>, pair: PairView, all: bool)
    ensures
        pairs_tokens(pairs.push(pair), all) == pairs_tokens(pairs, all) + expression_tokens(
            pair.value,
            all,
        ) + optional_token(pair.separator),
        pairs_tokens(Seq::<PairView>::empty(), all) == Seq::<TokenReferenceView>::empty(),
{
    reveal(pairs_tokens);
    lemma_push_last(pairs, pair);
    assert(pairs_tokens(Seq::<PairView>::empty(), all) == Seq::<TokenReferenceView>::empty());
}

/// The tokens of a list are those of its elements; without the separator
/// behind the last element, they are those of the elements before the last
/// and of the value of the last.
#[verifier::spinoff_prover]
pub proof fn lemma_punctuated_tokens(pairs: Seq<PairView>)
    ensures
        punctuated_tokens(PunctuatedView { pairs }, true) == pairs_tokens(pairs, true),
        pairs.len() == 0 ==> punctuated_tokens(PunctuatedView { pairs }, false) == Seq::<
            TokenReferenceView,
        >::empty(),
        pairs.len() > 0 ==> punctuated_tokens(PunctuatedView { pairs }, false) == pairs_tokens(
            pairs.drop_last(),
            false,
        ) + expression_tokens(pairs.last().value, false),
{
    reveal(punctuated_tokens);
}

/// The tokens of the fields of a table that has grown by one field, and of
/// no fields.
#[verifier::spinoff_prover]
pub proof fn lemma_field_pairs_tokens_push(
    fields: Seq<FieldPairView>,
    pair: FieldPairView,
    all: bool,
)
    ensures
        field_pairs_tokens(fields.push(pair), all) == field_pairs_tokens(fields, all)
            + field_tokens(pair.field, all) + optional_token(pair.separator),
        field_pairs_tokens(Seq::<FieldPairView>::empty(), all) == Seq::<
            TokenReferenceView,
        >::empty(),
{
    reveal(field_pairs_tokens);
    lemma_push_last(fields, pair);
    assert(field_pairs_tokens(Seq::<FieldPairView>::empty(), all) == Seq::<
        TokenReferenceView,
    >::empty());
}

/// The tokens of the fields of a table are those of its fields with their
/// separators; without the separator behind the last field, they are those
/// of the fields before the last and of the last field.
#[verifier::spinoff_prover]
pub proof fn lemma_fields_tokens(fields: Seq<FieldPairView>)
    ensures
        fields_tokens(fields, true) == field_pairs_tokens(fields, true),
        fields.len() == 0 ==> fields_tokens(fields, false) == Seq::<TokenReferenceView>::empty(),
        fields.len() > 0 ==> fields_tokens(fields, false) == field_pairs_tokens(
            fields.drop_last(),
            false,
        ) + field_tokens(fields.last().field, false),
{
    reveal(fields_tokens);
}

/// The tokens of a run of suffixes that has grown by one, and of no suffixes.
#[verifier::spinoff_prover]
pub proof fn lemma_suffixes_tokens_push(suffixes: Seq<SuffixView>, suffix: SuffixView, all: bool)
    ensures
        suffixes_tokens(suffixes.push(suffix), all) == suffixes_tokens(suffixes, all)
            + suffix_tokens(suffix, all),
        suffixes_tokens(Seq::<SuffixView>::empty(), all) == Seq::<TokenReferenceView>::empty(),
{
    reveal(suffixes_tokens);
    lemma_push_last(suffixes, suffix);
    assert(suffixes_tokens(Seq::<SuffixView>::empty(), all) == Seq::<TokenReferenceView>::empty());
}

/// The tokens of a run of statements that has grown by one, and of no statements.
#[verifier::spinoff_prover]
pub proof fn lemma_block_stmts_tokens_push(
    stmts: Seq<BlockStmtView>,
    stmt: BlockStmtView,
    all: bool,
)
    ensures
        block_stmts_tokens(stmts.push(stmt), all) == block_stmts_tokens(stmts, all) + stmt_tokens(
            stmt.stmt,
            all,
        ) + optional_token(stmt.semicolon),
        block_stmts_tokens(Seq::<BlockStmtView>::empty(), all) == Seq::<
            TokenReferenceView,
        >::empty(),
{
    reveal(block_stmts_tokens);
    lemma_push_last(stmts, stmt);
    assert(block_stmts_tokens(Seq::<BlockStmtView>::empty(), all) == Seq::<
        TokenReferenceView,
    >::empty());
}

/// The tokens of a run of `elseif` branches that has grown by one, and of no branches.
#[verifier::spinoff_prover]
pub proof fn lemma_else_ifs_tokens_push(branches: Seq<ElseIfView>, branch: ElseIfView, all: bool)
    ensures
        else_ifs_tokens(branches.push(branch), all) == else_ifs_tokens(branches, all)
            + else_if_tokens(branch, all),
        else_ifs_tokens(Seq::<ElseIfView>::empty(), all) == Seq::<TokenReferenceView>::empty(),
{
    reveal(else_ifs_tokens);
    lemma_push_last(branches, branch);
    assert(else_ifs_tokens(Seq::<ElseIfView>::empty(), all) == Seq::<TokenReferenceView>::empty());
}

/// The elements of a list whose first value has trivia appended in front of
/// its first token have their tokens, and their comments and those appended.
pub proof fn lemma_pairs_first_updated(config: Config, pairs: Seq<PairView>, list: Seq<TokenView>)
    requires
        pairs.len() > 0,
    ensures
        pairs_piece(
            pairs,
            pairs.update(
                0,
                PairView {
                    value: first_updated(pairs[0].value, FormatTriviaTypeView::Append(list)),
                    ..pairs[0]
                },
            ),
            kept(list),
            Multiset::empty(),
        ).sound(config),
    decreases pairs.len(),
{
    let edit = FormatTriviaTypeView::Append(list);
    let first = PairView { value: first_updated(pairs[0].value, edit), ..pairs[0] };
    let after = pairs.update(0, first);
    let target = pairs_piece(pairs, after, kept(list), Multiset::empty());
    let last = pairs.last();
    assert(pairs.drop_last().push(last) =~= pairs);
    if pairs.len() == 1 {
        assert(after =~= Seq::<PairView>::empty().push(first));
        assert(pairs.drop_last() =~= Seq::<PairView>::empty());
        lemma_pairs_tokens_push(Seq::empty(), first, true);
        lemma_pairs_tokens_push(Seq::empty(), first, false);
        lemma_pairs_tokens_push(Seq::empty(), last, true);
        lemma_pairs_tokens_push(Seq::empty(), last, false);
        lemma_nothing(config, Piece::nothing());
        lemma_first_updated(config, last.value, list);
        let part0 = Piece::nothing();
        let part1 = expression_piece(last.value, first.value, kept(list), Multiset::empty());
        lemma_same(config, optional_token(last.separator), optional_token(last.separator));
        let part2 = Piece::same(optional_token(last.separator), optional_token(last.separator));
        lemma_followed_by(config, part0, part1);
        lemma_followed_by(config, part0.followed_by(part1), part2);
        let whole = part0.followed_by(part1).followed_by(part2);
        assert(whole.taken.add(Multiset::empty()) =~= whole.given.add(kept(list)));
        lemma_conclude(config, whole, target);
    } else {
        let front = pairs.drop_last();
        let front_after = front.update(
            0,
            PairView { value: first_updated(front[0].value, edit), ..front[0] },
        );
        assert(after =~= front_after.push(last));
        lemma_pairs_first_updated(config, front, list);
        lemma_pairs_tokens_push(front, last, true);
        lemma_pairs_tokens_push(front, last, false);
        lemma_pairs_tokens_push(front_after, last, true);
        lemma_pairs_tokens_push(front_after, last, false);
        let part0 = pairs_piece(front, front_after, kept(list), Multiset::empty());
        lemma_same(
            config,
            expression_tokens(last.value, true),
            expression_tokens(last.value, false),
        );
        let part1 = Piece::same(
            expression_tokens(last.value, true),
            expression_tokens(last.value, false),
        );
        lemma_same(config, optional_token(last.separator), optional_token(last.separator));
        let part2 = Piece::same(optional_token(last.separator), optional_token(last.separator));
        lemma_followed_by(config, part0, part1);
        lemma_followed_by(config, part0.followed_by(part1), part2);
        let whole = part0.followed_by(part1).followed_by(part2);
        assert(whole.taken.add(Multiset::empty()) =~= whole.given.add(kept(list)));
        lemma_conclude(config, whole, target);
    }
}

/// A list with whitespace appended in front of its first token has its
/// tokens and its comments.
pub proof fn lemma_punctuated_first_updated(
    config: Config,
    list: PunctuatedView,
    trivia: Seq<TokenView>,
)
    requires
        kept(trivia) == Multiset::<TokenView>::empty(),
    ensures
        punctuated_piece(
            list,
            punctuated_first_updated(list, FormatTriviaTypeView::Append(trivia)),
            Multiset::empty(),
            Multiset::empty(),
        ).sound(config),
{
    let edit = FormatTriviaTypeView::Append(trivia);
    let after = punctuated_first_updated(list, edit);
    let target = punctuated_piece(list, after, Multiset::empty(), Multiset::empty());
    lemma_punctuated_tokens(list.pairs);
    lemma_punctuated_tokens(after.pairs);
    if list.pairs.len() == 0 {
        lemma_same(config, punctuated_tokens(list, true), punctuated_tokens(list, false));
    } else {
        let pairs = list.pairs;
        lemma_pairs_first_updated(config, pairs, trivia);
        let all = pairs_piece(pairs, after.pairs, kept(trivia), Multiset::empty());
        if pairs.len() == 1 {
            assert(pairs.drop_last() =~= Seq::<PairView>::empty());
            assert(after.pairs.drop_last() =~= Seq::<PairView>::empty());
            lemma_pairs_tokens_push(Seq::empty(), pairs[0], false);
            lemma_first_updated(config, pairs[0].value, trivia);
            lemma_nothing(config, Piece::nothing());
            let part0 = Piece::nothing();
            let part1 = expression_piece(
                pairs[0].value,
                after.pairs[0].value,
                kept(trivia),
                Multiset::empty(),
            );
            lemma_followed_by(config, part0, part1);
            let kept_side = part0.followed_by(part1);
            let whole = Piece {
                before_all: all.before_all,
                after_all: all.after_all,
                before_kept: kept_side.before_kept,
                after_kept: kept_side.after_kept,
                taken: Multiset::empty(),
                given: Multiset::empty(),
            };
            assert(whole.sound(config));
            lemma_conclude(config, whole, target);
        } else {
            let front = pairs.drop_last();
            let front_after = front.update(
                0,
                PairView { value: first_updated(front[0].value, edit), ..front[0] },
            );
            assert(after.pairs.drop_last() =~= front_after);
            assert(after.pairs.last() == pairs.last());
            lemma_pairs_first_updated(config, front, trivia);
            let part0 = pairs_piece(front, front_after, kept(trivia), Multiset::empty());
            lemma_same(
                config,
                expression_tokens(pairs.last().value, true),
                expression_tokens(pairs.last().value, false),
            );
            let part1 = Piece::same(
                expression_tokens(pairs.last().value, true),
                expression_tokens(pairs.last().value, false),
            );
            lemma_followed_by(config, part0, part1);
            let kept_side = part0.followed_by(part1);
            let whole = Piece {
                before_all: all.before_all,
                after_all: all.after_all,
                before_kept: kept_side.before_kept,
                after_kept: kept_side.after_kept,
                taken: Multiset::empty(),
                given: Multiset::empty(),
            };
            assert(whole.sound(config));
            lemma_conclude(config, whole, target);
        }
    }
}

/// A list with trivia appended behind its last token has its tokens, and its
/// comments and those appended.
pub proof fn lemma_punctuated_last_updated(
    config: Config,
    list: PunctuatedView,
    trivia: Seq<TokenView>,
)
    requires
        list.pairs.len() > 0,
    ensures
        punctuated_piece(
            list,
            punctuated_last_updated(list, FormatTriviaTypeView::Append(trivia)),
            kept(trivia),
            Multiset::empty(),
        ).sound(config),
{
    let edit = FormatTriviaTypeView::Append(trivia);
    let after = punctuated_last_updated(list, edit);
    let target = punctuated_piece(list, after, kept(trivia), Multiset::empty());
    let pairs = list.pairs;
    let front = pairs.drop_last();
    let last = pairs.last();
    let updated = pair_last_updated(last, edit);
    assert(front.push(last) =~= pairs);
    lemma_push_last(front, updated);
    lemma_punctuated_tokens(pairs);
    lemma_punctuated_tokens(after.pairs);
    lemma_pairs_tokens_push(front, last, true);
    lemma_pairs_tokens_push(front, updated, true);
    lemma_same(config, pairs_tokens(front, true), pairs_tokens(front, false));
    let part0 = Piece::same(pairs_tokens(front, true), pairs_tokens(front, false));
    match last.separator {
        Some(separator) => {
            lemma_same(
                config,
                expression_tokens(last.value, true),
                expression_tokens(last.value, false),
            );
            let part1 = Piece::same(
                expression_tokens(last.value, true),
                expression_tokens(last.value, false),
            );
            lemma_trail_piece(config, separator, trivia);
            let part2 = Piece::dropped_edit(separator, trail(separator, edit), kept(trivia));
            lemma_followed_by(config, part0, part1);
            crate::laws::lemma_comments_one(separator);
            crate::laws::lemma_comments_one(trail(separator, edit));
            assert(part2.sound(config));
            lemma_followed_by(config, part0.followed_by(part1), part2);
            let whole = part0.followed_by(part1).followed_by(part2);
            lemma_add_empty(part0.followed_by(part1).before_kept);
            assert(whole.taken.add(Multiset::empty()) =~= whole.given.add(kept(trivia)));
            lemma_conclude(config, whole, target);
        },
        None => {
            lemma_last_updated(config, last.value, trivia);
            let part1 = expression_piece(
                last.value,
                updated.value,
                kept(trivia),
                Multiset::empty(),
            );
            lemma_followed_by(config, part0, part1);
            let whole = part0.followed_by(part1);
            lemma_add_empty(whole.before_all);
            lemma_add_empty(whole.after_all);
            assert(whole.taken.add(Multiset::empty()) =~= whole.given.add(kept(trivia)));
            lemma_conclude(config, whole, target);
        },
    }
}

/// The piece of a token in front of a list and of the list.
pub open spec fn fronted_piece(
    fallback: TokenReferenceView,
    list: PunctuatedView,
    result: (TokenReferenceView, PunctuatedView),
    taken: Multiset<TokenView>,
) -> Piece {
    Piece {
        before_all: seq![fallback] + punctuated_tokens(list, true),
        before_kept: seq![fallback] + punctuated_tokens(list, false),
        after_all: seq![result.0] + punctuated_tokens(result.1, true),
        after_kept: seq![result.0] + punctuated_tokens(result.1, false),
        taken,
        given: Multiset::empty(),
    }
}

/// A list at the end of a line, together with the token in front of it,
/// has its tokens, and its comments and those appended at the end of the line.
pub proof fn lemma_line_end(
    config: Config,
    fallback: TokenReferenceView,
    list: PunctuatedView,
    trivia: Seq<TokenView>,
)
    ensures
        fronted_piece(
            fallback,
            list,
            line_end(fallback, list, FormatTriviaTypeView::Append(trivia)),
            kept(trivia),
        ).sound(config),
{
    let edit = FormatTriviaTypeView::Append(trivia);
    let result = line_end(fallback, list, edit);
    let target = fronted_piece(fallback, list, result, kept(trivia));
    if list.pairs.len() == 0 {
        lemma_trail_piece(config, fallback, trivia);
        let part0 = Piece::token(fallback, trail(fallback, edit), kept(trivia), Multiset::empty());
        lemma_same(config, punctuated_tokens(list, true), punctuated_tokens(list, false));
        let part1 = Piece::same(punctuated_tokens(list, true), punctuated_tokens(list, false));
        lemma_followed_by(config, part0, part1);
        let whole = part0.followed_by(part1);
        assert(whole.taken.add(Multiset::empty()) =~= whole.given.add(kept(trivia)));
        lemma_conclude(config, whole, target);
    } else {
        lemma_same_token(config, fallback);
        let part0 = Piece::token(fallback, fallback, Multiset::empty(), Multiset::empty());
        lemma_punctuated_last_updated(config, list, trivia);
        let part1 = punctuated_piece(list, result.1, kept(trivia), Multiset::empty());
        lemma_followed_by(config, part0, part1);
        let whole = part0.followed_by(part1);
        assert(whole.taken.add(Multiset::empty()) =~= whole.given.add(kept(trivia)));
        lemma_conclude(config, whole, target);
    }
}

} // verus!
