//! What formatting keeps: the tokens of the tree and the comments on them.
//!
//! A formatted tree has the tokens of the tree it was made from, in the same
//! order; the only text that changes is that of string literals, which get
//! other quotes and denote what they denoted. No comment is lost and none is
//! made: the comments on the tokens of the formatted tree are those on the
//! tokens of the tree it was made from, though some stand on other tokens.
//!
//! The proofs go piece by piece. A piece is a run of tokens of the tree
//! together with the run that formatting makes of it, the comments that were
//! taken away from the run to stand elsewhere, and the comments that were
//! brought to it from elsewhere.

use vstd::multiset::Multiset;
use vstd::prelude::*;
use crate::config::Config;
use crate::quote::normalized_string;
use crate::sequences::lemma_add_empty;
use crate::token::{TokenKind, TokenReferenceView, TokenView};

verus! {

/// The trivia that are no whitespace, as a multiset.
pub open spec fn kept(trivia: Seq<TokenView>) -> Multiset<TokenView>
    decreases trivia.len(),
{
    if trivia.len() == 0 {
        Multiset::empty()
    } else {
        kept(trivia.drop_last()).add(kept_one(trivia.last()))
    }
}

/// The trivia itself if it is no whitespace, else nothing.
pub open spec fn kept_one(trivia: TokenView) -> Multiset<TokenView> {
    if trivia.kind == TokenKind::Whitespace {
        Multiset::empty()
    } else {
        Multiset::singleton(trivia)
    }
}

/// The comments on a token, in front of it and behind it.
pub open spec fn token_comments(token: TokenReferenceView) -> Multiset<TokenView> {
    kept(token.leading).add(kept(token.trailing))
}

/// The comments on the tokens of a run.
pub open spec fn comments_of(tokens: Seq<TokenReferenceView>) -> Multiset<TokenView>
    decreases tokens.len(),
{
    if tokens.len() == 0 {
        Multiset::empty()
    } else {
        comments_of(tokens.drop_last()).add(token_comments(tokens.last()))
    }
}

/// Whether `after` is the token `before` or `before` with its quotes
/// normalized: a string literal whose text is the normalized text of `before`.
pub open spec fn atom_kept(config: Config, before: TokenView, after: TokenView) -> bool {
    after == before || (before.kind == TokenKind::StringLiteral && after == (TokenView {
        text: normalized_string(before.text, config.quote_style),
        ..before
    }))
}

/// Whether the run `after` has the tokens of the run `before`, one for one.
pub open spec fn atoms_kept(
    config: Config,
    before: Seq<TokenReferenceView>,
    after: Seq<TokenReferenceView>,
) -> bool {
    before.len() == after.len() && forall|i: int|
        0 <= i < before.len() ==> atom_kept(config, (#[trigger] before[i]).token, after[i].token)
}

/// A run of tokens and what was made of it. `before_all` and `after_all`
/// are the runs with every token; `before_kept` and `after_kept` are the
/// runs without the separators behind the last elements of lists, which
/// formatting may drop or add. `given` are the comments that were taken away
/// from the run, `taken` those that were brought to it.
pub ghost struct Piece {
    pub before_all: Seq<TokenReferenceView>,
    pub before_kept: Seq<TokenReferenceView>,
    pub after_all: Seq<TokenReferenceView>,
    pub after_kept: Seq<TokenReferenceView>,
    pub taken: Multiset<TokenView>,
    pub given: Multiset<TokenView>,
}

impl Piece {
    /// Whether the piece keeps its tokens and accounts for every comment.
    pub open spec fn sound(self, config: Config) -> bool {
        &&& atoms_kept(config, self.before_kept, self.after_kept)
        &&& comments_of(self.after_all).add(self.given) == comments_of(self.before_all).add(
            self.taken,
        )
    }

    /// The piece followed by another.
    pub open spec fn followed_by(self, next: Piece) -> Piece {
        Piece {
            before_all: self.before_all + next.before_all,
            before_kept: self.before_kept + next.before_kept,
            after_all: self.after_all + next.after_all,
            after_kept: self.after_kept + next.after_kept,
            taken: self.taken.add(next.taken),
            given: self.given.add(next.given),
        }
    }

    /// The piece of no token.
    pub open spec fn nothing() -> Piece {
        Piece {
            before_all: Seq::empty(),
            before_kept: Seq::empty(),
            after_all: Seq::empty(),
            after_kept: Seq::empty(),
            taken: Multiset::empty(),
            given: Multiset::empty(),
        }
    }

    /// The piece of one token that is written out.
    pub open spec fn token(
        before: TokenReferenceView,
        after: TokenReferenceView,
        taken: Multiset<TokenView>,
        given: Multiset<TokenView>,
    ) -> Piece {
        Piece {
            before_all: seq![before],
            before_kept: seq![before],
            after_all: seq![after],
            after_kept: seq![after],
            taken,
            given,
        }
    }

    /// The piece of the separator behind the last element of a list, which is
    /// not written out: its comments are given away.
    pub open spec fn dropped(before: TokenReferenceView, given: Multiset<TokenView>) -> Piece {
        Piece {
            before_all: seq![before],
            before_kept: Seq::empty(),
            after_all: Seq::empty(),
            after_kept: Seq::empty(),
            taken: Multiset::empty(),
            given,
        }
    }

    /// The piece of the separator behind the last element of a list that is
    /// written out with other trivia: it counts among all the tokens, and
    /// not among those that are kept.
    pub open spec fn dropped_edit(
        before: TokenReferenceView,
        after: TokenReferenceView,
        taken: Multiset<TokenView>,
    ) -> Piece {
        Piece {
            before_all: seq![before],
            before_kept: Seq::empty(),
            after_all: seq![after],
            after_kept: Seq::empty(),
            taken,
            given: Multiset::empty(),
        }
    }

    /// The piece of a separator that is written behind the last element of a
    /// list that had none.
    pub open spec fn added(after: TokenReferenceView) -> Piece {
        Piece {
            before_all: Seq::empty(),
            before_kept: Seq::empty(),
            after_all: seq![after],
            after_kept: Seq::empty(),
            taken: Multiset::empty(),
            given: Multiset::empty(),
        }
    }

    /// The piece of a run of tokens that stays as it is.
    pub open spec fn same(all: Seq<TokenReferenceView>, kept: Seq<TokenReferenceView>) -> Piece {
        Piece {
            before_all: all,
            before_kept: kept,
            after_all: all,
            after_kept: kept,
            taken: Multiset::empty(),
            given: Multiset::empty(),
        }
    }

    /// The piece from what this piece was made of to what `next` makes of
    /// what this piece made.
    pub open spec fn and_then_to(self, next: Piece) -> Piece {
        Piece {
            before_all: self.before_all,
            before_kept: self.before_kept,
            after_all: next.after_all,
            after_kept: next.after_kept,
            taken: self.taken.add(next.taken),
            given: self.given.add(next.given),
        }
    }

    /// The piece with other comments taken and given.
    pub open spec fn with_comments(self, taken: Multiset<TokenView>, given: Multiset<TokenView>)
        -> Piece {
        Piece { taken, given, ..self }
    }

}

/// The trivia kept of a concatenation are those kept of its parts.
pub proof fn lemma_kept_add(a: Seq<TokenView>, b: Seq<TokenView>)
    ensures
        kept(a + b) == kept(a).add(kept(b)),
    decreases b.len(),
{
    if b.len() == 0 {
        lemma_add_empty(a);
        assert(kept(a).add(kept(b)) =~= kept(a));
    } else {
        lemma_kept_add(a, b.drop_last());
        assert((a + b).drop_last() =~= a + b.drop_last());
        assert((a + b).last() == b.last());
        assert(kept(a + b) =~= kept(a).add(kept(b)));
    }
}

/// What is kept of no trivia, of one and of two.
pub proof fn lemma_kept_few(a: TokenView, b: TokenView, c: TokenView)
    ensures
        kept(Seq::<TokenView>::empty()) == Multiset::<TokenView>::empty(),
        kept(seq![a]) == kept_one(a),
        kept(seq![a, b]) == kept_one(a).add(kept_one(b)),
        kept(seq![a, b, c]) == kept_one(a).add(kept_one(b)).add(kept_one(c)),
{
    assert(kept(Seq::<TokenView>::empty()) =~= Multiset::<TokenView>::empty());
    assert(seq![a].drop_last() =~= Seq::<TokenView>::empty());
    assert(kept(seq![a]) =~= kept_one(a));
    assert(seq![a, b].drop_last() =~= seq![a]);
    assert(kept(seq![a, b]) =~= kept_one(a).add(kept_one(b)));
    assert(seq![a, b, c].drop_last() =~= seq![a, b]);
    assert(kept(seq![a, b, c]) =~= kept_one(a).add(kept_one(b)).add(kept_one(c)));
}

/// The comments of a concatenation are those of its parts.
pub proof fn lemma_comments_add(a: Seq<TokenReferenceView>, b: Seq<TokenReferenceView>)
    ensures
        comments_of(a + b) == comments_of(a).add(comments_of(b)),
    decreases b.len(),
{
    if b.len() == 0 {
        lemma_add_empty(a);
        assert(comments_of(a).add(comments_of(b)) =~= comments_of(a));
    } else {
        lemma_comments_add(a, b.drop_last());
        assert((a + b).drop_last() =~= a + b.drop_last());
        assert((a + b).last() == b.last());
        assert(comments_of(a + b) =~= comments_of(a).add(comments_of(b)));
    }
}

/// The comments of a run of one token are the comments on the token.
pub proof fn lemma_comments_one(token: TokenReferenceView)
    ensures
        comments_of(seq![token]) == token_comments(token),
        comments_of(Seq::<TokenReferenceView>::empty()) == Multiset::<TokenView>::empty(),
{
    assert(comments_of(Seq::<TokenReferenceView>::empty()) =~= Multiset::<TokenView>::empty());
    assert(seq![token].drop_last() =~= Seq::<TokenReferenceView>::empty());
    assert(comments_of(seq![token]) =~= token_comments(token));
}

/// Two sound pieces make a sound piece.
pub proof fn lemma_followed_by(config: Config, first: Piece, next: Piece)
    requires
        first.sound(config),
        next.sound(config),
    ensures
        first.followed_by(next).sound(config),
{
    lemma_comments_add(first.before_all, next.before_all);
    lemma_comments_add(first.after_all, next.after_all);
    let joined = first.followed_by(next);
    assert(comments_of(joined.after_all).add(joined.given) =~= comments_of(joined.before_all).add(
        joined.taken,
    )) by {
        assert forall|x: TokenView|
            comments_of(joined.after_all).add(joined.given).count(x) == comments_of(
                joined.before_all,
            ).add(joined.taken).count(x) by {
            assert(comments_of(first.after_all).add(first.given).count(x) == comments_of(
                first.before_all,
            ).add(first.taken).count(x));
            assert(comments_of(next.after_all).add(next.given).count(x) == comments_of(
                next.before_all,
            ).add(next.taken).count(x));
        }
    }
    assert forall|i: int| 0 <= i < joined.before_kept.len() implies atom_kept(
        config,
        (#[trigger] joined.before_kept[i]).token,
        joined.after_kept[i].token,
    ) by {
        if i < first.before_kept.len() {
            assert(joined.before_kept[i] == first.before_kept[i]);
            assert(joined.after_kept[i] == first.after_kept[i]);
        } else {
            let j = i - first.before_kept.len();
            assert(joined.before_kept[i] == next.before_kept[j]);
            assert(joined.after_kept[i] == next.after_kept[j]);
        }
    }
}

/// The piece of no token is sound, and changes nothing of a piece it follows.
pub proof fn lemma_nothing(config: Config, piece: Piece)
    ensures
        Piece::nothing().sound(config),
        piece.followed_by(Piece::nothing()) == piece,
        Piece::nothing().followed_by(piece) == piece,
{
    lemma_add_empty(piece.before_all);
    lemma_add_empty(piece.before_kept);
    lemma_add_empty(piece.after_all);
    lemma_add_empty(piece.after_kept);
    assert(piece.taken.add(Multiset::empty()) =~= piece.taken);
    assert(piece.given.add(Multiset::empty()) =~= piece.given);
    assert(Multiset::<TokenView>::empty().add(piece.taken) =~= piece.taken);
    assert(Multiset::<TokenView>::empty().add(piece.given) =~= piece.given);
    assert(comments_of(Seq::<TokenReferenceView>::empty()) =~= Multiset::<TokenView>::empty());
}

/// The piece of one token is sound where the token is kept and its comments
/// are accounted for.
pub proof fn lemma_token_piece(
    config: Config,
    before: TokenReferenceView,
    after: TokenReferenceView,
    taken: Multiset<TokenView>,
    given: Multiset<TokenView>,
)
    requires
        atom_kept(config, before.token, after.token),
        token_comments(after).add(given) == token_comments(before).add(taken),
    ensures
        Piece::token(before, after, taken, given).sound(config),
{
    lemma_comments_one(before);
    lemma_comments_one(after);
}

/// The piece of a dropped separator is sound where all its comments are given away.
pub proof fn lemma_dropped_piece(
    config: Config,
    before: TokenReferenceView,
    given: Multiset<TokenView>,
)
    requires
        given == token_comments(before),
    ensures
        Piece::dropped(before, given).sound(config),
{
    lemma_comments_one(before);
    assert(Multiset::<TokenView>::empty().add(given) =~= given);
    assert(token_comments(before).add(Multiset::empty()) =~= token_comments(before));
}

/// The piece of an added separator is sound where the separator has no comments.
pub proof fn lemma_added_piece(config: Config, after: TokenReferenceView)
    requires
        token_comments(after) == Multiset::<TokenView>::empty(),
    ensures
        Piece::added(after).sound(config),
{
    lemma_comments_one(after);
}

/// A run of tokens that stays as it is makes a sound piece.
pub proof fn lemma_same(config: Config, all: Seq<TokenReferenceView>, kept: Seq<TokenReferenceView>)
    ensures
        Piece::same(all, kept).sound(config),
{
}

/// A token that stays as it is makes a sound piece.
pub proof fn lemma_same_token(config: Config, token: TokenReferenceView)
    ensures
        Piece::token(token, token, Multiset::empty(), Multiset::empty()).sound(config),
{
}

/// Keeping a token is transitive: a token kept of a kept token is kept.
pub proof fn lemma_atom_kept_twice(config: Config, a: TokenView, b: TokenView, c: TokenView)
    requires
        atom_kept(config, a, b),
        atom_kept(config, b, c),
    ensures
        atom_kept(config, a, c),
{
    crate::quote::lemma_normalized_string_idempotent(a.text, config.quote_style);
}

/// What a sound piece makes of what a sound piece made is a sound piece.
pub proof fn lemma_and_then_to(config: Config, first: Piece, next: Piece)
    requires
        first.sound(config),
        next.sound(config),
        next.before_all == first.after_all,
        next.before_kept == first.after_kept,
    ensures
        first.and_then_to(next).sound(config),
{
    let joined = first.and_then_to(next);
    assert(comments_of(joined.after_all).add(joined.given) =~= comments_of(joined.before_all).add(
        joined.taken,
    )) by {
        assert forall|x: TokenView|
            comments_of(joined.after_all).add(joined.given).count(x) == comments_of(
                joined.before_all,
            ).add(joined.taken).count(x) by {
            assert(comments_of(first.after_all).add(first.given).count(x) == comments_of(
                first.before_all,
            ).add(first.taken).count(x));
            assert(comments_of(next.after_all).add(next.given).count(x) == comments_of(
                next.before_all,
            ).add(next.taken).count(x));
        }
    }
    assert forall|i: int| 0 <= i < joined.before_kept.len() implies atom_kept(
        config,
        (#[trigger] joined.before_kept[i]).token,
        joined.after_kept[i].token,
    ) by {
        assert(atom_kept(config, first.before_kept[i].token, first.after_kept[i].token));
        assert(atom_kept(config, next.before_kept[i].token, next.after_kept[i].token));
        lemma_atom_kept_twice(
            config,
            first.before_kept[i].token,
            first.after_kept[i].token,
            next.after_kept[i].token,
        );
    }
}

/// A sound piece is sound with other comments taken and given, where the
/// difference between those taken and those given is the same.
pub proof fn lemma_with_comments(
    config: Config,
    piece: Piece,
    taken: Multiset<TokenView>,
    given: Multiset<TokenView>,
)
    requires
        piece.sound(config),
        piece.taken.add(given) == piece.given.add(taken),
    ensures
        piece.with_comments(taken, given).sound(config),
{
    let a = comments_of(piece.after_all);
    let b = comments_of(piece.before_all);
    assert(a.add(given) =~= b.add(taken)) by {
        assert forall|x: TokenView| a.add(given).count(x) == b.add(taken).count(x) by {
            assert(a.add(piece.given) == b.add(piece.taken));
            assert(a.add(piece.given).count(x) == a.count(x) + piece.given.count(x));
            assert(b.add(piece.taken).count(x) == b.count(x) + piece.taken.count(x));
            assert(piece.taken.add(given).count(x) == piece.taken.count(x) + given.count(x));
            assert(piece.given.add(taken).count(x) == piece.given.count(x) + taken.count(x));
            assert(a.add(given).count(x) == a.count(x) + given.count(x));
            assert(b.add(taken).count(x) == b.count(x) + taken.count(x));
        }
    }
}

/// What it means that a token is kept: it is of the same kind and stands
/// for the same place in the source; a token that is no string literal has
/// the same text; a string literal between quotes is again one, and denotes
/// what it denoted; any other string literal has the same text.
pub proof fn lemma_atom_kept_means(config: Config, before: TokenView, after: TokenView)
    requires
        atom_kept(config, before, after),
    ensures
        after.kind == before.kind,
        after.start == before.start,
        after.end == before.end,
        before.kind != TokenKind::StringLiteral ==> after.text == before.text,
        !crate::quote::is_short_string(before.text) ==> after.text == before.text,
        crate::quote::is_short_string(before.text) && after.text != before.text
            ==> crate::quote::is_short_string(after.text) && crate::quote::string_units(
            crate::quote::string_content(after.text),
        ) == crate::quote::string_units(crate::quote::string_content(before.text)),
{
    crate::quote::lemma_normalized_string_denotes(before.text, config.quote_style);
}

} // verus!
