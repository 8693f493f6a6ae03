//! The values of vectors of nodes, and taking a vector apart from its front.

use vstd::prelude::*;
use crate::ast::{BlockStmt, ElseIf, FieldPair, Pair, Suffix};
use crate::view::{
    view_block_stmt, view_block_stmts, view_else_if, view_else_ifs, view_field_pair,
    view_field_pairs, view_pair, view_pairs, view_suffix, view_suffixes, BlockStmtView, ElseIfView,
    FieldPairView, PairView, SuffixView,
};

verus! {

/// The elements of `v` in reverse order, so that popping gives them from the front.
pub fn reversed<T>(v: Vec<T>) -> (r: Vec<T>)
    ensures
        r@.len() == v@.len(),
        forall|k: int| 0 <= k < v@.len() ==> r@[k] == v@[v@.len() - 1 - k],
{
    let ghost whole = v@;
    let mut v = v;
    let mut r: Vec<T> = Vec::new();
    while v.len() > 0
        invariant
            r@.len() + v@.len() == whole.len(),
            v@ == whole.take(v@.len() as int),
            forall|k: int| 0 <= k < r@.len() ==> r@[k] == whole[whole.len() - 1 - k],
        decreases v.len(),
    {
        let x = v.pop().unwrap();
        r.push(x);
        assert(v@ =~= whole.take(v@.len() as int));
    }
    r
}

/// The values of the elements of a list are those of its pairs, one by one.
#[verifier::spinoff_prover]
pub proof fn lemma_view_pairs(pairs: Vec<Pair>)
    ensures
        view_pairs(pairs).len() == pairs.len(),
        forall|i: int| 0 <= i < pairs.len() ==> #[trigger] view_pairs(pairs)[i] == view_pair(pairs[i]),
{
    reveal(view_pairs);
}

/// The values of a list that has grown by one element.
#[verifier::spinoff_prover]
pub proof fn lemma_view_pairs_push(before: Vec<Pair>, pair: Pair, after: Vec<Pair>)
    requires
        after@ == before@.push(pair),
    ensures
        view_pairs(after) == view_pairs(before).push(view_pair(pair)),
{
    reveal(view_pairs);
    assert(view_pairs(after) =~= view_pairs(before).push(view_pair(pair)));
}

/// An empty list has no values.
#[verifier::spinoff_prover]
pub proof fn lemma_view_pairs_empty(pairs: Vec<Pair>)
    requires
        pairs@.len() == 0,
    ensures
        view_pairs(pairs) == Seq::<PairView>::empty(),
{
    reveal(view_pairs);
    assert(view_pairs(pairs) =~= Seq::<PairView>::empty());
}

/// The values of the fields of a table are those of its pairs, one by one.
#[verifier::spinoff_prover]
pub proof fn lemma_view_field_pairs(fields: Vec<FieldPair>)
    ensures
        view_field_pairs(fields).len() == fields.len(),
        forall|i: int|
            0 <= i < fields.len() ==> #[trigger] view_field_pairs(fields)[i] == view_field_pair(
                fields[i],
            ),
{
    reveal(view_field_pairs);
}

/// The values of the fields of a table that has grown by one field.
#[verifier::spinoff_prover]
pub proof fn lemma_view_field_pairs_push(
    before: Vec<FieldPair>,
    pair: FieldPair,
    after: Vec<FieldPair>,
)
    requires
        after@ == before@.push(pair),
    ensures
        view_field_pairs(after) == view_field_pairs(before).push(view_field_pair(pair)),
{
    reveal(view_field_pairs);
    assert(view_field_pairs(after) =~= view_field_pairs(before).push(view_field_pair(pair)));
}

/// A table without fields has no values.
#[verifier::spinoff_prover]
pub proof fn lemma_view_field_pairs_empty(fields: Vec<FieldPair>)
    requires
        fields@.len() == 0,
    ensures
        view_field_pairs(fields) == Seq::<FieldPairView>::empty(),
{
    reveal(view_field_pairs);
    assert(view_field_pairs(fields) =~= Seq::<FieldPairView>::empty());
}

/// The values of a run of suffixes are those of the suffixes, one by one.
#[verifier::spinoff_prover]
pub proof fn lemma_view_suffixes(suffixes: Vec<Suffix>)
    ensures
        view_suffixes(suffixes).len() == suffixes.len(),
        forall|i: int|
            0 <= i < suffixes.len() ==> #[trigger] view_suffixes(suffixes)[i] == view_suffix(
                suffixes[i],
            ),
{
    reveal(view_suffixes);
}

/// The values of a run of suffixes that has grown by one.
#[verifier::spinoff_prover]
pub proof fn lemma_view_suffixes_push(before: Vec<Suffix>, suffix: Suffix, after: Vec<Suffix>)
    requires
        after@ == before@.push(suffix),
    ensures
        view_suffixes(after) == view_suffixes(before).push(view_suffix(suffix)),
{
    reveal(view_suffixes);
    assert(view_suffixes(after) =~= view_suffixes(before).push(view_suffix(suffix)));
}

/// An empty run of suffixes has no values.
#[verifier::spinoff_prover]
pub proof fn lemma_view_suffixes_empty(suffixes: Vec<Suffix>)
    requires
        suffixes@.len() == 0,
    ensures
        view_suffixes(suffixes) == Seq::<SuffixView>::empty(),
{
    reveal(view_suffixes);
    assert(view_suffixes(suffixes) =~= Seq::<SuffixView>::empty());
}

/// The values of the statements of a block are those of the statements, one by one.
#[verifier::spinoff_prover]
pub proof fn lemma_view_block_stmts(stmts: Vec<BlockStmt>)
    ensures
        view_block_stmts(stmts).len() == stmts.len(),
        forall|i: int|
            0 <= i < stmts.len() ==> #[trigger] view_block_stmts(stmts)[i] == view_block_stmt(
                stmts[i],
            ),
{
    reveal(view_block_stmts);
}

/// The values of the statements of a block that has grown by one statement.
#[verifier::spinoff_prover]
pub proof fn lemma_view_block_stmts_push(
    before: Vec<BlockStmt>,
    stmt: BlockStmt,
    after: Vec<BlockStmt>,
)
    requires
        after@ == before@.push(stmt),
    ensures
        view_block_stmts(after) == view_block_stmts(before).push(view_block_stmt(stmt)),
{
    reveal(view_block_stmts);
    assert(view_block_stmts(after) =~= view_block_stmts(before).push(view_block_stmt(stmt)));
}

/// A block without statements has no values.
#[verifier::spinoff_prover]
pub proof fn lemma_view_block_stmts_empty(stmts: Vec<BlockStmt>)
    requires
        stmts@.len() == 0,
    ensures
        view_block_stmts(stmts) == Seq::<BlockStmtView>::empty(),
{
    reveal(view_block_stmts);
    assert(view_block_stmts(stmts) =~= Seq::<BlockStmtView>::empty());
}

/// The values of a run of `elseif` branches are those of the branches, one by one.
#[verifier::spinoff_prover]
pub proof fn lemma_view_else_ifs(branches: Vec<ElseIf>)
    ensures
        view_else_ifs(branches).len() == branches.len(),
        forall|i: int|
            0 <= i < branches.len() ==> #[trigger] view_else_ifs(branches)[i] == view_else_if(
                branches[i],
            ),
{
    reveal(view_else_ifs);
}

/// The values of a run of `elseif` branches that has grown by one.
#[verifier::spinoff_prover]
pub proof fn lemma_view_else_ifs_push(before: Vec<ElseIf>, branch: ElseIf, after: Vec<ElseIf>)
    requires
        after@ == before@.push(branch),
    ensures
        view_else_ifs(after) == view_else_ifs(before).push(view_else_if(branch)),
{
    reveal(view_else_ifs);
    assert(view_else_ifs(after) =~= view_else_ifs(before).push(view_else_if(branch)));
}

/// An empty run of `elseif` branches has no values.
#[verifier::spinoff_prover]
pub proof fn lemma_view_else_ifs_empty(branches: Vec<ElseIf>)
    requires
        branches@.len() == 0,
    ensures
        view_else_ifs(branches) == Seq::<ElseIfView>::empty(),
{
    reveal(view_else_ifs);
    assert(view_else_ifs(branches) =~= Seq::<ElseIfView>::empty());
}

} // verus!
