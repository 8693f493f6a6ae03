//! The pieces that nodes make: the tokens of a node and the tokens of what
//! was made of the node.

use vstd::multiset::Multiset;
use vstd::prelude::*;
use crate::flatten::{
    block_last_tokens, block_stmts_tokens, block_tokens, else_if_tokens, else_ifs_tokens,
    else_tokens, expression_tokens, field_pairs_tokens, field_tokens, fields_tokens,
    function_args_tokens, function_body_tokens, if_tokens, last_stmt_tokens, pairs_tokens,
    prefix_tokens, punctuated_tokens, step_tokens, stmt_tokens, suffix_tokens, suffixes_tokens,
    table_tokens,
};
use crate::laws::{kept, token_comments, Piece};
use crate::config::Config;
use crate::token::{TokenReferenceView, TokenView};
use crate::view::{
    BlockLastStmtView, BlockStmtView, BlockView, ElseIfView, ElseView, ExpressionView,
    FieldPairView, FieldView, ForStepView, FunctionArgsView, FunctionBodyView, IfView,
    LastStmtView, PairView, PrefixView, PunctuatedView, StmtView, SuffixView,
    TableConstructorView,
};

verus! {

/// The piece of an expression and of what was made of it.
pub open spec fn expression_piece(
    before: ExpressionView,
    after: ExpressionView,
    taken: Multiset<TokenView>,
    given: Multiset<TokenView>,
) -> Piece {
    Piece {
        before_all: expression_tokens(before, true),
        before_kept: expression_tokens(before, false),
        after_all: expression_tokens(after, true),
        after_kept: expression_tokens(after, false),
        taken,
        given,
    }
}

/// The piece of a prefix and of what was made of it.
pub open spec fn prefix_piece(
    before: PrefixView,
    after: PrefixView,
    taken: Multiset<TokenView>,
    given: Multiset<TokenView>,
) -> Piece {
    Piece {
        before_all: prefix_tokens(before, true),
        before_kept: prefix_tokens(before, false),
        after_all: prefix_tokens(after, true),
        after_kept: prefix_tokens(after, false),
        taken,
        given,
    }
}

/// The piece of a suffix and of what was made of it.
pub open spec fn suffix_piece(
    before: SuffixView,
    after: SuffixView,
    taken: Multiset<TokenView>,
    given: Multiset<TokenView>,
) -> Piece {
    Piece {
        before_all: suffix_tokens(before, true),
        before_kept: suffix_tokens(before, false),
        after_all: suffix_tokens(after, true),
        after_kept: suffix_tokens(after, false),
        taken,
        given,
    }
}

/// The piece of a run of suffixes and of what was made of it.
pub open spec fn suffixes_piece(
    before: Seq<SuffixView>,
    after: Seq<SuffixView>,
    taken: Multiset<TokenView>,
    given: Multiset<TokenView>,
) -> Piece {
    Piece {
        before_all: suffixes_tokens(before, true),
        before_kept: suffixes_tokens(before, false),
        after_all: suffixes_tokens(after, true),
        after_kept: suffixes_tokens(after, false),
        taken,
        given,
    }
}

/// The piece of the arguments of a call and of what was made of it.
pub open spec fn function_args_piece(
    before: FunctionArgsView,
    after: FunctionArgsView,
    taken: Multiset<TokenView>,
    given: Multiset<TokenView>,
) -> Piece {
    Piece {
        before_all: function_args_tokens(before, true),
        before_kept: function_args_tokens(before, false),
        after_all: function_args_tokens(after, true),
        after_kept: function_args_tokens(after, false),
        taken,
        given,
    }
}

/// The piece of a separated list and of what was made of it.
pub open spec fn punctuated_piece(
    before: PunctuatedView,
    after: PunctuatedView,
    taken: Multiset<TokenView>,
    given: Multiset<TokenView>,
) -> Piece {
    Piece {
        before_all: punctuated_tokens(before, true),
        before_kept: punctuated_tokens(before, false),
        after_all: punctuated_tokens(after, true),
        after_kept: punctuated_tokens(after, false),
        taken,
        given,
    }
}

/// The piece of the elements of a list, each with its separator and of what was made of it.
pub open spec fn pairs_piece(
    before: Seq<PairView>,
    after: Seq<PairView>,
    taken: Multiset<TokenView>,
    given: Multiset<TokenView>,
) -> Piece {
    Piece {
        before_all: pairs_tokens(before, true),
        before_kept: pairs_tokens(before, false),
        after_all: pairs_tokens(after, true),
        after_kept: pairs_tokens(after, false),
        taken,
        given,
    }
}

/// The piece of a field and of what was made of it.
pub open spec fn field_piece(
    before: FieldView,
    after: FieldView,
    taken: Multiset<TokenView>,
    given: Multiset<TokenView>,
) -> Piece {
    Piece {
        before_all: field_tokens(before, true),
        before_kept: field_tokens(before, false),
        after_all: field_tokens(after, true),
        after_kept: field_tokens(after, false),
        taken,
        given,
    }
}

/// The piece of the fields of a table, each with its separator and of what was made of it.
pub open spec fn field_pairs_piece(
    before: Seq<FieldPairView>,
    after: Seq<FieldPairView>,
    taken: Multiset<TokenView>,
    given: Multiset<TokenView>,
) -> Piece {
    Piece {
        before_all: field_pairs_tokens(before, true),
        before_kept: field_pairs_tokens(before, false),
        after_all: field_pairs_tokens(after, true),
        after_kept: field_pairs_tokens(after, false),
        taken,
        given,
    }
}

/// The piece of the fields of a table and of what was made of it.
pub open spec fn fields_piece(
    before: Seq<FieldPairView>,
    after: Seq<FieldPairView>,
    taken: Multiset<TokenView>,
    given: Multiset<TokenView>,
) -> Piece {
    Piece {
        before_all: fields_tokens(before, true),
        before_kept: fields_tokens(before, false),
        after_all: fields_tokens(after, true),
        after_kept: fields_tokens(after, false),
        taken,
        given,
    }
}

/// The piece of a table constructor and of what was made of it.
pub open spec fn table_piece(
    before: TableConstructorView,
    after: TableConstructorView,
    taken: Multiset<TokenView>,
    given: Multiset<TokenView>,
) -> Piece {
    Piece {
        before_all: table_tokens(before, true),
        before_kept: table_tokens(before, false),
        after_all: table_tokens(after, true),
        after_kept: table_tokens(after, false),
        taken,
        given,
    }
}

/// The piece of a function body and of what was made of it.
pub open spec fn function_body_piece(
    before: FunctionBodyView,
    after: FunctionBodyView,
    taken: Multiset<TokenView>,
    given: Multiset<TokenView>,
) -> Piece {
    Piece {
        before_all: function_body_tokens(before, true),
        before_kept: function_body_tokens(before, false),
        after_all: function_body_tokens(after, true),
        after_kept: function_body_tokens(after, false),
        taken,
        given,
    }
}

/// The piece of a block and of what was made of it.
pub open spec fn block_piece(
    before: BlockView,
    after: BlockView,
    taken: Multiset<TokenView>,
    given: Multiset<TokenView>,
) -> Piece {
    Piece {
        before_all: block_tokens(before, true),
        before_kept: block_tokens(before, false),
        after_all: block_tokens(after, true),
        after_kept: block_tokens(after, false),
        taken,
        given,
    }
}

/// The piece of a run of statements and of what was made of it.
pub open spec fn block_stmts_piece(
    before: Seq<BlockStmtView>,
    after: Seq<BlockStmtView>,
    taken: Multiset<TokenView>,
    given: Multiset<TokenView>,
) -> Piece {
    Piece {
        before_all: block_stmts_tokens(before, true),
        before_kept: block_stmts_tokens(before, false),
        after_all: block_stmts_tokens(after, true),
        after_kept: block_stmts_tokens(after, false),
        taken,
        given,
    }
}

/// The piece of a closing statement and of what was made of it.
pub open spec fn last_stmt_piece(
    before: LastStmtView,
    after: LastStmtView,
    taken: Multiset<TokenView>,
    given: Multiset<TokenView>,
) -> Piece {
    Piece {
        before_all: last_stmt_tokens(before, true),
        before_kept: last_stmt_tokens(before, false),
        after_all: last_stmt_tokens(after, true),
        after_kept: last_stmt_tokens(after, false),
        taken,
        given,
    }
}

/// The piece of the closing statement of a block and of what was made of it.
pub open spec fn block_last_piece(
    before: Option<Box<BlockLastStmtView>>,
    after: Option<Box<BlockLastStmtView>>,
    taken: Multiset<TokenView>,
    given: Multiset<TokenView>,
) -> Piece {
    Piece {
        before_all: block_last_tokens(before, true),
        before_kept: block_last_tokens(before, false),
        after_all: block_last_tokens(after, true),
        after_kept: block_last_tokens(after, false),
        taken,
        given,
    }
}

/// The piece of a statement and of what was made of it.
pub open spec fn stmt_piece(
    before: StmtView,
    after: StmtView,
    taken: Multiset<TokenView>,
    given: Multiset<TokenView>,
) -> Piece {
    Piece {
        before_all: stmt_tokens(before, true),
        before_kept: stmt_tokens(before, false),
        after_all: stmt_tokens(after, true),
        after_kept: stmt_tokens(after, false),
        taken,
        given,
    }
}

/// The piece of an `elseif` branch and of what was made of it.
pub open spec fn else_if_piece(
    before: ElseIfView,
    after: ElseIfView,
    taken: Multiset<TokenView>,
    given: Multiset<TokenView>,
) -> Piece {
    Piece {
        before_all: else_if_tokens(before, true),
        before_kept: else_if_tokens(before, false),
        after_all: else_if_tokens(after, true),
        after_kept: else_if_tokens(after, false),
        taken,
        given,
    }
}

/// The piece of a run of `elseif` branches and of what was made of it.
pub open spec fn else_ifs_piece(
    before: Seq<ElseIfView>,
    after: Seq<ElseIfView>,
    taken: Multiset<TokenView>,
    given: Multiset<TokenView>,
) -> Piece {
    Piece {
        before_all: else_ifs_tokens(before, true),
        before_kept: else_ifs_tokens(before, false),
        after_all: else_ifs_tokens(after, true),
        after_kept: else_ifs_tokens(after, false),
        taken,
        given,
    }
}

/// The piece of an `else` branch and of what was made of it.
pub open spec fn else_piece(
    before: Option<ElseView>,
    after: Option<ElseView>,
    taken: Multiset<TokenView>,
    given: Multiset<TokenView>,
) -> Piece {
    Piece {
        before_all: else_tokens(before, true),
        before_kept: else_tokens(before, false),
        after_all: else_tokens(after, true),
        after_kept: else_tokens(after, false),
        taken,
        given,
    }
}

/// The piece of the step of a numeric `for` and of what was made of it.
pub open spec fn step_piece(
    before: Option<ForStepView>,
    after: Option<ForStepView>,
    taken: Multiset<TokenView>,
    given: Multiset<TokenView>,
) -> Piece {
    Piece {
        before_all: step_tokens(before, true),
        before_kept: step_tokens(before, false),
        after_all: step_tokens(after, true),
        after_kept: step_tokens(after, false),
        taken,
        given,
    }
}

/// The piece of an `if` statement and of what was made of it.
pub open spec fn if_piece(
    before: IfView,
    after: IfView,
    taken: Multiset<TokenView>,
    given: Multiset<TokenView>,
) -> Piece {
    Piece {
        before_all: if_tokens(before, true),
        before_kept: if_tokens(before, false),
        after_all: if_tokens(after, true),
        after_kept: if_tokens(after, false),
        taken,
        given,
    }
}

/// A sound piece shows that another piece is sound that has its tokens and
/// the same difference between the comments taken and those given.
pub proof fn lemma_conclude(config: Config, whole: Piece, target: Piece)
    requires
        whole.sound(config),
        whole.before_all == target.before_all,
        whole.before_kept == target.before_kept,
        whole.after_all == target.after_all,
        whole.after_kept == target.after_kept,
        whole.taken.add(target.given) == whole.given.add(target.taken),
    ensures
        target.sound(config),
{
    crate::laws::lemma_with_comments(config, whole, target.taken, target.given);
    assert(whole.with_comments(target.taken, target.given) == target);
}

/// The piece of a token with trivia appended in front of it.
pub proof fn lemma_lead_piece(config: Config, token: TokenReferenceView, list: Seq<TokenView>)
    ensures
        Piece::token(
            token,
            crate::edges::lead(token, crate::trivia::FormatTriviaTypeView::Append(list)),
            kept(list),
            Multiset::empty(),
        ).sound(config),
{
    let edit = crate::trivia::FormatTriviaTypeView::Append(list);
    crate::token_laws::lemma_with_trivia(
        token,
        edit,
        crate::trivia::FormatTriviaTypeView::NoChange,
    );
    crate::laws::lemma_kept_few(
        crate::trivia::space(),
        crate::trivia::space(),
        crate::trivia::space(),
    );
    assert(token_comments(crate::edges::lead(token, edit)).add(Multiset::empty())
        =~= token_comments(token).add(kept(list)));
    crate::laws::lemma_token_piece(
        config,
        token,
        crate::edges::lead(token, edit),
        kept(list),
        Multiset::empty(),
    );
}

/// The piece of a token with trivia appended behind it.
pub proof fn lemma_trail_piece(config: Config, token: TokenReferenceView, list: Seq<TokenView>)
    ensures
        Piece::token(
            token,
            crate::edges::trail(token, crate::trivia::FormatTriviaTypeView::Append(list)),
            kept(list),
            Multiset::empty(),
        ).sound(config),
{
    let edit = crate::trivia::FormatTriviaTypeView::Append(list);
    crate::token_laws::lemma_with_trivia(
        token,
        crate::trivia::FormatTriviaTypeView::NoChange,
        edit,
    );
    crate::laws::lemma_kept_few(
        crate::trivia::space(),
        crate::trivia::space(),
        crate::trivia::space(),
    );
    assert(token_comments(crate::edges::trail(token, edit)).add(Multiset::empty())
        =~= token_comments(token).add(kept(list)));
    crate::laws::lemma_token_piece(
        config,
        token,
        crate::edges::trail(token, edit),
        kept(list),
        Multiset::empty(),
    );
}

/// The piece of a formatted symbol.
pub proof fn lemma_symbol_piece(
    config: Config,
    state: crate::formatter::FormatterState,
    token: TokenReferenceView,
    space_before: bool,
    space_after: bool,
)
    requires
        state.config == config,
    ensures
        Piece::token(
            token,
            state.format_symbol(token, space_before, space_after),
            Multiset::empty(),
            Multiset::empty(),
        ).sound(config),
{
    crate::token_laws::lemma_format_symbol(state, token, space_before, space_after);
    crate::laws::lemma_token_piece(
        config,
        token,
        state.format_symbol(token, space_before, space_after),
        Multiset::empty(),
        Multiset::empty(),
    );
}

/// The piece of a formatted token.
pub proof fn lemma_reference_piece(
    config: Config,
    state: crate::formatter::FormatterState,
    token: TokenReferenceView,
)
    requires
        state.config == config,
    ensures
        Piece::token(
            token,
            state.format_token_reference(token),
            Multiset::empty(),
            Multiset::empty(),
        ).sound(config),
{
    crate::token_laws::lemma_format_token_reference(state, token);
    crate::laws::lemma_token_piece(
        config,
        token,
        state.format_token_reference(token),
        Multiset::empty(),
        Multiset::empty(),
    );
}

/// The piece of a formatted closing token.
pub proof fn lemma_end_piece(
    config: Config,
    state: crate::formatter::FormatterState,
    token: TokenReferenceView,
    kind: crate::formatter::EndTokenType,
)
    requires
        state.config == config,
    ensures
        Piece::token(
            token,
            state.format_end_token(token, kind),
            Multiset::empty(),
            Multiset::empty(),
        ).sound(config),
{
    crate::token_laws::lemma_format_end_token(state, token, kind);
    crate::laws::lemma_token_piece(
        config,
        token,
        state.format_end_token(token, kind),
        Multiset::empty(),
        Multiset::empty(),
    );
}

/// The piece of a token whose trivia are edited after it was formatted: the
/// comments that the edits append are brought to it.
pub proof fn lemma_token_edit(
    config: Config,
    before: TokenReferenceView,
    formatted: TokenReferenceView,
    leading: crate::trivia::FormatTriviaTypeView,
    trailing: crate::trivia::FormatTriviaTypeView,
)
    requires
        Piece::token(before, formatted, Multiset::empty(), Multiset::empty()).sound(config),
        !(leading is Replace),
        !(trailing is Replace),
    ensures
        Piece::token(
            before,
            crate::trivia::with_trivia(formatted, leading, trailing),
            kept(crate::token_laws::added_by(leading)).add(
                kept(crate::token_laws::added_by(trailing)),
            ),
            Multiset::empty(),
        ).sound(config),
{
    crate::token_laws::lemma_with_trivia(formatted, leading, trailing);
    crate::laws::lemma_comments_one(before);
    crate::laws::lemma_comments_one(formatted);
    let edited = crate::trivia::with_trivia(formatted, leading, trailing);
    let taken = kept(crate::token_laws::added_by(leading)).add(
        kept(crate::token_laws::added_by(trailing)),
    );
    assert(token_comments(edited).add(Multiset::empty()) =~= token_comments(before).add(taken)) by {
        assert(token_comments(formatted).add(Multiset::empty()) == token_comments(before).add(
            Multiset::empty(),
        ));
        assert(token_comments(formatted).add(Multiset::empty()) =~= token_comments(formatted));
        assert(token_comments(before).add(Multiset::empty()) =~= token_comments(before));
    }
    assert(crate::laws::atom_kept(config, before.token, edited.token)) by {
        assert(crate::laws::atom_kept(config, seq![before][0].token, seq![formatted][0].token));
    }
    crate::laws::lemma_token_piece(config, before, edited, taken, Multiset::empty());
}

/// The piece of the separator between two elements on one line: the
/// comments behind it are given away.
pub proof fn lemma_separator_piece(
    config: Config,
    state: crate::formatter::FormatterState,
    separator: TokenReferenceView,
)
    requires
        state.config == config,
    ensures
        Piece::token(
            separator,
            crate::layout::list_separator(state, separator),
            Multiset::empty(),
            kept(crate::formatter::format_trailing(separator.trailing)),
        ).sound(config),
{
    crate::token_laws::lemma_list_separator(state, separator);
    assert(token_comments(separator).add(Multiset::empty()) =~= token_comments(separator));
    crate::laws::lemma_token_piece(
        config,
        separator,
        crate::layout::list_separator(state, separator),
        Multiset::empty(),
        kept(crate::formatter::format_trailing(separator.trailing)),
    );
}

/// The piece of the separator behind the last element of a list on one
/// line, which is not written out: all its comments are given away.
pub proof fn lemma_dropped_separator(config: Config, separator: TokenReferenceView)
    ensures
        Piece::dropped(separator, kept(crate::layout::dropped_comments(separator))).sound(config),
{
    crate::token_laws::lemma_dropped_comments(separator);
    crate::laws::lemma_dropped_piece(
        config,
        separator,
        kept(crate::layout::dropped_comments(separator)),
    );
}

/// The piece of a keyword in front of a condition or behind it.
pub proof fn lemma_condition_pieces(
    config: Config,
    state: crate::formatter::FormatterState,
    token: TokenReferenceView,
    extra: Option<usize>,
    multiline: bool,
)
    requires
        state.config == config,
    ensures
        Piece::token(
            token,
            crate::layout::condition_opener(state, token, extra, multiline),
            Multiset::empty(),
            Multiset::empty(),
        ).sound(config),
        Piece::token(
            token,
            crate::layout::condition_closer(state, token, extra, multiline),
            Multiset::empty(),
            Multiset::empty(),
        ).sound(config),
{
    crate::token_laws::lemma_condition_tokens(state, token, extra, multiline);
    crate::laws::lemma_token_piece(
        config,
        token,
        crate::layout::condition_opener(state, token, extra, multiline),
        Multiset::empty(),
        Multiset::empty(),
    );
    crate::laws::lemma_token_piece(
        config,
        token,
        crate::layout::condition_closer(state, token, extra, multiline),
        Multiset::empty(),
        Multiset::empty(),
    );
}

} // verus!
