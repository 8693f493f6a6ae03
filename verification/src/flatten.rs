//! The tokens of a node, in the order in which they are written out.

use vstd::prelude::*;
use crate::sequences::{
    lemma_add_empty, lemma_gather, lemma_push_last, lemma_take_ends, lemma_take_next,
};
use crate::ast::{
    Block, BlockLastStmt, BlockStmt, Else, ElseIf, Expression, Field, FieldPair, ForStep,
    FunctionArgs, FunctionBody, If, LastStmt, Pair, Prefix, Punctuated, Stmt, Suffix,
    TableConstructor,
};
use crate::token::{lemma_references_view_push, references_view, TokenReference, TokenReferenceView};
use crate::view::{
    view_block, view_block_last, view_block_stmt, view_block_stmts, view_else, view_else_if,
    view_else_ifs, view_expression, view_field, view_field_pair, view_field_pairs,
    view_function_args, view_function_body, view_if, view_last_stmt, view_optional, view_pair,
    view_pairs, view_prefix, view_punctuated, view_step, view_stmt, view_suffix, view_suffixes,
    view_table, AstView, BlockLastStmtView, BlockStmtView, BlockView, ElseIfView, ElseView,
    ExpressionView, FieldPairView, FieldView, ForStepView, FunctionArgsView, FunctionBodyView,
    IfView, LastStmtView, PairView, PrefixView, PunctuatedView, StmtView, SuffixedView, SuffixView,
    TableConstructorView,
};

verus! {

/// The token that may be absent, as a sequence of one or none.
pub open spec fn optional_token(token: Option<TokenReferenceView>) -> Seq<TokenReferenceView> {
    match token {
        Some(token) => seq![token],
        None => Seq::empty(),
    }
}

/// The tokens of an expression. With `all` every token counts. Without it a
/// separator behind the last element of a list does not: the sequence is then
/// the same for two trees that differ only in such separators.
#[verifier::opaque]
pub open spec fn expression_tokens(e: ExpressionView, all: bool) -> Seq<TokenReferenceView>
    decreases e,
{
    match e {
        ExpressionView::Number(t) => seq![t],
        ExpressionView::String(t) => seq![t],
        ExpressionView::Symbol(t) => seq![t],
        ExpressionView::Name(t) => seq![t],
        ExpressionView::Parentheses { open, expression, close } => seq![open] + expression_tokens(
            *expression,
            all,
        ) + seq![close],
        ExpressionView::UnaryOperator { operator, expression } => seq![operator]
            + expression_tokens(*expression, all),
        ExpressionView::BinaryOperator { lhs, operator, rhs } => expression_tokens(*lhs, all)
            + seq![operator] + expression_tokens(*rhs, all),
        ExpressionView::Function { function_token, body } => seq![function_token]
            + function_body_tokens(body, all),
        ExpressionView::FunctionCall(call) => prefix_tokens(call.prefix, all) + suffixes_tokens(
            call.suffixes,
            all,
        ),
        ExpressionView::Var(var) => prefix_tokens(var.prefix, all) + suffixes_tokens(
            var.suffixes,
            all,
        ),
        ExpressionView::TableConstructor(table) => table_tokens(table, all),
    }
}

/// The tokens of the elements of a list, each with its separator.
#[verifier::opaque]
pub open spec fn pairs_tokens(pairs: Seq<PairView>, all: bool) -> Seq<TokenReferenceView>
    decreases pairs,
{
    if pairs.len() == 0 {
        Seq::empty()
    } else {
        pairs_tokens(pairs.drop_last(), all) + expression_tokens(pairs.last().value, all)
            + optional_token(pairs.last().separator)
    }
}

/// The tokens of a separated list.
#[verifier::opaque]
pub open spec fn punctuated_tokens(list: PunctuatedView, all: bool) -> Seq<TokenReferenceView>
    decreases list,
{
    if all {
        pairs_tokens(list.pairs, all)
    } else if list.pairs.len() == 0 {
        Seq::empty()
    } else {
        pairs_tokens(list.pairs.drop_last(), all) + expression_tokens(
            list.pairs.last().value,
            all,
        )
    }
}

#[verifier::opaque]
pub open spec fn prefix_tokens(prefix: PrefixView, all: bool) -> Seq<TokenReferenceView>
    decreases prefix,
{
    match prefix {
        PrefixView::Name(t) => seq![t],
        PrefixView::Expression(e) => expression_tokens(*e, all),
    }
}

#[verifier::opaque]
pub open spec fn suffix_tokens(suffix: SuffixView, all: bool) -> Seq<TokenReferenceView>
    decreases suffix,
{
    match suffix {
        SuffixView::Dot { dot, name } => seq![dot] + seq![name],
        SuffixView::Brackets { open, expression, close } => seq![open] + expression_tokens(
            expression,
            all,
        ) + seq![close],
        SuffixView::Call(args) => function_args_tokens(args, all),
        SuffixView::MethodCall { colon, name, args } => seq![colon] + seq![name] + function_args_tokens(
            args,
            all,
        ),
    }
}

#[verifier::opaque]
pub open spec fn suffixes_tokens(suffixes: Seq<SuffixView>, all: bool) -> Seq<TokenReferenceView>
    decreases suffixes,
{
    if suffixes.len() == 0 {
        Seq::empty()
    } else {
        suffixes_tokens(suffixes.drop_last(), all) + suffix_tokens(suffixes.last(), all)
    }
}

/// The tokens of a call or of an indexed expression.
pub open spec fn suffixed_tokens(node: SuffixedView, all: bool) -> Seq<TokenReferenceView> {
    prefix_tokens(node.prefix, all) + suffixes_tokens(node.suffixes, all)
}

#[verifier::opaque]
pub open spec fn function_args_tokens(args: FunctionArgsView, all: bool) -> Seq<
    TokenReferenceView,
>
    decreases args,
{
    match args {
        FunctionArgsView::Parentheses { open, arguments, close } => seq![open] + punctuated_tokens(
            arguments,
            all,
        ) + seq![close],
        FunctionArgsView::String(t) => seq![t],
        FunctionArgsView::TableConstructor(table) => table_tokens(table, all),
    }
}

#[verifier::opaque]
pub open spec fn field_tokens(field: FieldView, all: bool) -> Seq<TokenReferenceView>
    decreases field,
{
    match field {
        FieldView::ExpressionKey { open, key, close, equal, value } => seq![open]
            + expression_tokens(key, all) + seq![close] + seq![equal] + expression_tokens(
                value,
                all,
            ),
        FieldView::NameKey { name, equal, value } => seq![name] + seq![equal] + expression_tokens(
            value,
            all,
        ),
        FieldView::NoKey(value) => expression_tokens(value, all),
    }
}

/// The tokens of the fields of a table, each with its separator.
#[verifier::opaque]
pub open spec fn field_pairs_tokens(fields: Seq<FieldPairView>, all: bool) -> Seq<
    TokenReferenceView,
>
    decreases fields, 0nat,
{
    if fields.len() == 0 {
        Seq::empty()
    } else {
        field_pairs_tokens(fields.drop_last(), all) + field_tokens(fields.last().field, all)
            + optional_token(fields.last().separator)
    }
}

/// The tokens of the fields of a table.
#[verifier::opaque]
pub open spec fn fields_tokens(fields: Seq<FieldPairView>, all: bool) -> Seq<TokenReferenceView>
    decreases fields, 1nat,
{
    if all {
        field_pairs_tokens(fields, all)
    } else if fields.len() == 0 {
        Seq::empty()
    } else {
        field_pairs_tokens(fields.drop_last(), all) + field_tokens(fields.last().field, all)
    }
}

#[verifier::opaque]
pub open spec fn table_tokens(table: TableConstructorView, all: bool) -> Seq<TokenReferenceView>
    decreases table,
{
    seq![table.open] + fields_tokens(table.fields, all) + seq![table.close]
}

#[verifier::opaque]
pub open spec fn function_body_tokens(body: FunctionBodyView, all: bool) -> Seq<
    TokenReferenceView,
>
    decreases body,
{
    seq![body.open] + punctuated_tokens(body.parameters, all) + seq![body.close] + block_tokens(
        body.block,
        all,
    ) + seq![body.end_token]
}

#[verifier::opaque]
pub open spec fn block_stmts_tokens(stmts: Seq<BlockStmtView>, all: bool) -> Seq<
    TokenReferenceView,
>
    decreases stmts,
{
    if stmts.len() == 0 {
        Seq::empty()
    } else {
        block_stmts_tokens(stmts.drop_last(), all) + stmt_tokens(stmts.last().stmt, all)
            + optional_token(stmts.last().semicolon)
    }
}

#[verifier::opaque]
pub open spec fn last_stmt_tokens(stmt: LastStmtView, all: bool) -> Seq<TokenReferenceView>
    decreases stmt,
{
    match stmt {
        LastStmtView::Break(t) => seq![t],
        LastStmtView::Return { token, values } => seq![token] + punctuated_tokens(values, all),
    }
}

#[verifier::opaque]
pub open spec fn block_last_tokens(last: Option<Box<BlockLastStmtView>>, all: bool) -> Seq<
    TokenReferenceView,
>
    decreases last,
{
    match last {
        Some(last) => last_stmt_tokens(last.stmt, all) + optional_token(last.semicolon),
        None => Seq::empty(),
    }
}

#[verifier::opaque]
pub open spec fn block_tokens(block: BlockView, all: bool) -> Seq<TokenReferenceView>
    decreases block,
{
    block_stmts_tokens(block.stmts, all) + block_last_tokens(block.last_stmt, all)
}

#[verifier::opaque]
pub open spec fn else_if_tokens(branch: ElseIfView, all: bool) -> Seq<TokenReferenceView>
    decreases branch,
{
    seq![branch.else_if_token] + expression_tokens(branch.condition, all) + seq![
        branch.then_token,
    ] + block_tokens(branch.block, all)
}

#[verifier::opaque]
pub open spec fn else_ifs_tokens(branches: Seq<ElseIfView>, all: bool) -> Seq<TokenReferenceView>
    decreases branches,
{
    if branches.len() == 0 {
        Seq::empty()
    } else {
        else_ifs_tokens(branches.drop_last(), all) + else_if_tokens(branches.last(), all)
    }
}

#[verifier::opaque]
pub open spec fn else_tokens(branch: Option<ElseView>, all: bool) -> Seq<TokenReferenceView>
    decreases branch,
{
    match branch {
        Some(branch) => seq![branch.else_token] + block_tokens(branch.block, all),
        None => Seq::empty(),
    }
}

#[verifier::opaque]
pub open spec fn step_tokens(step: Option<ForStepView>, all: bool) -> Seq<TokenReferenceView>
    decreases step,
{
    match step {
        Some(step) => seq![step.comma] + expression_tokens(step.step, all),
        None => Seq::empty(),
    }
}

#[verifier::opaque]
pub open spec fn if_tokens(node: IfView, all: bool) -> Seq<TokenReferenceView>
    decreases node,
{
    seq![node.if_token] + expression_tokens(node.condition, all) + seq![node.then_token]
        + block_tokens(node.block, all) + else_ifs_tokens(node.else_if, all) + else_tokens(
        node.else_branch,
        all,
    ) + seq![node.end_token]
}

#[verifier::opaque]
pub open spec fn stmt_tokens(stmt: StmtView, all: bool) -> Seq<TokenReferenceView>
    decreases stmt,
{
    match stmt {
        StmtView::Assignment(node) => punctuated_tokens(node.var_list, all) + seq![
            node.equal_token,
        ] + punctuated_tokens(node.expr_list, all),
        StmtView::Do(node) => seq![node.do_token] + block_tokens(node.block, all) + seq![
            node.end_token,
        ],
        StmtView::FunctionCall(call) => prefix_tokens(call.prefix, all) + suffixes_tokens(
            call.suffixes,
            all,
        ),
        StmtView::FunctionDeclaration(node) => seq![node.function_token] + node.name
            + function_body_tokens(node.body, all),
        StmtView::GenericFor(node) => seq![node.for_token] + punctuated_tokens(node.names, all)
            + seq![node.in_token] + punctuated_tokens(node.expr_list, all) + seq![node.do_token]
            + block_tokens(node.block, all) + seq![node.end_token],
        StmtView::If(node) => if_tokens(node, all),
        StmtView::LocalAssignment(node) => seq![node.local_token] + punctuated_tokens(
            node.name_list,
            all,
        ) + optional_token(node.equal_token) + punctuated_tokens(node.expr_list, all),
        StmtView::LocalFunction(node) => seq![node.local_token] + seq![node.function_token] + seq![node.name]
            + function_body_tokens(node.body, all),
        StmtView::NumericFor(node) => seq![node.for_token] + seq![node.index_variable] + seq![node.equal_token]
            + expression_tokens(node.start, all) + seq![node.start_end_comma]
            + expression_tokens(node.end, all) + step_tokens(node.step, all) + seq![node.do_token] + block_tokens(node.block, all) + seq![node.end_token],
        StmtView::Repeat(node) => seq![node.repeat_token] + block_tokens(node.block, all) + seq![
            node.until_token,
        ] + expression_tokens(node.until, all),
        StmtView::While(node) => seq![node.while_token] + expression_tokens(node.condition, all)
            + seq![node.do_token] + block_tokens(node.block, all) + seq![node.end_token],
    }
}

pub open spec fn ast_tokens(ast: AstView, all: bool) -> Seq<TokenReferenceView> {
    block_tokens(ast.block, all) + seq![ast.eof]
}

/// Adds a copy of `token` to `out`.
pub fn push_token(token: &TokenReference, out: &mut Vec<TokenReference>)
    ensures
        references_view(final(out)@) == references_view(old(out)@) + seq![token@],
{
    let copy = token.duplicate();
    proof {
        lemma_references_view_push(out@, copy);
        lemma_push_last(references_view(out@), copy@);
    }
    out.push(copy);
}

/// Adds a copy of `token` to `out` if there is one.
pub fn push_optional_token(token: &Option<TokenReference>, out: &mut Vec<TokenReference>)
    ensures
        references_view(final(out)@) == references_view(old(out)@) + optional_token(
            view_optional(*token),
        ),
{
    match token {
        Some(token) => push_token(token, out),
        None => {
            proof {
                lemma_add_empty(references_view(out@));
            }
        },
    }
}

/// Adds copies of the tokens in `tokens` to `out`, in order.
pub fn push_tokens(tokens: &Vec<TokenReference>, out: &mut Vec<TokenReference>)
    ensures
        references_view(final(out)@) == references_view(old(out)@) + references_view(tokens@),
{
    let ghost before = references_view(out@);
    let mut i: usize = 0;
    proof {
        lemma_take_ends(tokens@);
        lemma_add_empty(before);
        assert(references_view(tokens@.take(0)) =~= Seq::empty());
    }
    while i < tokens.len()
        invariant
            i <= tokens.len(),
            references_view(out@) == before + references_view(tokens@.take(i as int)),
        decreases tokens.len() - i,
    {
        push_token(&tokens[i], out);
        proof {
            lemma_take_next(tokens@, i as int);
            lemma_references_view_push(tokens@.take(i as int), tokens@[i as int]);
            lemma_push_last(references_view(tokens@.take(i as int)), tokens@[i as int]@);
            lemma_gather(before, references_view(tokens@.take(i as int)), seq![tokens@[i as int]@]);
        }
        i += 1;
    }
}

/// Adds copies of all the tokens of an expression to `out`, in order.
#[verifier::spinoff_prover]
pub fn push_expression_tokens(e: &Expression, out: &mut Vec<TokenReference>)
    ensures
        references_view(final(out)@) == references_view(old(out)@) + expression_tokens(e@, true),
    decreases e,
{
    let ghost before = references_view(out@);
    proof {
        reveal(expression_tokens);
        reveal(view_expression);
    }
    match e {
        Expression::Number(t) => {
            push_token(t, out);
            let ghost mut acc = seq![t@];
        },
        Expression::String(t) => {
            push_token(t, out);
            let ghost mut acc = seq![t@];
        },
        Expression::Symbol(t) => {
            push_token(t, out);
            let ghost mut acc = seq![t@];
        },
        Expression::Name(t) => {
            push_token(t, out);
            let ghost mut acc = seq![t@];
        },
        Expression::Parentheses { open, expression, close } => {
            push_token(open, out);
            let ghost mut acc = seq![open@];
            push_expression_tokens(expression, out);
            proof {
                acc = lemma_gather(before, acc, expression_tokens(expression@, true));
            }
            push_token(close, out);
            proof {
                acc = lemma_gather(before, acc, seq![close@]);
            }
        },
        Expression::UnaryOperator { operator, expression } => {
            push_token(operator, out);
            let ghost mut acc = seq![operator@];
            push_expression_tokens(expression, out);
            proof {
                acc = lemma_gather(before, acc, expression_tokens(expression@, true));
            }
        },
        Expression::BinaryOperator { lhs, operator, rhs } => {
            push_expression_tokens(lhs, out);
            let ghost mut acc = expression_tokens(lhs@, true);
            push_token(operator, out);
            proof {
                acc = lemma_gather(before, acc, seq![operator@]);
            }
            push_expression_tokens(rhs, out);
            proof {
                acc = lemma_gather(before, acc, expression_tokens(rhs@, true));
            }
        },
        Expression::Function { function_token, body } => {
            push_token(function_token, out);
            let ghost mut acc = seq![function_token@];
            push_function_body_tokens(body, out);
            proof {
                acc = lemma_gather(before, acc, function_body_tokens(body@, true));
            }
        },
        Expression::FunctionCall(call) => {
            push_prefix_tokens(&call.prefix, out);
            let ghost mut acc = prefix_tokens(call.prefix@, true);
            push_suffixes_tokens(&call.suffixes, out);
            proof {
                acc = lemma_gather(
                    before,
                    acc,
                    suffixes_tokens(view_suffixes(call.suffixes), true),
                );
            }
        },
        Expression::Var(var) => {
            push_prefix_tokens(&var.prefix, out);
            let ghost mut acc = prefix_tokens(var.prefix@, true);
            push_suffixes_tokens(&var.suffixes, out);
            proof {
                acc = lemma_gather(before, acc, suffixes_tokens(view_suffixes(var.suffixes), true));
            }
        },
        Expression::TableConstructor(table) => {
            push_table_tokens(table, out);
            let ghost mut acc = table_tokens(table@, true);
        },
    }
}

/// Adds copies of all the tokens of the elements of a list to `out`, in order.
#[verifier::spinoff_prover]
pub fn push_pairs_tokens(pairs: &Vec<Pair>, out: &mut Vec<TokenReference>)
    ensures
        references_view(final(out)@) == references_view(old(out)@) + pairs_tokens(
            view_pairs(*pairs),
            true,
        ),
    decreases pairs,
{
    let ghost before = references_view(out@);
    proof {
        reveal(pairs_tokens);
        reveal(view_pair);
        reveal(view_pairs);
    }
    let ghost views = view_pairs(*pairs);
    let mut i: usize = 0;
    proof {
        lemma_take_ends(views);
        lemma_add_empty(before);
    }
    while i < pairs.len()
        invariant
            i <= pairs.len(),
            views == view_pairs(*pairs),
            references_view(out@) == before + pairs_tokens(views.take(i as int), true),
        decreases pairs.len() - i,
    {
        let ghost mut acc = pairs_tokens(views.take(i as int), true);
        proof {
            reveal(pairs_tokens);
            reveal(view_pair);
            reveal(view_pairs);
        }
        proof {
            lemma_take_next(views, i as int);
        }
        push_expression_tokens(&pairs[i].value, out);
        proof {
            acc = lemma_gather(before, acc, expression_tokens(views[i as int].value, true));
        }
        push_optional_token(&pairs[i].separator, out);
        proof {
            acc = lemma_gather(
                before,
                acc,
                optional_token(view_optional(pairs[i as int].separator)),
            );
        }
        i += 1;
    }
}

/// Adds copies of all the tokens of a separated list to `out`, in order.
#[verifier::spinoff_prover]
pub fn push_punctuated_tokens(list: &Punctuated, out: &mut Vec<TokenReference>)
    ensures
        references_view(final(out)@) == references_view(old(out)@) + punctuated_tokens(
            list@,
            true,
        ),
    decreases list,
{
    proof {
        reveal(punctuated_tokens);
        reveal(view_punctuated);
    }
    push_pairs_tokens(&list.pairs, out);
}

/// Adds copies of all the tokens of a prefix to `out`, in order.
#[verifier::spinoff_prover]
pub fn push_prefix_tokens(prefix: &Prefix, out: &mut Vec<TokenReference>)
    ensures
        references_view(final(out)@) == references_view(old(out)@) + prefix_tokens(prefix@, true),
    decreases prefix,
{
    let ghost before = references_view(out@);
    proof {
        reveal(prefix_tokens);
        reveal(view_prefix);
    }
    match prefix {
        Prefix::Name(t) => {
            push_token(t, out);
            let ghost mut acc = seq![t@];
        },
        Prefix::Expression(e) => {
            push_expression_tokens(e, out);
            let ghost mut acc = expression_tokens(e@, true);
        },
    }
}

/// Adds copies of all the tokens of a suffix to `out`, in order.
#[verifier::spinoff_prover]
pub fn push_suffix_tokens(suffix: &Suffix, out: &mut Vec<TokenReference>)
    ensures
        references_view(final(out)@) == references_view(old(out)@) + suffix_tokens(suffix@, true),
    decreases suffix,
{
    let ghost before = references_view(out@);
    proof {
        reveal(suffix_tokens);
        reveal(view_suffix);
    }
    match suffix {
        Suffix::Dot { dot, name } => {
            push_token(dot, out);
            let ghost mut acc = seq![dot@];
            push_token(name, out);
            proof {
                acc = lemma_gather(before, acc, seq![name@]);
            }
        },
        Suffix::Brackets { open, expression, close } => {
            push_token(open, out);
            let ghost mut acc = seq![open@];
            push_expression_tokens(expression, out);
            proof {
                acc = lemma_gather(before, acc, expression_tokens(expression@, true));
            }
            push_token(close, out);
            proof {
                acc = lemma_gather(before, acc, seq![close@]);
            }
        },
        Suffix::Call(args) => {
            push_function_args_tokens(args, out);
            let ghost mut acc = function_args_tokens(args@, true);
        },
        Suffix::MethodCall { colon, name, args } => {
            push_token(colon, out);
            let ghost mut acc = seq![colon@];
            push_token(name, out);
            proof {
                acc = lemma_gather(before, acc, seq![name@]);
            }
            push_function_args_tokens(args, out);
            proof {
                acc = lemma_gather(before, acc, function_args_tokens(args@, true));
            }
        },
    }
}

/// Adds copies of all the tokens of a run of suffixes to `out`, in order.
#[verifier::spinoff_prover]
pub fn push_suffixes_tokens(suffixes: &Vec<Suffix>, out: &mut Vec<TokenReference>)
    ensures
        references_view(final(out)@) == references_view(old(out)@) + suffixes_tokens(
            view_suffixes(*suffixes),
            true,
        ),
    decreases suffixes,
{
    let ghost before = references_view(out@);
    proof {
        reveal(suffixes_tokens);
        reveal(view_suffixes);
    }
    let ghost views = view_suffixes(*suffixes);
    let mut i: usize = 0;
    proof {
        lemma_take_ends(views);
        lemma_add_empty(before);
    }
    while i < suffixes.len()
        invariant
            i <= suffixes.len(),
            views == view_suffixes(*suffixes),
            references_view(out@) == before + suffixes_tokens(views.take(i as int), true),
        decreases suffixes.len() - i,
    {
        let ghost mut acc = suffixes_tokens(views.take(i as int), true);
        proof {
            reveal(suffixes_tokens);
            reveal(view_suffixes);
        }
        proof {
            lemma_take_next(views, i as int);
        }
        push_suffix_tokens(&suffixes[i], out);
        proof {
            acc = lemma_gather(before, acc, suffix_tokens(views[i as int], true));
        }
        i += 1;
    }
}

/// Adds copies of all the tokens of the arguments of a call to `out`, in order.
#[verifier::spinoff_prover]
pub fn push_function_args_tokens(args: &FunctionArgs, out: &mut Vec<TokenReference>)
    ensures
        references_view(final(out)@) == references_view(old(out)@) + function_args_tokens(
            args@,
            true,
        ),
    decreases args,
{
    let ghost before = references_view(out@);
    proof {
        reveal(function_args_tokens);
        reveal(view_function_args);
    }
    match args {
        FunctionArgs::Parentheses { open, arguments, close } => {
            push_token(open, out);
            let ghost mut acc = seq![open@];
            push_punctuated_tokens(arguments, out);
            proof {
                acc = lemma_gather(before, acc, punctuated_tokens(arguments@, true));
            }
            push_token(close, out);
            proof {
                acc = lemma_gather(before, acc, seq![close@]);
            }
        },
        FunctionArgs::String(t) => {
            push_token(t, out);
            let ghost mut acc = seq![t@];
        },
        FunctionArgs::TableConstructor(table) => {
            push_table_tokens(table, out);
            let ghost mut acc = table_tokens(table@, true);
        },
    }
}

/// Adds copies of all the tokens of a field to `out`, in order.
#[verifier::spinoff_prover]
pub fn push_field_tokens(field: &Field, out: &mut Vec<TokenReference>)
    ensures
        references_view(final(out)@) == references_view(old(out)@) + field_tokens(field@, true),
    decreases field,
{
    let ghost before = references_view(out@);
    proof {
        reveal(field_tokens);
        reveal(view_field);
    }
    match field {
        Field::ExpressionKey { open, key, close, equal, value } => {
            push_token(open, out);
            let ghost mut acc = seq![open@];
            push_expression_tokens(key, out);
            proof {
                acc = lemma_gather(before, acc, expression_tokens(key@, true));
            }
            push_token(close, out);
            proof {
                acc = lemma_gather(before, acc, seq![close@]);
            }
            push_token(equal, out);
            proof {
                acc = lemma_gather(before, acc, seq![equal@]);
            }
            push_expression_tokens(value, out);
            proof {
                acc = lemma_gather(before, acc, expression_tokens(value@, true));
            }
        },
        Field::NameKey { name, equal, value } => {
            push_token(name, out);
            let ghost mut acc = seq![name@];
            push_token(equal, out);
            proof {
                acc = lemma_gather(before, acc, seq![equal@]);
            }
            push_expression_tokens(value, out);
            proof {
                acc = lemma_gather(before, acc, expression_tokens(value@, true));
            }
        },
        Field::NoKey(value) => {
            push_expression_tokens(value, out);
            let ghost mut acc = expression_tokens(value@, true);
        },
    }
}

/// Adds copies of all the tokens of the fields of a table to `out`, in order.
#[verifier::spinoff_prover]
pub fn push_field_pairs_tokens(fields: &Vec<FieldPair>, out: &mut Vec<TokenReference>)
    ensures
        references_view(final(out)@) == references_view(old(out)@) + field_pairs_tokens(
            view_field_pairs(*fields),
            true,
        ),
    decreases fields,
{
    let ghost before = references_view(out@);
    proof {
        reveal(field_pairs_tokens);
        reveal(view_field_pair);
        reveal(view_field_pairs);
    }
    let ghost views = view_field_pairs(*fields);
    let mut i: usize = 0;
    proof {
        lemma_take_ends(views);
        lemma_add_empty(before);
    }
    while i < fields.len()
        invariant
            i <= fields.len(),
            views == view_field_pairs(*fields),
            references_view(out@) == before + field_pairs_tokens(views.take(i as int), true),
        decreases fields.len() - i,
    {
        let ghost mut acc = field_pairs_tokens(views.take(i as int), true);
        proof {
            reveal(field_pairs_tokens);
            reveal(view_field_pair);
            reveal(view_field_pairs);
        }
        proof {
            lemma_take_next(views, i as int);
        }
        push_field_tokens(&fields[i].field, out);
        proof {
            acc = lemma_gather(before, acc, field_tokens(views[i as int].field, true));
        }
        push_optional_token(&fields[i].separator, out);
        proof {
            acc = lemma_gather(
                before,
                acc,
                optional_token(view_optional(fields[i as int].separator)),
            );
        }
        i += 1;
    }
}

/// Adds copies of all the tokens of a table constructor to `out`, in order.
#[verifier::spinoff_prover]
pub fn push_table_tokens(table: &TableConstructor, out: &mut Vec<TokenReference>)
    ensures
        references_view(final(out)@) == references_view(old(out)@) + table_tokens(table@, true),
    decreases table,
{
    let ghost before = references_view(out@);
    proof {
        reveal(fields_tokens);
        reveal(table_tokens);
        reveal(view_table);
    }
    push_token(&table.open, out);
    let ghost mut acc = seq![table.open@];
    push_field_pairs_tokens(&table.fields, out);
    proof {
        acc = lemma_gather(before, acc, fields_tokens(view_field_pairs(table.fields), true));
    }
    push_token(&table.close, out);
    proof {
        acc = lemma_gather(before, acc, seq![table.close@]);
    }
}

/// Adds copies of all the tokens of a function body to `out`, in order.
#[verifier::spinoff_prover]
pub fn push_function_body_tokens(body: &FunctionBody, out: &mut Vec<TokenReference>)
    ensures
        references_view(final(out)@) == references_view(old(out)@) + function_body_tokens(
            body@,
            true,
        ),
    decreases body,
{
    let ghost before = references_view(out@);
    proof {
        reveal(function_body_tokens);
        reveal(view_function_body);
    }
    push_token(&body.open, out);
    let ghost mut acc = seq![body.open@];
    push_punctuated_tokens(&body.parameters, out);
    proof {
        acc = lemma_gather(before, acc, punctuated_tokens(body.parameters@, true));
    }
    push_token(&body.close, out);
    proof {
        acc = lemma_gather(before, acc, seq![body.close@]);
    }
    push_block_tokens(&body.block, out);
    proof {
        acc = lemma_gather(before, acc, block_tokens(body.block@, true));
    }
    push_token(&body.end_token, out);
    proof {
        acc = lemma_gather(before, acc, seq![body.end_token@]);
    }
}

/// Adds copies of all the tokens of a closing statement to `out`, in order.
#[verifier::spinoff_prover]
pub fn push_last_stmt_tokens(stmt: &LastStmt, out: &mut Vec<TokenReference>)
    ensures
        references_view(final(out)@) == references_view(old(out)@) + last_stmt_tokens(stmt@, true),
    decreases stmt,
{
    let ghost before = references_view(out@);
    proof {
        reveal(last_stmt_tokens);
        reveal(view_last_stmt);
    }
    match stmt {
        LastStmt::Break(t) => {
            push_token(t, out);
            let ghost mut acc = seq![t@];
        },
        LastStmt::Return { token, values } => {
            push_token(token, out);
            let ghost mut acc = seq![token@];
            push_punctuated_tokens(values, out);
            proof {
                acc = lemma_gather(before, acc, punctuated_tokens(values@, true));
            }
        },
    }
}

/// Adds copies of all the tokens of a run of statements to `out`, in order.
#[verifier::spinoff_prover]
pub fn push_block_stmts_tokens(stmts: &Vec<BlockStmt>, out: &mut Vec<TokenReference>)
    ensures
        references_view(final(out)@) == references_view(old(out)@) + block_stmts_tokens(
            view_block_stmts(*stmts),
            true,
        ),
    decreases stmts,
{
    let ghost before = references_view(out@);
    proof {
        reveal(block_stmts_tokens);
        reveal(view_block_stmt);
        reveal(view_block_stmts);
    }
    let ghost views = view_block_stmts(*stmts);
    let mut i: usize = 0;
    proof {
        lemma_take_ends(views);
        lemma_add_empty(before);
    }
    while i < stmts.len()
        invariant
            i <= stmts.len(),
            views == view_block_stmts(*stmts),
            references_view(out@) == before + block_stmts_tokens(views.take(i as int), true),
        decreases stmts.len() - i,
    {
        let ghost mut acc = block_stmts_tokens(views.take(i as int), true);
        proof {
            reveal(block_stmts_tokens);
            reveal(view_block_stmt);
            reveal(view_block_stmts);
        }
        proof {
            lemma_take_next(views, i as int);
        }
        push_stmt_tokens(&stmts[i].stmt, out);
        proof {
            acc = lemma_gather(before, acc, stmt_tokens(views[i as int].stmt, true));
        }
        push_optional_token(&stmts[i].semicolon, out);
        proof {
            acc = lemma_gather(
                before,
                acc,
                optional_token(view_optional(stmts[i as int].semicolon)),
            );
        }
        i += 1;
    }
}

/// Adds copies of all the tokens of the closing statement of a block to `out`, if it has one.
#[verifier::spinoff_prover]
pub fn push_block_last_tokens(last: &Option<Box<BlockLastStmt>>, out: &mut Vec<TokenReference>)
    ensures
        references_view(final(out)@) == references_view(old(out)@) + block_last_tokens(
            view_block_last(*last),
            true,
        ),
    decreases last,
{
    let ghost before = references_view(out@);
    proof {
        reveal(block_last_tokens);
        reveal(view_block_last);
    }
    match last {
        Some(last) => {
            push_last_stmt_tokens(&last.stmt, out);
            let ghost mut acc = last_stmt_tokens(last.stmt@, true);
            push_optional_token(&last.semicolon, out);
            proof {
                acc = lemma_gather(before, acc, optional_token(view_optional(last.semicolon)));
            }
        },
        None => {
            proof {
                lemma_add_empty(before);
            }
        },
    }
}

/// Adds copies of all the tokens of a block to `out`, in order.
#[verifier::spinoff_prover]
pub fn push_block_tokens(block: &Block, out: &mut Vec<TokenReference>)
    ensures
        references_view(final(out)@) == references_view(old(out)@) + block_tokens(block@, true),
    decreases block,
{
    let ghost before = references_view(out@);
    proof {
        reveal(block_tokens);
        reveal(view_block);
    }
    push_block_stmts_tokens(&block.stmts, out);
    let ghost mut acc = block_stmts_tokens(view_block_stmts(block.stmts), true);
    push_block_last_tokens(&block.last_stmt, out);
    proof {
        acc = lemma_gather(before, acc, block_last_tokens(view_block_last(block.last_stmt), true));
    }
}

/// Adds copies of all the tokens of an `elseif` branch to `out`, in order.
#[verifier::spinoff_prover]
pub fn push_else_if_tokens(branch: &ElseIf, out: &mut Vec<TokenReference>)
    ensures
        references_view(final(out)@) == references_view(old(out)@) + else_if_tokens(branch@, true),
    decreases branch,
{
    let ghost before = references_view(out@);
    proof {
        reveal(else_if_tokens);
        reveal(view_else_if);
    }
    push_token(&branch.else_if_token, out);
    let ghost mut acc = seq![branch.else_if_token@];
    push_expression_tokens(&branch.condition, out);
    proof {
        acc = lemma_gather(before, acc, expression_tokens(branch.condition@, true));
    }
    push_token(&branch.then_token, out);
    proof {
        acc = lemma_gather(before, acc, seq![branch.then_token@]);
    }
    push_block_tokens(&branch.block, out);
    proof {
        acc = lemma_gather(before, acc, block_tokens(branch.block@, true));
    }
}

/// Adds copies of all the tokens of a run of `elseif` branches to `out`, in order.
#[verifier::spinoff_prover]
pub fn push_else_ifs_tokens(branches: &Vec<ElseIf>, out: &mut Vec<TokenReference>)
    ensures
        references_view(final(out)@) == references_view(old(out)@) + else_ifs_tokens(
            view_else_ifs(*branches),
            true,
        ),
    decreases branches,
{
    let ghost before = references_view(out@);
    proof {
        reveal(else_ifs_tokens);
        reveal(view_else_ifs);
    }
    let ghost views = view_else_ifs(*branches);
    let mut i: usize = 0;
    proof {
        lemma_take_ends(views);
        lemma_add_empty(before);
    }
    while i < branches.len()
        invariant
            i <= branches.len(),
            views == view_else_ifs(*branches),
            references_view(out@) == before + else_ifs_tokens(views.take(i as int), true),
        decreases branches.len() - i,
    {
        let ghost mut acc = else_ifs_tokens(views.take(i as int), true);
        proof {
            reveal(else_ifs_tokens);
            reveal(view_else_ifs);
        }
        proof {
            lemma_take_next(views, i as int);
        }
        push_else_if_tokens(&branches[i], out);
        proof {
            acc = lemma_gather(before, acc, else_if_tokens(views[i as int], true));
        }
        i += 1;
    }
}

/// Adds copies of all the tokens of an `else` branch to `out`, if there is one.
#[verifier::spinoff_prover]
pub fn push_else_tokens(branch: &Option<Else>, out: &mut Vec<TokenReference>)
    ensures
        references_view(final(out)@) == references_view(old(out)@) + else_tokens(
            view_else(*branch),
            true,
        ),
    decreases branch,
{
    let ghost before = references_view(out@);
    proof {
        reveal(else_tokens);
        reveal(view_else);
    }
    match branch {
        Some(branch) => {
            push_token(&branch.else_token, out);
            let ghost mut acc = seq![branch.else_token@];
            push_block_tokens(&branch.block, out);
            proof {
                acc = lemma_gather(before, acc, block_tokens(branch.block@, true));
            }
        },
        None => {
            proof {
                lemma_add_empty(before);
            }
        },
    }
}

/// Adds copies of all the tokens of the step of a numeric `for` to `out`, if it has one.
#[verifier::spinoff_prover]
pub fn push_step_tokens(step: &Option<ForStep>, out: &mut Vec<TokenReference>)
    ensures
        references_view(final(out)@) == references_view(old(out)@) + step_tokens(
            view_step(*step),
            true,
        ),
    decreases step,
{
    let ghost before = references_view(out@);
    proof {
        reveal(step_tokens);
        reveal(view_step);
    }
    match step {
        Some(step) => {
            push_token(&step.comma, out);
            let ghost mut acc = seq![step.comma@];
            push_expression_tokens(&step.step, out);
            proof {
                acc = lemma_gather(before, acc, expression_tokens(step.step@, true));
            }
        },
        None => {
            proof {
                lemma_add_empty(before);
            }
        },
    }
}

/// Adds copies of all the tokens of an `if` statement to `out`, in order.
#[verifier::spinoff_prover]
pub fn push_if_tokens(node: &If, out: &mut Vec<TokenReference>)
    ensures
        references_view(final(out)@) == references_view(old(out)@) + if_tokens(node@, true),
    decreases node,
{
    let ghost before = references_view(out@);
    proof {
        reveal(if_tokens);
        reveal(view_if);
    }
    push_token(&node.if_token, out);
    let ghost mut acc = seq![node.if_token@];
    push_expression_tokens(&node.condition, out);
    proof {
        acc = lemma_gather(before, acc, expression_tokens(node.condition@, true));
    }
    push_token(&node.then_token, out);
    proof {
        acc = lemma_gather(before, acc, seq![node.then_token@]);
    }
    push_block_tokens(&node.block, out);
    proof {
        acc = lemma_gather(before, acc, block_tokens(node.block@, true));
    }
    push_else_ifs_tokens(&node.else_if, out);
    proof {
        acc = lemma_gather(before, acc, else_ifs_tokens(view_else_ifs(node.else_if), true));
    }
    push_else_tokens(&node.else_branch, out);
    proof {
        acc = lemma_gather(before, acc, else_tokens(view_else(node.else_branch), true));
    }
    push_token(&node.end_token, out);
    proof {
        acc = lemma_gather(before, acc, seq![node.end_token@]);
    }
}

/// Adds copies of all the tokens of a statement to `out`, in order.
#[verifier::spinoff_prover]
pub fn push_stmt_tokens(stmt: &Stmt, out: &mut Vec<TokenReference>)
    ensures
        references_view(final(out)@) == references_view(old(out)@) + stmt_tokens(stmt@, true),
    decreases stmt,
{
    let ghost before = references_view(out@);
    proof {
        reveal(stmt_tokens);
        reveal(view_stmt);
    }
    match stmt {
        Stmt::Assignment(node) => {
            push_punctuated_tokens(&node.var_list, out);
            let ghost mut acc = punctuated_tokens(node.var_list@, true);
            push_token(&node.equal_token, out);
            proof {
                acc = lemma_gather(before, acc, seq![node.equal_token@]);
            }
            push_punctuated_tokens(&node.expr_list, out);
            proof {
                acc = lemma_gather(before, acc, punctuated_tokens(node.expr_list@, true));
            }
        },
        Stmt::Do(node) => {
            push_token(&node.do_token, out);
            let ghost mut acc = seq![node.do_token@];
            push_block_tokens(&node.block, out);
            proof {
                acc = lemma_gather(before, acc, block_tokens(node.block@, true));
            }
            push_token(&node.end_token, out);
            proof {
                acc = lemma_gather(before, acc, seq![node.end_token@]);
            }
        },
        Stmt::FunctionCall(call) => {
            push_prefix_tokens(&call.prefix, out);
            let ghost mut acc = prefix_tokens(call.prefix@, true);
            push_suffixes_tokens(&call.suffixes, out);
            proof {
                acc = lemma_gather(
                    before,
                    acc,
                    suffixes_tokens(view_suffixes(call.suffixes), true),
                );
            }
        },
        Stmt::FunctionDeclaration(node) => {
            push_token(&node.function_token, out);
            let ghost mut acc = seq![node.function_token@];
            push_tokens(&node.name, out);
            proof {
                acc = lemma_gather(before, acc, references_view(node.name@));
            }
            push_function_body_tokens(&node.body, out);
            proof {
                acc = lemma_gather(before, acc, function_body_tokens(node.body@, true));
            }
        },
        Stmt::GenericFor(node) => {
            push_token(&node.for_token, out);
            let ghost mut acc = seq![node.for_token@];
            push_punctuated_tokens(&node.names, out);
            proof {
                acc = lemma_gather(before, acc, punctuated_tokens(node.names@, true));
            }
            push_token(&node.in_token, out);
            proof {
                acc = lemma_gather(before, acc, seq![node.in_token@]);
            }
            push_punctuated_tokens(&node.expr_list, out);
            proof {
                acc = lemma_gather(before, acc, punctuated_tokens(node.expr_list@, true));
            }
            push_token(&node.do_token, out);
            proof {
                acc = lemma_gather(before, acc, seq![node.do_token@]);
            }
            push_block_tokens(&node.block, out);
            proof {
                acc = lemma_gather(before, acc, block_tokens(node.block@, true));
            }
            push_token(&node.end_token, out);
            proof {
                acc = lemma_gather(before, acc, seq![node.end_token@]);
            }
        },
        Stmt::If(node) => {
            push_if_tokens(node, out);
            let ghost mut acc = if_tokens(node@, true);
        },
        Stmt::LocalAssignment(node) => {
            push_token(&node.local_token, out);
            let ghost mut acc = seq![node.local_token@];
            push_punctuated_tokens(&node.name_list, out);
            proof {
                acc = lemma_gather(before, acc, punctuated_tokens(node.name_list@, true));
            }
            push_optional_token(&node.equal_token, out);
            proof {
                acc = lemma_gather(before, acc, optional_token(view_optional(node.equal_token)));
            }
            push_punctuated_tokens(&node.expr_list, out);
            proof {
                acc = lemma_gather(before, acc, punctuated_tokens(node.expr_list@, true));
            }
        },
        Stmt::LocalFunction(node) => {
            push_token(&node.local_token, out);
            let ghost mut acc = seq![node.local_token@];
            push_token(&node.function_token, out);
            proof {
                acc = lemma_gather(before, acc, seq![node.function_token@]);
            }
            push_token(&node.name, out);
            proof {
                acc = lemma_gather(before, acc, seq![node.name@]);
            }
            push_function_body_tokens(&node.body, out);
            proof {
                acc = lemma_gather(before, acc, function_body_tokens(node.body@, true));
            }
        },
        Stmt::NumericFor(node) => {
            push_token(&node.for_token, out);
            let ghost mut acc = seq![node.for_token@];
            push_token(&node.index_variable, out);
            proof {
                acc = lemma_gather(before, acc, seq![node.index_variable@]);
            }
            push_token(&node.equal_token, out);
            proof {
                acc = lemma_gather(before, acc, seq![node.equal_token@]);
            }
            push_expression_tokens(&node.start, out);
            proof {
                acc = lemma_gather(before, acc, expression_tokens(node.start@, true));
            }
            push_token(&node.start_end_comma, out);
            proof {
                acc = lemma_gather(before, acc, seq![node.start_end_comma@]);
            }
            push_expression_tokens(&node.end, out);
            proof {
                acc = lemma_gather(before, acc, expression_tokens(node.end@, true));
            }
            push_step_tokens(&node.step, out);
            proof {
                acc = lemma_gather(before, acc, step_tokens(view_step(node.step), true));
            }
            push_token(&node.do_token, out);
            proof {
                acc = lemma_gather(before, acc, seq![node.do_token@]);
            }
            push_block_tokens(&node.block, out);
            proof {
                acc = lemma_gather(before, acc, block_tokens(node.block@, true));
            }
            push_token(&node.end_token, out);
            proof {
                acc = lemma_gather(before, acc, seq![node.end_token@]);
            }
        },
        Stmt::Repeat(node) => {
            push_token(&node.repeat_token, out);
            let ghost mut acc = seq![node.repeat_token@];
            push_block_tokens(&node.block, out);
            proof {
                acc = lemma_gather(before, acc, block_tokens(node.block@, true));
            }
            push_token(&node.until_token, out);
            proof {
                acc = lemma_gather(before, acc, seq![node.until_token@]);
            }
            push_expression_tokens(&node.until, out);
            proof {
                acc = lemma_gather(before, acc, expression_tokens(node.until@, true));
            }
        },
        Stmt::While(node) => {
            push_token(&node.while_token, out);
            let ghost mut acc = seq![node.while_token@];
            push_expression_tokens(&node.condition, out);
            proof {
                acc = lemma_gather(before, acc, expression_tokens(node.condition@, true));
            }
            push_token(&node.do_token, out);
            proof {
                acc = lemma_gather(before, acc, seq![node.do_token@]);
            }
            push_block_tokens(&node.block, out);
            proof {
                acc = lemma_gather(before, acc, block_tokens(node.block@, true));
            }
            push_token(&node.end_token, out);
            proof {
                acc = lemma_gather(before, acc, seq![node.end_token@]);
            }
        },
    }
}


/// No tokens have no values.
pub proof fn lemma_references_view_empty(tokens: Seq<TokenReference>)
    requires
        tokens.len() == 0,
    ensures
        references_view(tokens) == Seq::<TokenReferenceView>::empty(),
{
    assert(references_view(tokens) =~= Seq::<TokenReferenceView>::empty());
}

/// Copies of all the tokens of an expression, in order.
pub fn expression_token_list(e: &Expression) -> (tokens: Vec<TokenReference>)
    ensures
        references_view(tokens@) == expression_tokens(e@, true),
{
    let mut tokens: Vec<TokenReference> = Vec::new();
    proof {
        lemma_references_view_empty(tokens@);
        lemma_add_empty(expression_tokens(e@, true));
    }
    push_expression_tokens(e, &mut tokens);
    tokens
}

/// Copies of all the tokens of a separated list, in order.
pub fn punctuated_token_list(list: &Punctuated) -> (tokens: Vec<TokenReference>)
    ensures
        references_view(tokens@) == punctuated_tokens(list@, true),
{
    let mut tokens: Vec<TokenReference> = Vec::new();
    proof {
        lemma_references_view_empty(tokens@);
        lemma_add_empty(punctuated_tokens(list@, true));
    }
    push_punctuated_tokens(list, &mut tokens);
    tokens
}

/// Copies of all the tokens of a prefix, in order.
pub fn prefix_token_list(prefix: &Prefix) -> (tokens: Vec<TokenReference>)
    ensures
        references_view(tokens@) == prefix_tokens(prefix@, true),
{
    let mut tokens: Vec<TokenReference> = Vec::new();
    proof {
        lemma_references_view_empty(tokens@);
        lemma_add_empty(prefix_tokens(prefix@, true));
    }
    push_prefix_tokens(prefix, &mut tokens);
    tokens
}

/// Copies of all the tokens of a statement, in order.
pub fn stmt_token_list(stmt: &Stmt) -> (tokens: Vec<TokenReference>)
    ensures
        references_view(tokens@) == stmt_tokens(stmt@, true),
{
    let mut tokens: Vec<TokenReference> = Vec::new();
    proof {
        lemma_references_view_empty(tokens@);
        lemma_add_empty(stmt_tokens(stmt@, true));
    }
    push_stmt_tokens(stmt, &mut tokens);
    tokens
}

/// Copies of all the tokens of a closing statement, in order.
pub fn last_stmt_token_list(stmt: &LastStmt) -> (tokens: Vec<TokenReference>)
    ensures
        references_view(tokens@) == last_stmt_tokens(stmt@, true),
{
    let mut tokens: Vec<TokenReference> = Vec::new();
    proof {
        lemma_references_view_empty(tokens@);
        lemma_add_empty(last_stmt_tokens(stmt@, true));
    }
    push_last_stmt_tokens(stmt, &mut tokens);
    tokens
}

/// Copies of all the tokens of a block, in order.
pub fn block_token_list(block: &Block) -> (tokens: Vec<TokenReference>)
    ensures
        references_view(tokens@) == block_tokens(block@, true),
{
    let mut tokens: Vec<TokenReference> = Vec::new();
    proof {
        lemma_references_view_empty(tokens@);
        lemma_add_empty(block_tokens(block@, true));
    }
    push_block_tokens(block, &mut tokens);
    tokens
}

} // verus!
