//! Editing the trivia at the two ends of a node: in front of its first token
//! and behind its last.

use vstd::prelude::*;
use crate::ast::{
    Expression, FunctionArgs, FunctionBody, FunctionCall, Pair, Prefix, Punctuated, Suffix,
    TableConstructor, VarExpression,
};
use crate::token::TokenReference;
use crate::trivia::{with_trivia, FormatTriviaType, FormatTriviaTypeView};
use crate::view::{
    view_expression, view_function_args, view_function_body, view_pair, view_pairs, view_prefix,
    view_punctuated, view_suffix, view_suffixes, view_table, ExpressionView, FunctionArgsView,
    FunctionBodyView, PairView, PrefixView, PunctuatedView, SuffixView, SuffixedView,
    TableConstructorView,
};

verus! {

/// The token with its leading trivia edited.
pub open spec fn lead(token: crate::token::TokenReferenceView, edit: FormatTriviaTypeView)
    -> crate::token::TokenReferenceView {
    with_trivia(token, edit, FormatTriviaTypeView::NoChange)
}

/// The token with its trailing trivia edited.
pub open spec fn trail(token: crate::token::TokenReferenceView, edit: FormatTriviaTypeView)
    -> crate::token::TokenReferenceView {
    with_trivia(token, FormatTriviaTypeView::NoChange, edit)
}

/// The expression with the leading trivia of its first token edited.
pub open spec fn first_updated(e: ExpressionView, edit: FormatTriviaTypeView) -> ExpressionView
    decreases e,
{
    match e {
        ExpressionView::Number(t) => ExpressionView::Number(lead(t, edit)),
        ExpressionView::String(t) => ExpressionView::String(lead(t, edit)),
        ExpressionView::Symbol(t) => ExpressionView::Symbol(lead(t, edit)),
        ExpressionView::Name(t) => ExpressionView::Name(lead(t, edit)),
        ExpressionView::Parentheses { open, expression, close } => ExpressionView::Parentheses {
            open: lead(open, edit),
            expression,
            close,
        },
        ExpressionView::UnaryOperator { operator, expression } => ExpressionView::UnaryOperator {
            operator: lead(operator, edit),
            expression,
        },
        ExpressionView::BinaryOperator { lhs, operator, rhs } => ExpressionView::BinaryOperator {
            lhs: Box::new(first_updated(*lhs, edit)),
            operator,
            rhs,
        },
        ExpressionView::Function { function_token, body } => ExpressionView::Function {
            function_token: lead(function_token, edit),
            body,
        },
        ExpressionView::FunctionCall(call) => ExpressionView::FunctionCall(
            SuffixedView { prefix: prefix_first_updated(call.prefix, edit), suffixes: call.suffixes },
        ),
        ExpressionView::Var(var) => ExpressionView::Var(
            SuffixedView { prefix: prefix_first_updated(var.prefix, edit), suffixes: var.suffixes },
        ),
        ExpressionView::TableConstructor(table) => ExpressionView::TableConstructor(
            TableConstructorView { open: lead(table.open, edit), ..table },
        ),
    }
}

/// The prefix with the leading trivia of its first token edited.
pub open spec fn prefix_first_updated(prefix: PrefixView, edit: FormatTriviaTypeView) -> PrefixView
    decreases prefix,
{
    match prefix {
        PrefixView::Name(t) => PrefixView::Name(lead(t, edit)),
        PrefixView::Expression(e) => PrefixView::Expression(Box::new(first_updated(*e, edit))),
    }
}

/// The call or indexed expression with the leading trivia of its first token edited.
pub open spec fn suffixed_first_updated(node: SuffixedView, edit: FormatTriviaTypeView)
    -> SuffixedView {
    SuffixedView { prefix: prefix_first_updated(node.prefix, edit), suffixes: node.suffixes }
}

/// The arguments with the trailing trivia of their last token edited.
pub open spec fn args_last_updated(args: FunctionArgsView, edit: FormatTriviaTypeView)
    -> FunctionArgsView {
    match args {
        FunctionArgsView::Parentheses { open, arguments, close } => FunctionArgsView::Parentheses {
            open,
            arguments,
            close: trail(close, edit),
        },
        FunctionArgsView::String(t) => FunctionArgsView::String(trail(t, edit)),
        FunctionArgsView::TableConstructor(table) => FunctionArgsView::TableConstructor(
            TableConstructorView { close: trail(table.close, edit), ..table },
        ),
    }
}

/// The suffix with the trailing trivia of its last token edited.
pub open spec fn suffix_last_updated(suffix: SuffixView, edit: FormatTriviaTypeView) -> SuffixView {
    match suffix {
        SuffixView::Dot { dot, name } => SuffixView::Dot { dot, name: trail(name, edit) },
        SuffixView::Brackets { open, expression, close } => SuffixView::Brackets {
            open,
            expression,
            close: trail(close, edit),
        },
        SuffixView::Call(args) => SuffixView::Call(args_last_updated(args, edit)),
        SuffixView::MethodCall { colon, name, args } => SuffixView::MethodCall {
            colon,
            name,
            args: args_last_updated(args, edit),
        },
    }
}

/// The expression with the trailing trivia of its last token edited.
pub open spec fn last_updated(e: ExpressionView, edit: FormatTriviaTypeView) -> ExpressionView
    decreases e,
{
    match e {
        ExpressionView::Number(t) => ExpressionView::Number(trail(t, edit)),
        ExpressionView::String(t) => ExpressionView::String(trail(t, edit)),
        ExpressionView::Symbol(t) => ExpressionView::Symbol(trail(t, edit)),
        ExpressionView::Name(t) => ExpressionView::Name(trail(t, edit)),
        ExpressionView::Parentheses { open, expression, close } => ExpressionView::Parentheses {
            open,
            expression,
            close: trail(close, edit),
        },
        ExpressionView::UnaryOperator { operator, expression } => ExpressionView::UnaryOperator {
            operator,
            expression: Box::new(last_updated(*expression, edit)),
        },
        ExpressionView::BinaryOperator { lhs, operator, rhs } => ExpressionView::BinaryOperator {
            lhs,
            operator,
            rhs: Box::new(last_updated(*rhs, edit)),
        },
        ExpressionView::Function { function_token, body } => ExpressionView::Function {
            function_token,
            body: FunctionBodyView { end_token: trail(body.end_token, edit), ..body },
        },
        ExpressionView::FunctionCall(call) => ExpressionView::FunctionCall(
            if call.suffixes.len() == 0 {
                SuffixedView {
                    prefix: prefix_last_updated(call.prefix, edit),
                    suffixes: call.suffixes,
                }
            } else {
                SuffixedView {
                    prefix: call.prefix,
                    suffixes: call.suffixes.drop_last().push(
                        suffix_last_updated(call.suffixes.last(), edit),
                    ),
                }
            },
        ),
        ExpressionView::Var(var) => ExpressionView::Var(
            if var.suffixes.len() == 0 {
                SuffixedView { prefix: prefix_last_updated(var.prefix, edit), suffixes: var.suffixes }
            } else {
                SuffixedView {
                    prefix: var.prefix,
                    suffixes: var.suffixes.drop_last().push(
                        suffix_last_updated(var.suffixes.last(), edit),
                    ),
                }
            },
        ),
        ExpressionView::TableConstructor(table) => ExpressionView::TableConstructor(
            TableConstructorView { close: trail(table.close, edit), ..table },
        ),
    }
}

/// The prefix with the trailing trivia of its last token edited.
pub open spec fn prefix_last_updated(prefix: PrefixView, edit: FormatTriviaTypeView) -> PrefixView
    decreases prefix,
{
    match prefix {
        PrefixView::Name(t) => PrefixView::Name(trail(t, edit)),
        PrefixView::Expression(e) => PrefixView::Expression(Box::new(last_updated(*e, edit))),
    }
}

/// The call or indexed expression with the trailing trivia of its last token edited.
pub open spec fn suffixed_last_updated(node: SuffixedView, edit: FormatTriviaTypeView)
    -> SuffixedView {
    if node.suffixes.len() == 0 {
        SuffixedView { prefix: prefix_last_updated(node.prefix, edit), suffixes: node.suffixes }
    } else {
        SuffixedView {
            prefix: node.prefix,
            suffixes: node.suffixes.drop_last().push(
                suffix_last_updated(node.suffixes.last(), edit),
            ),
        }
    }
}

/// The edit that takes all trivia away.
pub open spec fn cleared() -> FormatTriviaTypeView {
    FormatTriviaTypeView::Replace(Seq::empty())
}

/// The trivia behind the last token of the arguments.
pub open spec fn args_last_trailing(args: FunctionArgsView) -> Seq<crate::token::TokenView> {
    match args {
        FunctionArgsView::Parentheses { open, arguments, close } => close.trailing,
        FunctionArgsView::String(t) => t.trailing,
        FunctionArgsView::TableConstructor(table) => table.close.trailing,
    }
}

/// The trivia behind the last token of the suffix.
pub open spec fn suffix_last_trailing(suffix: SuffixView) -> Seq<crate::token::TokenView> {
    match suffix {
        SuffixView::Dot { dot, name } => name.trailing,
        SuffixView::Brackets { open, expression, close } => close.trailing,
        SuffixView::Call(args) => args_last_trailing(args),
        SuffixView::MethodCall { colon, name, args } => args_last_trailing(args),
    }
}

/// The trivia behind the last token of the expression.
pub open spec fn last_trailing(e: ExpressionView) -> Seq<crate::token::TokenView>
    decreases e,
{
    match e {
        ExpressionView::Number(t) => t.trailing,
        ExpressionView::String(t) => t.trailing,
        ExpressionView::Symbol(t) => t.trailing,
        ExpressionView::Name(t) => t.trailing,
        ExpressionView::Parentheses { open, expression, close } => close.trailing,
        ExpressionView::UnaryOperator { operator, expression } => last_trailing(*expression),
        ExpressionView::BinaryOperator { lhs, operator, rhs } => last_trailing(*rhs),
        ExpressionView::Function { function_token, body } => body.end_token.trailing,
        ExpressionView::FunctionCall(call) => if call.suffixes.len() == 0 {
            prefix_last_trailing(call.prefix)
        } else {
            suffix_last_trailing(call.suffixes.last())
        },
        ExpressionView::Var(var) => if var.suffixes.len() == 0 {
            prefix_last_trailing(var.prefix)
        } else {
            suffix_last_trailing(var.suffixes.last())
        },
        ExpressionView::TableConstructor(table) => table.close.trailing,
    }
}

/// The trivia behind the last token of the prefix.
pub open spec fn prefix_last_trailing(prefix: PrefixView) -> Seq<crate::token::TokenView>
    decreases prefix,
{
    match prefix {
        PrefixView::Name(t) => t.trailing,
        PrefixView::Expression(e) => last_trailing(*e),
    }
}

/// The list with the leading trivia of its first token edited, if it has one.
pub open spec fn punctuated_first_updated(list: PunctuatedView, edit: FormatTriviaTypeView)
    -> PunctuatedView {
    if list.pairs.len() == 0 {
        list
    } else {
        PunctuatedView {
            pairs: list.pairs.update(
                0,
                PairView { value: first_updated(list.pairs[0].value, edit), ..list.pairs[0] },
            ),
        }
    }
}

/// The element with the trailing trivia of its last token edited: that of its
/// separator if it has one, else that of its value.
pub open spec fn pair_last_updated(pair: PairView, edit: FormatTriviaTypeView) -> PairView {
    match pair.separator {
        Some(separator) => PairView { value: pair.value, separator: Some(trail(separator, edit)) },
        None => PairView { value: last_updated(pair.value, edit), separator: None },
    }
}

/// The list with the trailing trivia of its last token edited, if it has one.
pub open spec fn punctuated_last_updated(list: PunctuatedView, edit: FormatTriviaTypeView)
    -> PunctuatedView {
    if list.pairs.len() == 0 {
        list
    } else {
        PunctuatedView {
            pairs: list.pairs.drop_last().push(pair_last_updated(list.pairs.last(), edit)),
        }
    }
}

/// The number of the values of a run of suffixes is the number of the suffixes.
#[verifier::spinoff_prover]
pub proof fn lemma_view_suffixes_len(suffixes: Vec<Suffix>)
    ensures
        view_suffixes(suffixes).len() == suffixes.len(),
{
    reveal(view_suffixes);
}

/// The table with the leading trivia of its opening brace edited.
#[verifier::spinoff_prover]
pub fn update_table_leading(table: TableConstructor, edit: FormatTriviaType) -> (result:
    TableConstructor)
    ensures
        result@ == (TableConstructorView { open: lead(table@.open, edit@), ..table@ }),
{
    proof {
        reveal(view_table);
    }
    TableConstructor {
        open: table.open.update_leading_trivia(edit),
        fields: table.fields,
        close: table.close,
    }
}

/// The table with the trailing trivia of its closing brace edited.
#[verifier::spinoff_prover]
pub fn update_table_trailing(table: TableConstructor, edit: FormatTriviaType) -> (result:
    TableConstructor)
    ensures
        result@ == (TableConstructorView { close: trail(table@.close, edit@), ..table@ }),
{
    proof {
        reveal(view_table);
    }
    TableConstructor {
        open: table.open,
        fields: table.fields,
        close: table.close.update_trailing_trivia(edit),
    }
}

/// The function body with the trailing trivia of its `end` edited.
#[verifier::spinoff_prover]
pub fn update_body_trailing(body: FunctionBody, edit: FormatTriviaType) -> (result: FunctionBody)
    ensures
        result@ == (FunctionBodyView { end_token: trail(body@.end_token, edit@), ..body@ }),
{
    proof {
        reveal(view_function_body);
    }
    FunctionBody {
        open: body.open,
        parameters: body.parameters,
        close: body.close,
        block: body.block,
        end_token: body.end_token.update_trailing_trivia(edit),
    }
}

/// The expression with the leading trivia of its first token edited.
#[verifier::spinoff_prover]
pub fn update_expression_leading(e: Expression, edit: FormatTriviaType) -> (result: Expression)
    ensures
        result@ == first_updated(e@, edit@),
    decreases e,
{
    proof {
        reveal(view_expression);
    }
    match e {
        Expression::Number(t) => Expression::Number(t.update_leading_trivia(edit)),
        Expression::String(t) => Expression::String(t.update_leading_trivia(edit)),
        Expression::Symbol(t) => Expression::Symbol(t.update_leading_trivia(edit)),
        Expression::Name(t) => Expression::Name(t.update_leading_trivia(edit)),
        Expression::Parentheses { open, expression, close } => Expression::Parentheses {
            open: open.update_leading_trivia(edit),
            expression,
            close,
        },
        Expression::UnaryOperator { operator, expression } => Expression::UnaryOperator {
            operator: operator.update_leading_trivia(edit),
            expression,
        },
        Expression::BinaryOperator { lhs, operator, rhs } => Expression::BinaryOperator {
            lhs: Box::new(update_expression_leading(*lhs, edit)),
            operator,
            rhs,
        },
        Expression::Function { function_token, body } => Expression::Function {
            function_token: function_token.update_leading_trivia(edit),
            body,
        },
        Expression::FunctionCall(call) => Expression::FunctionCall(
            FunctionCall {
                prefix: update_prefix_leading(call.prefix, edit),
                suffixes: call.suffixes,
            },
        ),
        Expression::Var(var) => Expression::Var(
            VarExpression {
                prefix: update_prefix_leading(var.prefix, edit),
                suffixes: var.suffixes,
            },
        ),
        Expression::TableConstructor(table) => Expression::TableConstructor(
            update_table_leading(table, edit),
        ),
    }
}

/// The prefix with the leading trivia of its first token edited.
#[verifier::spinoff_prover]
pub fn update_prefix_leading(prefix: Prefix, edit: FormatTriviaType) -> (result: Prefix)
    ensures
        result@ == prefix_first_updated(prefix@, edit@),
    decreases prefix,
{
    proof {
        reveal(view_prefix);
    }
    match prefix {
        Prefix::Name(t) => Prefix::Name(t.update_leading_trivia(edit)),
        Prefix::Expression(e) => Prefix::Expression(Box::new(update_expression_leading(*e, edit))),
    }
}

/// The arguments with the trailing trivia of their last token edited.
#[verifier::spinoff_prover]
pub fn update_args_trailing(args: FunctionArgs, edit: FormatTriviaType) -> (result: FunctionArgs)
    ensures
        result@ == args_last_updated(args@, edit@),
{
    proof {
        reveal(view_function_args);
    }
    match args {
        FunctionArgs::Parentheses { open, arguments, close } => FunctionArgs::Parentheses {
            open,
            arguments,
            close: close.update_trailing_trivia(edit),
        },
        FunctionArgs::String(t) => FunctionArgs::String(t.update_trailing_trivia(edit)),
        FunctionArgs::TableConstructor(table) => FunctionArgs::TableConstructor(
            update_table_trailing(table, edit),
        ),
    }
}

/// The suffix with the trailing trivia of its last token edited.
#[verifier::spinoff_prover]
pub fn update_suffix_trailing(suffix: Suffix, edit: FormatTriviaType) -> (result: Suffix)
    ensures
        result@ == suffix_last_updated(suffix@, edit@),
{
    proof {
        reveal(view_suffix);
    }
    match suffix {
        Suffix::Dot { dot, name } => Suffix::Dot { dot, name: name.update_trailing_trivia(edit) },
        Suffix::Brackets { open, expression, close } => Suffix::Brackets {
            open,
            expression,
            close: close.update_trailing_trivia(edit),
        },
        Suffix::Call(args) => Suffix::Call(update_args_trailing(args, edit)),
        Suffix::MethodCall { colon, name, args } => Suffix::MethodCall {
            colon,
            name,
            args: update_args_trailing(args, edit),
        },
    }
}

/// The suffixes with the trailing trivia of the last token of the last one edited.
#[verifier::spinoff_prover]
pub fn update_suffixes_trailing(suffixes: Vec<Suffix>, edit: FormatTriviaType) -> (result: Vec<
    Suffix,
>)
    requires
        suffixes.len() > 0,
    ensures
        view_suffixes(result) == view_suffixes(suffixes).drop_last().push(
            suffix_last_updated(view_suffixes(suffixes).last(), edit@),
        ),
{
    proof {
        reveal(view_suffixes);
    }
    let mut result = suffixes;
    let last = result.pop().unwrap();
    let updated = update_suffix_trailing(last, edit);
    result.push(updated);
    assert(view_suffixes(result) =~= view_suffixes(suffixes).drop_last().push(
        suffix_last_updated(view_suffixes(suffixes).last(), edit@),
    ));
    result
}

/// The expression with the trailing trivia of its last token edited.
#[verifier::spinoff_prover]
pub fn update_expression_trailing(e: Expression, edit: FormatTriviaType) -> (result: Expression)
    ensures
        result@ == last_updated(e@, edit@),
    decreases e,
{
    proof {
        reveal(view_expression);
    }
    match e {
        Expression::Number(t) => Expression::Number(t.update_trailing_trivia(edit)),
        Expression::String(t) => Expression::String(t.update_trailing_trivia(edit)),
        Expression::Symbol(t) => Expression::Symbol(t.update_trailing_trivia(edit)),
        Expression::Name(t) => Expression::Name(t.update_trailing_trivia(edit)),
        Expression::Parentheses { open, expression, close } => Expression::Parentheses {
            open,
            expression,
            close: close.update_trailing_trivia(edit),
        },
        Expression::UnaryOperator { operator, expression } => Expression::UnaryOperator {
            operator,
            expression: Box::new(update_expression_trailing(*expression, edit)),
        },
        Expression::BinaryOperator { lhs, operator, rhs } => Expression::BinaryOperator {
            lhs,
            operator,
            rhs: Box::new(update_expression_trailing(*rhs, edit)),
        },
        Expression::Function { function_token, body } => Expression::Function {
            function_token,
            body: update_body_trailing(body, edit),
        },
        Expression::FunctionCall(call) => {
            if call.suffixes.len() == 0 {
                proof {
                    lemma_view_suffixes_len(call.suffixes);
                }
                Expression::FunctionCall(
                    FunctionCall {
                        prefix: update_prefix_trailing(call.prefix, edit),
                        suffixes: call.suffixes,
                    },
                )
            } else {
                proof {
                    lemma_view_suffixes_len(call.suffixes);
                }
                Expression::FunctionCall(
                    FunctionCall {
                        prefix: call.prefix,
                        suffixes: update_suffixes_trailing(call.suffixes, edit),
                    },
                )
            }
        },
        Expression::Var(var) => {
            if var.suffixes.len() == 0 {
                proof {
                    lemma_view_suffixes_len(var.suffixes);
                }
                Expression::Var(
                    VarExpression {
                        prefix: update_prefix_trailing(var.prefix, edit),
                        suffixes: var.suffixes,
                    },
                )
            } else {
                proof {
                    lemma_view_suffixes_len(var.suffixes);
                }
                Expression::Var(
                    VarExpression {
                        prefix: var.prefix,
                        suffixes: update_suffixes_trailing(var.suffixes, edit),
                    },
                )
            }
        },
        Expression::TableConstructor(table) => Expression::TableConstructor(
            update_table_trailing(table, edit),
        ),
    }
}

/// The prefix with the trailing trivia of its last token edited.
#[verifier::spinoff_prover]
pub fn update_prefix_trailing(prefix: Prefix, edit: FormatTriviaType) -> (result: Prefix)
    ensures
        result@ == prefix_last_updated(prefix@, edit@),
    decreases prefix,
{
    proof {
        reveal(view_prefix);
    }
    match prefix {
        Prefix::Name(t) => Prefix::Name(t.update_trailing_trivia(edit)),
        Prefix::Expression(e) => Prefix::Expression(Box::new(update_expression_trailing(*e, edit))),
    }
}

/// The token without the trivia behind it, and those trivia.
pub fn take_trailing_trivia(token: TokenReference) -> (result: (
    TokenReference,
    Vec<crate::token::Token>,
))
    ensures
        result.0@ == trail(token@, cleared()),
        crate::token::tokens_view(result.1@) == token@.trailing,
{
    let empty: Vec<crate::token::Token> = Vec::new();
    assert(crate::token::tokens_view(empty@) =~= Seq::empty());
    (
        TokenReference {
            leading_trivia: token.leading_trivia,
            token: token.token,
            trailing_trivia: empty,
        },
        token.trailing_trivia,
    )
}

/// The arguments without the trivia behind their last token, and those trivia.
#[verifier::spinoff_prover]
pub fn take_args_trailing(args: FunctionArgs) -> (result: (FunctionArgs, Vec<crate::token::Token>))
    ensures
        result.0@ == args_last_updated(args@, cleared()),
        crate::token::tokens_view(result.1@) == args_last_trailing(args@),
{
    proof {
        reveal(view_function_args);
    }
    match args {
        FunctionArgs::Parentheses { open, arguments, close } => {
            let (close, taken) = take_trailing_trivia(close);
            (FunctionArgs::Parentheses { open, arguments, close }, taken)
        },
        FunctionArgs::String(t) => {
            let (t, taken) = take_trailing_trivia(t);
            (FunctionArgs::String(t), taken)
        },
        FunctionArgs::TableConstructor(table) => {
            let (table, taken) = take_table_trailing(table);
            (FunctionArgs::TableConstructor(table), taken)
        },
    }
}

/// The table without the trivia behind its closing brace, and those trivia.
#[verifier::spinoff_prover]
pub fn take_table_trailing(table: TableConstructor) -> (result: (
    TableConstructor,
    Vec<crate::token::Token>,
))
    ensures
        result.0@ == (TableConstructorView { close: trail(table@.close, cleared()), ..table@ }),
        crate::token::tokens_view(result.1@) == table@.close.trailing,
{
    proof {
        reveal(view_table);
    }
    let (close, taken) = take_trailing_trivia(table.close);
    (TableConstructor { open: table.open, fields: table.fields, close }, taken)
}

/// The function body without the trivia behind its `end`, and those trivia.
#[verifier::spinoff_prover]
pub fn take_body_trailing(body: FunctionBody) -> (result: (FunctionBody, Vec<crate::token::Token>))
    ensures
        result.0@ == (FunctionBodyView { end_token: trail(body@.end_token, cleared()), ..body@ }),
        crate::token::tokens_view(result.1@) == body@.end_token.trailing,
{
    proof {
        reveal(view_function_body);
    }
    let (end_token, taken) = take_trailing_trivia(body.end_token);
    (
        FunctionBody {
            open: body.open,
            parameters: body.parameters,
            close: body.close,
            block: body.block,
            end_token,
        },
        taken,
    )
}

/// The suffix without the trivia behind its last token, and those trivia.
#[verifier::spinoff_prover]
pub fn take_suffix_trailing(suffix: Suffix) -> (result: (Suffix, Vec<crate::token::Token>))
    ensures
        result.0@ == suffix_last_updated(suffix@, cleared()),
        crate::token::tokens_view(result.1@) == suffix_last_trailing(suffix@),
{
    proof {
        reveal(view_suffix);
    }
    match suffix {
        Suffix::Dot { dot, name } => {
            let (name, taken) = take_trailing_trivia(name);
            (Suffix::Dot { dot, name }, taken)
        },
        Suffix::Brackets { open, expression, close } => {
            let (close, taken) = take_trailing_trivia(close);
            (Suffix::Brackets { open, expression, close }, taken)
        },
        Suffix::Call(args) => {
            let (args, taken) = take_args_trailing(args);
            (Suffix::Call(args), taken)
        },
        Suffix::MethodCall { colon, name, args } => {
            let (args, taken) = take_args_trailing(args);
            (Suffix::MethodCall { colon, name, args }, taken)
        },
    }
}

/// The suffixes without the trivia behind the last token of the last one,
/// and those trivia.
#[verifier::spinoff_prover]
pub fn take_suffixes_trailing(suffixes: Vec<Suffix>) -> (result: (
    Vec<Suffix>,
    Vec<crate::token::Token>,
))
    requires
        suffixes.len() > 0,
    ensures
        view_suffixes(result.0) == view_suffixes(suffixes).drop_last().push(
            suffix_last_updated(view_suffixes(suffixes).last(), cleared()),
        ),
        crate::token::tokens_view(result.1@) == suffix_last_trailing(
            view_suffixes(suffixes).last(),
        ),
{
    proof {
        reveal(view_suffixes);
    }
    let mut result = suffixes;
    let last = result.pop().unwrap();
    let (updated, taken) = take_suffix_trailing(last);
    result.push(updated);
    assert(view_suffixes(result) =~= view_suffixes(suffixes).drop_last().push(
        suffix_last_updated(view_suffixes(suffixes).last(), cleared()),
    ));
    (result, taken)
}

/// The expression without the trivia behind its last token, and those trivia.
#[verifier::spinoff_prover]
pub fn take_expression_trailing(e: Expression) -> (result: (Expression, Vec<crate::token::Token>))
    ensures
        result.0@ == last_updated(e@, cleared()),
        crate::token::tokens_view(result.1@) == last_trailing(e@),
    decreases e,
{
    proof {
        reveal(view_expression);
    }
    match e {
        Expression::Number(t) => {
            let (t, taken) = take_trailing_trivia(t);
            (Expression::Number(t), taken)
        },
        Expression::String(t) => {
            let (t, taken) = take_trailing_trivia(t);
            (Expression::String(t), taken)
        },
        Expression::Symbol(t) => {
            let (t, taken) = take_trailing_trivia(t);
            (Expression::Symbol(t), taken)
        },
        Expression::Name(t) => {
            let (t, taken) = take_trailing_trivia(t);
            (Expression::Name(t), taken)
        },
        Expression::Parentheses { open, expression, close } => {
            let (close, taken) = take_trailing_trivia(close);
            (Expression::Parentheses { open, expression, close }, taken)
        },
        Expression::UnaryOperator { operator, expression } => {
            let (inner, taken) = take_expression_trailing(*expression);
            (Expression::UnaryOperator { operator, expression: Box::new(inner) }, taken)
        },
        Expression::BinaryOperator { lhs, operator, rhs } => {
            let (inner, taken) = take_expression_trailing(*rhs);
            (Expression::BinaryOperator { lhs, operator, rhs: Box::new(inner) }, taken)
        },
        Expression::Function { function_token, body } => {
            let (body, taken) = take_body_trailing(body);
            (Expression::Function { function_token, body }, taken)
        },
        Expression::FunctionCall(call) => {
            proof {
                lemma_view_suffixes_len(call.suffixes);
            }
            if call.suffixes.len() == 0 {
                let (prefix, taken) = take_prefix_trailing(call.prefix);
                (Expression::FunctionCall(FunctionCall { prefix, suffixes: call.suffixes }), taken)
            } else {
                let (suffixes, taken) = take_suffixes_trailing(call.suffixes);
                (Expression::FunctionCall(FunctionCall { prefix: call.prefix, suffixes }), taken)
            }
        },
        Expression::Var(var) => {
            proof {
                lemma_view_suffixes_len(var.suffixes);
            }
            if var.suffixes.len() == 0 {
                let (prefix, taken) = take_prefix_trailing(var.prefix);
                (Expression::Var(VarExpression { prefix, suffixes: var.suffixes }), taken)
            } else {
                let (suffixes, taken) = take_suffixes_trailing(var.suffixes);
                (Expression::Var(VarExpression { prefix: var.prefix, suffixes }), taken)
            }
        },
        Expression::TableConstructor(table) => {
            let (table, taken) = take_table_trailing(table);
            (Expression::TableConstructor(table), taken)
        },
    }
}

/// The prefix without the trivia behind its last token, and those trivia.
#[verifier::spinoff_prover]
pub fn take_prefix_trailing(prefix: Prefix) -> (result: (Prefix, Vec<crate::token::Token>))
    ensures
        result.0@ == prefix_last_updated(prefix@, cleared()),
        crate::token::tokens_view(result.1@) == prefix_last_trailing(prefix@),
    decreases prefix,
{
    proof {
        reveal(view_prefix);
    }
    match prefix {
        Prefix::Name(t) => {
            let (t, taken) = take_trailing_trivia(t);
            (Prefix::Name(t), taken)
        },
        Prefix::Expression(e) => {
            let (inner, taken) = take_expression_trailing(*e);
            (Prefix::Expression(Box::new(inner)), taken)
        },
    }
}

/// The call with the leading trivia of its first token edited by `leading`
/// and the trailing trivia of its last token by `trailing`.
#[verifier::spinoff_prover]
pub fn update_call_trivia(call: FunctionCall, leading: FormatTriviaType, trailing: FormatTriviaType)
    -> (result: FunctionCall)
    ensures
        result@ == suffixed_last_updated(suffixed_first_updated(call@, leading@), trailing@),
{
    proof {
        lemma_view_suffixes_len(call.suffixes);
    }
    let prefix = update_prefix_leading(call.prefix, leading);
    if call.suffixes.len() == 0 {
        FunctionCall { prefix: update_prefix_trailing(prefix, trailing), suffixes: call.suffixes }
    } else {
        FunctionCall { prefix, suffixes: update_suffixes_trailing(call.suffixes, trailing) }
    }
}

/// The list with the leading trivia of its first token edited, if it has one.
#[verifier::spinoff_prover]
pub fn update_punctuated_leading(list: Punctuated, edit: FormatTriviaType) -> (result: Punctuated)
    ensures
        result@ == punctuated_first_updated(list@, edit@),
{
    proof {
        reveal(view_punctuated);
        reveal(view_pairs);
        reveal(view_pair);
    }
    let mut pairs = list.pairs;
    if pairs.len() == 0 {
        return Punctuated { pairs };
    }
    let ghost before = view_pairs(pairs);
    let first = pairs.remove(0);
    let updated = Pair {
        value: update_expression_leading(first.value, edit),
        separator: first.separator,
    };
    pairs.insert(0, updated);
    assert(view_pairs(pairs) =~= before.update(
        0,
        PairView { value: first_updated(before[0].value, edit@), ..before[0] },
    ));
    Punctuated { pairs }
}

/// The list with the trailing trivia of its last token edited, if it has one.
#[verifier::spinoff_prover]
pub fn update_punctuated_trailing(list: Punctuated, edit: FormatTriviaType) -> (result: Punctuated)
    ensures
        result@ == punctuated_last_updated(list@, edit@),
{
    proof {
        reveal(view_punctuated);
        reveal(view_pairs);
        reveal(view_pair);
    }
    let mut pairs = list.pairs;
    if pairs.len() == 0 {
        return Punctuated { pairs };
    }
    let ghost before = view_pairs(pairs);
    let last = pairs.pop().unwrap();
    let updated = match last.separator {
        Some(separator) => Pair {
            value: last.value,
            separator: Some(separator.update_trailing_trivia(edit)),
        },
        None => Pair { value: update_expression_trailing(last.value, edit), separator: None },
    };
    pairs.push(updated);
    assert(view_pairs(pairs) =~= before.drop_last().push(pair_last_updated(before.last(), edit@)));
    Punctuated { pairs }
}

} // verus!
