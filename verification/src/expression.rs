//! Formatting expressions, and what expressions are made of.

use vstd::prelude::*;
use crate::ast::{
    Expression, Field, FieldPair, FunctionArgs, FunctionBody, FunctionCall, Pair, Prefix,
    Punctuated, Suffix, TableConstructor, VarExpression,
};
use crate::edges::take_expression_trailing;
use crate::formatter::{format_trailing_trivia, CodeFormatter, EndTokenType};
use crate::flatten::expression_token_list;
use crate::measure::{starts_with_byte, starts_with_comment};
use crate::rewrite::{DASH, OPEN_BRACKET};
use crate::layout::{
    bracket_gap, dropped_comments, formatted_expression, formatted_field, formatted_fields,
    formatted_function_args, formatted_function_body, formatted_pairs, formatted_prefix,
    formatted_punctuated, formatted_suffix, formatted_suffixes, formatted_table, list_separator,
    unary_gap,
};
use crate::token::{bytes_of, lemma_tokens_view_add, same_text, tokens_view, Token, TokenReference};
use crate::trivia::{space, space_token, FormatTriviaType};
use crate::vectors::{
    lemma_view_field_pairs, lemma_view_field_pairs_empty, lemma_view_field_pairs_push,
    lemma_view_pairs, lemma_view_pairs_empty, lemma_view_pairs_push, lemma_view_suffixes,
    lemma_view_suffixes_empty, lemma_view_suffixes_push, reversed,
};
use crate::view::{
    view_expression, view_field, view_field_pair, view_field_pairs, view_function_args,
    view_function_body, view_pair, view_pairs, view_prefix, view_punctuated, view_suffix,
    view_suffixes, view_table,
};

verus! {

/// A list of one token.
pub fn one_token(token: Token) -> (list: Vec<Token>)
    ensures
        tokens_view(list@) == seq![token@],
{
    let mut list: Vec<Token> = Vec::new();
    list.push(token);
    assert(tokens_view(list@) =~= seq![token@]);
    list
}

/// The list `first` with the list `second` behind it.
pub fn joined(first: Vec<Token>, second: Vec<Token>) -> (list: Vec<Token>)
    ensures
        tokens_view(list@) == tokens_view(first@) + tokens_view(second@),
{
    let mut list = first;
    let mut second = second;
    proof {
        lemma_tokens_view_add(list@, second@);
    }
    list.append(&mut second);
    list
}

/// The comments of a token that is not written out, each behind a space.
pub fn take_comments(token: &TokenReference) -> (comments: Vec<Token>)
    ensures
        tokens_view(comments@) == dropped_comments(token@),
{
    joined(
        format_trailing_trivia(&token.leading_trivia),
        format_trailing_trivia(&token.trailing_trivia),
    )
}

/// Whether a space stands behind a unary operator in front of the operand.
pub fn unary_gap_of(operator: &TokenReference, operand: &Expression) -> (gap: bool)
    ensures
        gap == unary_gap(operator@, operand@),
{
    if same_text(&operator.token.text, &bytes_of("not")) {
        true
    } else if same_text(&operator.token.text, &bytes_of("-")) {
        let tokens = expression_token_list(operand);
        starts_with_byte(&tokens, DASH) || starts_with_comment(&tokens)
    } else {
        false
    }
}

/// Whether blanks stand inside the brackets around the expression.
pub fn bracket_gap_of(inner: &Expression) -> (gap: bool)
    ensures
        gap == bracket_gap(inner@),
{
    let tokens = expression_token_list(inner);
    starts_with_byte(&tokens, OPEN_BRACKET)
}

impl CodeFormatter {
    /// The separator between two elements of a list on one line.
    pub fn format_list_separator(&self, separator: TokenReference) -> (formatted: TokenReference)
        ensures
            formatted@ == list_separator(self@, separator@),
    {
        TokenReference {
            leading_trivia: self.format_leading_trivia(&separator.leading_trivia, None),
            token: separator.token,
            trailing_trivia: one_token(space_token()),
        }
    }

    /// Formats an expression on one line.
    #[verifier::spinoff_prover]
    pub fn format_expression(&mut self, e: Expression) -> (result: Expression)
        ensures
            (final(self)@, result@) == formatted_expression(old(self)@, e@),
        decreases e, 0nat,
    {
        proof {
            reveal(formatted_expression);
            reveal(view_expression);
        }
        match e {
            Expression::Number(t) => Expression::Number(self.format_token_reference(&t)),
            Expression::String(t) => Expression::String(self.format_token_reference(&t)),
            Expression::Symbol(t) => Expression::Symbol(self.format_token_reference(&t)),
            Expression::Name(t) => Expression::Name(self.format_token_reference(&t)),
            Expression::Parentheses { open, expression, close } => {
                let open = self.format_symbol(&open, false, false);
                let inner = self.format_expression(*expression);
                let close = self.format_symbol(&close, false, false);
                Expression::Parentheses { open, expression: Box::new(inner), close }
            },
            Expression::UnaryOperator { operator, expression } => {
                let gap = unary_gap_of(&operator, &expression);
                let operator = self.format_symbol(&operator, false, gap);
                let inner = self.format_expression(*expression);
                Expression::UnaryOperator { operator, expression: Box::new(inner) }
            },
            Expression::BinaryOperator { lhs, operator, rhs } => {
                let left = self.format_expression(*lhs);
                let operator = self.format_symbol(&operator, true, true);
                let right = self.format_expression(*rhs);
                Expression::BinaryOperator { lhs: Box::new(left), operator, rhs: Box::new(right) }
            },
            Expression::Function { function_token, body } => {
                let extra = self.get_range_indent_increase(
                    CodeFormatter::get_token_range(&function_token),
                );
                let function_token = self.format_symbol(&function_token, false, false);
                let body = self.format_function_body(body, extra);
                Expression::Function { function_token, body }
            },
            Expression::FunctionCall(call) => {
                proof {
                    lemma_view_suffixes(call.suffixes);
                }
                let prefix = self.format_prefix(call.prefix);
                let suffixes = self.format_suffixes(call.suffixes);
                Expression::FunctionCall(FunctionCall { prefix, suffixes })
            },
            Expression::Var(var) => {
                proof {
                    lemma_view_suffixes(var.suffixes);
                }
                let prefix = self.format_prefix(var.prefix);
                let suffixes = self.format_suffixes(var.suffixes);
                Expression::Var(VarExpression { prefix, suffixes })
            },
            Expression::TableConstructor(table) => Expression::TableConstructor(
                self.format_table_constructor(table),
            ),
        }
    }

    /// Formats what a call or an indexing starts with.
    #[verifier::spinoff_prover]
    pub fn format_prefix(&mut self, prefix: Prefix) -> (result: Prefix)
        ensures
            (final(self)@, result@) == formatted_prefix(old(self)@, prefix@),
        decreases prefix,
    {
        proof {
            reveal(formatted_prefix);
            reveal(view_prefix);
        }
        match prefix {
            Prefix::Name(t) => Prefix::Name(self.format_token_reference(&t)),
            Prefix::Expression(e) => Prefix::Expression(Box::new(self.format_expression(*e))),
        }
    }

    /// Formats one step behind a prefix.
    #[verifier::spinoff_prover]
    pub fn format_suffix(&mut self, suffix: Suffix) -> (result: Suffix)
        ensures
            (final(self)@, result@) == formatted_suffix(old(self)@, suffix@),
        decreases suffix,
    {
        proof {
            reveal(formatted_suffix);
            reveal(view_suffix);
        }
        match suffix {
            Suffix::Dot { dot, name } => Suffix::Dot {
                dot: self.format_symbol(&dot, false, false),
                name: self.format_token_reference(&name),
            },
            Suffix::Brackets { open, expression, close } => {
                let gap = bracket_gap_of(&expression);
                let open = self.format_symbol(&open, false, gap);
                let expression = self.format_expression(expression);
                let close = self.format_symbol(&close, gap, false);
                Suffix::Brackets { open, expression, close }
            },
            Suffix::Call(args) => Suffix::Call(self.format_function_args(args)),
            Suffix::MethodCall { colon, name, args } => {
                let colon = self.format_symbol(&colon, false, false);
                let name = self.format_token_reference(&name);
                let args = self.format_function_args(args);
                Suffix::MethodCall { colon, name, args }
            },
        }
    }

    /// Formats the steps behind a prefix, one after another.
    #[verifier::spinoff_prover]
    pub fn format_suffixes(&mut self, suffixes: Vec<Suffix>) -> (result: Vec<Suffix>)
        ensures
            (final(self)@, view_suffixes(result)) == formatted_suffixes(
                old(self)@,
                view_suffixes(suffixes),
                suffixes.len() as int,
            ),
        decreases suffixes,
    {
        let ghost whole = suffixes;
        let ghost views = view_suffixes(suffixes);
        let ghost start = self@;
        let count = suffixes.len();
        let mut rest = reversed(suffixes);
        let mut done: Vec<Suffix> = Vec::new();
        let mut i: usize = 0;
        proof {
            reveal(formatted_suffixes);
            lemma_view_suffixes(whole);
            lemma_view_suffixes_empty(done);
        }
        while i < count
            invariant
                i <= count,
                count == whole.len(),
                whole == suffixes,
                views == view_suffixes(whole),
                views.len() == count,
                rest.len() == count - i,
                forall|k: int| 0 <= k < rest.len() ==> rest@[k] == whole@[count - 1 - k],
                (self@, view_suffixes(done)) == formatted_suffixes(start, views, i as int),
            decreases count - i,
        {
            let ghost before = done;
            let suffix = rest.pop().unwrap();
            proof {
                reveal(formatted_suffixes);
                lemma_view_suffixes(whole);
                assert(suffix == whole@[i as int]);
            }
            let formatted = self.format_suffix(suffix);
            done.push(formatted);
            proof {
                lemma_view_suffixes_push(before, formatted, done);
            }
            i += 1;
        }
        done
    }

    /// Formats the arguments of a call.
    #[verifier::spinoff_prover]
    pub fn format_function_args(&mut self, args: FunctionArgs) -> (result: FunctionArgs)
        ensures
            (final(self)@, result@) == formatted_function_args(old(self)@, args@),
        decreases args,
    {
        proof {
            reveal(formatted_function_args);
            reveal(view_function_args);
        }
        match args {
            FunctionArgs::Parentheses { open, arguments, close } => {
                let open = self.format_symbol(&open, false, false);
                let (arguments, comments) = self.format_punctuated(arguments);
                let close = self.format_symbol(&close, false, false).update_trailing_trivia(
                    FormatTriviaType::Append(comments),
                );
                FunctionArgs::Parentheses { open, arguments, close }
            },
            FunctionArgs::String(t) => FunctionArgs::String(self.format_token_reference(&t)),
            FunctionArgs::TableConstructor(table) => FunctionArgs::TableConstructor(
                self.format_table_constructor(table),
            ),
        }
    }

    /// Formats the elements of a list for one line, and takes the comments
    /// from behind their separators.
    #[verifier::spinoff_prover]
    pub fn format_pairs(&mut self, pairs: Vec<Pair>) -> (result: (Vec<Pair>, Vec<Token>))
        ensures
            (final(self)@, view_pairs(result.0), tokens_view(result.1@)) == formatted_pairs(
                old(self)@,
                view_pairs(pairs),
                pairs.len() as int,
            ),
        decreases pairs,
    {
        let ghost whole = pairs;
        let ghost views = view_pairs(pairs);
        let ghost start = self@;
        let count = pairs.len();
        let mut rest = reversed(pairs);
        let mut done: Vec<Pair> = Vec::new();
        let mut comments: Vec<Token> = Vec::new();
        let mut i: usize = 0;
        proof {
            reveal(formatted_pairs);
            lemma_view_pairs(whole);
            lemma_view_pairs_empty(done);
            assert(tokens_view(comments@) =~= Seq::empty());
        }
        while i < count
            invariant
                i <= count,
                count == whole.len(),
                whole == pairs,
                views == view_pairs(whole),
                views.len() == count,
                rest.len() == count - i,
                forall|k: int| 0 <= k < rest.len() ==> rest@[k] == whole@[count - 1 - k],
                (self@, view_pairs(done), tokens_view(comments@)) == formatted_pairs(
                    start,
                    views,
                    i as int,
                ),
            decreases count - i,
        {
            let ghost before = done;
            let pair = rest.pop().unwrap();
            proof {
                reveal(formatted_pairs);
                reveal(view_pair);
                lemma_view_pairs(whole);
                assert(pair == whole@[i as int]);
            }
            let (value, behind) = take_expression_trailing(self.format_expression(pair.value));
            comments = joined(comments, behind);
            let formatted = match pair.separator {
                Some(separator) => {
                    if i + 1 == count {
                        comments = joined(comments, take_comments(&separator));
                        Pair { value, separator: None }
                    } else {
                        comments = joined(
                            comments,
                            format_trailing_trivia(&separator.trailing_trivia),
                        );
                        Pair { value, separator: Some(self.format_list_separator(separator)) }
                    }
                },
                None => Pair { value, separator: None },
            };
            done.push(formatted);
            proof {
                lemma_view_pairs_push(before, formatted, done);
            }
            i += 1;
        }
        (done, comments)
    }

    /// Formats a list for one line, and takes the comments from behind its separators.
    #[verifier::spinoff_prover]
    pub fn format_punctuated(&mut self, list: Punctuated) -> (result: (Punctuated, Vec<Token>))
        ensures
            (final(self)@, result.0@, tokens_view(result.1@)) == formatted_punctuated(
                old(self)@,
                list@,
            ),
        decreases list,
    {
        proof {
            reveal(formatted_punctuated);
            reveal(view_punctuated);
            lemma_view_pairs(list.pairs);
        }
        let (pairs, comments) = self.format_pairs(list.pairs);
        (Punctuated { pairs }, comments)
    }

    /// Formats one field of a table.
    #[verifier::spinoff_prover]
    pub fn format_field(&mut self, field: Field) -> (result: Field)
        ensures
            (final(self)@, result@) == formatted_field(old(self)@, field@),
        decreases field,
    {
        proof {
            reveal(formatted_field);
            reveal(view_field);
        }
        match field {
            Field::ExpressionKey { open, key, close, equal, value } => {
                let gap = bracket_gap_of(&key);
                let open = self.format_symbol(&open, false, gap);
                let key = self.format_expression(key);
                let close = self.format_symbol(&close, gap, false);
                let equal = self.format_symbol(&equal, true, true);
                let value = self.format_expression(value);
                Field::ExpressionKey { open, key, close, equal, value }
            },
            Field::NameKey { name, equal, value } => {
                let name = self.format_token_reference(&name);
                let equal = self.format_symbol(&equal, true, true);
                let value = self.format_expression(value);
                Field::NameKey { name, equal, value }
            },
            Field::NoKey(value) => Field::NoKey(self.format_expression(value)),
        }
    }

    /// Formats the fields of a table for one line, and takes the comments
    /// from behind their separators.
    #[verifier::spinoff_prover]
    pub fn format_fields(&mut self, fields: Vec<FieldPair>) -> (result: (Vec<FieldPair>, Vec<Token>))
        ensures
            (final(self)@, view_field_pairs(result.0), tokens_view(result.1@)) == formatted_fields(
                old(self)@,
                view_field_pairs(fields),
                fields.len() as int,
            ),
        decreases fields,
    {
        let ghost whole = fields;
        let ghost views = view_field_pairs(fields);
        let ghost start = self@;
        let count = fields.len();
        let mut rest = reversed(fields);
        let mut done: Vec<FieldPair> = Vec::new();
        let mut comments: Vec<Token> = Vec::new();
        let mut i: usize = 0;
        proof {
            reveal(formatted_fields);
            lemma_view_field_pairs(whole);
            lemma_view_field_pairs_empty(done);
            assert(tokens_view(comments@) =~= Seq::empty());
        }
        while i < count
            invariant
                i <= count,
                count == whole.len(),
                whole == fields,
                views == view_field_pairs(whole),
                views.len() == count,
                rest.len() == count - i,
                forall|k: int| 0 <= k < rest.len() ==> rest@[k] == whole@[count - 1 - k],
                (self@, view_field_pairs(done), tokens_view(comments@)) == formatted_fields(
                    start,
                    views,
                    i as int,
                ),
            decreases count - i,
        {
            let ghost before = done;
            let pair = rest.pop().unwrap();
            proof {
                reveal(formatted_fields);
                reveal(view_field_pair);
                lemma_view_field_pairs(whole);
                assert(pair == whole@[i as int]);
            }
            let field = self.format_field(pair.field);
            let formatted = match pair.separator {
                Some(separator) => {
                    if i + 1 == count {
                        comments = joined(comments, take_comments(&separator));
                        FieldPair { field, separator: None }
                    } else {
                        comments = joined(
                            comments,
                            format_trailing_trivia(&separator.trailing_trivia),
                        );
                        FieldPair { field, separator: Some(self.format_list_separator(separator)) }
                    }
                },
                None => FieldPair { field, separator: None },
            };
            done.push(formatted);
            proof {
                lemma_view_field_pairs_push(before, formatted, done);
            }
            i += 1;
        }
        (done, comments)
    }

    /// Formats a table constructor for one line.
    #[verifier::spinoff_prover]
    pub fn format_table_constructor(&mut self, table: TableConstructor) -> (result:
        TableConstructor)
        ensures
            (final(self)@, result@) == formatted_table(old(self)@, table@),
        decreases table,
    {
        proof {
            reveal(formatted_table);
            reveal(view_table);
            lemma_view_field_pairs(table.fields);
        }
        let spaced = table.fields.len() > 0;
        let open = self.format_symbol(&table.open, false, spaced);
        let (fields, comments) = self.format_fields(table.fields);
        let close = self.format_symbol(&table.close, spaced, false).update_trailing_trivia(
            FormatTriviaType::Append(comments),
        );
        TableConstructor { open, fields, close }
    }

    /// Formats the parameters and the body of a function. `end` stands
    /// `extra` levels deeper than the block around the function.
    #[verifier::spinoff_prover]
    pub fn format_function_body(&mut self, body: FunctionBody, extra: Option<usize>) -> (result:
        FunctionBody)
        ensures
            (final(self)@, result@) == formatted_function_body(old(self)@, body@, extra),
        decreases body,
    {
        proof {
            reveal(formatted_function_body);
            reveal(view_function_body);
        }
        let open = self.format_symbol(&body.open, false, false);
        let (parameters, comments) = self.format_punctuated(body.parameters);
        let close = self.format_symbol(&body.close, false, false).update_trailing_trivia(
            FormatTriviaType::Append(joined(comments, one_token(self.create_newline_trivia()))),
        );
        let block = self.format_nested_block(body.block);
        let end_token = self.format_end_token(&body.end_token, EndTokenType::BlockEnd)
            .update_leading_trivia(
            FormatTriviaType::Append(one_token(self.create_indent_trivia(extra))),
        );
        FunctionBody { open, parameters, close, block, end_token }
    }
}

} // verus!
