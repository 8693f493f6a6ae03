//! Formatting statements.
//!
//! Every statement starts a line at the indent of its block, and one indent
//! deeper where a registered range holds its first token, and ends its line.
//! A statement with a condition lays the condition out over several lines
//! where the header is too wide for one line or a comment stands inside the
//! condition.

use vstd::prelude::*;
use crate::ast::{
    Assignment, Do, Else, ElseIf, Expression, ForStep, FunctionBody, FunctionCall,
    FunctionDeclaration, GenericFor, If, LastStmt, LocalAssignment, LocalFunction, NumericFor, Pair,
    Punctuated, Repeat, Stmt, While,
};
use crate::edges::{
    update_body_trailing, update_call_trivia, update_expression_leading, update_expression_trailing,
    update_punctuated_leading, update_punctuated_trailing,
};
use crate::expression::{joined, one_token};
use crate::flatten::{
    expression_token_list, lemma_references_view_empty, prefix_token_list, punctuated_token_list,
    push_expression_tokens, push_optional_token, push_punctuated_tokens, push_token,
    stmt_token_list,
};
use crate::formatter::{CodeFormatter, EndTokenType};
use crate::hang::{hang_layout, DEFAULT_HANG_LEVEL};
use crate::layout::{
    closed_body, closing, condition_closer, condition_opener, formatted_assignment,
    formatted_call_stmt, formatted_condition, formatted_do, formatted_else, formatted_else_if,
    formatted_else_ifs, formatted_function_declaration, formatted_generic_for, formatted_if,
    formatted_last_stmt, formatted_local_assignment, formatted_local_function, formatted_name,
    formatted_numeric_for, formatted_repeat, formatted_step, formatted_stmt, formatted_while,
    hangs_condition, hangs_values, header_width, hung_pairs, laid_out_values, line_end, opening,
    own_line, tokens_indent_increase, with_expression_range,
};
use crate::measure::{contains_inline_comments, get_tokens_range, strip_trivia};
use crate::sequences::lemma_add_empty;
use crate::token::{lemma_references_view_push, references_view, TokenReference};
use crate::trivia::{space_token, FormatTriviaType};
use crate::vectors::{
    lemma_view_else_ifs, lemma_view_else_ifs_empty, lemma_view_else_ifs_push, lemma_view_pairs,
    lemma_view_pairs_empty, lemma_view_pairs_push, reversed,
};
use crate::view::{
    view_else, view_else_if, view_else_ifs, view_if, view_last_stmt, view_pair, view_pairs,
    view_punctuated, view_step, view_stmt, PairView,
};

verus! {

/// A list at the end of a line: `edit` is applied behind the last token of the
/// list, or behind `fallback` where the list is empty.
#[verifier::spinoff_prover]
pub fn end_line(fallback: TokenReference, list: Punctuated, edit: FormatTriviaType) -> (result: (
    TokenReference,
    Punctuated,
))
    ensures
        (result.0@, result.1@) == line_end(fallback@, list@, edit@),
{
    proof {
        reveal(view_punctuated);
        lemma_view_pairs(list.pairs);
    }
    if list.pairs.len() == 0 {
        (fallback.update_trailing_trivia(edit), list)
    } else {
        (fallback, update_punctuated_trailing(list, edit))
    }
}

impl CodeFormatter {
    /// The first token of a statement: indented `extra` levels deeper than the block.
    pub fn open_line(&self, token: TokenReference, extra: Option<usize>) -> (result:
        TokenReference)
        ensures
            result@ == opening(self@, token@, extra),
    {
        token.update_leading_trivia(
            FormatTriviaType::Append(one_token(self.create_indent_trivia(extra))),
        )
    }

    /// A token alone on its line.
    pub fn alone_on_line(&self, token: TokenReference, extra: Option<usize>) -> (result:
        TokenReference)
        ensures
            result@ == own_line(self@, token@, extra),
    {
        token.update_trivia(
            FormatTriviaType::Append(one_token(self.create_indent_trivia(extra))),
            FormatTriviaType::Append(one_token(self.create_newline_trivia())),
        )
    }

    /// A token that ends its line.
    pub fn close_line(&self, token: TokenReference) -> (result: TokenReference)
        ensures
            result@ == closing(self@, token@),
    {
        token.update_trailing_trivia(
            FormatTriviaType::Append(one_token(self.create_newline_trivia())),
        )
    }

    /// The indents that a node gets beyond those of its block, by the range of its tokens.
    pub fn get_tokens_indent_increase(&self, tokens: &Vec<TokenReference>) -> (increase: Option<
        usize,
    >)
        ensures
            increase == tokens_indent_increase(self@, references_view(tokens@)),
    {
        match get_tokens_range(tokens) {
            Some(range) => self.get_range_indent_increase(range),
            None => None,
        }
    }

    /// Whether the condition between the keywords `first` and `last` is
    /// laid out over several lines.
    pub fn requires_multiline_condition(
        &self,
        first: &TokenReference,
        condition: &Expression,
        last: &TokenReference,
        extra: Option<usize>,
    ) -> (multiline: bool)
        ensures
            multiline == hangs_condition(
                self@,
                extra,
                header_width(first@, condition@, last@),
                2,
                condition@,
            ),
    {
        let mut header: Vec<TokenReference> = Vec::new();
        proof {
            lemma_references_view_empty(header@);
            lemma_add_empty(seq![first@]);
        }
        push_token(first, &mut header);
        push_expression_tokens(condition, &mut header);
        push_token(last, &mut header);
        let width = strip_trivia(&header).len();
        let inside = expression_token_list(condition);
        self.exceeds_column_width(extra, width, 2) || contains_inline_comments(&inside)
    }

    /// Registers the range of the expression, if the expression has a token.
    pub fn add_expression_range(&mut self, e: &Expression)
        ensures
            final(self)@ == with_expression_range(old(self)@, e@),
    {
        let tokens = expression_token_list(e);
        match get_tokens_range(&tokens) {
            Some(range) => self.add_indent_range(range),
            None => {},
        }
    }

    /// Formats the condition of an `if`, an `elseif` or a `while`.
    #[verifier::spinoff_prover]
    pub fn format_condition(
        &mut self,
        condition: Expression,
        extra: Option<usize>,
        multiline: bool,
    ) -> (result: Expression)
        ensures
            (final(self)@, result@) == formatted_condition(
                old(self)@,
                condition@,
                extra,
                multiline,
            ),
        decreases condition, 1nat,
    {
        proof {
            reveal(formatted_condition);
        }
        if multiline {
            self.add_expression_range(&condition);
            let formatted = self.format_expression(condition);
            let hung = self.hang_expression(formatted, extra, None);
            let deeper = match extra {
                Some(level) => level,
                None => 0,
            };
            update_expression_leading(
                hung,
                FormatTriviaType::Append(
                    one_token(self.create_indent_trivia(Some(deeper.saturating_add(1)))),
                ),
            )
        } else {
            self.format_expression(condition)
        }
    }

    /// The keyword in front of a condition.
    pub fn format_condition_opener(
        &self,
        token: &TokenReference,
        extra: Option<usize>,
        multiline: bool,
    )
        -> (result: TokenReference)
        ensures
            result@ == condition_opener(self@, token@, extra, multiline),
    {
        if multiline {
            self.alone_on_line(self.format_symbol(token, false, false), extra)
        } else {
            self.open_line(self.format_symbol(token, false, true), extra)
        }
    }

    /// The keyword behind a condition.
    pub fn format_condition_closer(
        &self,
        token: &TokenReference,
        extra: Option<usize>,
        multiline: bool,
    )
        -> (result: TokenReference)
        ensures
            result@ == condition_closer(self@, token@, extra, multiline),
    {
        if multiline {
            self.alone_on_line(self.format_symbol(token, false, false), extra)
        } else {
            self.close_line(self.format_symbol(token, true, false))
        }
    }

    /// Format a Do node
    #[verifier::spinoff_prover]
    pub fn format_do_block(&mut self, do_block: Do) -> (result: Do)
        ensures
            (final(self)@, result@) == formatted_do(old(self)@, do_block@),
        decreases do_block,
    {
        proof {
            reveal(formatted_do);
        }
        let additional_indent_level = self.get_range_indent_increase(
            CodeFormatter::get_token_range(&do_block.do_token),
        );
        let do_token = self.alone_on_line(
            self.format_symbol(&do_block.do_token, false, false),
            additional_indent_level,
        );
        let block = self.format_nested_block(do_block.block);
        let end_token = self.alone_on_line(
            self.format_end_token(&do_block.end_token, EndTokenType::BlockEnd),
            additional_indent_level,
        );
        Do { do_token, block, end_token }
    }

    /// Format a GenericFor node
    #[verifier::spinoff_prover]
    pub fn format_generic_for(&mut self, generic_for: GenericFor) -> (result: GenericFor)
        ensures
            (final(self)@, result@) == formatted_generic_for(old(self)@, generic_for@),
        decreases generic_for,
    {
        proof {
            reveal(formatted_generic_for);
        }
        let additional_indent_level = self.get_range_indent_increase(
            CodeFormatter::get_token_range(&generic_for.for_token),
        );
        let trailing_trivia = one_token(self.create_newline_trivia());
        let for_token = self.open_line(
            self.format_symbol(&generic_for.for_token, false, true),
            additional_indent_level,
        );
        let (names, names_comments_buf) = self.format_punctuated(generic_for.names);
        let in_token = self.format_symbol(&generic_for.in_token, true, true);
        let (expr_list, expr_comments_buf) = self.format_punctuated(generic_for.expr_list);
        // The comments taken from the two lists stay on the line of the header
        let do_token = self.format_symbol(&generic_for.do_token, true, false)
            .update_trailing_trivia(
            FormatTriviaType::Append(
                joined(joined(names_comments_buf, expr_comments_buf), trailing_trivia),
            ),
        );
        let block = self.format_nested_block(generic_for.block);
        let end_token = self.alone_on_line(
            self.format_end_token(&generic_for.end_token, EndTokenType::BlockEnd),
            additional_indent_level,
        );
        GenericFor { for_token, names, in_token, expr_list, do_token, block, end_token }
    }

    /// Formats an ElseIf node - This must always reside within format_if
    #[verifier::spinoff_prover]
    pub fn format_else_if(&mut self, else_if_node: ElseIf) -> (result: ElseIf)
        ensures
            (final(self)@, result@) == formatted_else_if(old(self)@, else_if_node@),
        decreases else_if_node,
    {
        proof {
            reveal(formatted_else_if);
            reveal(view_else_if);
        }
        let additional_indent_level = self.get_range_indent_increase(
            CodeFormatter::get_token_range(&else_if_node.else_if_token),
        );
        // Determine if we need to hang the condition
        let require_multiline_expression = self.requires_multiline_condition(
            &else_if_node.else_if_token,
            &else_if_node.condition,
            &else_if_node.then_token,
            additional_indent_level,
        );
        let else_if_trailing_trivia = if require_multiline_expression {
            self.create_newline_trivia()
        } else {
            space_token()
        };
        let else_if_token = self.format_end_token(
            &else_if_node.else_if_token,
            EndTokenType::BlockEnd,
        ).update_trivia(
            FormatTriviaType::Append(one_token(self.create_indent_trivia(additional_indent_level))),
            FormatTriviaType::Append(one_token(else_if_trailing_trivia)),
        );
        let condition = self.format_condition(
            else_if_node.condition,
            additional_indent_level,
            require_multiline_expression,
        );
        let then_token = self.format_condition_closer(
            &else_if_node.then_token,
            additional_indent_level,
            require_multiline_expression,
        );
        let block = self.format_nested_block(else_if_node.block);
        ElseIf { else_if_token, condition, then_token, block }
    }

    /// Formats the `elseif` branches of an `if`, one after another.
    #[verifier::spinoff_prover]
    pub fn format_else_ifs(&mut self, branches: Vec<ElseIf>) -> (result: Vec<ElseIf>)
        ensures
            (final(self)@, view_else_ifs(result)) == formatted_else_ifs(
                old(self)@,
                view_else_ifs(branches),
                branches.len() as int,
            ),
        decreases branches,
    {
        let ghost whole = branches;
        let ghost views = view_else_ifs(branches);
        let ghost start = self@;
        let count = branches.len();
        let mut rest = reversed(branches);
        let mut done: Vec<ElseIf> = Vec::new();
        let mut i: usize = 0;
        proof {
            reveal(formatted_else_ifs);
            lemma_view_else_ifs(whole);
            lemma_view_else_ifs_empty(done);
        }
        while i < count
            invariant
                i <= count,
                count == whole.len(),
                whole == branches,
                views == view_else_ifs(whole),
                views.len() == count,
                rest.len() == count - i,
                forall|k: int| 0 <= k < rest.len() ==> rest@[k] == whole@[count - 1 - k],
                (self@, view_else_ifs(done)) == formatted_else_ifs(start, views, i as int),
            decreases count - i,
        {
            let ghost before = done;
            let branch = rest.pop().unwrap();
            proof {
                reveal(formatted_else_ifs);
                lemma_view_else_ifs(whole);
                assert(branch == whole@[i as int]);
            }
            let formatted = self.format_else_if(branch);
            done.push(formatted);
            proof {
                lemma_view_else_ifs_push(before, formatted, done);
            }
            i += 1;
        }
        done
    }

    /// Formats the `else` branch of an `if`, if there is one.
    #[verifier::spinoff_prover]
    pub fn format_else(&mut self, branch: Option<Else>, extra: Option<usize>) -> (result: Option<
        Else,
    >)
        ensures
            (final(self)@, view_else(result)) == formatted_else(
                old(self)@,
                view_else(branch),
                extra,
            ),
        decreases branch,
    {
        proof {
            reveal(formatted_else);
            reveal(view_else);
        }
        match branch {
            Some(branch) => {
                let else_token = self.alone_on_line(
                    self.format_end_token(&branch.else_token, EndTokenType::BlockEnd),
                    extra,
                );
                let block = self.format_nested_block(branch.block);
                Some(Else { else_token, block })
            },
            None => None,
        }
    }

    /// Format an If node
    #[verifier::spinoff_prover]
    pub fn format_if(&mut self, if_node: If) -> (result: If)
        ensures
            (final(self)@, result@) == formatted_if(old(self)@, if_node@),
        decreases if_node,
    {
        proof {
            reveal(formatted_if);
            reveal(view_if);
            lemma_view_else_ifs(if_node.else_if);
        }
        let additional_indent_level = self.get_range_indent_increase(
            CodeFormatter::get_token_range(&if_node.if_token),
        );
        // Determine if we need to hang the condition
        let require_multiline_expression = self.requires_multiline_condition(
            &if_node.if_token,
            &if_node.condition,
            &if_node.then_token,
            additional_indent_level,
        );
        let if_token = self.format_condition_opener(
            &if_node.if_token,
            additional_indent_level,
            require_multiline_expression,
        );
        let condition = self.format_condition(
            if_node.condition,
            additional_indent_level,
            require_multiline_expression,
        );
        let then_token = self.format_condition_closer(
            &if_node.then_token,
            additional_indent_level,
            require_multiline_expression,
        );
        let block = self.format_nested_block(if_node.block);
        let else_if = self.format_else_ifs(if_node.else_if);
        let else_branch = self.format_else(if_node.else_branch, additional_indent_level);
        let end_token = self.alone_on_line(
            self.format_end_token(&if_node.end_token, EndTokenType::BlockEnd),
            additional_indent_level,
        );
        If { if_token, condition, then_token, block, else_if, else_branch, end_token }
    }

    /// Formats the step of a numeric `for`, if it has one.
    #[verifier::spinoff_prover]
    pub fn format_step(&mut self, step: Option<ForStep>) -> (result: Option<ForStep>)
        ensures
            (final(self)@, view_step(result)) == formatted_step(old(self)@, view_step(step)),
        decreases step,
    {
        proof {
            reveal(formatted_step);
            reveal(view_step);
        }
        match step {
            Some(step) => {
                let comma = self.format_symbol(&step.comma, false, true);
                let formatted = self.format_expression(step.step);
                Some(ForStep { comma, step: formatted })
            },
            None => None,
        }
    }

    /// Format a NumericFor node
    #[verifier::spinoff_prover]
    pub fn format_numeric_for(&mut self, numeric_for: NumericFor) -> (result: NumericFor)
        ensures
            (final(self)@, result@) == formatted_numeric_for(old(self)@, numeric_for@),
        decreases numeric_for,
    {
        proof {
            reveal(formatted_numeric_for);
        }
        let additional_indent_level = self.get_range_indent_increase(
            CodeFormatter::get_token_range(&numeric_for.for_token),
        );
        let trailing_trivia = one_token(self.create_newline_trivia());
        let for_token = self.open_line(
            self.format_symbol(&numeric_for.for_token, false, true),
            additional_indent_level,
        );
        let index_variable = self.format_token_reference(&numeric_for.index_variable);
        let equal_token = self.format_symbol(&numeric_for.equal_token, true, true);
        let start = self.format_expression(numeric_for.start);
        let start_end_comma = self.format_symbol(&numeric_for.start_end_comma, false, true);
        let end = self.format_expression(numeric_for.end);
        let step = self.format_step(numeric_for.step);
        let do_token = self.format_symbol(&numeric_for.do_token, true, false)
            .update_trailing_trivia(FormatTriviaType::Append(trailing_trivia));
        let block = self.format_nested_block(numeric_for.block);
        let end_token = self.alone_on_line(
            self.format_end_token(&numeric_for.end_token, EndTokenType::BlockEnd),
            additional_indent_level,
        );
        NumericFor {
            for_token,
            index_variable,
            equal_token,
            start,
            start_end_comma,
            end,
            step,
            do_token,
            block,
            end_token,
        }
    }

    /// Format a Repeat node
    #[verifier::spinoff_prover]
    pub fn format_repeat_block(&mut self, repeat_block: Repeat) -> (result: Repeat)
        ensures
            (final(self)@, result@) == formatted_repeat(old(self)@, repeat_block@),
        decreases repeat_block,
    {
        proof {
            reveal(formatted_repeat);
        }
        let additional_indent_level = self.get_range_indent_increase(
            CodeFormatter::get_token_range(&repeat_block.repeat_token),
        );
        let trailing_trivia = one_token(self.create_newline_trivia());
        // Determine if we need to hang the condition
        let condition_tokens = expression_token_list(&repeat_block.until);
        let mut last_line: Vec<TokenReference> = Vec::new();
        proof {
            lemma_references_view_empty(last_line@);
            lemma_add_empty(seq![repeat_block.until_token@]);
        }
        push_token(&repeat_block.until_token, &mut last_line);
        push_expression_tokens(&repeat_block.until, &mut last_line);
        let last_line_str_len = strip_trivia(&last_line).len();
        let require_multiline_expression = self.exceeds_column_width(
            additional_indent_level,
            last_line_str_len,
            1,
        ) || contains_inline_comments(&condition_tokens);
        let expr_range = get_tokens_range(&condition_tokens);

        let repeat_token = self.alone_on_line(
            self.format_symbol(&repeat_block.repeat_token, false, false),
            additional_indent_level,
        );
        let block = self.format_nested_block(repeat_block.block);
        let until_token = self.open_line(
            self.format_symbol(&repeat_block.until_token, false, true),
            additional_indent_level,
        );
        let formatted_until = self.format_expression(repeat_block.until);
        let until = if require_multiline_expression {
            // Add the expression into the indent range, as it will be indented by one
            match expr_range {
                Some(range) => self.add_indent_range(range),
                None => {},
            }
            self.hang_expression(formatted_until, additional_indent_level, None)
        } else {
            update_expression_trailing(formatted_until, FormatTriviaType::Append(trailing_trivia))
        };
        Repeat { repeat_token, block, until_token, until }
    }

    /// Format a While node
    #[verifier::spinoff_prover]
    pub fn format_while_block(&mut self, while_block: While) -> (result: While)
        ensures
            (final(self)@, result@) == formatted_while(old(self)@, while_block@),
        decreases while_block,
    {
        proof {
            reveal(formatted_while);
        }
        let additional_indent_level = self.get_range_indent_increase(
            CodeFormatter::get_token_range(&while_block.while_token),
        );
        // Determine if we need to hang the condition
        let require_multiline_expression = self.requires_multiline_condition(
            &while_block.while_token,
            &while_block.condition,
            &while_block.do_token,
            additional_indent_level,
        );
        let while_token = self.format_condition_opener(
            &while_block.while_token,
            additional_indent_level,
            require_multiline_expression,
        );
        let condition = self.format_condition(
            while_block.condition,
            additional_indent_level,
            require_multiline_expression,
        );
        let do_token = self.format_condition_closer(
            &while_block.do_token,
            additional_indent_level,
            require_multiline_expression,
        );
        let block = self.format_nested_block(while_block.block);
        let end_token = self.alone_on_line(
            self.format_end_token(&while_block.end_token, EndTokenType::BlockEnd),
            additional_indent_level,
        );
        While { while_token, condition, do_token, block, end_token }
    }

    /// Wrapper around the formatting of a call, which also handles the trivia
    /// around the call. This cannot be done where calls are formatted, as a
    /// call is not always a statement, but can also stand in an expression.
    #[verifier::spinoff_prover]
    pub fn format_function_call_stmt(&mut self, function_call: FunctionCall) -> (result:
        FunctionCall)
        ensures
            (final(self)@, result@) == formatted_call_stmt(old(self)@, function_call@),
        decreases function_call,
    {
        proof {
            reveal(formatted_call_stmt);
        }
        // Calculate trivia
        let prefix_tokens = prefix_token_list(&function_call.prefix);
        let additional_indent_level = self.get_tokens_indent_increase(&prefix_tokens);
        let leading_trivia = one_token(self.create_indent_trivia(additional_indent_level));
        let trailing_trivia = one_token(self.create_newline_trivia());

        let prefix = self.format_prefix(function_call.prefix);
        let suffixes = self.format_suffixes(function_call.suffixes);
        proof {
            crate::vectors::lemma_view_suffixes(function_call.suffixes);
        }
        update_call_trivia(
            FunctionCall { prefix, suffixes },
            FormatTriviaType::Append(leading_trivia),
            FormatTriviaType::Append(trailing_trivia),
        )
    }

    /// The values of a list, each in its hanging layout.
    #[verifier::spinoff_prover]
    pub fn hang_values(&self, pairs: Vec<Pair>, extra: Option<usize>) -> (result: Vec<Pair>)
        ensures
            view_pairs(result) == hung_pairs(self@, view_pairs(pairs), extra),
    {
        let ghost whole = pairs;
        let ghost views = view_pairs(pairs);
        let additional = match extra {
            Some(level) => level,
            None => 0,
        };
        let level = additional.saturating_add(DEFAULT_HANG_LEVEL);
        let count = pairs.len();
        let mut rest = reversed(pairs);
        let mut done: Vec<Pair> = Vec::new();
        let mut i: usize = 0;
        proof {
            lemma_view_pairs(whole);
            lemma_view_pairs_empty(done);
        }
        while i < count
            invariant
                i <= count,
                count == whole.len(),
                whole == pairs,
                views == view_pairs(whole),
                views.len() == count,
                rest.len() == count - i,
                forall|k: int| 0 <= k < rest.len() ==> rest@[k] == whole@[count - 1 - k],
                view_pairs(done).len() == i,
                forall|k: int|
                    0 <= k < i ==> #[trigger] view_pairs(done)[k] == (PairView {
                        value: hang_layout(self@, views[k].value, level),
                        separator: views[k].separator,
                    }),
            decreases count - i,
        {
            let ghost before = done;
            let pair = rest.pop().unwrap();
            proof {
                reveal(view_pair);
                lemma_view_pairs(whole);
                assert(pair == whole@[i as int]);
            }
            let formatted = Pair {
                value: self.hang_layout(pair.value, level),
                separator: pair.separator,
            };
            done.push(formatted);
            proof {
                lemma_view_pairs_push(before, formatted, done);
            }
            i += 1;
        }
        assert(view_pairs(done) =~= hung_pairs(self@, views, extra));
        done
    }

    /// The values behind the `=` of an assignment: on one line, or each in
    /// its hanging layout where `hang` holds.
    #[verifier::spinoff_prover]
    pub fn lay_out_values(&self, list: Punctuated, extra: Option<usize>, hang: bool) -> (result:
        Punctuated)
        ensures
            result@ == laid_out_values(self@, list@, extra, hang),
    {
        proof {
            reveal(view_punctuated);
        }
        if hang {
            Punctuated { pairs: self.hang_values(list.pairs, extra) }
        } else {
            list
        }
    }

    /// Whether the values of an assignment whose tokens are `tokens` are
    /// laid out over several lines.
    pub fn requires_multiline_values(
        &self,
        tokens: &Vec<TokenReference>,
        values: &Punctuated,
        extra: Option<usize>,
        spacing: usize,
    ) -> (hang: bool)
        ensures
            hang == hangs_values(
                self@,
                extra,
                crate::measure::stripped(references_view(tokens@)).len() as int,
                spacing as int,
                values@,
            ),
    {
        let width = strip_trivia(tokens).len();
        let inside = punctuated_token_list(values);
        self.exceeds_column_width(extra, width, spacing) || contains_inline_comments(&inside)
    }

    /// Formats an assignment.
    #[verifier::spinoff_prover]
    pub fn format_assignment(&mut self, assignment: Assignment) -> (result: Assignment)
        ensures
            (final(self)@, result@) == formatted_assignment(old(self)@, assignment@),
        decreases assignment,
    {
        proof {
            reveal(formatted_assignment);
        }
        let var_tokens = punctuated_token_list(&assignment.var_list);
        let additional_indent_level = self.get_tokens_indent_increase(&var_tokens);
        let leading_trivia = one_token(self.create_indent_trivia(additional_indent_level));
        let mut tokens = var_tokens;
        push_token(&assignment.equal_token, &mut tokens);
        push_punctuated_tokens(&assignment.expr_list, &mut tokens);
        let hang = self.requires_multiline_values(
            &tokens,
            &assignment.expr_list,
            additional_indent_level,
            2,
        );
        let (vars, var_comments) = self.format_punctuated(assignment.var_list);
        let equal = self.format_symbol(&assignment.equal_token, true, true);
        let (exprs, expr_comments) = self.format_punctuated(assignment.expr_list);
        let (equal_token, expr_list) = end_line(
            equal,
            self.lay_out_values(exprs, additional_indent_level, hang),
            FormatTriviaType::Append(
                joined(
                    joined(var_comments, expr_comments),
                    one_token(self.create_newline_trivia()),
                ),
            ),
        );
        Assignment {
            var_list: update_punctuated_leading(vars, FormatTriviaType::Append(leading_trivia)),
            equal_token,
            expr_list,
        }
    }

    /// Formats a `local` declaration.
    #[verifier::spinoff_prover]
    pub fn format_local_assignment(&mut self, assignment: LocalAssignment) -> (result:
        LocalAssignment)
        ensures
            (final(self)@, result@) == formatted_local_assignment(old(self)@, assignment@),
        decreases assignment,
    {
        proof {
            reveal(formatted_local_assignment);
        }
        let additional_indent_level = self.get_range_indent_increase(
            CodeFormatter::get_token_range(&assignment.local_token),
        );
        let mut tokens: Vec<TokenReference> = Vec::new();
        proof {
            lemma_references_view_empty(tokens@);
            lemma_add_empty(seq![assignment.local_token@]);
        }
        push_token(&assignment.local_token, &mut tokens);
        push_punctuated_tokens(&assignment.name_list, &mut tokens);
        push_optional_token(&assignment.equal_token, &mut tokens);
        push_punctuated_tokens(&assignment.expr_list, &mut tokens);
        let hang = self.requires_multiline_values(
            &tokens,
            &assignment.expr_list,
            additional_indent_level,
            3,
        );
        let local_token = self.open_line(
            self.format_symbol(&assignment.local_token, false, true),
            additional_indent_level,
        );
        let (names, name_comments) = self.format_punctuated(assignment.name_list);
        let equal = match &assignment.equal_token {
            Some(equal) => Some(self.format_symbol(equal, true, true)),
            None => None,
        };
        let (exprs, expr_comments) = self.format_punctuated(assignment.expr_list);
        let end_of_line = FormatTriviaType::Append(
            joined(joined(name_comments, expr_comments), one_token(self.create_newline_trivia())),
        );
        match equal {
            Some(equal) => {
                let (equal_token, expr_list) = end_line(
                    equal,
                    self.lay_out_values(exprs, additional_indent_level, hang),
                    end_of_line,
                );
                LocalAssignment {
                    local_token,
                    name_list: names,
                    equal_token: Some(equal_token),
                    expr_list,
                }
            },
            None => {
                let (local_token, name_list) = end_line(local_token, names, end_of_line);
                LocalAssignment { local_token, name_list, equal_token: None, expr_list: exprs }
            },
        }
    }

    /// The function body that ends a statement: a line break follows its `end`.
    pub fn close_body(&self, body: FunctionBody) -> (result: FunctionBody)
        ensures
            result@ == closed_body(self@, body@),
    {
        update_body_trailing(
            body,
            FormatTriviaType::Append(one_token(self.create_newline_trivia())),
        )
    }

    /// Formats the tokens of the name of a declared function.
    pub fn format_name(&self, name: &Vec<TokenReference>) -> (result: Vec<TokenReference>)
        ensures
            references_view(result@) == formatted_name(self@, references_view(name@)),
    {
        let ghost views = references_view(name@);
        let mut result: Vec<TokenReference> = Vec::new();
        let mut i: usize = 0;
        while i < name.len()
            invariant
                i <= name.len(),
                views == references_view(name@),
                result.len() == i,
                forall|k: int|
                    0 <= k < i ==> #[trigger] references_view(result@)[k]
                        == self@.format_token_reference(views[k]),
            decreases name.len() - i,
        {
            let formatted = self.format_token_reference(&name[i]);
            proof {
                lemma_references_view_push(result@, formatted);
            }
            result.push(formatted);
            i += 1;
        }
        assert(references_view(result@) =~= formatted_name(self@, views));
        result
    }

    /// Formats a function declaration.
    #[verifier::spinoff_prover]
    pub fn format_function_declaration(&mut self, declaration: FunctionDeclaration) -> (result:
        FunctionDeclaration)
        ensures
            (final(self)@, result@) == formatted_function_declaration(old(self)@, declaration@),
        decreases declaration,
    {
        proof {
            reveal(formatted_function_declaration);
        }
        let additional_indent_level = self.get_range_indent_increase(
            CodeFormatter::get_token_range(&declaration.function_token),
        );
        let function_token = self.open_line(
            self.format_symbol(&declaration.function_token, false, true),
            additional_indent_level,
        );
        let name = self.format_name(&declaration.name);
        let body = self.format_function_body(declaration.body, additional_indent_level);
        FunctionDeclaration { function_token, name, body: self.close_body(body) }
    }

    /// Formats the declaration of a local function.
    #[verifier::spinoff_prover]
    pub fn format_local_function(&mut self, function: LocalFunction) -> (result: LocalFunction)
        ensures
            (final(self)@, result@) == formatted_local_function(old(self)@, function@),
        decreases function,
    {
        proof {
            reveal(formatted_local_function);
        }
        let additional_indent_level = self.get_range_indent_increase(
            CodeFormatter::get_token_range(&function.local_token),
        );
        let local_token = self.open_line(
            self.format_symbol(&function.local_token, false, true),
            additional_indent_level,
        );
        let function_token = self.format_symbol(&function.function_token, false, true);
        let name = self.format_token_reference(&function.name);
        let body = self.format_function_body(function.body, additional_indent_level);
        LocalFunction { local_token, function_token, name, body: self.close_body(body) }
    }

    /// Formats a `return` or a `break`.
    #[verifier::spinoff_prover]
    pub fn format_last_stmt(&mut self, stmt: LastStmt) -> (result: LastStmt)
        ensures
            (final(self)@, result@) == formatted_last_stmt(old(self)@, stmt@),
        decreases stmt,
    {
        proof {
            reveal(formatted_last_stmt);
            reveal(view_last_stmt);
        }
        match stmt {
            LastStmt::Break(token) => {
                let extra = self.get_range_indent_increase(CodeFormatter::get_token_range(&token));
                LastStmt::Break(
                    self.alone_on_line(self.format_symbol(&token, false, false), extra),
                )
            },
            LastStmt::Return { token, values } => {
                proof {
                    reveal(view_punctuated);
                    lemma_view_pairs(values.pairs);
                }
                let extra = self.get_range_indent_increase(CodeFormatter::get_token_range(&token));
                let newline = one_token(self.create_newline_trivia());
                let keyword = self.open_line(
                    self.format_symbol(&token, false, values.pairs.len() > 0),
                    extra,
                );
                let (list, comments) = self.format_punctuated(values);
                let (token, values) = end_line(
                    keyword,
                    list,
                    FormatTriviaType::Append(joined(comments, newline)),
                );
                LastStmt::Return { token, values }
            },
        }
    }

    /// Formats a statement. A statement that a directive or the range of the
    /// pass excludes is handed back as it is.
    #[verifier::spinoff_prover]
    pub fn format_stmt(&mut self, stmt: Stmt) -> (result: Stmt)
        ensures
            (final(self)@, result@) == formatted_stmt(old(self)@, stmt@),
        decreases stmt,
    {
        proof {
            reveal(formatted_stmt);
            reveal(view_stmt);
        }
        let tokens = stmt_token_list(&stmt);
        if !self.should_format(&tokens) {
            return stmt;
        }
        match stmt {
            Stmt::Assignment(node) => Stmt::Assignment(self.format_assignment(node)),
            Stmt::Do(node) => Stmt::Do(self.format_do_block(node)),
            Stmt::FunctionCall(node) => Stmt::FunctionCall(self.format_function_call_stmt(node)),
            Stmt::FunctionDeclaration(node) => Stmt::FunctionDeclaration(
                self.format_function_declaration(node),
            ),
            Stmt::GenericFor(node) => Stmt::GenericFor(self.format_generic_for(node)),
            Stmt::If(node) => Stmt::If(self.format_if(node)),
            Stmt::LocalAssignment(node) => Stmt::LocalAssignment(
                self.format_local_assignment(node),
            ),
            Stmt::LocalFunction(node) => Stmt::LocalFunction(self.format_local_function(node)),
            Stmt::NumericFor(node) => Stmt::NumericFor(self.format_numeric_for(node)),
            Stmt::Repeat(node) => Stmt::Repeat(self.format_repeat_block(node)),
            Stmt::While(node) => Stmt::While(self.format_while_block(node)),
        }
    }
}

} // verus!
