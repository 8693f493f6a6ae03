//! The mathematical values of the nodes of the syntax tree.

use vstd::prelude::*;
use crate::ast::{
    Assignment, Ast, Block, BlockLastStmt, BlockStmt, Do, Else, ElseIf, ForStep,
    FunctionDeclaration, GenericFor, LocalAssignment, LocalFunction, NumericFor, Repeat, While, Expression, Field, FieldPair, FunctionArgs, FunctionBody,
    FunctionCall, If, LastStmt, Pair, Prefix, Punctuated, Stmt, Suffix, TableConstructor,
    VarExpression,
};
use crate::token::{references_view, TokenReference, TokenReferenceView};

verus! {

pub ghost enum ExpressionView {
    Number(TokenReferenceView),
    String(TokenReferenceView),
    Symbol(TokenReferenceView),
    Name(TokenReferenceView),
    Parentheses { open: TokenReferenceView, expression: Box<ExpressionView>, close: TokenReferenceView },
    UnaryOperator { operator: TokenReferenceView, expression: Box<ExpressionView> },
    BinaryOperator { lhs: Box<ExpressionView>, operator: TokenReferenceView, rhs: Box<ExpressionView> },
    Function { function_token: TokenReferenceView, body: FunctionBodyView },
    FunctionCall(SuffixedView),
    Var(SuffixedView),
    TableConstructor(TableConstructorView),
}

pub ghost struct PairView {
    pub value: ExpressionView,
    pub separator: Option<TokenReferenceView>,
}

pub ghost struct PunctuatedView {
    pub pairs: Seq<PairView>,
}

pub ghost enum PrefixView {
    Name(TokenReferenceView),
    Expression(Box<ExpressionView>),
}

pub ghost enum SuffixView {
    Dot { dot: TokenReferenceView, name: TokenReferenceView },
    Brackets { open: TokenReferenceView, expression: ExpressionView, close: TokenReferenceView },
    Call(FunctionArgsView),
    MethodCall { colon: TokenReferenceView, name: TokenReferenceView, args: FunctionArgsView },
}

pub ghost enum FunctionArgsView {
    Parentheses { open: TokenReferenceView, arguments: PunctuatedView, close: TokenReferenceView },
    String(TokenReferenceView),
    TableConstructor(TableConstructorView),
}

/// The value of a call and of an indexed expression alike: a prefix and what
/// follows it.
pub ghost struct SuffixedView {
    pub prefix: PrefixView,
    pub suffixes: Seq<SuffixView>,
}

pub ghost enum FieldView {
    ExpressionKey {
        open: TokenReferenceView,
        key: ExpressionView,
        close: TokenReferenceView,
        equal: TokenReferenceView,
        value: ExpressionView,
    },
    NameKey { name: TokenReferenceView, equal: TokenReferenceView, value: ExpressionView },
    NoKey(ExpressionView),
}

pub ghost struct FieldPairView {
    pub field: FieldView,
    pub separator: Option<TokenReferenceView>,
}

pub ghost struct TableConstructorView {
    pub open: TokenReferenceView,
    pub fields: Seq<FieldPairView>,
    pub close: TokenReferenceView,
}

pub ghost struct FunctionBodyView {
    pub open: TokenReferenceView,
    pub parameters: PunctuatedView,
    pub close: TokenReferenceView,
    pub block: BlockView,
    pub end_token: TokenReferenceView,
}

pub ghost struct BlockStmtView {
    pub stmt: StmtView,
    pub semicolon: Option<TokenReferenceView>,
}

pub ghost struct BlockLastStmtView {
    pub stmt: LastStmtView,
    pub semicolon: Option<TokenReferenceView>,
}

pub ghost struct BlockView {
    pub stmts: Seq<BlockStmtView>,
    pub last_stmt: Option<Box<BlockLastStmtView>>,
}

pub ghost enum LastStmtView {
    Break(TokenReferenceView),
    Return { token: TokenReferenceView, values: PunctuatedView },
}

pub ghost struct AssignmentView {
    pub var_list: PunctuatedView,
    pub equal_token: TokenReferenceView,
    pub expr_list: PunctuatedView,
}

pub ghost struct DoView {
    pub do_token: TokenReferenceView,
    pub block: BlockView,
    pub end_token: TokenReferenceView,
}

pub ghost struct FunctionDeclarationView {
    pub function_token: TokenReferenceView,
    pub name: Seq<TokenReferenceView>,
    pub body: FunctionBodyView,
}

pub ghost struct GenericForView {
    pub for_token: TokenReferenceView,
    pub names: PunctuatedView,
    pub in_token: TokenReferenceView,
    pub expr_list: PunctuatedView,
    pub do_token: TokenReferenceView,
    pub block: BlockView,
    pub end_token: TokenReferenceView,
}

pub ghost struct ElseIfView {
    pub else_if_token: TokenReferenceView,
    pub condition: ExpressionView,
    pub then_token: TokenReferenceView,
    pub block: BlockView,
}

pub ghost struct ElseView {
    pub else_token: TokenReferenceView,
    pub block: BlockView,
}

pub ghost struct IfView {
    pub if_token: TokenReferenceView,
    pub condition: ExpressionView,
    pub then_token: TokenReferenceView,
    pub block: BlockView,
    pub else_if: Seq<ElseIfView>,
    pub else_branch: Option<ElseView>,
    pub end_token: TokenReferenceView,
}

pub ghost struct LocalAssignmentView {
    pub local_token: TokenReferenceView,
    pub name_list: PunctuatedView,
    pub equal_token: Option<TokenReferenceView>,
    pub expr_list: PunctuatedView,
}

pub ghost struct LocalFunctionView {
    pub local_token: TokenReferenceView,
    pub function_token: TokenReferenceView,
    pub name: TokenReferenceView,
    pub body: FunctionBodyView,
}

pub ghost struct ForStepView {
    pub comma: TokenReferenceView,
    pub step: ExpressionView,
}

pub ghost struct NumericForView {
    pub for_token: TokenReferenceView,
    pub index_variable: TokenReferenceView,
    pub equal_token: TokenReferenceView,
    pub start: ExpressionView,
    pub start_end_comma: TokenReferenceView,
    pub end: ExpressionView,
    pub step: Option<ForStepView>,
    pub do_token: TokenReferenceView,
    pub block: BlockView,
    pub end_token: TokenReferenceView,
}

pub ghost struct RepeatView {
    pub repeat_token: TokenReferenceView,
    pub block: BlockView,
    pub until_token: TokenReferenceView,
    pub until: ExpressionView,
}

pub ghost struct WhileView {
    pub while_token: TokenReferenceView,
    pub condition: ExpressionView,
    pub do_token: TokenReferenceView,
    pub block: BlockView,
    pub end_token: TokenReferenceView,
}

pub ghost enum StmtView {
    Assignment(AssignmentView),
    Do(DoView),
    FunctionCall(SuffixedView),
    FunctionDeclaration(FunctionDeclarationView),
    GenericFor(GenericForView),
    If(IfView),
    LocalAssignment(LocalAssignmentView),
    LocalFunction(LocalFunctionView),
    NumericFor(NumericForView),
    Repeat(RepeatView),
    While(WhileView),
}

pub ghost struct AstView {
    pub block: BlockView,
    pub eof: TokenReferenceView,
}

/// The value of a token that may be absent.
pub open spec fn view_optional(token: Option<TokenReference>) -> Option<TokenReferenceView> {
    match token {
        Some(token) => Some(token@),
        None => None,
    }
}

#[verifier::opaque]
pub open spec fn view_expression(e: Expression) -> ExpressionView
    decreases e,
{
    match e {
        Expression::Number(t) => ExpressionView::Number(t@),
        Expression::String(t) => ExpressionView::String(t@),
        Expression::Symbol(t) => ExpressionView::Symbol(t@),
        Expression::Name(t) => ExpressionView::Name(t@),
        Expression::Parentheses { open, expression, close } => ExpressionView::Parentheses {
            open: open@,
            expression: Box::new(view_expression(*expression)),
            close: close@,
        },
        Expression::UnaryOperator { operator, expression } => ExpressionView::UnaryOperator {
            operator: operator@,
            expression: Box::new(view_expression(*expression)),
        },
        Expression::BinaryOperator { lhs, operator, rhs } => ExpressionView::BinaryOperator {
            lhs: Box::new(view_expression(*lhs)),
            operator: operator@,
            rhs: Box::new(view_expression(*rhs)),
        },
        Expression::Function { function_token, body } => ExpressionView::Function {
            function_token: function_token@,
            body: view_function_body(body),
        },
        Expression::FunctionCall(call) => ExpressionView::FunctionCall(
            SuffixedView { prefix: view_prefix(call.prefix), suffixes: view_suffixes(call.suffixes) },
        ),
        Expression::Var(var) => ExpressionView::Var(
            SuffixedView { prefix: view_prefix(var.prefix), suffixes: view_suffixes(var.suffixes) },
        ),
        Expression::TableConstructor(table) => ExpressionView::TableConstructor(view_table(table)),
    }
}

#[verifier::opaque]
pub open spec fn view_pair(pair: Pair) -> PairView
    decreases pair,
{
    PairView { value: view_expression(pair.value), separator: view_optional(pair.separator) }
}

#[verifier::opaque]
pub open spec fn view_pairs(pairs: Vec<Pair>) -> Seq<PairView>
    decreases pairs,
{
    Seq::new(
        pairs.len() as nat,
        |i: int|
            if 0 <= i < pairs.len() {
                view_pair(pairs[i])
            } else {
                arbitrary()
            },
    )
}

#[verifier::opaque]
pub open spec fn view_punctuated(list: Punctuated) -> PunctuatedView
    decreases list,
{
    PunctuatedView { pairs: view_pairs(list.pairs) }
}

#[verifier::opaque]
pub open spec fn view_prefix(prefix: Prefix) -> PrefixView
    decreases prefix,
{
    match prefix {
        Prefix::Name(t) => PrefixView::Name(t@),
        Prefix::Expression(e) => PrefixView::Expression(Box::new(view_expression(*e))),
    }
}

#[verifier::opaque]
pub open spec fn view_suffix(suffix: Suffix) -> SuffixView
    decreases suffix,
{
    match suffix {
        Suffix::Dot { dot, name } => SuffixView::Dot { dot: dot@, name: name@ },
        Suffix::Brackets { open, expression, close } => SuffixView::Brackets {
            open: open@,
            expression: view_expression(expression),
            close: close@,
        },
        Suffix::Call(args) => SuffixView::Call(view_function_args(args)),
        Suffix::MethodCall { colon, name, args } => SuffixView::MethodCall {
            colon: colon@,
            name: name@,
            args: view_function_args(args),
        },
    }
}

#[verifier::opaque]
pub open spec fn view_suffixes(suffixes: Vec<Suffix>) -> Seq<SuffixView>
    decreases suffixes,
{
    Seq::new(
        suffixes.len() as nat,
        |i: int|
            if 0 <= i < suffixes.len() {
                view_suffix(suffixes[i])
            } else {
                arbitrary()
            },
    )
}

#[verifier::opaque]
pub open spec fn view_function_args(args: FunctionArgs) -> FunctionArgsView
    decreases args,
{
    match args {
        FunctionArgs::Parentheses { open, arguments, close } => FunctionArgsView::Parentheses {
            open: open@,
            arguments: view_punctuated(arguments),
            close: close@,
        },
        FunctionArgs::String(t) => FunctionArgsView::String(t@),
        FunctionArgs::TableConstructor(table) => FunctionArgsView::TableConstructor(
            view_table(table),
        ),
    }
}

#[verifier::opaque]
pub open spec fn view_field(field: Field) -> FieldView
    decreases field,
{
    match field {
        Field::ExpressionKey { open, key, close, equal, value } => FieldView::ExpressionKey {
            open: open@,
            key: view_expression(key),
            close: close@,
            equal: equal@,
            value: view_expression(value),
        },
        Field::NameKey { name, equal, value } => FieldView::NameKey {
            name: name@,
            equal: equal@,
            value: view_expression(value),
        },
        Field::NoKey(value) => FieldView::NoKey(view_expression(value)),
    }
}

#[verifier::opaque]
pub open spec fn view_field_pair(pair: FieldPair) -> FieldPairView
    decreases pair,
{
    FieldPairView { field: view_field(pair.field), separator: view_optional(pair.separator) }
}

#[verifier::opaque]
pub open spec fn view_field_pairs(fields: Vec<FieldPair>) -> Seq<FieldPairView>
    decreases fields,
{
    Seq::new(
        fields.len() as nat,
        |i: int|
            if 0 <= i < fields.len() {
                view_field_pair(fields[i])
            } else {
                arbitrary()
            },
    )
}

#[verifier::opaque]
pub open spec fn view_table(table: TableConstructor) -> TableConstructorView
    decreases table,
{
    TableConstructorView {
        open: table.open@,
        fields: view_field_pairs(table.fields),
        close: table.close@,
    }
}

#[verifier::opaque]
pub open spec fn view_function_body(body: FunctionBody) -> FunctionBodyView
    decreases body,
{
    FunctionBodyView {
        open: body.open@,
        parameters: view_punctuated(body.parameters),
        close: body.close@,
        block: view_block(body.block),
        end_token: body.end_token@,
    }
}

#[verifier::opaque]
pub open spec fn view_block_stmt(stmt: BlockStmt) -> BlockStmtView
    decreases stmt,
{
    BlockStmtView { stmt: view_stmt(stmt.stmt), semicolon: view_optional(stmt.semicolon) }
}

#[verifier::opaque]
pub open spec fn view_block_stmts(stmts: Vec<BlockStmt>) -> Seq<BlockStmtView>
    decreases stmts,
{
    Seq::new(
        stmts.len() as nat,
        |i: int|
            if 0 <= i < stmts.len() {
                view_block_stmt(stmts[i])
            } else {
                arbitrary()
            },
    )
}

#[verifier::opaque]
pub open spec fn view_block_last(last: Option<Box<BlockLastStmt>>) -> Option<
    Box<BlockLastStmtView>,
>
    decreases last,
{
    match last {
        Some(last) => Some(
            Box::new(
                BlockLastStmtView {
                    stmt: view_last_stmt(last.stmt),
                    semicolon: view_optional(last.semicolon),
                },
            ),
        ),
        None => None,
    }
}

#[verifier::opaque]
pub open spec fn view_block(block: Block) -> BlockView
    decreases block,
{
    BlockView { stmts: view_block_stmts(block.stmts), last_stmt: view_block_last(block.last_stmt) }
}

#[verifier::opaque]
pub open spec fn view_last_stmt(stmt: LastStmt) -> LastStmtView
    decreases stmt,
{
    match stmt {
        LastStmt::Break(t) => LastStmtView::Break(t@),
        LastStmt::Return { token, values } => LastStmtView::Return {
            token: token@,
            values: view_punctuated(values),
        },
    }
}

#[verifier::opaque]
pub open spec fn view_else_if(branch: ElseIf) -> ElseIfView
    decreases branch,
{
    ElseIfView {
        else_if_token: branch.else_if_token@,
        condition: view_expression(branch.condition),
        then_token: branch.then_token@,
        block: view_block(branch.block),
    }
}

#[verifier::opaque]
pub open spec fn view_else_ifs(branches: Vec<ElseIf>) -> Seq<ElseIfView>
    decreases branches,
{
    Seq::new(
        branches.len() as nat,
        |i: int|
            if 0 <= i < branches.len() {
                view_else_if(branches[i])
            } else {
                arbitrary()
            },
    )
}

#[verifier::opaque]
pub open spec fn view_else(branch: Option<Else>) -> Option<ElseView>
    decreases branch,
{
    match branch {
        Some(branch) => Some(
            ElseView { else_token: branch.else_token@, block: view_block(branch.block) },
        ),
        None => None,
    }
}

#[verifier::opaque]
pub open spec fn view_step(step: Option<ForStep>) -> Option<ForStepView>
    decreases step,
{
    match step {
        Some(step) => Some(ForStepView { comma: step.comma@, step: view_expression(step.step) }),
        None => None,
    }
}

#[verifier::opaque]
pub open spec fn view_if(node: If) -> IfView
    decreases node,
{
    IfView {
        if_token: node.if_token@,
        condition: view_expression(node.condition),
        then_token: node.then_token@,
        block: view_block(node.block),
        else_if: view_else_ifs(node.else_if),
        else_branch: view_else(node.else_branch),
        end_token: node.end_token@,
    }
}

#[verifier::opaque]
pub open spec fn view_stmt(stmt: Stmt) -> StmtView
    decreases stmt,
{
    match stmt {
        Stmt::Assignment(node) => StmtView::Assignment(
            AssignmentView {
                var_list: view_punctuated(node.var_list),
                equal_token: node.equal_token@,
                expr_list: view_punctuated(node.expr_list),
            },
        ),
        Stmt::Do(node) => StmtView::Do(
            DoView {
                do_token: node.do_token@,
                block: view_block(node.block),
                end_token: node.end_token@,
            },
        ),
        Stmt::FunctionCall(call) => StmtView::FunctionCall(
            SuffixedView { prefix: view_prefix(call.prefix), suffixes: view_suffixes(call.suffixes) },
        ),
        Stmt::FunctionDeclaration(node) => StmtView::FunctionDeclaration(
            FunctionDeclarationView {
                function_token: node.function_token@,
                name: references_view(node.name@),
                body: view_function_body(node.body),
            },
        ),
        Stmt::GenericFor(node) => StmtView::GenericFor(
            GenericForView {
                for_token: node.for_token@,
                names: view_punctuated(node.names),
                in_token: node.in_token@,
                expr_list: view_punctuated(node.expr_list),
                do_token: node.do_token@,
                block: view_block(node.block),
                end_token: node.end_token@,
            },
        ),
        Stmt::If(node) => StmtView::If(view_if(node)),
        Stmt::LocalAssignment(node) => StmtView::LocalAssignment(
            LocalAssignmentView {
                local_token: node.local_token@,
                name_list: view_punctuated(node.name_list),
                equal_token: view_optional(node.equal_token),
                expr_list: view_punctuated(node.expr_list),
            },
        ),
        Stmt::LocalFunction(node) => StmtView::LocalFunction(
            LocalFunctionView {
                local_token: node.local_token@,
                function_token: node.function_token@,
                name: node.name@,
                body: view_function_body(node.body),
            },
        ),
        Stmt::NumericFor(node) => StmtView::NumericFor(
            NumericForView {
                for_token: node.for_token@,
                index_variable: node.index_variable@,
                equal_token: node.equal_token@,
                start: view_expression(node.start),
                start_end_comma: node.start_end_comma@,
                end: view_expression(node.end),
                step: view_step(node.step),
                do_token: node.do_token@,
                block: view_block(node.block),
                end_token: node.end_token@,
            },
        ),
        Stmt::Repeat(node) => StmtView::Repeat(
            RepeatView {
                repeat_token: node.repeat_token@,
                block: view_block(node.block),
                until_token: node.until_token@,
                until: view_expression(node.until),
            },
        ),
        Stmt::While(node) => StmtView::While(
            WhileView {
                while_token: node.while_token@,
                condition: view_expression(node.condition),
                do_token: node.do_token@,
                block: view_block(node.block),
                end_token: node.end_token@,
            },
        ),
    }
}

impl View for Expression {
    type V = ExpressionView;

    open spec fn view(&self) -> ExpressionView {
        view_expression(*self)
    }
}

impl View for Pair {
    type V = PairView;

    open spec fn view(&self) -> PairView {
        view_pair(*self)
    }
}

impl View for Punctuated {
    type V = PunctuatedView;

    open spec fn view(&self) -> PunctuatedView {
        view_punctuated(*self)
    }
}

impl View for Prefix {
    type V = PrefixView;

    open spec fn view(&self) -> PrefixView {
        view_prefix(*self)
    }
}

impl View for Suffix {
    type V = SuffixView;

    open spec fn view(&self) -> SuffixView {
        view_suffix(*self)
    }
}

impl View for FunctionArgs {
    type V = FunctionArgsView;

    open spec fn view(&self) -> FunctionArgsView {
        view_function_args(*self)
    }
}

impl View for FunctionCall {
    type V = SuffixedView;

    open spec fn view(&self) -> SuffixedView {
        SuffixedView { prefix: view_prefix(self.prefix), suffixes: view_suffixes(self.suffixes) }
    }
}

impl View for VarExpression {
    type V = SuffixedView;

    open spec fn view(&self) -> SuffixedView {
        SuffixedView { prefix: view_prefix(self.prefix), suffixes: view_suffixes(self.suffixes) }
    }
}

impl View for Field {
    type V = FieldView;

    open spec fn view(&self) -> FieldView {
        view_field(*self)
    }
}

impl View for FieldPair {
    type V = FieldPairView;

    open spec fn view(&self) -> FieldPairView {
        view_field_pair(*self)
    }
}

impl View for TableConstructor {
    type V = TableConstructorView;

    open spec fn view(&self) -> TableConstructorView {
        view_table(*self)
    }
}

impl View for FunctionBody {
    type V = FunctionBodyView;

    open spec fn view(&self) -> FunctionBodyView {
        view_function_body(*self)
    }
}

impl View for BlockStmt {
    type V = BlockStmtView;

    open spec fn view(&self) -> BlockStmtView {
        view_block_stmt(*self)
    }
}

impl View for Block {
    type V = BlockView;

    open spec fn view(&self) -> BlockView {
        view_block(*self)
    }
}

impl View for LastStmt {
    type V = LastStmtView;

    open spec fn view(&self) -> LastStmtView {
        view_last_stmt(*self)
    }
}

impl View for ElseIf {
    type V = ElseIfView;

    open spec fn view(&self) -> ElseIfView {
        view_else_if(*self)
    }
}

impl View for If {
    type V = IfView;

    open spec fn view(&self) -> IfView {
        view_if(*self)
    }
}

impl View for Assignment {
    type V = AssignmentView;

    open spec fn view(&self) -> AssignmentView {
        AssignmentView {
            var_list: view_punctuated(self.var_list),
            equal_token: self.equal_token@,
            expr_list: view_punctuated(self.expr_list),
        }
    }
}

impl View for Do {
    type V = DoView;

    open spec fn view(&self) -> DoView {
        DoView {
            do_token: self.do_token@,
            block: view_block(self.block),
            end_token: self.end_token@,
        }
    }
}

impl View for FunctionDeclaration {
    type V = FunctionDeclarationView;

    open spec fn view(&self) -> FunctionDeclarationView {
        FunctionDeclarationView {
            function_token: self.function_token@,
            name: references_view(self.name@),
            body: view_function_body(self.body),
        }
    }
}

impl View for GenericFor {
    type V = GenericForView;

    open spec fn view(&self) -> GenericForView {
        GenericForView {
            for_token: self.for_token@,
            names: view_punctuated(self.names),
            in_token: self.in_token@,
            expr_list: view_punctuated(self.expr_list),
            do_token: self.do_token@,
            block: view_block(self.block),
            end_token: self.end_token@,
        }
    }
}

impl View for LocalAssignment {
    type V = LocalAssignmentView;

    open spec fn view(&self) -> LocalAssignmentView {
        LocalAssignmentView {
            local_token: self.local_token@,
            name_list: view_punctuated(self.name_list),
            equal_token: view_optional(self.equal_token),
            expr_list: view_punctuated(self.expr_list),
        }
    }
}

impl View for LocalFunction {
    type V = LocalFunctionView;

    open spec fn view(&self) -> LocalFunctionView {
        LocalFunctionView {
            local_token: self.local_token@,
            function_token: self.function_token@,
            name: self.name@,
            body: view_function_body(self.body),
        }
    }
}

impl View for NumericFor {
    type V = NumericForView;

    open spec fn view(&self) -> NumericForView {
        NumericForView {
            for_token: self.for_token@,
            index_variable: self.index_variable@,
            equal_token: self.equal_token@,
            start: view_expression(self.start),
            start_end_comma: self.start_end_comma@,
            end: view_expression(self.end),
            step: view_step(self.step),
            do_token: self.do_token@,
            block: view_block(self.block),
            end_token: self.end_token@,
        }
    }
}

impl View for Repeat {
    type V = RepeatView;

    open spec fn view(&self) -> RepeatView {
        RepeatView {
            repeat_token: self.repeat_token@,
            block: view_block(self.block),
            until_token: self.until_token@,
            until: view_expression(self.until),
        }
    }
}

impl View for While {
    type V = WhileView;

    open spec fn view(&self) -> WhileView {
        WhileView {
            while_token: self.while_token@,
            condition: view_expression(self.condition),
            do_token: self.do_token@,
            block: view_block(self.block),
            end_token: self.end_token@,
        }
    }
}

impl View for Stmt {
    type V = StmtView;

    open spec fn view(&self) -> StmtView {
        view_stmt(*self)
    }
}

impl View for Ast {
    type V = AstView;

    open spec fn view(&self) -> AstView {
        AstView { block: view_block(self.block), eof: self.eof@ }
    }
}

} // verus!
