//! The body of a loop as the break rewriter sees it: a tree with one kind of
//! node for each shape that decides to whom a `break` belongs, and opaque
//! text for everything else.

use vstd::prelude::*;
use crate::token::text_view;

verus! {

/// A `break`, with the label it names and the text of the value it carries.
#[derive(Clone, Debug, PartialEq, Eq)]
pub struct Break {
    /// The label's name, without its apostrophe.
    pub label: Option<String>,
    pub value: Option<String>,
}

/// What drives a loop. The texts are opaque to the rewriter.
#[derive(Clone, Debug, PartialEq, Eq)]
pub enum LoopHead {
    For { pat: String, iter: String },
    While { cond: String },
    Loop,
}

/// An expression.
#[derive(Debug, PartialEq, Eq)]
pub enum Expr {
    Break(Break),
    /// The assignment that records, in the completion flag, that a break of
    /// the construct has fired. No source text parses to it; the rewriter
    /// puts it in.
    SetFlag,
    /// A block, with the label it carries.
    Block { label: Option<String>, block: Block },
    Unsafe { block: Block },
    /// A conditional. The `else` branch is a block or a further conditional.
    If { cond: String, then_branch: Block, else_branch: Option<Box<Expr>> },
    Match { scrutinee: String, arms: Vec<Arm> },
    /// A `for`, `while` or `loop` inside the body.
    Loop { label: Option<String>, head: LoopHead, body: Block },
    /// Any other expression, as text.
    Other { text: String },
}

/// One arm of a `match`. `pattern` holds the pattern and its guard.
#[derive(Debug, PartialEq, Eq)]
pub struct Arm {
    pub pattern: String,
    pub body: Expr,
}

/// A statement.
#[derive(Debug, PartialEq, Eq)]
pub enum Stmt {
    /// An expression, with or without a semicolon behind it.
    Expr { expr: Expr, semi: bool },
    /// A declaration, an item or a macro call, as text.
    Other { text: String },
}

/// A sequence of statements in curly brackets.
#[derive(Debug, PartialEq, Eq)]
pub struct Block {
    pub stmts: Vec<Stmt>,
}

/// The mathematical picture of a [`Break`].
pub ghost struct BreakView {
    pub label: Option<Seq<char>>,
    pub value: Option<Seq<char>>,
}

/// The mathematical picture of a [`LoopHead`].
pub ghost enum LoopHeadView {
    For { pat: Seq<char>, iter: Seq<char> },
    While { cond: Seq<char> },
    Loop,
}

/// The mathematical picture of an [`Expr`].
pub ghost enum ExprView {
    Break(BreakView),
    SetFlag,
    Block { label: Option<Seq<char>>, block: BlockView },
    Unsafe { block: BlockView },
    If { cond: Seq<char>, then_branch: BlockView, else_branch: Option<Box<ExprView>> },
    Match { scrutinee: Seq<char>, arms: Seq<ArmView> },
    Loop { label: Option<Seq<char>>, head: LoopHeadView, body: BlockView },
    Other { text: Seq<char> },
}

/// The mathematical picture of an [`Arm`].
pub ghost struct ArmView {
    pub pattern: Seq<char>,
    pub body: ExprView,
}

/// The mathematical picture of a [`Stmt`].
pub ghost enum StmtView {
    Expr { expr: ExprView, semi: bool },
    Other { text: Seq<char> },
}

/// The mathematical picture of a [`Block`].
pub ghost struct BlockView {
    pub stmts: Seq<StmtView>,
}

impl View for Break {
    type V = BreakView;

    open spec fn view(&self) -> BreakView {
        BreakView { label: text_view(self.label), value: text_view(self.value) }
    }
}

impl View for LoopHead {
    type V = LoopHeadView;

    open spec fn view(&self) -> LoopHeadView {
        match *self {
            LoopHead::For { pat, iter } => LoopHeadView::For { pat: pat@, iter: iter@ },
            LoopHead::While { cond } => LoopHeadView::While { cond: cond@ },
            LoopHead::Loop => LoopHeadView::Loop,
        }
    }
}

/// The view of an expression.
pub open spec fn expr_view(e: Expr) -> ExprView
    decreases e,
{
    match e {
        Expr::Break(b) => ExprView::Break(b@),
        Expr::SetFlag => ExprView::SetFlag,
        Expr::Block { label, block } => ExprView::Block {
            label: text_view(label),
            block: block_view(block),
        },
        Expr::Unsafe { block } => ExprView::Unsafe { block: block_view(block) },
        Expr::If { cond, then_branch, else_branch } => ExprView::If {
            cond: cond@,
            then_branch: block_view(then_branch),
            else_branch: match else_branch {
                Some(e) => Some(Box::new(expr_view(*e))),
                None => None,
            },
        },
        Expr::Match { scrutinee, arms } => ExprView::Match {
            scrutinee: scrutinee@,
            arms: Seq::new(
                arms.len() as nat,
                |i: int|
                    if 0 <= i < arms.len() {
                        arm_view(arms[i])
                    } else {
                        arbitrary()
                    },
            ),
        },
        Expr::Loop { label, head, body } => ExprView::Loop {
            label: text_view(label),
            head: head@,
            body: block_view(body),
        },
        Expr::Other { text } => ExprView::Other { text: text@ },
    }
}

/// The view of a `match` arm.
pub open spec fn arm_view(a: Arm) -> ArmView
    decreases a,
{
    ArmView { pattern: a.pattern@, body: expr_view(a.body) }
}

/// The view of a statement.
pub open spec fn stmt_view(s: Stmt) -> StmtView
    decreases s,
{
    match s {
        Stmt::Expr { expr, semi } => StmtView::Expr { expr: expr_view(expr), semi },
        Stmt::Other { text } => StmtView::Other { text: text@ },
    }
}

/// The view of a block.
pub open spec fn block_view(b: Block) -> BlockView
    decreases b,
{
    BlockView {
        stmts: Seq::new(
            b.stmts.len() as nat,
            |i: int|
                if 0 <= i < b.stmts.len() {
                    stmt_view(b.stmts[i])
                } else {
                    arbitrary()
                },
        ),
    }
}

impl View for Expr {
    type V = ExprView;

    open spec fn view(&self) -> ExprView {
        expr_view(*self)
    }
}

impl View for Arm {
    type V = ArmView;

    open spec fn view(&self) -> ArmView {
        arm_view(*self)
    }
}

impl View for Stmt {
    type V = StmtView;

    open spec fn view(&self) -> StmtView {
        stmt_view(*self)
    }
}

impl View for Block {
    type V = BlockView;

    open spec fn view(&self) -> BlockView {
        block_view(*self)
    }
}

} // verus!
