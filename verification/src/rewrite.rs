//! The break rewriter.
//!
//! A `break` belongs to the construct when it names the construct's label,
//! or names none and no nested loop lies between it and the construct. The
//! rewriter puts a flag assignment in front of each such `break` and leaves
//! every other part of the body as it was.

use vstd::prelude::*;
use crate::token::{copy_text};
use crate::tree::{
    arm_view, block_view, stmt_view, Arm, ArmView, Block, BlockView, Break, BreakView, Expr,
    ExprView, Stmt, StmtView,
};

verus! {

/// The view of a borrowed label.
pub open spec fn label_view(label: Option<&String>) -> Option<Seq<char>> {
    match label {
        Some(name) => Some(name@),
        None => None,
    }
}

/// Whether a break that names `target` leaves the construct.
/// `this_is_my_loop` says that no nested loop lies between the break and the
/// construct; `loops_label` is the construct's own label. A break with a
/// label leaves the construct when that label is the construct's; a break
/// without one, when no nested loop is in between.
pub open spec fn targets(
    target: Option<Seq<char>>,
    this_is_my_loop: bool,
    loops_label: Option<Seq<char>>,
) -> bool {
    match target {
        Some(name) => loops_label == Some(name),
        None => this_is_my_loop,
    }
}

/// Whether a break belongs to the construct.
pub open spec fn qualifies(
    b: BreakView,
    this_is_my_loop: bool,
    loops_label: Option<Seq<char>>,
) -> bool {
    targets(b.label, this_is_my_loop, loops_label)
}

/// What stands in place of a break that belongs to the construct: a block
/// of two statements, the flag assignment and the break itself.
pub open spec fn flagged(b: BreakView) -> ExprView {
    ExprView::Block {
        label: None,
        block: BlockView {
            stmts: seq![
                StmtView::Expr { expr: ExprView::SetFlag, semi: true },
                StmtView::Expr { expr: ExprView::Break(b), semi: true },
            ],
        },
    }
}

/// The expression after rewriting.
pub open spec fn rewritten_expr(
    e: ExprView,
    this_is_my_loop: bool,
    loops_label: Option<Seq<char>>,
) -> ExprView
    decreases e,
{
    match e {
        ExprView::Break(b) => if qualifies(b, this_is_my_loop, loops_label) {
            flagged(b)
        } else {
            e
        },
        ExprView::Block { label, block } => ExprView::Block {
            label,
            block: rewritten_block(block, this_is_my_loop, loops_label),
        },
        ExprView::Unsafe { block } => ExprView::Unsafe {
            block: rewritten_block(block, this_is_my_loop, loops_label),
        },
        ExprView::If { cond, then_branch, else_branch } => ExprView::If {
            cond,
            then_branch: rewritten_block(then_branch, this_is_my_loop, loops_label),
            else_branch: match else_branch {
                Some(other) => Some(
                    Box::new(rewritten_expr(*other, this_is_my_loop, loops_label)),
                ),
                None => None,
            },
        },
        ExprView::Match { scrutinee, arms } => ExprView::Match {
            scrutinee,
            arms: rewritten_arms(arms, this_is_my_loop, loops_label),
        },
        ExprView::Loop { label, head, body } => ExprView::Loop {
            label,
            head,
            body: rewritten_block(body, false, loops_label),
        },
        ExprView::SetFlag => e,
        ExprView::Other { text } => e,
    }
}

/// The arms of a `match` after rewriting: each arm's body rewritten, its
/// pattern kept.
pub open spec fn rewritten_arms(
    arms: Seq<ArmView>,
    this_is_my_loop: bool,
    loops_label: Option<Seq<char>>,
) -> Seq<ArmView>
    decreases arms,
{
    Seq::new(
        arms.len(),
        |i: int|
            if 0 <= i < arms.len() {
                ArmView {
                    pattern: arms[i].pattern,
                    body: rewritten_expr(arms[i].body, this_is_my_loop, loops_label),
                }
            } else {
                arbitrary()
            },
    )
}

/// The statement after rewriting.
pub open spec fn rewritten_stmt(
    s: StmtView,
    this_is_my_loop: bool,
    loops_label: Option<Seq<char>>,
) -> StmtView
    decreases s,
{
    match s {
        StmtView::Expr { expr, semi } => StmtView::Expr {
            expr: rewritten_expr(expr, this_is_my_loop, loops_label),
            semi,
        },
        StmtView::Other { text } => s,
    }
}

/// The statements after rewriting: each one rewritten, in its place.
pub open spec fn rewritten_stmts(
    stmts: Seq<StmtView>,
    this_is_my_loop: bool,
    loops_label: Option<Seq<char>>,
) -> Seq<StmtView>
    decreases stmts,
{
    Seq::new(
        stmts.len(),
        |i: int|
            if 0 <= i < stmts.len() {
                rewritten_stmt(stmts[i], this_is_my_loop, loops_label)
            } else {
                arbitrary()
            },
    )
}

/// The block after rewriting.
pub open spec fn rewritten_block(
    b: BlockView,
    this_is_my_loop: bool,
    loops_label: Option<Seq<char>>,
) -> BlockView
    decreases b,
{
    BlockView { stmts: rewritten_stmts(b.stmts, this_is_my_loop, loops_label) }
}

/// Decides whether a break belongs to the construct and, where it does,
/// builds what takes its place.
pub fn modify_single_break(
    break_expr: &Break,
    this_is_my_loop: bool,
    loops_label: Option<&String>,
) -> (replacement: Option<Expr>)
    ensures
        match replacement {
            Some(unit) => qualifies(break_expr@, this_is_my_loop, label_view(loops_label))
                && unit@ == flagged(break_expr@),
            None => !qualifies(break_expr@, this_is_my_loop, label_view(loops_label)),
        },
{
    let mine = match &break_expr.label {
        Some(breaks_label) => match loops_label {
            Some(own) => *breaks_label == *own,
            None => false,
        },
        None => this_is_my_loop,
    };
    if !mine {
        return None;
    }
    let kept = Break { label: copy_text(&break_expr.label), value: copy_text(&break_expr.value) };
    let mut stmts: Vec<Stmt> = Vec::new();
    stmts.push(Stmt::Expr { expr: Expr::SetFlag, semi: true });
    stmts.push(Stmt::Expr { expr: Expr::Break(kept), semi: true });
    let unit = Expr::Block { label: None, block: Block { stmts } };
    proof {
        let inner = block_view(unit->Block_block);
        assert(stmt_view(stmts[0]) == StmtView::Expr { expr: ExprView::SetFlag, semi: true });
        assert(stmt_view(stmts[1]) == StmtView::Expr {
            expr: ExprView::Break(break_expr@),
            semi: true,
        });
        assert(inner.stmts =~= flagged(break_expr@)->Block_block.stmts);
    }
    Some(unit)
}

/// Rewrites every statement of `body` in place.
pub fn modify_breaks_in_block(body: &mut Block, this_is_my_loop: bool, loops_label: Option<&String>)
    ensures
        final(body)@ == rewritten_block(old(body)@, this_is_my_loop, label_view(loops_label)),
    decreases *old(body),
{
    let n = body.stmts.len();
    let mut i: usize = 0;
    while i < n
        invariant
            i <= n,
            body.stmts.len() == n,
            old(body).stmts.len() == n,
            forall|j: int|
                0 <= j < i ==> stmt_view(#[trigger] body.stmts[j]) == rewritten_stmt(
                    stmt_view(old(body).stmts[j]),
                    this_is_my_loop,
                    label_view(loops_label),
                ),
            forall|j: int| i <= j < n ==> body.stmts[j] == old(body).stmts[j],
        decreases n - i,
    {
        match &mut body.stmts[i] {
            Stmt::Expr { expr, semi } => {
                modify_breaks_in_expression(expr, this_is_my_loop, loops_label);
            },
            Stmt::Other { .. } => {},
        }
        i += 1;
    }
    assert(final(body)@.stmts =~= rewritten_block(
        old(body)@,
        this_is_my_loop,
        label_view(loops_label),
    ).stmts);
}

/// Rewrites the body of every arm in place.
fn modify_breaks_in_arms(arms: &mut Vec<Arm>, this_is_my_loop: bool, loops_label: Option<&String>)
    ensures
        final(arms).len() == old(arms).len(),
        forall|j: int|
            0 <= j < old(arms).len() ==> arm_view(#[trigger] final(arms)[j]) == (ArmView {
                pattern: arm_view(old(arms)[j]).pattern,
                body: rewritten_expr(
                    arm_view(old(arms)[j]).body,
                    this_is_my_loop,
                    label_view(loops_label),
                ),
            }),
    decreases *old(arms),
{
    let n = arms.len();
    let mut i: usize = 0;
    while i < n
        invariant
            i <= n,
            arms.len() == n,
            old(arms).len() == n,
            forall|j: int|
                0 <= j < i ==> arm_view(#[trigger] arms[j]) == (ArmView {
                    pattern: arm_view(old(arms)[j]).pattern,
                    body: rewritten_expr(
                        arm_view(old(arms)[j]).body,
                        this_is_my_loop,
                        label_view(loops_label),
                    ),
                }),
            forall|j: int| i <= j < n ==> arms[j] == old(arms)[j],
        decreases n - i,
    {
        let arm = &mut arms[i];
        modify_breaks_in_expression(&mut arm.body, this_is_my_loop, loops_label);
        i += 1;
    }
}

/// Rewrites `expression` in place: a break that belongs to the construct
/// gives way to the flag assignment and itself; blocks, conditionals and
/// `match` arms are searched as part of the construct; the body of a nested
/// loop is searched for breaks that name the construct's label; anything
/// else stays as it is.
pub fn modify_breaks_in_expression(
    expression: &mut Expr,
    this_is_my_loop: bool,
    loops_label: Option<&String>,
)
    ensures
        final(expression)@ == rewritten_expr(
            old(expression)@,
            this_is_my_loop,
            label_view(loops_label),
        ),
    decreases *old(expression),
{
    match expression {
        Expr::Break(break_expr) => {
            let replacement = modify_single_break(break_expr, this_is_my_loop, loops_label);
            if let Some(unit) = replacement {
                *expression = unit;
            }
        },
        Expr::Block { block, .. } => {
            modify_breaks_in_block(block, this_is_my_loop, loops_label);
        },
        Expr::Unsafe { block } => {
            modify_breaks_in_block(block, this_is_my_loop, loops_label);
        },
        Expr::If { then_branch, else_branch, .. } => {
            modify_breaks_in_block(then_branch, this_is_my_loop, loops_label);
            if let Some(other) = else_branch {
                modify_breaks_in_expression(&mut **other, this_is_my_loop, loops_label);
            }
        },
        Expr::Match { arms, .. } => {
            modify_breaks_in_arms(arms, this_is_my_loop, loops_label);
            assert(final(expression)@->Match_arms =~= rewritten_arms(
                old(expression)@->Match_arms,
                this_is_my_loop,
                label_view(loops_label),
            ));
        },
        Expr::Loop { body, .. } => {
            modify_breaks_in_block(body, false, loops_label);
        },
        Expr::SetFlag => {},
        Expr::Other { .. } => {},
    }
}

} // verus!
