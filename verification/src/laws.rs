//! What holds of the rewriter and of the expansion, for every body and
//! every run.

use vstd::prelude::*;
use crate::expand::{ending, expansion_of, finish_of, loop_else};
use crate::rewrite::{
    flagged, qualifies, rewritten_arms, rewritten_block, rewritten_expr, rewritten_stmt,
    rewritten_stmts, targets,
};
use crate::semantics::{
    behind, choice_at, run_arm, run_expr, run_loop, run_stmt, run_stmts, ExitView, OutcomeView,
};
use crate::tree::{ArmView, BlockView, BreakView, ExprView, LoopHeadView, StmtView};

verus! {

/// Whether a block or loop inside the body carries the construct's own
/// label, and so hides the construct from a break that names it.
pub open spec fn clashes(label: Option<Seq<char>>, loops_label: Option<Seq<char>>) -> bool {
    label is Some && label == loops_label
}

/// Whether an expression is fit to be the construct's body: it holds no
/// flag assignment, and no block or loop in it carries the construct's
/// label.
pub open spec fn plain_expr(e: ExprView, loops_label: Option<Seq<char>>) -> bool
    decreases e,
{
    match e {
        ExprView::Break(b) => true,
        ExprView::SetFlag => false,
        ExprView::Block { label, block } => !clashes(label, loops_label) && plain_stmts(
            block.stmts,
            loops_label,
        ),
        ExprView::Unsafe { block } => plain_stmts(block.stmts, loops_label),
        ExprView::If { cond, then_branch, else_branch } => plain_stmts(
            then_branch.stmts,
            loops_label,
        ) && match else_branch {
            Some(other) => plain_expr(*other, loops_label),
            None => true,
        },
        ExprView::Match { scrutinee, arms } => plain_arms(arms, loops_label),
        ExprView::Loop { label, head, body } => !clashes(label, loops_label) && plain_stmts(
            body.stmts,
            loops_label,
        ),
        ExprView::Other { text } => true,
    }
}

/// Whether the body of every arm is fit to stand in the construct's body.
pub open spec fn plain_arms(arms: Seq<ArmView>, loops_label: Option<Seq<char>>) -> bool
    decreases arms,
{
    forall|i: int| 0 <= i < arms.len() ==> plain_arm(#[trigger] arms[i], loops_label)
}

/// Whether the body of the arm is fit to stand in the construct's body.
pub open spec fn plain_arm(arm: ArmView, loops_label: Option<Seq<char>>) -> bool
    decreases arm,
{
    plain_expr(arm.body, loops_label)
}

/// Whether a statement is fit to stand in the construct's body.
pub open spec fn plain_stmt(s: StmtView, loops_label: Option<Seq<char>>) -> bool
    decreases s,
{
    match s {
        StmtView::Expr { expr, semi } => plain_expr(expr, loops_label),
        StmtView::Other { text } => true,
    }
}

/// Whether every statement is fit to stand in the construct's body.
pub open spec fn plain_stmts(stmts: Seq<StmtView>, loops_label: Option<Seq<char>>) -> bool
    decreases stmts,
{
    forall|i: int| 0 <= i < stmts.len() ==> plain_stmt(#[trigger] stmts[i], loops_label)
}

/// How the run of a piece after rewriting relates to its run before:
/// control leaves the same way at the same choice, the piece never set the
/// flag before rewriting, and after rewriting it sets it exactly when control
/// leaves by a break of the construct.
pub open spec fn mirrors(
    before: OutcomeView,
    after: OutcomeView,
    this_is_my_loop: bool,
    loops_label: Option<Seq<char>>,
) -> bool {
    &&& after.exit == before.exit
    &&& after.pos == before.pos
    &&& !before.flag
    &&& after.flag == match before.exit {
        ExitView::Break { label } => targets(label, this_is_my_loop, loops_label),
        ExitView::Normal => false,
    }
}

/// The unit that replaces a break sets the flag and then leaves as the
/// break did.
pub proof fn lemma_flagged_run(b: BreakView, choices: Seq<usize>, pos: int)
    ensures
        run_expr(flagged(b), choices, pos) == (OutcomeView {
            exit: ExitView::Break { label: b.label },
            flag: true,
            pos,
        }),
{
    let stmts = flagged(b)->Block_block.stmts;
    let tail = stmts.subrange(1, 2);
    assert(tail.len() == 1);
    assert(tail[0] == stmts[1]);
    assert(run_stmt(stmts[0], choices, pos) == OutcomeView {
        exit: ExitView::Normal,
        flag: true,
        pos,
    });
    assert(run_stmt(tail[0], choices, pos) == OutcomeView {
        exit: ExitView::Break { label: b.label },
        flag: false,
        pos,
    });
    assert(run_stmts(tail, choices, pos) == run_stmt(tail[0], choices, pos));
    assert(run_stmts(stmts, choices, pos) == OutcomeView {
        exit: ExitView::Break { label: b.label },
        flag: true,
        pos,
    });
}

/// The run of an expression after rewriting mirrors its run before.
pub proof fn lemma_expr_mirrors(
    e: ExprView,
    this_is_my_loop: bool,
    loops_label: Option<Seq<char>>,
    choices: Seq<usize>,
    pos: int,
)
    requires
        plain_expr(e, loops_label),
    ensures
        mirrors(
            run_expr(e, choices, pos),
            run_expr(rewritten_expr(e, this_is_my_loop, loops_label), choices, pos),
            this_is_my_loop,
            loops_label,
        ),
    decreases e, 0int,
{
    match e {
        ExprView::Break(b) => {
            if qualifies(b, this_is_my_loop, loops_label) {
                lemma_flagged_run(b, choices, pos);
            }
        },
        ExprView::SetFlag => {},
        ExprView::Block { label, block } => {
            lemma_stmts_mirror(block.stmts, this_is_my_loop, loops_label, choices, pos);
            assert(rewritten_block(block, this_is_my_loop, loops_label).stmts == rewritten_stmts(
                block.stmts,
                this_is_my_loop,
                loops_label,
            ));
        },
        ExprView::Unsafe { block } => {
            lemma_stmts_mirror(block.stmts, this_is_my_loop, loops_label, choices, pos);
            assert(rewritten_block(block, this_is_my_loop, loops_label).stmts == rewritten_stmts(
                block.stmts,
                this_is_my_loop,
                loops_label,
            ));
        },
        ExprView::If { cond, then_branch, else_branch } => {
            let next = behind(choices, pos);
            if choice_at(choices, pos) != 0 {
                lemma_stmts_mirror(then_branch.stmts, this_is_my_loop, loops_label, choices, next);
                assert(rewritten_block(then_branch, this_is_my_loop, loops_label).stmts
                    == rewritten_stmts(then_branch.stmts, this_is_my_loop, loops_label));
            } else {
                match else_branch {
                    Some(other) => {
                        lemma_expr_mirrors(*other, this_is_my_loop, loops_label, choices, next);
                    },
                    None => {},
                }
            }
        },
        ExprView::Match { scrutinee, arms } => {
            let next = behind(choices, pos);
            let arm = choice_at(choices, pos) as int;
            assert(plain_arms(arms, loops_label));
            assert(rewritten_arms(arms, this_is_my_loop, loops_label).len() == arms.len());
            if arm < arms.len() {
                assert(plain_arm(arms[arm], loops_label));
                lemma_expr_mirrors(arms[arm].body, this_is_my_loop, loops_label, choices, next);
                let after = rewritten_arms(arms, this_is_my_loop, loops_label);
                assert(after[arm].body == rewritten_expr(
                    arms[arm].body,
                    this_is_my_loop,
                    loops_label,
                ));
                assert(run_arm(arms[arm], choices, next) == run_expr(arms[arm].body, choices, next));
                assert(run_arm(after[arm], choices, next) == run_expr(
                    after[arm].body,
                    choices,
                    next,
                ));
            }
        },
        ExprView::Loop { label, head, body } => {
            lemma_loop_mirrors(label, body, loops_label, choices, pos);
        },
        ExprView::Other { text } => {},
    }
}

/// The run of statements after rewriting mirrors their run before.
pub proof fn lemma_stmts_mirror(
    stmts: Seq<StmtView>,
    this_is_my_loop: bool,
    loops_label: Option<Seq<char>>,
    choices: Seq<usize>,
    pos: int,
)
    requires
        plain_stmts(stmts, loops_label),
    ensures
        mirrors(
            run_stmts(stmts, choices, pos),
            run_stmts(rewritten_stmts(stmts, this_is_my_loop, loops_label), choices, pos),
            this_is_my_loop,
            loops_label,
        ),
    decreases stmts, 0int,
{
    if stmts.len() > 0 {
        let after = rewritten_stmts(stmts, this_is_my_loop, loops_label);
        let rest = stmts.subrange(1, stmts.len() as int);
        assert(after.subrange(1, after.len() as int) =~= rewritten_stmts(
            rest,
            this_is_my_loop,
            loops_label,
        ));
        assert(plain_stmt(stmts[0], loops_label));
        match stmts[0] {
            StmtView::Expr { expr, semi } => {
                lemma_expr_mirrors(expr, this_is_my_loop, loops_label, choices, pos);
            },
            StmtView::Other { text } => {},
        }
        let first = run_stmt(stmts[0], choices, pos);
        assert(mirrors(first, run_stmt(after[0], choices, pos), this_is_my_loop, loops_label));
        if first.exit is Normal {
            assert forall|i: int| 0 <= i < rest.len() implies plain_stmt(
                #[trigger] rest[i],
                loops_label,
            ) by {
                assert(rest[i] == stmts[i + 1]);
            }
            lemma_stmts_mirror(rest, this_is_my_loop, loops_label, choices, first.pos);
        }
    }
}

/// The run of a nested loop after rewriting mirrors its run before, and
/// never leaves by a break that names nothing.
pub proof fn lemma_loop_mirrors(
    label: Option<Seq<char>>,
    body: BlockView,
    loops_label: Option<Seq<char>>,
    choices: Seq<usize>,
    pos: int,
)
    requires
        plain_stmts(body.stmts, loops_label),
        !clashes(label, loops_label),
    ensures
        mirrors(
            run_loop(label, body, choices, pos),
            run_loop(label, rewritten_block(body, false, loops_label), choices, pos),
            false,
            loops_label,
        ),
        run_loop(label, body, choices, pos).exit != (ExitView::Break { label: None }),
    decreases body, choices.len() - pos,
{
    assert(rewritten_block(body, false, loops_label).stmts == rewritten_stmts(
        body.stmts,
        false,
        loops_label,
    ));
    if choice_at(choices, pos) != 0 {
        lemma_stmts_mirror(body.stmts, false, loops_label, choices, pos + 1);
        let round = run_stmts(body.stmts, choices, pos + 1);
        if round.exit is Normal && pos < round.pos <= choices.len() {
            lemma_loop_mirrors(label, body, loops_label, choices, round.pos);
        }
    }
}

/// The native loop over the rewritten body ends as the loop-else construct
/// over the body itself does, from any point of the run.
proof fn lemma_rounds_follow_loop_else(
    label: Option<Seq<char>>,
    body: BlockView,
    choices: Seq<usize>,
    pos: int,
)
    requires
        plain_stmts(body.stmts, label),
    ensures
        ending(run_loop(label, rewritten_block(body, true, label), choices, pos)) == loop_else(
            label,
            body,
            choices,
            pos,
        ),
    decreases choices.len() - pos,
{
    assert(rewritten_block(body, true, label).stmts == rewritten_stmts(body.stmts, true, label));
    if choice_at(choices, pos) != 0 {
        lemma_stmts_mirror(body.stmts, true, label, choices, pos + 1);
        let round = run_stmts(body.stmts, choices, pos + 1);
        if round.exit is Normal && pos < round.pos <= choices.len() {
            lemma_rounds_follow_loop_else(label, body, choices, round.pos);
        }
    }
}

/// Take a construct whose body holds no flag assignment and in which no
/// block or loop carries the construct's label. Then, on every list of
/// choices, its expansion ends as the construct itself does: the `else`
/// block runs exactly when the loop runs out without a break of the
/// construct, it is skipped exactly when such a break fires, and a break
/// that names another label leaves through the expansion as it leaves
/// through the construct.
pub proof fn lemma_else_runs_iff_no_break_of_the_construct(
    label: Option<Seq<char>>,
    head: LoopHeadView,
    body: BlockView,
    else_block: BlockView,
    choices: Seq<usize>,
)
    requires
        plain_stmts(body.stmts, label),
    ensures
        expansion_of(label, head, Some(body), Some(else_block)) is Ok,
        ({
            let expansion = expansion_of(label, head, Some(body), Some(else_block))->Ok_0;
            let meant = loop_else(label, body, choices, 0);
            &&& finish_of(expansion, choices) == meant
            &&& finish_of(expansion, choices) is Completed <==> meant is Completed
            &&& finish_of(expansion, choices) is Broken <==> meant is Broken
        }),
{
    lemma_rounds_follow_loop_else(label, body, choices, 0);
}

/// A break that names a label other than the construct's is left as it
/// stands, inside nested loops or outside.
pub proof fn lemma_other_label_untouched(
    b: BreakView,
    name: Seq<char>,
    this_is_my_loop: bool,
    loops_label: Option<Seq<char>>,
)
    requires
        b.label == Some(name),
        loops_label != Some(name),
    ensures
        rewritten_expr(ExprView::Break(b), this_is_my_loop, loops_label) == ExprView::Break(b),
{
}

/// When statements are left by a break that names a label other than the
/// construct's, the rewritten
/// statements are left by the same break at the same choice, and the flag
/// is not set. This holds inside nested loops and outside.
pub proof fn lemma_other_label_passes(
    stmts: Seq<StmtView>,
    name: Seq<char>,
    this_is_my_loop: bool,
    loops_label: Option<Seq<char>>,
    choices: Seq<usize>,
    pos: int,
)
    requires
        plain_stmts(stmts, loops_label),
        loops_label != Some(name),
        run_stmts(stmts, choices, pos).exit == (ExitView::Break { label: Some(name) }),
    ensures
        run_stmts(rewritten_stmts(stmts, this_is_my_loop, loops_label), choices, pos) == run_stmts(
            stmts,
            choices,
            pos,
        ),
{
    lemma_stmts_mirror(stmts, this_is_my_loop, loops_label, choices, pos);
}

/// Rewriting a nested loop rewrites its body as one that is not the
/// construct's own, and there a break that names nothing is left as it
/// stands.
pub proof fn lemma_nested_break_untouched(
    label: Option<Seq<char>>,
    head: LoopHeadView,
    body: BlockView,
    b: BreakView,
    this_is_my_loop: bool,
    loops_label: Option<Seq<char>>,
)
    requires
        b.label is None,
    ensures
        rewritten_expr(ExprView::Loop { label, head, body }, this_is_my_loop, loops_label)
            == (ExprView::Loop { label, head, body: rewritten_block(body, false, loops_label) }),
        rewritten_expr(ExprView::Break(b), false, loops_label) == ExprView::Break(b),
{
}

/// A nested loop is left after rewriting as it was before, at the same
/// choice, and it sets the flag
/// only when it is left by a break that names the construct's label. A
/// break that names nothing ends the nested loop and nothing else.
pub proof fn lemma_nested_loop_isolated(
    label: Option<Seq<char>>,
    head: LoopHeadView,
    body: BlockView,
    this_is_my_loop: bool,
    loops_label: Option<Seq<char>>,
    choices: Seq<usize>,
    pos: int,
)
    requires
        plain_expr(ExprView::Loop { label, head, body }, loops_label),
    ensures
        ({
            let nested = ExprView::Loop { label, head, body };
            let before = run_expr(nested, choices, pos);
            let after = run_expr(
                rewritten_expr(nested, this_is_my_loop, loops_label),
                choices,
                pos,
            );
            &&& after.exit == before.exit
            &&& after.pos == before.pos
            &&& before.exit != (ExitView::Break { label: None })
            &&& after.flag ==> loops_label is Some && before.exit == (ExitView::Break {
                label: loops_label,
            })
        }),
{
    lemma_expr_mirrors(
        ExprView::Loop { label, head, body },
        this_is_my_loop,
        loops_label,
        choices,
        pos,
    );
    lemma_loop_mirrors(label, body, loops_label, choices, pos);
}

/// Rewriting keeps the number of statements and the place of each, and a
/// statement that is held as text, or is an expression held as text, comes
/// out as it went in.
pub proof fn lemma_opaque_statements_pass_through(
    stmts: Seq<StmtView>,
    this_is_my_loop: bool,
    loops_label: Option<Seq<char>>,
)
    ensures
        rewritten_stmts(stmts, this_is_my_loop, loops_label).len() == stmts.len(),
        forall|i: int|
            0 <= i < stmts.len() ==> #[trigger] rewritten_stmts(
                stmts,
                this_is_my_loop,
                loops_label,
            )[i] == rewritten_stmt(stmts[i], this_is_my_loop, loops_label),
        forall|i: int|
            0 <= i < stmts.len() && (stmts[i] is Other || (stmts[i] matches StmtView::Expr {
                expr,
                ..
            } && expr is Other)) ==> #[trigger] rewritten_stmts(
                stmts,
                this_is_my_loop,
                loops_label,
            )[i] == stmts[i],
{
}

/// Whether no break in the expression belongs to the construct.
pub open spec fn free_expr(
    e: ExprView,
    this_is_my_loop: bool,
    loops_label: Option<Seq<char>>,
) -> bool
    decreases e,
{
    match e {
        ExprView::Break(b) => !qualifies(b, this_is_my_loop, loops_label),
        ExprView::SetFlag => true,
        ExprView::Block { label, block } => free_stmts(block.stmts, this_is_my_loop, loops_label),
        ExprView::Unsafe { block } => free_stmts(block.stmts, this_is_my_loop, loops_label),
        ExprView::If { cond, then_branch, else_branch } => free_stmts(
            then_branch.stmts,
            this_is_my_loop,
            loops_label,
        ) && match else_branch {
            Some(other) => free_expr(*other, this_is_my_loop, loops_label),
            None => true,
        },
        ExprView::Match { scrutinee, arms } => free_arms(arms, this_is_my_loop, loops_label),
        ExprView::Loop { label, head, body } => free_stmts(body.stmts, false, loops_label),
        ExprView::Other { text } => true,
    }
}

/// Whether no break in the body of any arm belongs to the construct.
pub open spec fn free_arms(
    arms: Seq<ArmView>,
    this_is_my_loop: bool,
    loops_label: Option<Seq<char>>,
) -> bool
    decreases arms,
{
    forall|i: int|
        0 <= i < arms.len() ==> free_arm(#[trigger] arms[i], this_is_my_loop, loops_label)
}

/// Whether no break in the body of the arm belongs to the construct.
pub open spec fn free_arm(
    arm: ArmView,
    this_is_my_loop: bool,
    loops_label: Option<Seq<char>>,
) -> bool
    decreases arm,
{
    free_expr(arm.body, this_is_my_loop, loops_label)
}

/// Whether no break in the statement belongs to the construct.
pub open spec fn free_stmt(
    s: StmtView,
    this_is_my_loop: bool,
    loops_label: Option<Seq<char>>,
) -> bool
    decreases s,
{
    match s {
        StmtView::Expr { expr, semi } => free_expr(expr, this_is_my_loop, loops_label),
        StmtView::Other { text } => true,
    }
}

/// Whether no break in the statements belongs to the construct.
pub open spec fn free_stmts(
    stmts: Seq<StmtView>,
    this_is_my_loop: bool,
    loops_label: Option<Seq<char>>,
) -> bool
    decreases stmts,
{
    forall|i: int|
        0 <= i < stmts.len() ==> free_stmt(#[trigger] stmts[i], this_is_my_loop, loops_label)
}

/// An expression in which no break belongs to the construct comes out of
/// rewriting as it went in.
pub proof fn lemma_free_expr_unchanged(
    e: ExprView,
    this_is_my_loop: bool,
    loops_label: Option<Seq<char>>,
)
    requires
        free_expr(e, this_is_my_loop, loops_label),
    ensures
        rewritten_expr(e, this_is_my_loop, loops_label) == e,
    decreases e,
{
    match e {
        ExprView::Block { label, block } => {
            lemma_free_stmts_unchanged(block.stmts, this_is_my_loop, loops_label);
            assert(rewritten_block(block, this_is_my_loop, loops_label) == block);
        },
        ExprView::Unsafe { block } => {
            lemma_free_stmts_unchanged(block.stmts, this_is_my_loop, loops_label);
            assert(rewritten_block(block, this_is_my_loop, loops_label) == block);
        },
        ExprView::If { cond, then_branch, else_branch } => {
            lemma_free_stmts_unchanged(then_branch.stmts, this_is_my_loop, loops_label);
            assert(rewritten_block(then_branch, this_is_my_loop, loops_label) == then_branch);
            match else_branch {
                Some(other) => {
                    lemma_free_expr_unchanged(*other, this_is_my_loop, loops_label);
                },
                None => {},
            }
        },
        ExprView::Match { scrutinee, arms } => {
            let after = rewritten_arms(arms, this_is_my_loop, loops_label);
            assert(free_arms(arms, this_is_my_loop, loops_label));
            assert forall|i: int| 0 <= i < arms.len() implies after[i] == arms[i] by {
                assert(free_arm(arms[i], this_is_my_loop, loops_label));
                lemma_free_expr_unchanged(arms[i].body, this_is_my_loop, loops_label);
            }
            assert(after =~= arms);
        },
        ExprView::Loop { label, head, body } => {
            lemma_free_stmts_unchanged(body.stmts, false, loops_label);
            assert(rewritten_block(body, false, loops_label) == body);
        },
        _ => {},
    }
}

/// Statements in which no break belongs to the construct come out of
/// rewriting as they went in.
pub proof fn lemma_free_stmts_unchanged(
    stmts: Seq<StmtView>,
    this_is_my_loop: bool,
    loops_label: Option<Seq<char>>,
)
    requires
        free_stmts(stmts, this_is_my_loop, loops_label),
    ensures
        rewritten_stmts(stmts, this_is_my_loop, loops_label) == stmts,
    decreases stmts,
{
    let after = rewritten_stmts(stmts, this_is_my_loop, loops_label);
    assert forall|i: int| 0 <= i < stmts.len() implies after[i] == stmts[i] by {
        assert(free_stmt(stmts[i], this_is_my_loop, loops_label));
        match stmts[i] {
            StmtView::Expr { expr, semi } => {
                lemma_free_expr_unchanged(expr, this_is_my_loop, loops_label);
            },
            StmtView::Other { text } => {},
        }
    }
    assert(after =~= stmts);
}

/// Inside a nested loop of a construct without a label no break belongs to
/// the construct.
pub proof fn lemma_nothing_to_find_in_nested_loops(e: ExprView)
    ensures
        free_expr(e, false, None),
    decreases e,
{
    match e {
        ExprView::Block { label, block } => {
            lemma_nothing_to_find_in_nested_stmts(block.stmts);
        },
        ExprView::Unsafe { block } => {
            lemma_nothing_to_find_in_nested_stmts(block.stmts);
        },
        ExprView::If { cond, then_branch, else_branch } => {
            lemma_nothing_to_find_in_nested_stmts(then_branch.stmts);
            match else_branch {
                Some(other) => {
                    lemma_nothing_to_find_in_nested_loops(*other);
                },
                None => {},
            }
        },
        ExprView::Match { scrutinee, arms } => {
            assert forall|i: int| 0 <= i < arms.len() implies free_arm(
                #[trigger] arms[i],
                false,
                None,
            ) by {
                lemma_nothing_to_find_in_nested_loops(arms[i].body);
            }
            assert(free_arms(arms, false, None));
        },
        ExprView::Loop { label, head, body } => {
            lemma_nothing_to_find_in_nested_stmts(body.stmts);
        },
        _ => {},
    }
}

/// Inside a nested loop of a construct without a label no break belongs to
/// the construct.
pub proof fn lemma_nothing_to_find_in_nested_stmts(stmts: Seq<StmtView>)
    ensures
        free_stmts(stmts, false, None),
    decreases stmts,
{
    assert forall|i: int| 0 <= i < stmts.len() implies free_stmt(
        #[trigger] stmts[i],
        false,
        None,
    ) by {
        match stmts[i] {
            StmtView::Expr { expr, semi } => {
                lemma_nothing_to_find_in_nested_loops(expr);
            },
            StmtView::Other { text } => {},
        }
    }
}

/// A construct without a label leaves every nested loop as it stands,
/// whatever breaks the loop holds.
pub proof fn lemma_nested_loop_unchanged_without_label(
    label: Option<Seq<char>>,
    head: LoopHeadView,
    body: BlockView,
    this_is_my_loop: bool,
)
    ensures
        rewritten_expr(ExprView::Loop { label, head, body }, this_is_my_loop, None)
            == (ExprView::Loop { label, head, body }),
{
    lemma_nothing_to_find_in_nested_stmts(body.stmts);
    lemma_free_stmts_unchanged(body.stmts, false, None);
    assert(rewritten_block(body, false, None) == body);
}

} // verus!
