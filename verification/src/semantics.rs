//! What running a body does, as far as breaks and the completion flag go.
//!
//! The values that conditions, scrutinees and drivers take are not known
//! here, so a run is steered by a list of choices, read from left to right:
//! a conditional takes its first branch on a choice other than zero, a
//! `match` takes the arm whose index the choice is, a loop goes round once
//! more on a choice other than zero. Past the end of the list every choice
//! is zero. Statements that the tree holds as text fall through.

use vstd::prelude::*;
use crate::token::{copy_text, text_view};
use crate::tree::{
    arm_view, stmt_view, ArmView, Block, BlockView, Break, Expr, ExprView, Stmt, StmtView,
};

verus! {

/// How control leaves a piece of code.
#[derive(Clone, Debug, PartialEq, Eq)]
pub enum Exit {
    /// Off its end.
    Normal,
    /// By a `break`, with the label it names.
    Break { label: Option<String> },
}

/// What a run did.
#[derive(Clone, Debug, PartialEq, Eq)]
pub struct Outcome {
    pub exit: Exit,
    /// Whether the run set the completion flag.
    pub flag: bool,
    /// The index of the first choice that the run did not read.
    pub pos: usize,
}

/// The mathematical picture of an [`Exit`].
pub ghost enum ExitView {
    Normal,
    Break { label: Option<Seq<char>> },
}

/// The mathematical picture of an [`Outcome`].
pub ghost struct OutcomeView {
    pub exit: ExitView,
    pub flag: bool,
    pub pos: int,
}

impl View for Exit {
    type V = ExitView;

    open spec fn view(&self) -> ExitView {
        match *self {
            Exit::Normal => ExitView::Normal,
            Exit::Break { label } => ExitView::Break { label: text_view(label) },
        }
    }
}

impl View for Outcome {
    type V = OutcomeView;

    open spec fn view(&self) -> OutcomeView {
        OutcomeView { exit: self.exit@, flag: self.flag, pos: self.pos as int }
    }
}

/// The choice at `pos`: zero past the end of the list.
pub open spec fn choice_at(choices: Seq<usize>, pos: int) -> usize {
    if 0 <= pos < choices.len() {
        choices[pos]
    } else {
        0
    }
}

/// The position behind the choice at `pos`.
pub open spec fn behind(choices: Seq<usize>, pos: int) -> int {
    if 0 <= pos < choices.len() {
        pos + 1
    } else {
        pos
    }
}

/// A run that falls through without reading a choice.
pub open spec fn falls_through(pos: int) -> OutcomeView {
    OutcomeView { exit: ExitView::Normal, flag: false, pos }
}

/// Whether a loop that carries `label` is where a break naming `target`
/// stops. A break that names nothing stops at the nearest loop.
pub open spec fn stops_at_loop(label: Option<Seq<char>>, target: Option<Seq<char>>) -> bool {
    match target {
        None => true,
        Some(name) => label == Some(name),
    }
}

/// Whether a block that carries `label` is where a break naming `target`
/// stops. A break that names nothing stops at no block.
pub open spec fn stops_at_block(label: Option<Seq<char>>, target: Option<Seq<char>>) -> bool {
    match target {
        None => false,
        Some(name) => label == Some(name),
    }
}

/// The run of a block's statements with what a block around them does to
/// its exit: a break that names the block's label ends there.
pub open spec fn caught_by_block(label: Option<Seq<char>>, inner: OutcomeView) -> OutcomeView {
    match inner.exit {
        ExitView::Break { label: target } if stops_at_block(label, target) => OutcomeView {
            exit: ExitView::Normal,
            ..inner
        },
        _ => inner,
    }
}

/// The run of an expression from the choice at `pos`.
pub open spec fn run_expr(e: ExprView, choices: Seq<usize>, pos: int) -> OutcomeView
    decreases e, 0int,
{
    match e {
        ExprView::Break(b) => OutcomeView {
            exit: ExitView::Break { label: b.label },
            flag: false,
            pos,
        },
        ExprView::SetFlag => OutcomeView { exit: ExitView::Normal, flag: true, pos },
        ExprView::Block { label, block } => caught_by_block(
            label,
            run_stmts(block.stmts, choices, pos),
        ),
        ExprView::Unsafe { block } => run_stmts(block.stmts, choices, pos),
        ExprView::If { cond, then_branch, else_branch } => {
            if choice_at(choices, pos) != 0 {
                run_stmts(then_branch.stmts, choices, behind(choices, pos))
            } else {
                match else_branch {
                    Some(other) => run_expr(*other, choices, behind(choices, pos)),
                    None => falls_through(behind(choices, pos)),
                }
            }
        },
        ExprView::Match { scrutinee, arms } => {
            let arm = choice_at(choices, pos) as int;
            if arm < arms.len() {
                run_arm(arms[arm], choices, behind(choices, pos))
            } else {
                falls_through(behind(choices, pos))
            }
        },
        ExprView::Loop { label, head, body } => run_loop(label, body, choices, pos),
        ExprView::Other { text } => falls_through(pos),
    }
}

/// The run of the body of a `match` arm.
pub open spec fn run_arm(a: ArmView, choices: Seq<usize>, pos: int) -> OutcomeView
    decreases a, 0int,
{
    run_expr(a.body, choices, pos)
}

/// The run of one statement.
pub open spec fn run_stmt(s: StmtView, choices: Seq<usize>, pos: int) -> OutcomeView
    decreases s, 0int,
{
    match s {
        StmtView::Expr { expr, semi } => run_expr(expr, choices, pos),
        StmtView::Other { text } => falls_through(pos),
    }
}

/// The run of statements one after another, up to the first that does not
/// fall through.
pub open spec fn run_stmts(stmts: Seq<StmtView>, choices: Seq<usize>, pos: int) -> OutcomeView
    decreases stmts, 0int,
{
    if stmts.len() == 0 {
        falls_through(pos)
    } else {
        let first = run_stmt(stmts[0], choices, pos);
        if first.exit is Normal {
            let rest = run_stmts(stmts.subrange(1, stmts.len() as int), choices, first.pos);
            OutcomeView { exit: rest.exit, flag: first.flag || rest.flag, pos: rest.pos }
        } else {
            first
        }
    }
}

/// The run of a loop that carries `label`: one choice at the head of each
/// round says whether the body runs once more. A break that names nothing,
/// or the loop's label, ends the loop; any other break leaves it.
///
/// A round has always read the choice at its head and stayed inside the
/// list (`lemma_loop_advances`); the test on the positions is there to show
/// that the definition ends.
pub open spec fn run_loop(
    label: Option<Seq<char>>,
    body: BlockView,
    choices: Seq<usize>,
    pos: int,
) -> OutcomeView
    decreases body, choices.len() - pos,
{
    if choice_at(choices, pos) == 0 {
        falls_through(behind(choices, pos))
    } else {
        let round = run_stmts(body.stmts, choices, pos + 1);
        match round.exit {
            ExitView::Break { label: target } => if stops_at_loop(label, target) {
                OutcomeView { exit: ExitView::Normal, ..round }
            } else {
                round
            },
            ExitView::Normal => if pos < round.pos <= choices.len() {
                let rest = run_loop(label, body, choices, round.pos);
                OutcomeView { exit: rest.exit, flag: round.flag || rest.flag, pos: rest.pos }
            } else {
                round
            },
        }
    }
}

/// Whether a run that began at `pos` and ended at `end` went forward
/// through the list and stayed inside it.
pub open spec fn advanced(choices: Seq<usize>, pos: int, end: int) -> bool {
    pos <= end && (pos <= choices.len() ==> end <= choices.len())
}

/// The run of an expression reads its choices from left to right and never
/// reads past the end of the list.
pub proof fn lemma_expr_advances(e: ExprView, choices: Seq<usize>, pos: int)
    requires
        0 <= pos,
    ensures
        advanced(choices, pos, run_expr(e, choices, pos).pos),
    decreases e, 0int,
{
    match e {
        ExprView::Block { label, block } => {
            lemma_stmts_advance(block.stmts, choices, pos);
        },
        ExprView::Unsafe { block } => {
            lemma_stmts_advance(block.stmts, choices, pos);
        },
        ExprView::If { cond, then_branch, else_branch } => {
            let next = behind(choices, pos);
            if choice_at(choices, pos) != 0 {
                lemma_stmts_advance(then_branch.stmts, choices, next);
            } else {
                match else_branch {
                    Some(other) => {
                        lemma_expr_advances(*other, choices, next);
                    },
                    None => {},
                }
            }
        },
        ExprView::Match { scrutinee, arms } => {
            let next = behind(choices, pos);
            let arm = choice_at(choices, pos) as int;
            if arm < arms.len() {
                lemma_expr_advances(arms[arm].body, choices, next);
                assert(run_arm(arms[arm], choices, next) == run_expr(arms[arm].body, choices, next));
            }
        },
        ExprView::Loop { label, head, body } => {
            lemma_loop_advances(label, body, choices, pos);
        },
        _ => {},
    }
}

/// The run of statements reads its choices from left to right and never
/// reads past the end of the list.
pub proof fn lemma_stmts_advance(stmts: Seq<StmtView>, choices: Seq<usize>, pos: int)
    requires
        0 <= pos,
    ensures
        advanced(choices, pos, run_stmts(stmts, choices, pos).pos),
    decreases stmts, 0int,
{
    if stmts.len() > 0 {
        match stmts[0] {
            StmtView::Expr { expr, semi } => {
                lemma_expr_advances(expr, choices, pos);
            },
            StmtView::Other { text } => {},
        }
        let first = run_stmt(stmts[0], choices, pos);
        if first.exit is Normal {
            lemma_stmts_advance(stmts.subrange(1, stmts.len() as int), choices, first.pos);
        }
    }
}

/// The run of a loop reads its choices from left to right and never reads
/// past the end of the list; and each round that falls through has read at
/// least the choice at its head, so the loop goes on until a choice or a
/// break ends it.
pub proof fn lemma_loop_advances(
    label: Option<Seq<char>>,
    body: BlockView,
    choices: Seq<usize>,
    pos: int,
)
    requires
        0 <= pos,
    ensures
        advanced(choices, pos, run_loop(label, body, choices, pos).pos),
        choice_at(choices, pos) != 0 ==> pos < run_stmts(body.stmts, choices, pos + 1).pos
            <= choices.len(),
    decreases body, choices.len() - pos,
{
    if choice_at(choices, pos) != 0 {
        lemma_stmts_advance(body.stmts, choices, pos + 1);
        let round = run_stmts(body.stmts, choices, pos + 1);
        if round.exit is Normal {
            lemma_loop_advances(label, body, choices, round.pos);
        }
    }
}

/// Whether two optional labels are the same name.
fn same_label(a: &Option<String>, b: &Option<String>) -> (same: bool)
    ensures
        same == (text_view(*a) == text_view(*b)),
{
    match a {
        Some(x) => match b {
            Some(y) => *x == *y,
            None => false,
        },
        None => b.is_none(),
    }
}

/// Reads the choice at `pos`: the choice, and the position behind it.
fn read_choice(choices: &Vec<usize>, pos: usize) -> (read: (usize, usize))
    ensures
        read.0 == choice_at(choices@, pos as int),
        read.1 == behind(choices@, pos as int),
{
    if pos < choices.len() {
        (choices[pos], pos + 1)
    } else {
        (0, pos)
    }
}

/// Runs a loop that carries `label` over `body`.
pub(crate) fn run_rounds(label: &Option<String>, body: &Block, choices: &Vec<usize>, pos: usize) -> (out:
    Outcome)
    ensures
        out@ == run_loop(text_view(*label), body@, choices@, pos as int),
    decreases body, 1int,
{
    let mut at: usize = pos;
    let mut flag = false;
    loop
        invariant
            ({
                let rest = run_loop(text_view(*label), body@, choices@, at as int);
                run_loop(text_view(*label), body@, choices@, pos as int) == (OutcomeView {
                    flag: flag || rest.flag,
                    ..rest
                })
            }),
        decreases choices.len() - at,
    {
        let (choice, next) = read_choice(choices, at);
        if choice == 0 {
            return Outcome { exit: Exit::Normal, flag, pos: next };
        }
        let round = body.run(choices, next);
        match round.exit {
            Exit::Break { label: target } => {
                let stops = target.is_none() || same_label(label, &target);
                let exit = if stops {
                    Exit::Normal
                } else {
                    Exit::Break { label: target }
                };
                return Outcome { exit, flag: flag || round.flag, pos: round.pos };
            },
            Exit::Normal => {
                if !(at < round.pos && round.pos <= choices.len()) {
                    return Outcome { exit: Exit::Normal, flag: flag || round.flag, pos: round.pos };
                }
                flag = flag || round.flag;
                at = round.pos;
            },
        }
    }
}

impl Exit {
    /// Whether control fell off the end.
    pub fn is_normal(&self) -> (r: bool)
        ensures
            r == (self@ is Normal),
    {
        match self {
            Exit::Normal => true,
            Exit::Break { .. } => false,
        }
    }
}

impl Expr {
    /// Runs the expression from the choice at `pos`.
    pub fn run(&self, choices: &Vec<usize>, pos: usize) -> (out: Outcome)
        ensures
            out@ == run_expr(self@, choices@, pos as int),
        decreases self, 0int,
    {
        match self {
            Expr::Break(b) => {
                Outcome { exit: Exit::Break { label: copy_text(&b.label) }, flag: false, pos }
            },
            Expr::SetFlag => Outcome { exit: Exit::Normal, flag: true, pos },
            Expr::Block { label, block } => {
                let inner = block.run(choices, pos);
                let caught = match &inner.exit {
                    Exit::Break { label: target } => target.is_some() && same_label(label, target),
                    Exit::Normal => false,
                };
                if caught {
                    Outcome { exit: Exit::Normal, flag: inner.flag, pos: inner.pos }
                } else {
                    inner
                }
            },
            Expr::Unsafe { block } => block.run(choices, pos),
            Expr::If { then_branch, else_branch, .. } => {
                let (choice, next) = read_choice(choices, pos);
                if choice != 0 {
                    then_branch.run(choices, next)
                } else {
                    match else_branch {
                        Some(other) => other.run(choices, next),
                        None => Outcome { exit: Exit::Normal, flag: false, pos: next },
                    }
                }
            },
            Expr::Match { arms, .. } => {
                let (choice, next) = read_choice(choices, pos);
                let out = if choice < arms.len() {
                    proof {
                        let arm = self@->Match_arms[choice as int];
                        assert(arm == arm_view(arms[choice as int]));
                        assert(run_arm(arm, choices@, next as int) == run_expr(
                            arm.body,
                            choices@,
                            next as int,
                        ));
                    }
                    arms[choice].body.run(choices, next)
                } else {
                    Outcome { exit: Exit::Normal, flag: false, pos: next }
                };
                out
            },
            Expr::Loop { label, body, .. } => run_rounds(label, body, choices, pos),
            Expr::Other { .. } => Outcome { exit: Exit::Normal, flag: false, pos },
        }
    }
}

impl Block {
    /// Runs the block's statements from the choice at `pos`.
    pub fn run(&self, choices: &Vec<usize>, pos: usize) -> (out: Outcome)
        ensures
            out@ == run_stmts(self@.stmts, choices@, pos as int),
        decreases self, 0int,
    {
        let ghost all = self@.stmts;
        let n = self.stmts.len();
        let mut i: usize = 0;
        let mut at: usize = pos;
        let mut flag = false;
        assert(all.subrange(0, n as int) =~= all);
        while i < n
            invariant
                i <= n,
                n == self.stmts.len(),
                all == self@.stmts,
                ({
                    let rest = run_stmts(all.subrange(i as int, n as int), choices@, at as int);
                    run_stmts(all, choices@, pos as int) == (OutcomeView {
                        flag: flag || rest.flag,
                        ..rest
                    })
                }),
            decreases n - i,
        {
            let ghost tail = all.subrange(i as int, n as int);
            assert(tail[0] == stmt_view(self.stmts[i as int]));
            assert(tail.subrange(1, tail.len() as int) =~= all.subrange(i + 1, n as int));
            let step = match &self.stmts[i] {
                Stmt::Expr { expr, .. } => expr.run(choices, at),
                Stmt::Other { .. } => Outcome { exit: Exit::Normal, flag: false, pos: at },
            };
            assert(step@ == run_stmt(tail[0], choices@, at as int));
            if !step.exit.is_normal() {
                return Outcome { exit: step.exit, flag: flag || step.flag, pos: step.pos };
            }
            flag = flag || step.flag;
            at = step.pos;
            i += 1;
        }
        assert(all.subrange(n as int, n as int) =~= Seq::<StmtView>::empty());
        assert(all.subrange(0, n as int) =~= all);
        Outcome { exit: Exit::Normal, flag, pos: at }
    }
}

} // verus!
