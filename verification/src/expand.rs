//! From a header and its parsed blocks to the expansion.
//!
//! The expansion stands for this code, whatever syntax it is written in:
//!
//! ```text
//! flag := false
//! <label>? loop(head) { <rewritten body> }
//! if not flag { <else block> }
//! ```

use vstd::prelude::*;
use crate::header::{Error, ForLoop, WhileLoop};
use crate::rewrite::{modify_breaks_in_block, rewritten_block};
use crate::semantics::{
    behind, choice_at, run_loop, run_rounds, run_stmts, stops_at_loop, Exit, ExitView, OutcomeView,
};
use crate::token::{render, source_text, text_view, views};
use crate::tree::{Block, BlockView, LoopHead, LoopHeadView};

verus! {

/// A loop-else construct after rewriting: a native loop over the rewritten
/// body, and the block to run when the completion flag is still unset
/// behind the loop.
#[derive(Debug, PartialEq, Eq)]
pub struct Expansion {
    /// The label's name, without its apostrophe.
    pub label: Option<String>,
    pub head: LoopHead,
    pub body: Block,
    pub else_block: Block,
}

/// The mathematical picture of an [`Expansion`].
pub ghost struct ExpansionView {
    pub label: Option<Seq<char>>,
    pub head: LoopHeadView,
    pub body: BlockView,
    pub else_block: BlockView,
}

impl View for Expansion {
    type V = ExpansionView;

    open spec fn view(&self) -> ExpansionView {
        ExpansionView {
            label: text_view(self.label),
            head: self.head@,
            body: self.body@,
            else_block: self.else_block@,
        }
    }
}

/// How a construct ended.
#[derive(Clone, Debug, PartialEq, Eq)]
pub enum Finish {
    /// The loop ran out; the `else` block runs.
    Completed,
    /// A break of the construct ended the loop; the `else` block is skipped.
    Broken,
    /// A break that names another label went through the construct; control
    /// is with the code around it.
    Escaped { label: Option<String> },
}

/// The mathematical picture of a [`Finish`].
pub ghost enum FinishView {
    Completed,
    Broken,
    Escaped { label: Option<Seq<char>> },
}

impl View for Finish {
    type V = FinishView;

    open spec fn view(&self) -> FinishView {
        match *self {
            Finish::Completed => FinishView::Completed,
            Finish::Broken => FinishView::Broken,
            Finish::Escaped { label } => FinishView::Escaped { label: text_view(label) },
        }
    }
}

/// The view of an optional block.
pub open spec fn parsed_view(block: Option<Block>) -> Option<BlockView> {
    match block {
        Some(b) => Some(b@),
        None => None,
    }
}

/// The expansion of a construct with the given label and head. `body` and
/// `else_block` are what the parser made of the two blocks, `None` where it
/// could make nothing of one.
pub open spec fn expansion_of(
    label: Option<Seq<char>>,
    head: LoopHeadView,
    body: Option<BlockView>,
    else_block: Option<BlockView>,
) -> Result<ExpansionView, Error> {
    match (body, else_block) {
        (None, _) => Err(Error::InvalidBody),
        (Some(_), None) => Err(Error::InvalidElseBlock),
        (Some(b), Some(e)) => Ok(
            ExpansionView { label, head, body: rewritten_block(b, true, label), else_block: e },
        ),
    }
}

/// How the expansion ends behind a run of its native loop: the `else`
/// block runs when the loop was not left and the flag was never set.
pub open spec fn ending(ran: OutcomeView) -> FinishView {
    match ran.exit {
        ExitView::Break { label } => FinishView::Escaped { label },
        ExitView::Normal => if ran.flag {
            FinishView::Broken
        } else {
            FinishView::Completed
        },
    }
}

/// How the expansion ends on the given choices.
pub open spec fn finish_of(expansion: ExpansionView, choices: Seq<usize>) -> FinishView {
    ending(run_loop(expansion.label, expansion.body, choices, 0))
}

/// How a loop-else construct over `body` ends on the choices from `pos` on,
/// by the meaning of the construct itself: it is completed when the loop
/// runs out, broken when a break that stops at the loop fires, and left
/// when any other break fires.
/// The rounds and the test on the positions are those of `run_loop`.
pub open spec fn loop_else(
    label: Option<Seq<char>>,
    body: BlockView,
    choices: Seq<usize>,
    pos: int,
) -> FinishView
    decreases choices.len() - pos,
{
    if choice_at(choices, pos) == 0 {
        FinishView::Completed
    } else {
        let round = run_stmts(body.stmts, choices, pos + 1);
        match round.exit {
            ExitView::Break { label: target } => if stops_at_loop(label, target) {
                FinishView::Broken
            } else {
                FinishView::Escaped { label: target }
            },
            ExitView::Normal => if pos < round.pos <= choices.len() {
                loop_else(label, body, choices, round.pos)
            } else {
                FinishView::Completed
            },
        }
    }
}

/// Puts a construct together and rewrites its body.
fn expand(label: Option<String>, head: LoopHead, body: Option<Block>, else_block: Option<Block>) -> (expanded:
    Result<Expansion, Error>)
    ensures
        match expanded {
            Ok(expansion) => expansion_of(
                text_view(label),
                head@,
                parsed_view(body),
                parsed_view(else_block),
            ) == Ok::<ExpansionView, Error>(expansion@),
            Err(e) => expansion_of(
                text_view(label),
                head@,
                parsed_view(body),
                parsed_view(else_block),
            ) == Err::<ExpansionView, Error>(e),
        },
{
    let mut body = match body {
        Some(b) => b,
        None => {
            return Err(Error::InvalidBody);
        },
    };
    let else_block = match else_block {
        Some(e) => e,
        None => {
            return Err(Error::InvalidElseBlock);
        },
    };
    modify_breaks_in_block(&mut body, true, label.as_ref());
    Ok(Expansion { label, head, body, else_block })
}

/// Expands a for-else construct. `body` and `else_block` are what the
/// parser made of the header's two blocks, `None` where it could make
/// nothing of one. Every break of the body that leaves the construct gets
/// the flag assignment in front of it.
pub fn for_(input: ForLoop, body: Option<Block>, else_block: Option<Block>) -> (expanded: Result<
    Expansion,
    Error,
>)
    ensures
        ({
            let head = LoopHeadView::For {
                pat: source_text(input@.var),
                iter: source_text(input@.expr),
            };
            let expected = expansion_of(
                input@.label,
                head,
                parsed_view(body),
                parsed_view(else_block),
            );
            match expanded {
                Ok(expansion) => expected == Ok::<ExpansionView, Error>(expansion@),
                Err(e) => expected == Err::<ExpansionView, Error>(e),
            }
        }),
{
    let pat = render(&input.var, 0, input.var.len());
    let iter = render(&input.expr, 0, input.expr.len());
    proof {
        assert(views(input.var@).subrange(0, input.var.len() as int) =~= views(input.var@));
        assert(views(input.expr@).subrange(0, input.expr.len() as int) =~= views(input.expr@));
    }
    expand(input.label, LoopHead::For { pat, iter }, body, else_block)
}

/// Expands a while-else construct. `body` and `else_block` are what the
/// parser made of the header's two blocks, `None` where it could make
/// nothing of one. Every break of the body that leaves the construct gets
/// the flag assignment in front of it.
pub fn while_(input: WhileLoop, body: Option<Block>, else_block: Option<Block>) -> (expanded:
    Result<Expansion, Error>)
    ensures
        ({
            let head = LoopHeadView::While { cond: source_text(input@.cond) };
            let expected = expansion_of(
                input@.label,
                head,
                parsed_view(body),
                parsed_view(else_block),
            );
            match expanded {
                Ok(expansion) => expected == Ok::<ExpansionView, Error>(expansion@),
                Err(e) => expected == Err::<ExpansionView, Error>(e),
            }
        }),
{
    let cond = render(&input.cond, 0, input.cond.len());
    proof {
        assert(views(input.cond@).subrange(0, input.cond.len() as int) =~= views(input.cond@));
    }
    expand(input.label, LoopHead::While { cond }, body, else_block)
}

impl Expansion {
    /// Runs the expansion on `choices` and says how it ends.
    pub fn finish(&self, choices: &Vec<usize>) -> (end: Finish)
        ensures
            end@ == finish_of(self@, choices@),
    {
        let ran = run_rounds(&self.label, &self.body, choices, 0);
        match ran.exit {
            Exit::Break { label } => Finish::Escaped { label },
            Exit::Normal => if ran.flag {
                Finish::Broken
            } else {
                Finish::Completed
            },
        }
    }
}

} // verus!
