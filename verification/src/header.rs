//! The surface grammar of the two constructs:
//!
//! ```text
//! for-else   := [ label ':' ] pattern 'in' expression block 'else' block
//! while-else := [ label ':' ] expression block 'else' block
//! ```
//!
//! A header is read off a run of tokens. Where the driver expression ends is
//! the boundary resolver's question; whether the binding is a pattern and the
//! driver an expression is the parser's.

use vstd::prelude::*;
use crate::resolver::{
    block_marks, boundary, lemma_split_is_leftmost, locate, mark_blocks, splits_at, Boundary,
};
use crate::syntax::{expression_syntax, parses_as_expression, parses_as_pattern, pattern_syntax};
use crate::token::{render, source_text, text_view, views, Token, TokenView};

verus! {

/// Why a header was turned down.
#[derive(Clone, Copy, Debug, PartialEq, Eq)]
pub enum Reason {
    /// Nothing stands between `in` and the body block.
    ExpectedExpressionAfterIn,
    /// Nothing stands in front of the body block.
    ExpectedConditionExpression,
    /// Anything else: no binding or no `in`, no `{ body } else { block }`
    /// pair, a driver that is no expression, tokens behind the pair.
    Malformed,
}

/// What can go wrong between a run of tokens and a loop-else construct.
#[derive(Clone, Copy, Debug, PartialEq, Eq)]
pub enum Error {
    /// The header does not have the shape of the surface grammar. `at` is
    /// the index of the token at which the part that failed begins.
    MalformedLoopHeader { reason: Reason, at: usize },
    /// The body, once cut out, is no well-formed block.
    InvalidBody,
    /// The `else` block, once cut out, is no well-formed block.
    InvalidElseBlock,
}

/// A for-else header, cut into its parts.
#[derive(Clone, Debug, PartialEq, Eq)]
pub struct ForLoop {
    /// The tokens of the binding pattern.
    pub var: Vec<Token>,
    /// The tokens of the driver expression.
    pub expr: Vec<Token>,
    /// The body, a group in curly brackets.
    pub body: Token,
    /// The block behind `else`, a group in curly brackets.
    pub else_block: Token,
    /// The label's name, without its apostrophe.
    pub label: Option<String>,
}

/// A while-else header, cut into its parts.
#[derive(Clone, Debug, PartialEq, Eq)]
pub struct WhileLoop {
    /// The tokens of the condition.
    pub cond: Vec<Token>,
    /// The body, a group in curly brackets.
    pub body: Token,
    /// The block behind `else`, a group in curly brackets.
    pub else_block: Token,
    /// The label's name, without its apostrophe.
    pub label: Option<String>,
}

/// The mathematical picture of a [`ForLoop`].
pub ghost struct ForLoopView {
    pub var: Seq<TokenView>,
    pub expr: Seq<TokenView>,
    pub body: TokenView,
    pub else_block: TokenView,
    pub label: Option<Seq<char>>,
}

/// The mathematical picture of a [`WhileLoop`].
pub ghost struct WhileLoopView {
    pub cond: Seq<TokenView>,
    pub body: TokenView,
    pub else_block: TokenView,
    pub label: Option<Seq<char>>,
}

impl View for ForLoop {
    type V = ForLoopView;

    open spec fn view(&self) -> ForLoopView {
        ForLoopView {
            var: views(self.var@),
            expr: views(self.expr@),
            body: self.body@,
            else_block: self.else_block@,
            label: text_view(self.label),
        }
    }
}

impl View for WhileLoop {
    type V = WhileLoopView;

    open spec fn view(&self) -> WhileLoopView {
        WhileLoopView {
            cond: views(self.cond@),
            body: self.body@,
            else_block: self.else_block@,
            label: text_view(self.label),
        }
    }
}

/// Whether `run` opens with a label: an apostrophe joined to a name, then a
/// colon.
pub open spec fn has_label(run: Seq<TokenView>) -> bool {
    &&& run.len() >= 3
    &&& run[0].is_joint_punct("'"@)
    &&& run[1].is_ident()
    &&& run[2].is_punct(":"@)
}

/// The label that `run` opens with, if any.
pub open spec fn label_of(run: Seq<TokenView>) -> Option<Seq<char>> {
    if has_label(run) {
        Some(run[1].text)
    } else {
        None
    }
}

/// The index of the first token behind the label.
pub open spec fn header_start(run: Seq<TokenView>) -> int {
    if has_label(run) {
        3
    } else {
        0
    }
}

/// The index of the first token at or after `from` that is the word `word`.
pub open spec fn first_word(run: Seq<TokenView>, word: Seq<char>, from: int) -> Option<int>
    decreases run.len() - from,
{
    if from < 0 || from >= run.len() {
        None
    } else if run[from].is_word(word) {
        Some(from)
    } else {
        first_word(run, word, from + 1)
    }
}

/// What `first_word` reports is the word, and nothing before it is.
pub proof fn lemma_first_word(run: Seq<TokenView>, word: Seq<char>, from: int)
    requires
        0 <= from,
    ensures
        match first_word(run, word, from) {
            Some(k) => {
                &&& from <= k < run.len()
                &&& run[k].is_word(word)
                &&& forall|j: int| from <= j < k ==> !run[j].is_word(word)
            },
            None => forall|j: int| from <= j < run.len() ==> !run[j].is_word(word),
        },
    decreases run.len() - from,
{
    if from < run.len() && !run[from].is_word(word) {
        lemma_first_word(run, word, from + 1);
    }
}

/// The tokens of a for-else header's binding: what lies between the label
/// and the first `in`. Empty where there is no `in`.
pub open spec fn binding_of(run: Seq<TokenView>) -> Seq<TokenView> {
    match first_word(run, "in"@, header_start(run)) {
        Some(k) => run.subrange(header_start(run), k),
        None => Seq::empty(),
    }
}

/// The index at which the scan for a for-else header's driver begins: behind
/// the first `in`, or the run's end where there is none.
pub open spec fn for_scan_start(run: Seq<TokenView>) -> int {
    match first_word(run, "in"@, header_start(run)) {
        Some(k) => k + 1,
        None => run.len() as int,
    }
}

/// The tokens of the driver that a scan from `from` cuts off. Empty where
/// the scan finds no boundary.
pub open spec fn driver_of(run: Seq<TokenView>, sound: Seq<bool>, from: int) -> Seq<TokenView> {
    match boundary(run, sound, from) {
        Boundary::At(split) => run.subrange(from, split as int),
        _ => Seq::empty(),
    }
}

/// The index of the body block behind a driver that starts at `from`, or the
/// reason why there is none. `driver_ok` says whether the driver's tokens
/// are an expression; `empty` is the reason to give for an empty driver.
pub open spec fn split_of(
    run: Seq<TokenView>,
    sound: Seq<bool>,
    from: int,
    driver_ok: bool,
    empty: Reason,
) -> Result<int, Error> {
    match boundary(run, sound, from) {
        Boundary::EmptyDriver => Err(Error::MalformedLoopHeader { reason: empty, at: from as usize }),
        Boundary::Missing => Err(
            Error::MalformedLoopHeader { reason: Reason::Malformed, at: from as usize },
        ),
        Boundary::At(split) => if !driver_ok {
            Err(Error::MalformedLoopHeader { reason: Reason::Malformed, at: from as usize })
        } else if split + 3 != run.len() {
            Err(Error::MalformedLoopHeader { reason: Reason::Malformed, at: (split + 3) as usize })
        } else {
            Ok(split as int)
        },
    }
}

/// What a for-else header reads as. `sound` marks the tokens that are
/// well-formed blocks; `binding_ok` says whether the tokens of `binding_of`
/// are a pattern, `driver_ok` whether those of `driver_of` are an expression.
pub open spec fn for_header(
    run: Seq<TokenView>,
    sound: Seq<bool>,
    binding_ok: bool,
    driver_ok: bool,
) -> Result<ForLoopView, Error> {
    let start = header_start(run);
    match first_word(run, "in"@, start) {
        None => Err(Error::MalformedLoopHeader { reason: Reason::Malformed, at: start as usize }),
        Some(k) => if k == start || !binding_ok {
            Err(Error::MalformedLoopHeader { reason: Reason::Malformed, at: start as usize })
        } else {
            match split_of(run, sound, k + 1, driver_ok, Reason::ExpectedExpressionAfterIn) {
                Err(e) => Err(e),
                Ok(split) => Ok(
                    ForLoopView {
                        var: run.subrange(start, k),
                        expr: run.subrange(k + 1, split),
                        body: run[split],
                        else_block: run[split + 2],
                        label: label_of(run),
                    },
                ),
            }
        },
    }
}

/// What a while-else header reads as. `sound` marks the tokens that are
/// well-formed blocks; `driver_ok` says whether the tokens of `driver_of`
/// are an expression.
pub open spec fn while_header(run: Seq<TokenView>, sound: Seq<bool>, driver_ok: bool) -> Result<
    WhileLoopView,
    Error,
> {
    let start = header_start(run);
    match split_of(run, sound, start, driver_ok, Reason::ExpectedConditionExpression) {
        Err(e) => Err(e),
        Ok(split) => Ok(
            WhileLoopView {
                cond: run.subrange(start, split),
                body: run[split],
                else_block: run[split + 2],
                label: label_of(run),
            },
        ),
    }
}

/// What a for-else header that reads well is made of: the label, a binding
/// that is not empty and holds no `in`, the word `in`, a driver that is not
/// empty, and the pair at the end of the run, with no earlier place in the
/// driver at which a pair begins.
pub proof fn lemma_for_header_covers_the_run(
    run: Seq<TokenView>,
    sound: Seq<bool>,
    binding_ok: bool,
    driver_ok: bool,
)
    requires
        for_header(run, sound, binding_ok, driver_ok) is Ok,
    ensures
        ({
            let header = for_header(run, sound, binding_ok, driver_ok)->Ok_0;
            let start = header_start(run);
            let k = start + header.var.len();
            let split = k + 1 + header.expr.len();
            &&& binding_ok
            &&& driver_ok
            &&& header.label == label_of(run)
            &&& header.var.len() > 0
            &&& header.var == run.subrange(start, k)
            &&& forall|j: int| start <= j < k ==> !run[j].is_word("in"@)
            &&& run[k].is_word("in"@)
            &&& header.expr.len() > 0
            &&& header.expr == run.subrange(k + 1, split)
            &&& forall|j: int| k + 1 <= j < split ==> !splits_at(run, sound, j)
            &&& splits_at(run, sound, split)
            &&& header.body == run[split]
            &&& header.else_block == run[split + 2]
            &&& run.len() == split + 3
        }),
{
    let start = header_start(run);
    lemma_first_word(run, "in"@, start);
    let k = first_word(run, "in"@, start)->0;
    lemma_split_is_leftmost(run, sound, k + 1);
}

/// What a while-else header that reads well is made of: the label, a
/// condition that is not empty, and the pair at the end of the run, with no
/// earlier place in the condition at which a pair begins.
pub proof fn lemma_while_header_covers_the_run(
    run: Seq<TokenView>,
    sound: Seq<bool>,
    driver_ok: bool,
)
    requires
        while_header(run, sound, driver_ok) is Ok,
    ensures
        ({
            let header = while_header(run, sound, driver_ok)->Ok_0;
            let start = header_start(run);
            let split = start + header.cond.len();
            &&& driver_ok
            &&& header.label == label_of(run)
            &&& header.cond.len() > 0
            &&& header.cond == run.subrange(start, split)
            &&& forall|j: int| start <= j < split ==> !splits_at(run, sound, j)
            &&& splits_at(run, sound, split)
            &&& header.body == run[split]
            &&& header.else_block == run[split + 2]
            &&& run.len() == split + 3
        }),
{
    lemma_split_is_leftmost(run, sound, header_start(run));
}

impl Reason {
    /// The reason in words.
    pub fn message(&self) -> (text: String)
        ensures
            text@ == match *self {
                Reason::ExpectedExpressionAfterIn => "expected expression after 'in'"@,
                Reason::ExpectedConditionExpression => "expected condition expression"@,
                Reason::Malformed => "expected `{ body } else { block }` after the loop header"@,
            },
    {
        match self {
            Reason::ExpectedExpressionAfterIn => "expected expression after 'in'".to_string(),
            Reason::ExpectedConditionExpression => "expected condition expression".to_string(),
            Reason::Malformed => "expected `{ body } else { block }` after the loop header".to_string(),
        }
    }
}

/// Whether `run` opens with a label.
pub fn starts_with_label(run: &Vec<Token>) -> (r: bool)
    ensures
        r == has_label(views(run@)),
{
    run.len() >= 3 && run[0].is_joint_punct("'") && run[1].is_ident() && run[2].is_punct(":")
}

/// The index of the first token at or after `from` that is the word `word`.
pub fn find_word(run: &Vec<Token>, word: &str, from: usize) -> (found: Option<usize>)
    ensures
        match found {
            Some(k) => first_word(views(run@), word@, from as int) == Some(k as int),
            None => first_word(views(run@), word@, from as int) is None,
        },
{
    let mut i: usize = from;
    while i < run.len()
        invariant
            from <= i,
            first_word(views(run@), word@, from as int) == first_word(views(run@), word@, i as int),
        decreases run.len() - i,
    {
        if run[i].is_word(word) {
            return Some(i);
        }
        i += 1;
    }
    None
}

/// The index of the body block behind a driver that starts at `from`, given
/// for each token whether it is a well-formed block and whether the driver's
/// tokens are an expression.
pub fn find_split(
    run: &Vec<Token>,
    sound: &Vec<bool>,
    from: usize,
    driver_ok: bool,
    empty: Reason,
) -> (found: Result<usize, Error>)
    requires
        sound.len() == run.len(),
        from <= run.len(),
    ensures
        match found {
            Ok(split) => split_of(views(run@), sound@, from as int, driver_ok, empty) == Ok::<
                int,
                Error,
            >(split as int),
            Err(e) => split_of(views(run@), sound@, from as int, driver_ok, empty) == Err::<
                int,
                Error,
            >(e),
        },
{
    proof {
        lemma_split_is_leftmost(views(run@), sound@, from as int);
    }
    match locate(run, sound, from) {
        Boundary::EmptyDriver => Err(Error::MalformedLoopHeader { reason: empty, at: from }),
        Boundary::Missing => Err(
            Error::MalformedLoopHeader { reason: Reason::Malformed, at: from },
        ),
        Boundary::At(split) => {
            if !driver_ok {
                Err(Error::MalformedLoopHeader { reason: Reason::Malformed, at: from })
            } else if run.len() - split != 3 {
                Err(Error::MalformedLoopHeader { reason: Reason::Malformed, at: split + 3 })
            } else {
                Ok(split)
            }
        },
    }
}

/// The range of `run` that holds a for-else header's binding.
fn binding_range(run: &Vec<Token>) -> (range: (usize, usize))
    ensures
        range.0 <= range.1 <= run.len(),
        views(run@).subrange(range.0 as int, range.1 as int) == binding_of(views(run@)),
{
    let start: usize = if starts_with_label(run) { 3 } else { 0 };
    proof {
        lemma_first_word(views(run@), "in"@, start as int);
    }
    match find_word(run, "in", start) {
        Some(k) => (start, k),
        None => {
            assert(views(run@).subrange(0, 0) =~= Seq::<TokenView>::empty());
            (0, 0)
        },
    }
}

/// The range of `run` that holds the driver which a scan from `from` cuts
/// off.
fn driver_range(run: &Vec<Token>, sound: &Vec<bool>, from: usize) -> (range: (usize, usize))
    requires
        sound.len() == run.len(),
    ensures
        range.0 <= range.1 <= run.len(),
        views(run@).subrange(range.0 as int, range.1 as int) == driver_of(
            views(run@),
            sound@,
            from as int,
        ),
{
    proof {
        lemma_split_is_leftmost(views(run@), sound@, from as int);
    }
    match locate(run, sound, from) {
        Boundary::At(split) => (from, split),
        _ => {
            assert(views(run@).subrange(0, 0) =~= Seq::<TokenView>::empty());
            (0, 0)
        },
    }
}

/// The label's name, where `run` opens with a label.
fn read_label(run: &Vec<Token>) -> (label: Option<String>)
    ensures
        text_view(label) == label_of(views(run@)),
{
    if starts_with_label(run) {
        Some(run[1].text.clone())
    } else {
        None
    }
}

impl ForLoop {
    /// Reads a for-else header off `input`, given what the parser says of
    /// its parts: `sound` marks the tokens that are well-formed blocks,
    /// `binding_ok` says whether the binding is a pattern, `driver_ok`
    /// whether the driver is an expression.
    pub fn parse_with(input: Vec<Token>, sound: &Vec<bool>, binding_ok: bool, driver_ok: bool) -> (parsed:
        Result<ForLoop, Error>)
        requires
            sound.len() == input.len(),
        ensures
            match parsed {
                Ok(header) => for_header(views(input@), sound@, binding_ok, driver_ok) == Ok::<
                    ForLoopView,
                    Error,
                >(header@),
                Err(e) => for_header(views(input@), sound@, binding_ok, driver_ok) == Err::<
                    ForLoopView,
                    Error,
                >(e),
            },
    {
        let ghost run = views(input@);
        let start: usize = if starts_with_label(&input) { 3 } else { 0 };
        proof {
            lemma_first_word(run, "in"@, start as int);
        }
        let k = match find_word(&input, "in", start) {
            Some(k) => k,
            None => {
                return Err(Error::MalformedLoopHeader { reason: Reason::Malformed, at: start });
            },
        };
        if k == start || !binding_ok {
            return Err(Error::MalformedLoopHeader { reason: Reason::Malformed, at: start });
        }
        let split = match find_split(
            &input,
            sound,
            k + 1,
            driver_ok,
            Reason::ExpectedExpressionAfterIn,
        ) {
            Ok(split) => split,
            Err(e) => {
                return Err(e);
            },
        };
        proof {
            lemma_split_is_leftmost(run, sound@, k + 1);
        }
        let label = read_label(&input);
        let mut rest = input;
        let else_block = rest.pop().unwrap();
        let _ = rest.pop();
        let body = rest.pop().unwrap();
        let expr = rest.split_off(k + 1);
        let _ = rest.pop();
        let var = rest.split_off(start);
        let header = ForLoop { var, expr, body, else_block, label };
        proof {
            assert(views(var@) =~= run.subrange(start as int, k as int));
            assert(views(expr@) =~= run.subrange(k + 1, split as int));
        }
        Ok(header)
    }

    /// Reads a for-else header off `input`: an optional label, the binding
    /// up to the first `in`, the driver up to the leftmost position from
    /// which a well-formed block, `else` and a second well-formed block
    /// follow, and that pair at the end of the run.
    pub fn parse(input: Vec<Token>) -> (parsed: Result<ForLoop, Error>)
        ensures
            ({
                let run = views(input@);
                let sound = block_marks(run);
                let binding_ok = pattern_syntax(source_text(binding_of(run)));
                let driver_ok = expression_syntax(
                    source_text(driver_of(run, sound, for_scan_start(run))),
                );
                match parsed {
                    Ok(header) => for_header(run, sound, binding_ok, driver_ok) == Ok::<
                        ForLoopView,
                        Error,
                    >(header@),
                    Err(e) => for_header(run, sound, binding_ok, driver_ok) == Err::<
                        ForLoopView,
                        Error,
                    >(e),
                }
            }),
    {
        let sound = mark_blocks(&input);
        let binding = binding_range(&input);
        let binding_ok = parses_as_pattern(render(&input, binding.0, binding.1).as_str());
        let start: usize = if starts_with_label(&input) { 3 } else { 0 };
        proof {
            lemma_first_word(views(input@), "in"@, start as int);
        }
        let from = match find_word(&input, "in", start) {
            Some(k) => k + 1,
            None => input.len(),
        };
        let driver = driver_range(&input, &sound, from);
        let driver_ok = parses_as_expression(render(&input, driver.0, driver.1).as_str());
        ForLoop::parse_with(input, &sound, binding_ok, driver_ok)
    }
}

impl WhileLoop {
    /// Reads a while-else header off `input`, given what the parser says of
    /// its parts: `sound` marks the tokens that are well-formed blocks,
    /// `driver_ok` says whether the condition is an expression.
    pub fn parse_with(input: Vec<Token>, sound: &Vec<bool>, driver_ok: bool) -> (parsed: Result<
        WhileLoop,
        Error,
    >)
        requires
            sound.len() == input.len(),
        ensures
            match parsed {
                Ok(header) => while_header(views(input@), sound@, driver_ok) == Ok::<
                    WhileLoopView,
                    Error,
                >(header@),
                Err(e) => while_header(views(input@), sound@, driver_ok) == Err::<
                    WhileLoopView,
                    Error,
                >(e),
            },
    {
        let ghost run = views(input@);
        let start: usize = if starts_with_label(&input) { 3 } else { 0 };
        let split = match find_split(
            &input,
            sound,
            start,
            driver_ok,
            Reason::ExpectedConditionExpression,
        ) {
            Ok(split) => split,
            Err(e) => {
                return Err(e);
            },
        };
        proof {
            lemma_split_is_leftmost(run, sound@, start as int);
        }
        let label = read_label(&input);
        let mut rest = input;
        let else_block = rest.pop().unwrap();
        let _ = rest.pop();
        let body = rest.pop().unwrap();
        let cond = rest.split_off(start);
        let header = WhileLoop { cond, body, else_block, label };
        proof {
            assert(views(cond@) =~= run.subrange(start as int, split as int));
        }
        Ok(header)
    }

    /// Reads a while-else header off `input`: an optional label, the
    /// condition up to the leftmost position from which a well-formed
    /// block, `else` and a second well-formed block follow, and that pair
    /// at the end of the run.
    pub fn parse(input: Vec<Token>) -> (parsed: Result<WhileLoop, Error>)
        ensures
            ({
                let run = views(input@);
                let sound = block_marks(run);
                let driver_ok = expression_syntax(
                    source_text(driver_of(run, sound, header_start(run))),
                );
                match parsed {
                    Ok(header) => while_header(run, sound, driver_ok) == Ok::<
                        WhileLoopView,
                        Error,
                    >(header@),
                    Err(e) => while_header(run, sound, driver_ok) == Err::<WhileLoopView, Error>(e),
                }
            }),
    {
        let sound = mark_blocks(&input);
        let start: usize = if starts_with_label(&input) { 3 } else { 0 };
        let driver = driver_range(&input, &sound, start);
        let driver_ok = parses_as_expression(render(&input, driver.0, driver.1).as_str());
        WhileLoop::parse_with(input, &sound, driver_ok)
    }
}

} // verus!
