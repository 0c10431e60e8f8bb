//! Lexical tokens as the boundary resolver sees them.
//!
//! A token is one token tree: a delimited group counts as a single token,
//! whatever it holds. Each token carries its source text.

use vstd::prelude::*;
use vstd::string::StringExecFns;

verus! {

/// The brackets around a group.
#[derive(Clone, Copy, Debug, PartialEq, Eq)]
pub enum Delimiter {
    Parenthesis,
    Brace,
    Bracket,
    /// A group without written brackets.
    Invisible,
}

/// What sort of token tree a token is.
#[derive(Clone, Copy, Debug, PartialEq, Eq)]
pub enum TokenKind {
    Group(Delimiter),
    Ident,
    /// A punctuation character; `joint` when the next token follows it
    /// without a gap, as the first `.` of `..` or the `'` of a lifetime.
    Punct { joint: bool },
    Literal,
}

/// One token tree with its source text. The text of a group includes its
/// brackets.
#[derive(Clone, Debug, PartialEq, Eq)]
pub struct Token {
    pub kind: TokenKind,
    pub text: String,
}

/// The mathematical picture of a [`Token`].
pub ghost struct TokenView {
    pub kind: TokenKind,
    pub text: Seq<char>,
}

impl View for Token {
    type V = TokenView;

    open spec fn view(&self) -> TokenView {
        TokenView { kind: self.kind, text: self.text@ }
    }
}

impl TokenView {
    /// A group in curly brackets.
    pub open spec fn is_brace(self) -> bool {
        self.kind == TokenKind::Group(Delimiter::Brace)
    }

    /// The identifier or keyword `word`.
    pub open spec fn is_word(self, word: Seq<char>) -> bool {
        self.kind == TokenKind::Ident && self.text == word
    }

    /// Any identifier or keyword.
    pub open spec fn is_ident(self) -> bool {
        self.kind == TokenKind::Ident
    }

    /// The punctuation character written `mark`, joint or not.
    pub open spec fn is_punct(self, mark: Seq<char>) -> bool {
        self.kind is Punct && self.text == mark
    }

    /// The punctuation character written `mark`, with the next token
    /// following it without a gap.
    pub open spec fn is_joint_punct(self, mark: Seq<char>) -> bool {
        self.kind == (TokenKind::Punct { joint: true }) && self.text == mark
    }

    /// What separates this token from the next in source text: nothing after
    /// a joint punctuation character, one space otherwise.
    pub open spec fn gap(self) -> Seq<char> {
        if self.kind == (TokenKind::Punct { joint: true }) {
            Seq::empty()
        } else {
            " "@
        }
    }
}

/// The view of an optional text.
pub open spec fn text_view(text: Option<String>) -> Option<Seq<char>> {
    match text {
        Some(t) => Some(t@),
        None => None,
    }
}

/// A copy of an optional text.
pub fn copy_text(text: &Option<String>) -> (copy: Option<String>)
    ensures
        text_view(copy) == text_view(*text),
{
    match text {
        Some(t) => Some(t.clone()),
        None => None,
    }
}

/// The views of a run of tokens, in order.
pub open spec fn views(run: Seq<Token>) -> Seq<TokenView> {
    run.map_values(|t: Token| t@)
}

/// The source text of a run: the text of each token followed by its gap.
pub open spec fn source_text(run: Seq<TokenView>) -> Seq<char>
    decreases run.len(),
{
    if run.len() == 0 {
        Seq::empty()
    } else {
        source_text(run.drop_last()) + run.last().text + run.last().gap()
    }
}

impl Token {
    /// Whether the token is a group in curly brackets.
    pub fn is_brace(&self) -> (r: bool)
        ensures
            r == self@.is_brace(),
    {
        match self.kind {
            TokenKind::Group(Delimiter::Brace) => true,
            _ => false,
        }
    }

    /// Whether the token is the identifier or keyword `word`.
    pub fn is_word(&self, word: &str) -> (r: bool)
        ensures
            r == self@.is_word(word@),
    {
        match self.kind {
            TokenKind::Ident => {
                let w = String::from_str(word);
                self.text == w
            },
            _ => false,
        }
    }

    /// Whether the token is an identifier or keyword.
    pub fn is_ident(&self) -> (r: bool)
        ensures
            r == self@.is_ident(),
    {
        match self.kind {
            TokenKind::Ident => true,
            _ => false,
        }
    }

    /// Whether the token is the punctuation character written `mark`.
    pub fn is_punct(&self, mark: &str) -> (r: bool)
        ensures
            r == self@.is_punct(mark@),
    {
        match self.kind {
            TokenKind::Punct { .. } => {
                let m = String::from_str(mark);
                self.text == m
            },
            _ => false,
        }
    }

    /// Whether the token is the punctuation character written `mark` with
    /// the next token directly behind it.
    pub fn is_joint_punct(&self, mark: &str) -> (r: bool)
        ensures
            r == self@.is_joint_punct(mark@),
    {
        match self.kind {
            TokenKind::Punct { joint: true } => {
                let m = String::from_str(mark);
                self.text == m
            },
            _ => false,
        }
    }
}

/// Writes out the source text of `run[from..to]`.
pub fn render(run: &Vec<Token>, from: usize, to: usize) -> (text: String)
    requires
        from <= to <= run.len(),
    ensures
        text@ == source_text(views(run@).subrange(from as int, to as int)),
{
    let mut text = String::new();
    let mut i: usize = from;
    let ghost all = views(run@);
    assert(all.subrange(from as int, from as int) =~= Seq::<TokenView>::empty());
    while i < to
        invariant
            from <= i <= to <= run.len(),
            all == views(run@),
            text@ == source_text(all.subrange(from as int, i as int)),
        decreases to - i,
    {
        let token = &run[i];
        proof {
            let next = all.subrange(from as int, i + 1);
            assert(next.drop_last() =~= all.subrange(from as int, i as int));
            assert(next.last() == token@);
        }
        text.append(token.text.as_str());
        match token.kind {
            TokenKind::Punct { joint: true } => {},
            _ => {
                text.append(" ");
            },
        }
        assert(text@ =~= source_text(all.subrange(from as int, i + 1)));
        i += 1;
    }
    text
}

} // verus!
