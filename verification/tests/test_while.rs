use for_else::expand::{while_, Expansion, Finish};
use for_else::header::WhileLoop;
use for_else::token::{Delimiter, Token, TokenKind};
use for_else::tree::{Arm, Block, Break, Expr, LoopHead, Stmt};
use quote::ToTokens;
use std::str::FromStr;

fn lex(source: &str) -> Vec<Token> {
    let stream = proc_macro2::TokenStream::from_str(source).unwrap();
    stream
        .into_iter()
        .map(|tree| match tree {
            proc_macro2::TokenTree::Group(group) => Token {
                kind: TokenKind::Group(match group.delimiter() {
                    proc_macro2::Delimiter::Parenthesis => Delimiter::Parenthesis,
                    proc_macro2::Delimiter::Brace => Delimiter::Brace,
                    proc_macro2::Delimiter::Bracket => Delimiter::Bracket,
                    proc_macro2::Delimiter::None => Delimiter::Invisible,
                }),
                text: group.to_string(),
            },
            proc_macro2::TokenTree::Ident(ident) => Token {
                kind: TokenKind::Ident,
                text: ident.to_string(),
            },
            proc_macro2::TokenTree::Punct(punct) => Token {
                kind: TokenKind::Punct {
                    joint: punct.spacing() == proc_macro2::Spacing::Joint,
                },
                text: punct.as_char().to_string(),
            },
            proc_macro2::TokenTree::Literal(literal) => Token {
                kind: TokenKind::Literal,
                text: literal.to_string(),
            },
        })
        .collect()
}

fn text<T: ToTokens>(node: &T) -> String {
    node.to_token_stream().to_string()
}

fn name(label: &Option<syn::Label>) -> Option<String> {
    label.as_ref().map(|l| l.name.ident.to_string())
}

fn block(parsed: &syn::Block) -> Block {
    Block {
        stmts: parsed.stmts.iter().map(stmt).collect(),
    }
}

fn stmt(parsed: &syn::Stmt) -> Stmt {
    match parsed {
        syn::Stmt::Expr(e, semi) => Stmt::Expr {
            expr: expr(e),
            semi: semi.is_some(),
        },
        other => Stmt::Other { text: text(other) },
    }
}

fn expr(parsed: &syn::Expr) -> Expr {
    match parsed {
        syn::Expr::Break(b) if b.attrs.is_empty() => Expr::Break(Break {
            label: b.label.as_ref().map(|l| l.ident.to_string()),
            value: b.expr.as_ref().map(|v| text(v)),
        }),
        syn::Expr::Block(b) if b.attrs.is_empty() => Expr::Block {
            label: name(&b.label),
            block: block(&b.block),
        },
        syn::Expr::Unsafe(u) if u.attrs.is_empty() => Expr::Unsafe {
            block: block(&u.block),
        },
        syn::Expr::If(i) if i.attrs.is_empty() => Expr::If {
            cond: text(&i.cond),
            then_branch: block(&i.then_branch),
            else_branch: i.else_branch.as_ref().map(|(_, e)| Box::new(expr(e))),
        },
        syn::Expr::Match(m) if m.attrs.is_empty() => Expr::Match {
            scrutinee: text(&m.expr),
            arms: m
                .arms
                .iter()
                .map(|arm| Arm {
                    pattern: match &arm.guard {
                        Some((_, guard)) => format!("{} if {}", text(&arm.pat), text(guard)),
                        None => text(&arm.pat),
                    },
                    body: expr(&arm.body),
                })
                .collect(),
        },
        syn::Expr::ForLoop(l) if l.attrs.is_empty() => Expr::Loop {
            label: name(&l.label),
            head: LoopHead::For {
                pat: text(&l.pat),
                iter: text(&l.expr),
            },
            body: block(&l.body),
        },
        syn::Expr::While(l) if l.attrs.is_empty() => Expr::Loop {
            label: name(&l.label),
            head: LoopHead::While { cond: text(&l.cond) },
            body: block(&l.body),
        },
        syn::Expr::Loop(l) if l.attrs.is_empty() => Expr::Loop {
            label: name(&l.label),
            head: LoopHead::Loop,
            body: block(&l.body),
        },
        other => Expr::Other { text: text(other) },
    }
}

fn parse_block(token: &Token) -> Option<Block> {
    syn::parse_str::<syn::Block>(&token.text)
        .ok()
        .map(|parsed| block(&parsed))
}

fn expand(source: &str) -> Expansion {
    let header = WhileLoop::parse(lex(source)).unwrap();
    let body = parse_block(&header.body);
    let else_block = parse_block(&header.else_block);
    while_(header, body, else_block).unwrap()
}

// One choice stands at the head of each round of a loop and one at each
// `if`; see the library's account of a run. Each test walks its loop as the
// source reads and writes down what every condition comes to.

#[test]
fn test_while() {
    let mut was_in_else_branch = false;
    let expansion = expand(
        "x < 10 {
            if x == 5 {
                break;
            }
            x += 1;
        } else {
            was_in_else_branch = true;
        }",
    );
    let mut choices = Vec::new();
    let mut x = 0;
    loop {
        choices.push((x < 10) as usize);
        if !(x < 10) {
            break;
        }
        choices.push((x == 5) as usize);
        if x == 5 {
            break;
        }
        x += 1;
    }
    if expansion.finish(&choices) == Finish::Completed {
        was_in_else_branch = true;
    }

    assert!(!was_in_else_branch);
}

#[test]
fn test_while_else() {
    let mut was_in_else_branch = false;
    let expansion = expand(
        "x < 10 {
            if x < 0 {
                break;
            }
            x += 1;
        } else {
            was_in_else_branch = true;
        }",
    );
    let mut choices = Vec::new();
    let mut x = 0;
    loop {
        choices.push((x < 10) as usize);
        if !(x < 10) {
            break;
        }
        choices.push((x < 0) as usize);
        if x < 0 {
            break;
        }
        x += 1;
    }
    if expansion.finish(&choices) == Finish::Completed {
        was_in_else_branch = true;
    }

    assert!(was_in_else_branch);
}

#[test]
fn test_while_var_in_last_position() {
    let mut was_in_else_branch = false;
    let limit = 10;
    let expansion = expand(
        "x < limit {
            if x == 5 {
                break;
            }
            x += 1;
        } else {
            was_in_else_branch = true;
        }",
    );
    let mut choices = Vec::new();
    let mut x = 0;
    loop {
        choices.push((x < limit) as usize);
        if !(x < limit) {
            break;
        }
        choices.push((x == 5) as usize);
        if x == 5 {
            break;
        }
        x += 1;
    }
    if expansion.finish(&choices) == Finish::Completed {
        was_in_else_branch = true;
    }

    assert!(!was_in_else_branch);
}

#[test]
fn test_while_var_in_last_position_else() {
    let mut was_in_else_branch = false;
    let limit = 10;
    let expansion = expand(
        "x < limit {
            if x < 0 {
                break;
            }
            x += 1;
        } else {
            was_in_else_branch = true;
        }",
    );
    let mut choices = Vec::new();
    let mut x = 0;
    loop {
        choices.push((x < limit) as usize);
        if !(x < limit) {
            break;
        }
        choices.push((x < 0) as usize);
        if x < 0 {
            break;
        }
        x += 1;
    }
    if expansion.finish(&choices) == Finish::Completed {
        was_in_else_branch = true;
    }

    assert!(was_in_else_branch);
}

struct S {}

impl S {
    fn cond(self, x: i32) -> bool {
        x < 10
    }
}

#[test]
fn test_while_inline_struct() {
    let mut was_in_else_branch = false;
    let expansion = expand(
        "(S {}).cond(x) {
            if x == 5 {
                break;
            }
            x += 1;
        } else {
            was_in_else_branch = true;
        }",
    );
    let mut choices = Vec::new();
    let mut x = 0;
    loop {
        let cond = (S {}).cond(x);
        choices.push(cond as usize);
        if !cond {
            break;
        }
        choices.push((x == 5) as usize);
        if x == 5 {
            break;
        }
        x += 1;
    }
    if expansion.finish(&choices) == Finish::Completed {
        was_in_else_branch = true;
    }

    assert!(!was_in_else_branch);
}

#[test]
fn test_while_inline_struct_else() {
    let mut was_in_else_branch = false;
    let expansion = expand(
        "(S {}).cond(x) {
            if x < 0 {
                break;
            }
            x += 1;
        } else {
            was_in_else_branch = true;
        }",
    );
    let mut choices = Vec::new();
    let mut x = 0;
    loop {
        let cond = (S {}).cond(x);
        choices.push(cond as usize);
        if !cond {
            break;
        }
        choices.push((x < 0) as usize);
        if x < 0 {
            break;
        }
        x += 1;
    }
    if expansion.finish(&choices) == Finish::Completed {
        was_in_else_branch = true;
    }

    assert!(was_in_else_branch);
}

#[test]
fn test_while_block_expr() {
    let mut was_in_else_branch = false;
    let expansion = expand(
        "{ let s = S {}; s.cond(x) } {
            if x == 5 {
                break;
            }
            x += 1;
        } else {
            was_in_else_branch = true;
        }",
    );
    assert_eq!(
        expansion.head,
        LoopHead::While {
            cond: "{ let s = S { } ; s . cond (x) } ".to_string(),
        }
    );
    let mut choices = Vec::new();
    let mut x = 0;
    loop {
        let cond = {
            let s = S {};
            s.cond(x)
        };
        choices.push(cond as usize);
        if !cond {
            break;
        }
        choices.push((x == 5) as usize);
        if x == 5 {
            break;
        }
        x += 1;
    }
    if expansion.finish(&choices) == Finish::Completed {
        was_in_else_branch = true;
    }

    assert!(!was_in_else_branch);
}

#[test]
fn test_while_block_expr_else() {
    let mut was_in_else_branch = false;
    let expansion = expand(
        "{ let s = S {}; s.cond(x) } {
            if x < 0 {
                break;
            }
            x += 1;
        } else {
            was_in_else_branch = true;
        }",
    );
    let mut choices = Vec::new();
    let mut x = 0;
    loop {
        let cond = {
            let s = S {};
            s.cond(x)
        };
        choices.push(cond as usize);
        if !cond {
            break;
        }
        choices.push((x < 0) as usize);
        if x < 0 {
            break;
        }
        x += 1;
    }
    if expansion.finish(&choices) == Finish::Completed {
        was_in_else_branch = true;
    }

    assert!(was_in_else_branch);
}

#[test]
fn test_while_with_label_with_loop_inside() {
    let mut was_in_else_branch = false;
    let limit = 10;
    let expansion = expand(
        "'outer: x < limit {
            loop {
                if x == 5 {
                    break 'outer;
                }
                x += 1;
            }
        } else {
            was_in_else_branch = true;
        }",
    );
    assert_eq!(expansion.label, Some("outer".to_string()));
    let mut choices = Vec::new();
    let mut x = 0;
    'outer: loop {
        choices.push((x < limit) as usize);
        if !(x < limit) {
            break;
        }
        loop {
            choices.push(1);
            choices.push((x == 5) as usize);
            if x == 5 {
                break 'outer;
            }
            x += 1;
        }
    }
    if expansion.finish(&choices) == Finish::Completed {
        was_in_else_branch = true;
    }

    assert!(!was_in_else_branch);
}

#[test]
fn test_while_with_label_with_loop_inside_else() {
    let mut was_in_else_branch = false;
    let limit = 10;
    let expansion = expand(
        "'outer: x < limit {
            loop {
                x += 1;
                if x > 5 {
                    break;
                }
            }
        } else {
            was_in_else_branch = true;
        }",
    );
    let mut choices = Vec::new();
    let mut x = 0;
    loop {
        choices.push((x < limit) as usize);
        if !(x < limit) {
            break;
        }
        loop {
            choices.push(1);
            x += 1;
            choices.push((x > 5) as usize);
            if x > 5 {
                break;
            }
        }
    }
    if expansion.finish(&choices) == Finish::Completed {
        was_in_else_branch = true;
    }

    assert!(was_in_else_branch);
}
