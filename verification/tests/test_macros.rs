use for_else::expand::{for_, Expansion, Finish};
use for_else::header::ForLoop;
use for_else::token::{Delimiter, Token, TokenKind};
use for_else::tree::{Arm, Block, Break, Expr, LoopHead, Stmt};
use quote::ToTokens;
use std::str::FromStr;

fn lex(source: &str) -> Vec<Token> {
    let stream = proc_macro2::TokenStream::from_str(source).unwrap();
    stream
        .into_iter()
        .map(|tree| match tree {
            proc_macro2::TokenTree::Group(group) => Token {
                kind: TokenKind::Group(match group.delimiter() {
                    proc_macro2::Delimiter::Parenthesis => Delimiter::Parenthesis,
                    proc_macro2::Delimiter::Brace => Delimiter::Brace,
                    proc_macro2::Delimiter::Bracket => Delimiter::Bracket,
                    proc_macro2::Delimiter::None => Delimiter::Invisible,
                }),
                text: group.to_string(),
            },
            proc_macro2::TokenTree::Ident(ident) => Token {
                kind: TokenKind::Ident,
                text: ident.to_string(),
            },
            proc_macro2::TokenTree::Punct(punct) => Token {
                kind: TokenKind::Punct {
                    joint: punct.spacing() == proc_macro2::Spacing::Joint,
                },
                text: punct.as_char().to_string(),
            },
            proc_macro2::TokenTree::Literal(literal) => Token {
                kind: TokenKind::Literal,
                text: literal.to_string(),
            },
        })
        .collect()
}

fn text<T: ToTokens>(node: &T) -> String {
    node.to_token_stream().to_string()
}

fn name(label: &Option<syn::Label>) -> Option<String> {
    label.as_ref().map(|l| l.name.ident.to_string())
}

fn block(parsed: &syn::Block) -> Block {
    Block {
        stmts: parsed.stmts.iter().map(stmt).collect(),
    }
}

fn stmt(parsed: &syn::Stmt) -> Stmt {
    match parsed {
        syn::Stmt::Expr(e, semi) => Stmt::Expr {
            expr: expr(e),
            semi: semi.is_some(),
        },
        other => Stmt::Other { text: text(other) },
    }
}

fn expr(parsed: &syn::Expr) -> Expr {
    match parsed {
        syn::Expr::Break(b) if b.attrs.is_empty() => Expr::Break(Break {
            label: b.label.as_ref().map(|l| l.ident.to_string()),
            value: b.expr.as_ref().map(|v| text(v)),
        }),
        syn::Expr::Block(b) if b.attrs.is_empty() => Expr::Block {
            label: name(&b.label),
            block: block(&b.block),
        },
        syn::Expr::Unsafe(u) if u.attrs.is_empty() => Expr::Unsafe {
            block: block(&u.block),
        },
        syn::Expr::If(i) if i.attrs.is_empty() => Expr::If {
            cond: text(&i.cond),
            then_branch: block(&i.then_branch),
            else_branch: i.else_branch.as_ref().map(|(_, e)| Box::new(expr(e))),
        },
        syn::Expr::Match(m) if m.attrs.is_empty() => Expr::Match {
            scrutinee: text(&m.expr),
            arms: m
                .arms
                .iter()
                .map(|arm| Arm {
                    pattern: match &arm.guard {
                        Some((_, guard)) => format!("{} if {}", text(&arm.pat), text(guard)),
                        None => text(&arm.pat),
                    },
                    body: expr(&arm.body),
                })
                .collect(),
        },
        syn::Expr::ForLoop(l) if l.attrs.is_empty() => Expr::Loop {
            label: name(&l.label),
            head: LoopHead::For {
                pat: text(&l.pat),
                iter: text(&l.expr),
            },
            body: block(&l.body),
        },
        syn::Expr::While(l) if l.attrs.is_empty() => Expr::Loop {
            label: name(&l.label),
            head: LoopHead::While { cond: text(&l.cond) },
            body: block(&l.body),
        },
        syn::Expr::Loop(l) if l.attrs.is_empty() => Expr::Loop {
            label: name(&l.label),
            head: LoopHead::Loop,
            body: block(&l.body),
        },
        other => Expr::Other { text: text(other) },
    }
}

fn parse_block(token: &Token) -> Option<Block> {
    syn::parse_str::<syn::Block>(&token.text)
        .ok()
        .map(|parsed| block(&parsed))
}

fn expand(source: &str) -> Expansion {
    let header = ForLoop::parse(lex(source)).unwrap();
    let body = parse_block(&header.body);
    let else_block = parse_block(&header.else_block);
    for_(header, body, else_block).unwrap()
}

// One choice stands at the head of each round of a loop, one at each `if`
// and one at each `match`; see the library's account of a run.
fn rounds<F: Fn(u32, &mut Vec<usize>)>(items: &[u32], body: F) -> Vec<usize> {
    let mut choices = Vec::new();
    for item in items {
        choices.push(1);
        body(*item, &mut choices);
    }
    choices
}

#[test]
fn test_if_block() {
    let mut flag = true;
    let expansion = expand(
        "i in 0..10 {
            if i == 5 {
                break;
            }
        } else {
            flag = false;
        }",
    );
    let items: Vec<u32> = (0..10).collect();
    let choices = rounds(&items, |i, c| c.push((i == 5) as usize));
    if expansion.finish(&choices) == Finish::Completed {
        flag = false;
    }

    assert!(flag);
}

#[test]
fn test_else_block() {
    let mut flag = true;
    let expansion = expand(
        "i in 0..10 {
            if i < 5 {
            } else {
                break;
            }
        } else {
            flag = false;
        }",
    );
    let items: Vec<u32> = (0..10).collect();
    let choices = rounds(&items, |i, c| c.push((i < 5) as usize));
    if expansion.finish(&choices) == Finish::Completed {
        flag = false;
    }

    assert!(flag);
}

#[test]
fn test_match_arm_statemnt() {
    let mut flag = true;
    let expansion = expand(
        "i in 0..10 {
            match i {
                5 => break,
                _ => {}
            };
        } else {
            flag = false;
        }",
    );
    let items: Vec<u32> = (0..10).collect();
    let choices = rounds(&items, |i, c| {
        c.push(match i {
            5 => 0,
            _ => 1,
        })
    });
    if expansion.finish(&choices) == Finish::Completed {
        flag = false;
    }

    assert!(flag);
}

#[test]
fn test_match_arm_block() {
    let mut flag = true;
    let expansion = expand(
        "i in 0..10 {
            match i {
                5..=6 => {
                    println!();
                    break
                },
                9 => break,
                _ => {}
            };
        } else {
            flag = false;
        }",
    );
    let items: Vec<u32> = (0..10).collect();
    let choices = rounds(&items, |i, c| {
        c.push(match i {
            5..=6 => 0,
            9 => 1,
            _ => 2,
        })
    });
    if expansion.finish(&choices) == Finish::Completed {
        flag = false;
    }

    assert!(flag);
}

#[test]
fn test_deep() {
    let mut flag = true;
    let expansion = expand(
        "i in 0..10 {
            if i > 2  {
                if i > 3 {
                    if i > 4 {
                        if i > 5 {
                            if i > 6 {
                                if i > 7 {
                                    if i > 8 {
                                        break;
                                    }
                                }
                            }
                        }
                    }
                }
            }
        } else {
            flag = false;
        }",
    );
    let items: Vec<u32> = (0..10).collect();
    let choices = rounds(&items, |i, c| {
        for bound in 2..=8 {
            c.push((i > bound) as usize);
            if i <= bound {
                break;
            }
        }
    });
    if expansion.finish(&choices) == Finish::Completed {
        flag = false;
    }

    assert!(flag);
}

#[test]
fn test_negative() {
    let mut flag = false;
    let expansion = expand(
        "i in 0..10 {
            if i == 11 {
                break;
            }
        } else {
            flag = true;
        }",
    );
    let items: Vec<u32> = (0..10).collect();
    let choices = rounds(&items, |i, c| c.push((i == 11) as usize));
    if expansion.finish(&choices) == Finish::Completed {
        flag = true;
    }

    assert!(flag);
}

#[test]
fn test_indent() {
    let mut was_in_else_branch = false;
    let named_expr = [1, 2, 3, 4, 5];
    let expansion = expand(
        "i in named_expr {
            if i == 3 {
                break;
            }
        } else {
            was_in_else_branch = true;
        }",
    );
    let choices = rounds(&named_expr, |i, c| c.push((i == 3) as usize));
    if expansion.finish(&choices) == Finish::Completed {
        was_in_else_branch = true;
    }

    assert!(!was_in_else_branch);
}

#[test]
fn test_indent_else() {
    let mut was_in_else_branch = false;
    let named_expr = [1, 2, 3, 4, 5];
    let expansion = expand(
        "i in named_expr {
            if i == 8 {
                break;
            }
        } else {
            was_in_else_branch = true;
        }",
    );
    let choices = rounds(&named_expr, |i, c| c.push((i == 8) as usize));
    if expansion.finish(&choices) == Finish::Completed {
        was_in_else_branch = true;
    }

    assert!(was_in_else_branch);
}

struct S;
impl S {
    fn iter(self) -> std::vec::IntoIter<u32> {
        vec![1, 2, 3].into_iter()
    }
}

#[test]
fn test_inline_struct() {
    let mut was_in_else_branch = false;
    let expansion = expand(
        "i in (S {}).iter() {
            if i == 2 {
                break;
            }
        } else {
            was_in_else_branch = true;
        }",
    );
    let items: Vec<u32> = (S {}).iter().collect();
    let choices = rounds(&items, |i, c| c.push((i == 2) as usize));
    if expansion.finish(&choices) == Finish::Completed {
        was_in_else_branch = true;
    }

    assert!(!was_in_else_branch);
}

#[test]
fn test_inline_struct_else() {
    let mut was_in_else_branch = false;
    let expansion = expand(
        "i in (S {}).iter() {
            if i == 10 {
                break;
            }
        } else {
            was_in_else_branch = true;
        }",
    );
    let items: Vec<u32> = (S {}).iter().collect();
    let choices = rounds(&items, |i, c| c.push((i == 10) as usize));
    if expansion.finish(&choices) == Finish::Completed {
        was_in_else_branch = true;
    }

    assert!(was_in_else_branch);
}

#[test]
fn test_inline_block() {
    let mut was_in_else_branch = false;
    let expansion = expand(
        "i in { vec![1, 2, 3, 4, 5] }.into_iter() {
            if i == 3 {
                break;
            }
        } else {
            was_in_else_branch = true;
        }",
    );
    assert_eq!(
        expansion.head,
        LoopHead::For {
            pat: "i ".to_string(),
            iter: "{ vec ! [1 , 2 , 3 , 4 , 5] } . into_iter () ".to_string(),
        }
    );
    let items: Vec<u32> = { vec![1, 2, 3, 4, 5] }.into_iter().collect();
    let choices = rounds(&items, |i, c| c.push((i == 3) as usize));
    if expansion.finish(&choices) == Finish::Completed {
        was_in_else_branch = true;
    }

    assert!(!was_in_else_branch);
}

#[test]
fn test_inline_block_with_inline_struct_else() {
    let mut was_in_else_branch = false;
    let expansion = expand(
        "i in { S {} }.iter() {
            if i == 10 {
                break;
            }
        } else {
            was_in_else_branch = true;
        }",
    );
    let items: Vec<u32> = { S {} }.iter().collect();
    let choices = rounds(&items, |i, c| c.push((i == 10) as usize));
    if expansion.finish(&choices) == Finish::Completed {
        was_in_else_branch = true;
    }
    assert!(was_in_else_branch);
}
