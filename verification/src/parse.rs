//! Parsing of `import` and `export` declarations, and skipping of
//! expressions, over a token stream.

use vstd::prelude::*;
use crate::es6::{
    Export, ExportSpec, ExportView, export_specs_view, Import, ImportSpec, ImportView,
    import_specs_view, Bindings, BindingsView,
};
use crate::strlit::{
    ParseStrLitError, str_lit_status, str_lit_text, str_lit_check, es_str_lit_value,
};
use crate::token::{
    Token, TokenKind, stream_wf, kind_at, tok_at, ws_at, text_at, echo_at, copy_text, is_id,
    is_str_lit, kind, tok, id_is, str_lit_at, push_ws, push_echo, push_copy,
};

verus! {

/// Why parsing stopped: something else was expected at a token (the
/// stream stops there), a string literal is invalid (reported at a token,
/// the stream stopping at a second position), or the input needs what is
/// not supported.
pub enum Fault {
    Expected(&'static str, usize),
    StrLit(ParseStrLitError, usize, usize),
    Unsupported,
}

/// The operator precedence down to which an expression is skipped.
#[derive(Clone, Copy, PartialEq, Eq, Debug, Structural)]
pub enum Prec {
    Primary,
    NoComma,
    Any,
}

/// A pair of delimiters.
#[derive(Clone, Copy, PartialEq, Eq, Debug, Structural)]
pub enum Delim {
    /// `` `…${ `` and `` }…` ``
    Template,
    /// `[` and `]`
    Bracket,
    /// `{` and `}`
    Brace,
    /// `(` and `)`
    Paren,
}

/// The token type opens a nesting level of `d`.
pub open spec fn opens(d: Delim, k: TokenKind) -> bool {
    match d {
        Delim::Template => k == TokenKind::TemplateStart,
        Delim::Bracket => k == TokenKind::Lbracket,
        Delim::Brace => k == TokenKind::Lbrace,
        Delim::Paren => k == TokenKind::Lparen,
    }
}

/// The token type closes a nesting level of `d`.
pub open spec fn closes(d: Delim, k: TokenKind) -> bool {
    match d {
        Delim::Template => k == TokenKind::TemplateEnd,
        Delim::Bracket => k == TokenKind::Rbracket,
        Delim::Brace => k == TokenKind::Rbrace,
        Delim::Paren => k == TokenKind::Rparen,
    }
}

/// An exec position result, read as a spec one.
pub open spec fn pos_result(r: Result<usize, Fault>) -> Result<int, Fault> {
    match r {
        Ok(q) => Ok(q as int),
        Err(f) => Err(f),
    }
}

/// Where skipping stops when `depth` levels of `d` are open at `p`: after
/// the token that closes the outermost level; an end of file fails with
/// `expect`, at the position after it.
pub open spec fn balanced_end(
    s: Seq<Token>,
    p: int,
    d: Delim,
    depth: nat,
    expect: &'static str,
) -> Result<int, Fault>
    decreases s.len() - p,
{
    if depth == 0 {
        Ok(p)
    } else {
        let k = kind_at(s, p);
        if k == TokenKind::Eof {
            Err(Fault::Expected(expect, if p < s.len() - 1 { (p + 1) as usize } else { p as usize }))
        } else if opens(d, k) {
            balanced_end(s, p + 1, d, depth + 1, expect)
        } else if closes(d, k) {
            balanced_end(s, p + 1, d, (depth - 1) as nat, expect)
        } else {
            balanced_end(s, p + 1, d, depth, expect)
        }
    }
}

/// Skips tokens after an opening delimiter up to and including the one
/// that closes it.
pub fn skip_balanced(toks: &Vec<Token>, p: usize, d: Delim, expect: &'static str) -> (r: Result<
    usize,
    Fault,
>)
    requires
        stream_wf(toks@),
        p < toks@.len(),
    ensures
        pos_result(r) == balanced_end(toks@, p as int, d, 1, expect),
        r matches Ok(q) ==> p < q < toks@.len(),
{
    let ghost s = toks@;
    let n = toks.len();
    let mut q = p;
    let mut depth: usize = 1;
    while depth > 0
        invariant
            s == toks@,
            n == s.len(),
            stream_wf(s),
            p <= q < s.len(),
            1 <= depth + q - p,
            depth <= q - p + 1,
            depth == 0 ==> q > p,
            balanced_end(s, q as int, d, depth as nat, expect) == balanced_end(
                s,
                p as int,
                d,
                1,
                expect,
            ),
        decreases s.len() - q, depth,
    {
        let k = kind(toks, q);
        if k == TokenKind::Eof {
            let at = if q < toks.len() - 1 {
                q + 1
            } else {
                q
            };
            return Err(Fault::Expected(expect, at));
        }
        let open = match d {
            Delim::Template => k == TokenKind::TemplateStart,
            Delim::Bracket => k == TokenKind::Lbracket,
            Delim::Brace => k == TokenKind::Lbrace,
            Delim::Paren => k == TokenKind::Lparen,
        };
        let close = match d {
            Delim::Template => k == TokenKind::TemplateEnd,
            Delim::Bracket => k == TokenKind::Rbracket,
            Delim::Brace => k == TokenKind::Rbrace,
            Delim::Paren => k == TokenKind::Rparen,
        };
        if open {
            depth = depth + 1;
        } else if close {
            depth = depth - 1;
        }
        q = q + 1;
    }
    Ok(q)
}


/// A prefix operator.
pub open spec fn is_prefix_op(k: TokenKind) -> bool {
    ||| k == TokenKind::Plus
    ||| k == TokenKind::Minus
    ||| k == TokenKind::Tilde
    ||| k == TokenKind::Bang
    ||| k == TokenKind::Delete
    ||| k == TokenKind::Void
    ||| k == TokenKind::Typeof
    ||| k == TokenKind::DotDotDot
    ||| k == TokenKind::PlusPlus
    ||| k == TokenKind::MinusMinus
}

/// A one-token primary expression.
pub open spec fn is_literal(k: TokenKind) -> bool {
    ||| k == TokenKind::This
    ||| k == TokenKind::Super
    ||| k == TokenKind::Id
    ||| k == TokenKind::Null
    ||| k == TokenKind::True
    ||| k == TokenKind::False
    ||| k == TokenKind::NumLit
    ||| k == TokenKind::StrLitDbl
    ||| k == TokenKind::StrLitSgl
    ||| k == TokenKind::RegExpLit
    ||| k == TokenKind::TemplateNoSub
}

/// A binary operator, an assignment, `=>`, `?` or `:`.
pub open spec fn is_infix(k: TokenKind) -> bool {
    ||| k == TokenKind::StarStar
    ||| k == TokenKind::Star
    ||| k == TokenKind::Slash
    ||| k == TokenKind::Percent
    ||| k == TokenKind::Plus
    ||| k == TokenKind::Minus
    ||| k == TokenKind::LtLt
    ||| k == TokenKind::GtGt
    ||| k == TokenKind::GtGtGt
    ||| k == TokenKind::Lt
    ||| k == TokenKind::Gt
    ||| k == TokenKind::LtEq
    ||| k == TokenKind::GtEq
    ||| k == TokenKind::Instanceof
    ||| k == TokenKind::In
    ||| k == TokenKind::EqEq
    ||| k == TokenKind::BangEq
    ||| k == TokenKind::EqEqEq
    ||| k == TokenKind::BangEqEq
    ||| k == TokenKind::And
    ||| k == TokenKind::Or
    ||| k == TokenKind::Circumflex
    ||| k == TokenKind::AndAnd
    ||| k == TokenKind::OrOr
    ||| k == TokenKind::Eq
    ||| k == TokenKind::StarEq
    ||| k == TokenKind::SlashEq
    ||| k == TokenKind::PercentEq
    ||| k == TokenKind::PlusEq
    ||| k == TokenKind::MinusEq
    ||| k == TokenKind::LtLtEq
    ||| k == TokenKind::GtGtEq
    ||| k == TokenKind::GtGtGtEq
    ||| k == TokenKind::AndEq
    ||| k == TokenKind::CircumflexEq
    ||| k == TokenKind::OrEq
    ||| k == TokenKind::StarStarEq
    ||| k == TokenKind::EqGt
    ||| k == TokenKind::Question
    ||| k == TokenKind::Colon
}

/// Skipping prefix operators from `p`: the position reached, whether that
/// already ends a primary expression (`new.target`), and whether the
/// expression ends there (`yield` before a line break).
pub open spec fn prefix_end(s: Seq<Token>, p: int) -> Result<(int, bool, bool), Fault>
    decreases s.len() - p,
{
    let k = kind_at(s, p);
    if is_prefix_op(k) || is_id(s, p, "await"@) {
        prefix_end(s, p + 1)
    } else if k == TokenKind::New {
        if kind_at(s, p + 1) == TokenKind::Dot {
            if is_id(s, p + 2, "target"@) {
                Ok((p + 3, true, false))
            } else {
                Err(Fault::Expected("keyword 'target'", (p + 2) as usize))
            }
        } else {
            prefix_end(s, p + 1)
        }
    } else if k == TokenKind::Yield {
        if tok_at(s, p + 1).nl_before {
            Ok((p + 1, false, true))
        } else if kind_at(s, p + 1) == TokenKind::Star {
            prefix_end(s, p + 2)
        } else {
            prefix_end(s, p + 1)
        }
    } else {
        Ok((p, false, false))
    }
}

/// Where an expression that starts at `p` ends, down to precedence `prec`.
pub open spec fn expr_end(s: Seq<Token>, p: int, prec: Prec) -> Result<int, Fault>
    decreases s.len() - p, 3int,
{
    match prefix_end(s, p) {
        Err(e) => Err(e),
        Ok((q, had_primary, stop)) => {
            if stop || q < p || q >= s.len() {
                Ok(q)
            } else {
                let prim = if had_primary {
                    Ok(q)
                } else {
                    primary_end(s, q)
                };
                match prim {
                    Err(e) => Err(e),
                    Ok(r) => if prec == Prec::Primary || r < p || r >= s.len() {
                        Ok(r)
                    } else {
                        postfix_end(s, r, prec)
                    },
                }
            }
        },
    }
}

/// Where a primary expression that starts at `p` ends.
pub open spec fn primary_end(s: Seq<Token>, p: int) -> Result<int, Fault>
    decreases s.len() - p, 1int,
{
    let k = kind_at(s, p);
    if is_literal(k) {
        Ok(p + 1)
    } else if k == TokenKind::TemplateStart {
        balanced_end(s, p + 1, Delim::Template, 1, "end of template literal")
    } else if k == TokenKind::Lbracket {
        balanced_end(s, p + 1, Delim::Bracket, 1, "']'")
    } else if k == TokenKind::Lbrace {
        balanced_end(s, p + 1, Delim::Brace, 1, "'}'")
    } else if k == TokenKind::Lparen {
        balanced_end(s, p + 1, Delim::Paren, 1, "')'")
    } else if k == TokenKind::Function {
        let q1 = if kind_at(s, p + 1) == TokenKind::Star {
            p + 2
        } else {
            p + 1
        };
        let q2 = if kind_at(s, q1) == TokenKind::Id {
            q1 + 1
        } else {
            q1
        };
        if kind_at(s, q2) == TokenKind::Lparen {
            match balanced_end(s, q2 + 1, Delim::Paren, 1, "')'") {
                Err(e) => Err(e),
                Ok(r) => if kind_at(s, r) == TokenKind::Lbrace {
                    balanced_end(s, r + 1, Delim::Brace, 1, "'}'")
                } else {
                    Err(Fault::Expected("function body", r as usize))
                },
            }
        } else {
            Err(Fault::Expected("formal parameter list", q2 as usize))
        }
    } else if k == TokenKind::Class {
        let q1 = if kind_at(s, p + 1) == TokenKind::Id {
            p + 2
        } else {
            p + 1
        };
        let heritage = if kind_at(s, q1) == TokenKind::Extends {
            expr_end(s, q1 + 1, Prec::NoComma)
        } else {
            Ok(q1)
        };
        match heritage {
            Err(e) => Err(e),
            Ok(q2) => if kind_at(s, q2) == TokenKind::Lbrace {
                balanced_end(s, q2 + 1, Delim::Brace, 1, "'}'")
            } else {
                Err(Fault::Expected("class body", q2 as usize))
            },
        }
    } else {
        Err(Fault::Expected("primary expression", p as usize))
    }
}

/// The delimiter and message for a postfix token that opens a nesting.
pub open spec fn postfix_delim(k: TokenKind) -> (Delim, &'static str) {
    if k == TokenKind::TemplateStart {
        (Delim::Template, "end of template literal")
    } else if k == TokenKind::Lbracket {
        (Delim::Bracket, "']'")
    } else {
        (Delim::Paren, "')'")
    }
}

/// Where the postfix and infix part of an expression that continues at `p`
/// ends, down to precedence `prec`.
pub open spec fn postfix_end(s: Seq<Token>, p: int, prec: Prec) -> Result<int, Fault>
    decreases s.len() - p, 2int,
{
    let k = kind_at(s, p);
    if (k == TokenKind::PlusPlus || k == TokenKind::MinusMinus) && !tok_at(s, p).nl_before {
        postfix_end(s, p + 1, prec)
    } else if k == TokenKind::Dot {
        if kind_at(s, p + 1) == TokenKind::Id {
            postfix_end(s, p + 2, prec)
        } else {
            Err(Fault::Expected("member name", (p + 1) as usize))
        }
    } else if k == TokenKind::TemplateStart || k == TokenKind::Lbracket || k == TokenKind::Lparen {
        match balanced_end(s, p + 1, postfix_delim(k).0, 1, postfix_delim(k).1) {
            Err(e) => Err(e),
            Ok(r) => if p < r < s.len() {
                postfix_end(s, r, prec)
            } else {
                Ok(r)
            },
        }
    } else if is_infix(k) || (k == TokenKind::Comma && prec == Prec::Any) {
        match expr_end(s, p + 1, Prec::Primary) {
            Err(e) => Err(e),
            Ok(r) => if p < r < s.len() {
                postfix_end(s, r, prec)
            } else {
                Ok(r)
            },
        }
    } else {
        Ok(p)
    }
}


fn prefix_op(k: TokenKind) -> (b: bool)
    ensures
        b == is_prefix_op(k),
{
    match k {
        TokenKind::Plus | TokenKind::Minus | TokenKind::Tilde | TokenKind::Bang
        | TokenKind::Delete | TokenKind::Void | TokenKind::Typeof | TokenKind::DotDotDot
        | TokenKind::PlusPlus | TokenKind::MinusMinus => true,
        _ => false,
    }
}

fn literal(k: TokenKind) -> (b: bool)
    ensures
        b == is_literal(k),
{
    match k {
        TokenKind::This | TokenKind::Super | TokenKind::Id | TokenKind::Null | TokenKind::True
        | TokenKind::False | TokenKind::NumLit | TokenKind::StrLitDbl | TokenKind::StrLitSgl
        | TokenKind::RegExpLit | TokenKind::TemplateNoSub => true,
        _ => false,
    }
}

fn infix(k: TokenKind) -> (b: bool)
    ensures
        b == is_infix(k),
{
    match k {
        TokenKind::StarStar | TokenKind::Star | TokenKind::Slash | TokenKind::Percent
        | TokenKind::Plus | TokenKind::Minus | TokenKind::LtLt | TokenKind::GtGt
        | TokenKind::GtGtGt | TokenKind::Lt | TokenKind::Gt | TokenKind::LtEq | TokenKind::GtEq
        | TokenKind::Instanceof | TokenKind::In | TokenKind::EqEq | TokenKind::BangEq
        | TokenKind::EqEqEq | TokenKind::BangEqEq | TokenKind::And | TokenKind::Or
        | TokenKind::Circumflex | TokenKind::AndAnd | TokenKind::OrOr | TokenKind::Eq
        | TokenKind::StarEq | TokenKind::SlashEq | TokenKind::PercentEq | TokenKind::PlusEq
        | TokenKind::MinusEq | TokenKind::LtLtEq | TokenKind::GtGtEq | TokenKind::GtGtGtEq
        | TokenKind::AndEq | TokenKind::CircumflexEq | TokenKind::OrEq | TokenKind::StarStarEq
        | TokenKind::EqGt | TokenKind::Question | TokenKind::Colon => true,
        _ => false,
    }
}

/// A prefix-skipping result, read as a spec one.
pub open spec fn prefix_result(r: Result<(usize, bool, bool), Fault>) -> Result<
    (int, bool, bool),
    Fault,
> {
    match r {
        Ok((q, h, t)) => Ok((q as int, h, t)),
        Err(f) => Err(f),
    }
}

/// Skips the prefix operators of an expression.
fn skip_prefix(toks: &Vec<Token>, p: usize) -> (r: Result<(usize, bool, bool), Fault>)
    requires
        stream_wf(toks@),
        p < toks@.len(),
    ensures
        prefix_result(r) == prefix_end(toks@, p as int),
        r matches Ok((q, had, stop)) ==> p <= q < toks@.len() && ((had || stop) ==> p < q),
{
    let ghost s = toks@;
    let n = toks.len();
    let mut q = p;
    loop
        invariant
            s == toks@,
            stream_wf(s),
            n == s.len(),
            p <= q < n,
            prefix_end(s, q as int) == prefix_end(s, p as int),
        decreases n - q,
    {
        let k = kind(toks, q);
        if prefix_op(k) || id_is(toks, q, "await") {
            q = q + 1;
        } else if k == TokenKind::New {
            if kind(toks, q + 1) == TokenKind::Dot {
                if id_is(toks, q + 2, "target") {
                    return Ok((q + 3, true, false));
                } else {
                    return Err(Fault::Expected("keyword 'target'", q + 2));
                }
            } else {
                q = q + 1;
            }
        } else if k == TokenKind::Yield {
            if tok(toks, q + 1).nl_before {
                return Ok((q + 1, false, true));
            } else if kind(toks, q + 1) == TokenKind::Star {
                q = q + 2;
            } else {
                q = q + 1;
            }
        } else {
            return Ok((q, false, false));
        }
    }
}

/// Skips an expression down to precedence `prec`.
pub fn skip_expr(toks: &Vec<Token>, p: usize, prec: Prec) -> (r: Result<usize, Fault>)
    requires
        stream_wf(toks@),
        p < toks@.len(),
    ensures
        pos_result(r) == expr_end(toks@, p as int, prec),
        r matches Ok(q) ==> p < q < toks@.len(),
    decreases toks@.len() - p, 3int,
{
    let (q, had_primary, stop) = match skip_prefix(toks, p) {
        Ok(x) => x,
        Err(e) => return Err(e),
    };
    if stop {
        return Ok(q);
    }
    let r = if had_primary {
        q
    } else {
        match skip_primary(toks, q) {
            Ok(r) => r,
            Err(e) => return Err(e),
        }
    };
    if prec == Prec::Primary {
        Ok(r)
    } else {
        skip_postfix(toks, r, prec)
    }
}

/// Skips a primary expression.
fn skip_primary(toks: &Vec<Token>, p: usize) -> (r: Result<usize, Fault>)
    requires
        stream_wf(toks@),
        p < toks@.len(),
    ensures
        pos_result(r) == primary_end(toks@, p as int),
        r matches Ok(q) ==> p < q < toks@.len(),
    decreases toks@.len() - p, 1int,
{
    let _n = toks.len();
    let k = kind(toks, p);
    if literal(k) {
        Ok(p + 1)
    } else if k == TokenKind::TemplateStart {
        skip_balanced(toks, p + 1, Delim::Template, "end of template literal")
    } else if k == TokenKind::Lbracket {
        skip_balanced(toks, p + 1, Delim::Bracket, "']'")
    } else if k == TokenKind::Lbrace {
        skip_balanced(toks, p + 1, Delim::Brace, "'}'")
    } else if k == TokenKind::Lparen {
        skip_balanced(toks, p + 1, Delim::Paren, "')'")
    } else if k == TokenKind::Function {
        let q1 = if kind(toks, p + 1) == TokenKind::Star {
            p + 2
        } else {
            p + 1
        };
        let q2 = if kind(toks, q1) == TokenKind::Id {
            q1 + 1
        } else {
            q1
        };
        if kind(toks, q2) == TokenKind::Lparen {
            match skip_balanced(toks, q2 + 1, Delim::Paren, "')'") {
                Err(e) => Err(e),
                Ok(r) => if kind(toks, r) == TokenKind::Lbrace {
                    skip_balanced(toks, r + 1, Delim::Brace, "'}'")
                } else {
                    Err(Fault::Expected("function body", r))
                },
            }
        } else {
            Err(Fault::Expected("formal parameter list", q2))
        }
    } else if k == TokenKind::Class {
        let q1 = if kind(toks, p + 1) == TokenKind::Id {
            p + 2
        } else {
            p + 1
        };
        let q2 = if kind(toks, q1) == TokenKind::Extends {
            match skip_expr(toks, q1 + 1, Prec::NoComma) {
                Ok(q2) => q2,
                Err(e) => return Err(e),
            }
        } else {
            q1
        };
        if kind(toks, q2) == TokenKind::Lbrace {
            skip_balanced(toks, q2 + 1, Delim::Brace, "'}'")
        } else {
            Err(Fault::Expected("class body", q2))
        }
    } else {
        Err(Fault::Expected("primary expression", p))
    }
}

/// Skips the postfix and infix part of an expression.
fn skip_postfix(toks: &Vec<Token>, p: usize, prec: Prec) -> (r: Result<usize, Fault>)
    requires
        stream_wf(toks@),
        p < toks@.len(),
    ensures
        pos_result(r) == postfix_end(toks@, p as int, prec),
        r matches Ok(q) ==> p <= q < toks@.len(),
    decreases toks@.len() - p, 2int,
{
    let ghost s = toks@;
    let n = toks.len();
    let mut q = p;
    loop
        invariant
            s == toks@,
            stream_wf(s),
            n == s.len(),
            p <= q < n,
            postfix_end(s, q as int, prec) == postfix_end(s, p as int, prec),
        decreases n - q,
    {
        let k = kind(toks, q);
        if (k == TokenKind::PlusPlus || k == TokenKind::MinusMinus) && !tok(toks, q).nl_before {
            q = q + 1;
        } else if k == TokenKind::Dot {
            if kind(toks, q + 1) == TokenKind::Id {
                q = q + 2;
            } else {
                return Err(Fault::Expected("member name", q + 1));
            }
        } else if k == TokenKind::TemplateStart || k == TokenKind::Lbracket || k
            == TokenKind::Lparen {
            let (d, msg) = if k == TokenKind::TemplateStart {
                (Delim::Template, "end of template literal")
            } else if k == TokenKind::Lbracket {
                (Delim::Bracket, "']'")
            } else {
                (Delim::Paren, "')'")
            };
            match skip_balanced(toks, q + 1, d, msg) {
                Ok(r) => q = r,
                Err(e) => return Err(e),
            }
        } else if infix(k) || (k == TokenKind::Comma && prec == Prec::Any) {
            match skip_expr(toks, q + 1, Prec::Primary) {
                Ok(r) => q = r,
                Err(e) => return Err(e),
            }
        } else {
            return Ok(q);
        }
    }
}


/// A list of pairs of names, read as characters.
pub open spec fn pairs_view(v: Seq<(String, String)>) -> Seq<(Seq<char>, Seq<char>)> {
    v.map_values(|x: (String, String)| (x.0@, x.1@))
}

/// Parses the rest of a `{…}` binding list from `p` (after `{`), where each
/// entry is `a` or `a as b`, giving `(a, a)` or `(a, b)`; `out` is the
/// output so far, to which the whitespace before each token is added.
/// `as_msg` names what must follow `as`, `open_msg` what must start an entry.
pub open spec fn binding_list(
    s: Seq<Token>,
    p: int,
    acc: Seq<(Seq<char>, Seq<char>)>,
    out: Seq<char>,
    as_msg: &'static str,
    open_msg: &'static str,
) -> Result<(int, Seq<(Seq<char>, Seq<char>)>, Seq<char>), (Fault, Seq<char>)>
    decreases s.len() - p,
{
    if kind_at(s, p) == TokenKind::Id {
        let first = text_at(s, p);
        let out1 = out + ws_at(s, p);
        let q = p + 1;
        if is_id(s, q, "as"@) {
            let out2 = out1 + ws_at(s, q);
            let r = q + 1;
            if kind_at(s, r) == TokenKind::Id {
                let out3 = out2 + ws_at(s, r);
                let acc2 = acc.push((first, text_at(s, r)));
                let t = r + 1;
                if kind_at(s, t) == TokenKind::Rbrace {
                    Ok((t + 1, acc2, out3 + ws_at(s, t)))
                } else if kind_at(s, t) == TokenKind::Comma {
                    binding_list(s, t + 1, acc2, out3 + ws_at(s, t), as_msg, open_msg)
                } else {
                    Err((Fault::Expected("',' or '}'", t as usize), out3))
                }
            } else {
                Err((Fault::Expected(as_msg, r as usize), out2))
            }
        } else if kind_at(s, q) == TokenKind::Rbrace {
            Ok((q + 1, acc.push((first, first)), out1 + ws_at(s, q)))
        } else if kind_at(s, q) == TokenKind::Comma {
            binding_list(s, q + 1, acc.push((first, first)), out1 + ws_at(s, q), as_msg, open_msg)
        } else {
            Err((Fault::Expected("',' or '}' or keyword 'as'", q as usize), out1))
        }
    } else if kind_at(s, p) == TokenKind::Rbrace {
        Ok((p + 1, acc, out + ws_at(s, p)))
    } else {
        Err((Fault::Expected(open_msg, p as usize), out))
    }
}

/// A list-parsing result matches its specification: same position, same
/// pairs, and the output is the specified one.
pub open spec fn list_matches(
    r: Result<(usize, Vec<(String, String)>), Fault>,
    spec: Result<(int, Seq<(Seq<char>, Seq<char>)>, Seq<char>), (Fault, Seq<char>)>,
    out: Seq<char>,
) -> bool {
    match (r, spec) {
        (Ok((q, v)), Ok((sq, sv, so))) => q == sq && pairs_view(v@) == sv && out == so,
        (Err(f), Err((sf, so))) => f == sf && out == so,
        _ => false,
    }
}

/// Parses the rest of a `{…}` binding list (see [`binding_list`]).
fn parse_binding_list(
    toks: &Vec<Token>,
    p: usize,
    source: &mut String,
    as_msg: &'static str,
    open_msg: &'static str,
) -> (r: Result<(usize, Vec<(String, String)>), Fault>)
    requires
        stream_wf(toks@),
        p < toks@.len(),
    ensures
        list_matches(
            r,
            binding_list(toks@, p as int, seq![], old(source)@, as_msg, open_msg),
            final(source)@,
        ),
        r matches Ok((q, _)) ==> p < q < toks@.len(),
{
    let ghost s = toks@;
    let n = toks.len();
    let mut q = p;
    let mut acc: Vec<(String, String)> = Vec::new();
    assert(pairs_view(acc@) =~= seq![]);
    loop
        invariant
            s == toks@,
            stream_wf(s),
            n == s.len(),
            p <= q < n,
            binding_list(s, q as int, pairs_view(acc@), source@, as_msg, open_msg) == binding_list(
                s,
                p as int,
                seq![],
                old(source)@,
                as_msg,
                open_msg,
            ),
        decreases n - q,
    {
        let ghost accv = pairs_view(acc@);
        if kind(toks, q) == TokenKind::Id {
            let first = tok(toks, q).text.clone();
            push_ws(source, toks, q);
            let q1 = q + 1;
            if id_is(toks, q1, "as") {
                push_ws(source, toks, q1);
                let r = q1 + 1;
                if kind(toks, r) == TokenKind::Id {
                    push_ws(source, toks, r);
                    let second = tok(toks, r).text.clone();
                    acc.push((first, second));
                    assert(pairs_view(acc@) =~= accv.push((text_at(s, q as int), text_at(s, r as int))));
                    let t = r + 1;
                    if kind(toks, t) == TokenKind::Rbrace {
                        push_ws(source, toks, t);
                        return Ok((t + 1, acc));
                    } else if kind(toks, t) == TokenKind::Comma {
                        push_ws(source, toks, t);
                        q = t + 1;
                    } else {
                        return Err(Fault::Expected("',' or '}'", t));
                    }
                } else {
                    return Err(Fault::Expected(as_msg, r));
                }
            } else if kind(toks, q1) == TokenKind::Rbrace {
                let second = first.clone();
                acc.push((first, second));
                assert(pairs_view(acc@) =~= accv.push((text_at(s, q as int), text_at(s, q as int))));
                push_ws(source, toks, q1);
                return Ok((q1 + 1, acc));
            } else if kind(toks, q1) == TokenKind::Comma {
                let second = first.clone();
                acc.push((first, second));
                assert(pairs_view(acc@) =~= accv.push((text_at(s, q as int), text_at(s, q as int))));
                push_ws(source, toks, q1);
                q = q1 + 1;
            } else {
                return Err(Fault::Expected("',' or '}' or keyword 'as'", q1));
            }
        } else if kind(toks, q) == TokenKind::Rbrace {
            push_ws(source, toks, q);
            return Ok((q + 1, acc));
        } else {
            return Err(Fault::Expected(open_msg, q));
        }
    }
}


/// Parses the rest of a `var`, `let` or `const` declaration from `p`: a
/// comma-separated list of names, each with an optional initializer.
/// Gives the names.
pub open spec fn var_list(s: Seq<Token>, p: int, acc: Seq<Seq<char>>) -> Result<
    (int, Seq<Seq<char>>),
    Fault,
>
    decreases s.len() - p,
{
    if kind_at(s, p) == TokenKind::Id {
        let acc2 = acc.push(text_at(s, p));
        let q = p + 1;
        if kind_at(s, q) == TokenKind::Eq {
            match expr_end(s, q + 1, Prec::NoComma) {
                Err(e) => Err(e),
                Ok(r) => if q < r < s.len() && kind_at(s, r) == TokenKind::Comma {
                    var_list(s, r + 1, acc2)
                } else {
                    Ok((r, acc2))
                },
            }
        } else if kind_at(s, q) == TokenKind::Comma {
            var_list(s, q + 1, acc2)
        } else {
            Ok((q, acc2))
        }
    } else {
        Err(Fault::Expected("binding name", p as usize))
    }
}

/// The views of a list of names.
pub open spec fn names_view(v: Seq<String>) -> Seq<Seq<char>> {
    v.map_values(|x: String| x@)
}

/// Parses the rest of a variable declaration (see [`var_list`]).
fn parse_var_list(toks: &Vec<Token>, p: usize) -> (r: Result<(usize, Vec<String>), Fault>)
    requires
        stream_wf(toks@),
        p < toks@.len(),
    ensures
        match (r, var_list(toks@, p as int, seq![])) {
            (Ok((q, v)), Ok((sq, sv))) => q == sq && names_view(v@) == sv,
            (Err(f), Err(sf)) => f == sf,
            _ => false,
        },
        r matches Ok((q, _)) ==> p < q < toks@.len(),
{
    let ghost s = toks@;
    let n = toks.len();
    let mut q = p;
    let mut acc: Vec<String> = Vec::new();
    assert(names_view(acc@) =~= seq![]);
    loop
        invariant
            s == toks@,
            stream_wf(s),
            n == s.len(),
            p <= q < n,
            var_list(s, q as int, names_view(acc@)) == var_list(s, p as int, seq![]),
        decreases n - q,
    {
        let ghost accv = names_view(acc@);
        if kind(toks, q) == TokenKind::Id {
            acc.push(tok(toks, q).text.clone());
            assert(names_view(acc@) =~= accv.push(text_at(s, q as int)));
            let q1 = q + 1;
            if kind(toks, q1) == TokenKind::Eq {
                match skip_expr(toks, q1 + 1, Prec::NoComma) {
                    Err(e) => return Err(e),
                    Ok(r) => {
                        if kind(toks, r) == TokenKind::Comma {
                            q = r + 1;
                        } else {
                            return Ok((r, acc));
                        }
                    },
                }
            } else if kind(toks, q1) == TokenKind::Comma {
                q = q1 + 1;
            } else {
                return Ok((q1, acc));
            }
        } else {
            return Err(Fault::Expected("binding name", q));
        }
    }
}

/// The value of the string literal at `r`; an invalid literal is reported
/// at `at`, with the stream stopped at `stop`.
pub open spec fn lit_value(s: Seq<Token>, r: int, at: int, stop: int) -> Result<Seq<char>, Fault> {
    let t = text_at(s, r);
    match str_lit_status(t) {
        None => Err(Fault::Unsupported),
        Some(Ok(_)) => Ok(str_lit_text(t)),
        Some(Err(e)) => Err(Fault::StrLit(e, at as usize, stop as usize)),
    }
}

/// The value of the string literal at `r` (see [`lit_value`]).
pub(crate) fn literal_value(toks: &Vec<Token>, r: usize, at: usize, stop: usize) -> (v: Result<String, Fault>)
    requires
        stream_wf(toks@),
    ensures
        match (v, lit_value(toks@, r as int, at as int, stop as int)) {
            (Ok(x), Ok(y)) => x@ == y,
            (Err(f), Err(g)) => f == g,
            _ => false,
        },
{
    let t = tok(toks, r).text.as_str();
    if str_lit_check(t).is_none() {
        return Err(Fault::Unsupported);
    }
    match es_str_lit_value(t) {
        Ok(x) => Ok(x),
        Err(e) => Err(Fault::StrLit(e, at, stop)),
    }
}

/// Parses the rest of an `export` declaration from `p` (after `export`),
/// with `out` the output so far: gives the position after it, what it
/// exports, and the output with the declaration's rewritten text added.
pub open spec fn export_decl(s: Seq<Token>, p: int, out: Seq<char>) -> Result<
    (int, ExportView, Seq<char>),
    (Fault, Seq<char>),
> {
    let k = kind_at(s, p);
    let w = out + ws_at(s, p);
    if k == TokenKind::Default {
        let q = p + 1;
        let k1 = kind_at(s, q);
        if k1 == TokenKind::Class {
            let o = w + echo_at(s, q);
            let r = q + 1;
            if kind_at(s, r) == TokenKind::Id {
                Ok((r + 1, ExportView::Default(text_at(s, r)), o + echo_at(s, r)))
            } else {
                Err((Fault::Expected("class name", r as usize), o))
            }
        } else if k1 == TokenKind::Function {
            let o = w + echo_at(s, q);
            let star = kind_at(s, q + 1) == TokenKind::Star;
            let r = if star {
                q + 2
            } else {
                q + 1
            };
            let o2 = if star {
                o + echo_at(s, q + 1)
            } else {
                o
            };
            if kind_at(s, r) == TokenKind::Id {
                Ok((r + 1, ExportView::Default(text_at(s, r)), o2 + echo_at(s, r)))
            } else {
                Err((Fault::Expected("function name", r as usize), o2))
            }
        } else {
            Ok((q, ExportView::Default("__default"@), w + "const __default = "@))
        }
    } else if k == TokenKind::Star {
        let q = p + 1;
        if is_id(s, q, "from"@) {
            let r = q + 1;
            if is_str_lit(s, r) {
                match lit_value(s, r, r, r + 1) {
                    Ok(v) => Ok((r + 1, ExportView::AllFrom(v), w + ws_at(s, q) + ws_at(s, r))),
                    Err(e) => Err((e, w + ws_at(s, q) + ws_at(s, r))),
                }
            } else {
                Err((Fault::Expected("module name (string literal)", r as usize), w + ws_at(s, q)))
            }
        } else {
            Err((Fault::Expected("keyword 'from'", q as usize), w))
        }
    } else if k == TokenKind::Lbrace {
        match binding_list(
            s,
            p + 1,
            seq![],
            w,
            "export name after keyword 'as'",
            "binding name or '}'",
        ) {
            Err(e) => Err(e),
            Ok((q, specs, o)) => if is_id(s, q, "from"@) {
                let r = q + 1;
                if is_str_lit(s, r) {
                    match lit_value(s, r, r, r + 1) {
                        Ok(v) => Ok(
                            (r + 1, ExportView::NamedFrom(specs, v), o + ws_at(s, q) + ws_at(s, r)),
                        ),
                        Err(e) => Err((e, o + ws_at(s, q) + ws_at(s, r))),
                    }
                } else {
                    Err((Fault::Expected("module name (string literal)", r as usize), o + ws_at(s, q)))
                }
            } else {
                Ok((q, ExportView::Named(specs), o))
            },
        }
    } else if k == TokenKind::Var || k == TokenKind::Const || is_id(s, p, "let"@) {
        match var_list(s, p + 1, seq![]) {
            Err(e) => Err((e, w)),
            Ok((q, names)) => Ok(
                (q, ExportView::Named(names.map_values(|x: Seq<char>| (x, x))), w + copy_text(s, p, q)),
            ),
        }
    } else if k == TokenKind::Function {
        let q = if kind_at(s, p + 1) == TokenKind::Star {
            p + 2
        } else {
            p + 1
        };
        if kind_at(s, q) == TokenKind::Id {
            Ok(
                (
                    q + 1,
                    ExportView::Named(seq![(text_at(s, q), text_at(s, q))]),
                    w + copy_text(s, p, q + 1),
                ),
            )
        } else {
            Err((Fault::Expected("function name", q as usize), w))
        }
    } else if k == TokenKind::Class {
        if kind_at(s, p + 1) == TokenKind::Id {
            Ok(
                (
                    p + 2,
                    ExportView::Named(seq![(text_at(s, p + 1), text_at(s, p + 1))]),
                    w + copy_text(s, p, p + 2),
                ),
            )
        } else {
            Err((Fault::Expected("class name", (p + 1) as usize), w))
        }
    } else {
        Err((Fault::Expected("keyword 'default' or '*' or '{' or declaration", p as usize), out))
    }
}

/// Turns pairs of names into export bindings `(bind, name)`.
fn export_specs(v: &Vec<(String, String)>) -> (r: Vec<ExportSpec>)
    ensures
        export_specs_view(r@) == pairs_view(v@),
{
    let mut r: Vec<ExportSpec> = Vec::new();
    let mut i: usize = 0;
    while i < v.len()
        invariant
            i <= v@.len(),
            export_specs_view(r@) =~= pairs_view(v@).subrange(0, i as int),
        decreases v@.len() - i,
    {
        let ghost before = r@;
        let e = ExportSpec::new(v[i].0.as_str(), v[i].1.as_str());
        r.push(e);
        proof {
            assert(r@ == before.push(e));
            assert(export_specs_view(r@) =~= export_specs_view(before).push(e@));
            assert(pairs_view(v@).subrange(0, i + 1) =~= pairs_view(v@).subrange(0, i as int).push(pairs_view(v@)[i as int]));
        }
        i = i + 1;
    }
    assert(pairs_view(v@).subrange(0, v@.len() as int) =~= pairs_view(v@));
    r
}


/// Export bindings that export each name under itself.
fn same_export_specs(v: &Vec<String>) -> (r: Vec<ExportSpec>)
    ensures
        export_specs_view(r@) == names_view(v@).map_values(|x: Seq<char>| (x, x)),
{
    let mut r: Vec<ExportSpec> = Vec::new();
    let mut i: usize = 0;
    let ghost target = names_view(v@).map_values(|x: Seq<char>| (x, x));
    while i < v.len()
        invariant
            i <= v@.len(),
            target == names_view(v@).map_values(|x: Seq<char>| (x, x)),
            export_specs_view(r@) =~= target.subrange(0, i as int),
        decreases v@.len() - i,
    {
        let ghost before = r@;
        let e = ExportSpec::same(v[i].as_str());
        r.push(e);
        proof {
            assert(r@ == before.push(e));
            assert(export_specs_view(r@) =~= export_specs_view(before).push(e@));
            assert(target.subrange(0, i + 1) =~= target.subrange(0, i as int).push(target[i as int]));
        }
        i = i + 1;
    }
    assert(target.subrange(0, v@.len() as int) =~= target);
    r
}

/// Parses the rest of an `export` declaration (see [`export_decl`]).
pub fn parse_export(toks: &Vec<Token>, p: usize, source: &mut String) -> (r: Result<
    (usize, Export),
    Fault,
>)
    requires
        stream_wf(toks@),
        p < toks@.len(),
    ensures
        match (r, export_decl(toks@, p as int, old(source)@)) {
            (Ok((q, e)), Ok((sq, se, so))) => q == sq && e@ == se && final(source)@ == so,
            (Err(f), Err((sf, so))) => f == sf && final(source)@ == so,
            _ => false,
        },
        r matches Ok((q, _)) ==> p < q < toks@.len(),
{
    let ghost s = toks@;
    let _n = toks.len();
    let k = kind(toks, p);
    if k == TokenKind::Default {
        push_ws(source, toks, p);
        let q = p + 1;
        let k1 = kind(toks, q);
        if k1 == TokenKind::Class {
            push_echo(source, toks, q);
            let r = q + 1;
            if kind(toks, r) == TokenKind::Id {
                push_echo(source, toks, r);
                Ok((r + 1, Export::Default(tok(toks, r).text.clone())))
            } else {
                Err(Fault::Expected("class name", r))
            }
        } else if k1 == TokenKind::Function {
            push_echo(source, toks, q);
            let star = kind(toks, q + 1) == TokenKind::Star;
            let r = if star {
                push_echo(source, toks, q + 1);
                q + 2
            } else {
                q + 1
            };
            if kind(toks, r) == TokenKind::Id {
                push_echo(source, toks, r);
                Ok((r + 1, Export::Default(tok(toks, r).text.clone())))
            } else {
                Err(Fault::Expected("function name", r))
            }
        } else {
            source.append("const __default = ");
            Ok((q, Export::Default("__default".to_string())))
        }
    } else if k == TokenKind::Star {
        push_ws(source, toks, p);
        let q = p + 1;
        if id_is(toks, q, "from") {
            push_ws(source, toks, q);
            let r = q + 1;
            if str_lit_at(toks, r) {
                push_ws(source, toks, r);
                match literal_value(toks, r, r, r + 1) {
                    Ok(v) => Ok((r + 1, Export::AllFrom(v))),
                    Err(e) => Err(e),
                }
            } else {
                Err(Fault::Expected("module name (string literal)", r))
            }
        } else {
            Err(Fault::Expected("keyword 'from'", q))
        }
    } else if k == TokenKind::Lbrace {
        push_ws(source, toks, p);
        match parse_binding_list(
            toks,
            p + 1,
            source,
            "export name after keyword 'as'",
            "binding name or '}'",
        ) {
            Err(e) => Err(e),
            Ok((q, pairs)) => {
                let specs = export_specs(&pairs);
                if id_is(toks, q, "from") {
                    push_ws(source, toks, q);
                    let r = q + 1;
                    if str_lit_at(toks, r) {
                        push_ws(source, toks, r);
                        match literal_value(toks, r, r, r + 1) {
                            Ok(v) => Ok((r + 1, Export::NamedFrom(specs, v))),
                            Err(e) => Err(e),
                        }
                    } else {
                        Err(Fault::Expected("module name (string literal)", r))
                    }
                } else {
                    Ok((q, Export::Named(specs)))
                }
            },
        }
    } else if k == TokenKind::Var || k == TokenKind::Const || id_is(toks, p, "let") {
        push_ws(source, toks, p);
        match parse_var_list(toks, p + 1) {
            Err(e) => Err(e),
            Ok((q, names)) => {
                push_copy(source, toks, p, q);
                Ok((q, Export::Named(same_export_specs(&names))))
            },
        }
    } else if k == TokenKind::Function {
        push_ws(source, toks, p);
        let q = if kind(toks, p + 1) == TokenKind::Star {
            p + 2
        } else {
            p + 1
        };
        if kind(toks, q) == TokenKind::Id {
            push_copy(source, toks, p, q + 1);
            let name = tok(toks, q).text.as_str();
            let ghost nv = name@;
            let mut specs: Vec<ExportSpec> = Vec::new();
            specs.push(ExportSpec::same(name));
            assert(export_specs_view(specs@) =~= seq![(nv, nv)]);
            Ok((q + 1, Export::Named(specs)))
        } else {
            Err(Fault::Expected("function name", q))
        }
    } else if k == TokenKind::Class {
        push_ws(source, toks, p);
        if kind(toks, p + 1) == TokenKind::Id {
            push_copy(source, toks, p, p + 2);
            let name = tok(toks, p + 1).text.as_str();
            let ghost nv = name@;
            let mut specs: Vec<ExportSpec> = Vec::new();
            specs.push(ExportSpec::same(name));
            assert(export_specs_view(specs@) =~= seq![(nv, nv)]);
            Ok((p + 2, Export::Named(specs)))
        } else {
            Err(Fault::Expected("class name", p + 1))
        }
    } else {
        Err(Fault::Expected("keyword 'default' or '*' or '{' or declaration", p))
    }
}


/// Turns pairs of names into import bindings `(name, bind)`.
fn import_specs(v: &Vec<(String, String)>) -> (r: Vec<ImportSpec>)
    ensures
        import_specs_view(r@) == pairs_view(v@),
{
    let mut r: Vec<ImportSpec> = Vec::new();
    let mut i: usize = 0;
    while i < v.len()
        invariant
            i <= v@.len(),
            import_specs_view(r@) =~= pairs_view(v@).subrange(0, i as int),
        decreases v@.len() - i,
    {
        let ghost before = r@;
        let e = ImportSpec::new(v[i].0.as_str(), v[i].1.as_str());
        r.push(e);
        proof {
            assert(r@ == before.push(e));
            assert(import_specs_view(r@) =~= import_specs_view(before).push(e@));
            assert(pairs_view(v@).subrange(0, i + 1) =~= pairs_view(v@).subrange(0, i as int).push(
                pairs_view(v@)[i as int],
            ));
        }
        i = i + 1;
    }
    assert(pairs_view(v@).subrange(0, v@.len() as int) =~= pairs_view(v@));
    r
}

/// Parses the bindings of an `import` declaration at `p`: `* as name` or
/// `{…}`; anything else fails with `expected`.
pub open spec fn bindings_decl(s: Seq<Token>, p: int, out: Seq<char>, expected: &'static str) -> Result<
    (int, BindingsView, Seq<char>),
    (Fault, Seq<char>),
> {
    let k = kind_at(s, p);
    if k == TokenKind::Star {
        let w = out + ws_at(s, p);
        let q = p + 1;
        if is_id(s, q, "as"@) {
            let r = q + 1;
            if kind_at(s, r) == TokenKind::Id {
                Ok((r + 1, BindingsView::NameSpace(text_at(s, r)), w + ws_at(s, q) + ws_at(s, r)))
            } else {
                Err((Fault::Expected("name space binding name", r as usize), w + ws_at(s, q)))
            }
        } else {
            Err((Fault::Expected("keyword 'as'", q as usize), w))
        }
    } else if k == TokenKind::Lbrace {
        match binding_list(
            s,
            p + 1,
            seq![],
            out + ws_at(s, p),
            "binding name after keyword 'as'",
            "import specifier or '}'",
        ) {
            Ok((q, specs, o)) => Ok((q, BindingsView::Named(specs), o)),
            Err(e) => Err(e),
        }
    } else {
        Err((Fault::Expected(expected, p as usize), out))
    }
}

/// Parses the bindings of an `import` declaration (see [`bindings_decl`]).
fn parse_bindings(toks: &Vec<Token>, p: usize, source: &mut String, expected: &'static str) -> (r:
    Result<(usize, Bindings), Fault>)
    requires
        stream_wf(toks@),
        p < toks@.len(),
    ensures
        match (r, bindings_decl(toks@, p as int, old(source)@, expected)) {
            (Ok((q, b)), Ok((sq, sb, so))) => q == sq && b@ == sb && final(source)@ == so,
            (Err(f), Err((sf, so))) => f == sf && final(source)@ == so,
            _ => false,
        },
        r matches Ok((q, _)) ==> p < q < toks@.len(),
{
    let _n = toks.len();
    let k = kind(toks, p);
    if k == TokenKind::Star {
        push_ws(source, toks, p);
        let q = p + 1;
        if id_is(toks, q, "as") {
            push_ws(source, toks, q);
            let r = q + 1;
            if kind(toks, r) == TokenKind::Id {
                push_ws(source, toks, r);
                Ok((r + 1, Bindings::NameSpace(tok(toks, r).text.clone())))
            } else {
                Err(Fault::Expected("name space binding name", r))
            }
        } else {
            Err(Fault::Expected("keyword 'as'", q))
        }
    } else if k == TokenKind::Lbrace {
        push_ws(source, toks, p);
        match parse_binding_list(
            toks,
            p + 1,
            source,
            "binding name after keyword 'as'",
            "import specifier or '}'",
        ) {
            Ok((q, pairs)) => Ok((q, Bindings::Named(import_specs(&pairs)))),
            Err(e) => Err(e),
        }
    } else {
        Err(Fault::Expected(expected, p))
    }
}

/// Parses the rest of an `import` declaration from `p` (after `import`),
/// with `out` the output so far: gives the position after it, what it
/// imports, and the output with the whitespace of its tokens added.
pub open spec fn import_decl(s: Seq<Token>, p: int, out: Seq<char>) -> Result<
    (int, ImportView, Seq<char>),
    (Fault, Seq<char>),
> {
    let k = kind_at(s, p);
    if is_str_lit(s, p) {
        match lit_value(s, p, p, p + 1) {
            Ok(v) => Ok(
                (
                    p + 1,
                    ImportView {
                        module_source: text_at(s, p),
                        module: v,
                        default_bind: None,
                        binds: BindingsView::Empty,
                    },
                    out + ws_at(s, p),
                ),
            ),
            Err(e) => Err((e, out + ws_at(s, p))),
        }
    } else {
        let head: Result<(int, Option<Seq<char>>, BindingsView, Seq<char>), (Fault, Seq<char>)> = if k
            == TokenKind::Id {
            let w = out + ws_at(s, p);
            let q = p + 1;
            if kind_at(s, q) == TokenKind::Comma {
                match bindings_decl(s, q + 1, w + ws_at(s, q), "bindings") {
                    Ok((r, b, o)) => Ok((r, Some(text_at(s, p)), b, o)),
                    Err(e) => Err(e),
                }
            } else {
                Ok((q, Some(text_at(s, p)), BindingsView::Empty, w))
            }
        } else {
            match bindings_decl(s, p, out, "module name (string literal) or bindings") {
                Ok((r, b, o)) => Ok((r, None, b, o)),
                Err(e) => Err(e),
            }
        };
        match head {
            Err(e) => Err(e),
            Ok((q, db, b, o)) => if is_id(s, q, "from"@) {
                let r = q + 1;
                if is_str_lit(s, r) {
                    match lit_value(s, r, r, r + 1) {
                        Ok(v) => Ok(
                            (
                                r + 1,
                                ImportView {
                                    module_source: text_at(s, r),
                                    module: v,
                                    default_bind: db,
                                    binds: b,
                                },
                                o + ws_at(s, q) + ws_at(s, r),
                            ),
                        ),
                        Err(e) => Err((e, o + ws_at(s, q) + ws_at(s, r))),
                    }
                } else {
                    Err((Fault::Expected("module name (string literal)", r as usize), o + ws_at(s, q)))
                }
            } else {
                Err((Fault::Expected("keyword 'from'", q as usize), o))
            },
        }
    }
}

/// Parses the rest of an `import` declaration (see [`import_decl`]).
pub fn parse_import(toks: &Vec<Token>, p: usize, source: &mut String) -> (r: Result<
    (usize, Import),
    Fault,
>)
    requires
        stream_wf(toks@),
        p < toks@.len(),
    ensures
        match (r, import_decl(toks@, p as int, old(source)@)) {
            (Ok((q, i)), Ok((sq, si, so))) => q == sq && i@ == si && final(source)@ == so,
            (Err(f), Err((sf, so))) => f == sf && final(source)@ == so,
            _ => false,
        },
        r matches Ok((q, _)) ==> p < q < toks@.len(),
{
    let _n = toks.len();
    let k = kind(toks, p);
    if str_lit_at(toks, p) {
        push_ws(source, toks, p);
        return match literal_value(toks, p, p, p + 1) {
            Ok(v) => Ok((p + 1, Import::new(tok(toks, p).text.as_str(), v.as_str()))),
            Err(e) => Err(e),
        };
    }
    let (q, default_bind, binds) = if k == TokenKind::Id {
        push_ws(source, toks, p);
        let name = tok(toks, p).text.clone();
        let q = p + 1;
        if kind(toks, q) == TokenKind::Comma {
            push_ws(source, toks, q);
            match parse_bindings(toks, q + 1, source, "bindings") {
                Ok((r, b)) => (r, Some(name), b),
                Err(e) => return Err(e),
            }
        } else {
            (q, Some(name), Bindings::Empty)
        }
    } else {
        match parse_bindings(toks, p, source, "module name (string literal) or bindings") {
            Ok((r, b)) => (r, None, b),
            Err(e) => return Err(e),
        }
    };
    if id_is(toks, q, "from") {
        push_ws(source, toks, q);
        let r = q + 1;
        if str_lit_at(toks, r) {
            push_ws(source, toks, r);
            match literal_value(toks, r, r, r + 1) {
                Ok(v) => Ok(
                    (r + 1, Import::with_bindings(tok(toks, r).text.clone(), v, default_bind, binds)),
                ),
                Err(e) => Err(e),
            }
        } else {
            Err(Fault::Expected("module name (string literal)", r))
        }
    } else {
        Err(Fault::Expected("keyword 'from'", q))
    }
}

} // verus!
