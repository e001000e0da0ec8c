//! Properties of the module rewriting as a whole.

use vstd::prelude::*;
use crate::cjs::{
    ModState, CjsView, module_loop, module_result, add_dep, add_import_deps, prefix_text,
    empty_state, has_reexport,
};
use crate::es6::ImportView;
use crate::parse::{
    export_decl, import_decl, lit_value, Prec, Delim, balanced_end, prefix_end, expr_end,
    primary_end, postfix_end, postfix_delim, is_infix, Fault, binding_list, var_list,
    bindings_decl,
};
use crate::strlit::{str_lit_status, str_lit_text};
use crate::cjs::{
    module_line, module_lines, imports_props, import_props, named_import_props, exports_props,
    export_props, named_export_props,
};
use crate::es6::{BindingsView, ExportView};
use crate::text::decimal;
use crate::cjs::require_call;
use crate::token::{
    Token, TokenKind, TokenStream, stream_wf, kind_at, ws_at, echo_at, joined, pieces,
};

verus! {

/// The tokens at positions `a` to `b - 1`, as they are written back out.
pub open spec fn echo_from(s: Seq<Token>, a: int, b: int) -> Seq<char>
    decreases b - a,
{
    if a >= b {
        Seq::empty()
    } else {
        echo_at(s, a) + echo_from(s, a + 1, b)
    }
}

/// No token from position `p` on is `import` or `export`.
pub open spec fn no_declarations(s: Seq<Token>, p: int) -> bool {
    forall|i: int| p <= i < s.len() ==> (#[trigger] s[i].tt) != TokenKind::Export && s[i].tt != TokenKind::Import
}

/// The tokens were lexed without error: no lexical error token, and no
/// source text outside the tokens.
pub open spec fn clean(s: Seq<Token>) -> bool {
    forall|i: int|
        0 <= i < s.len() ==> (#[trigger] s[i].tt) != TokenKind::LexError && s[i].gap@.len() == 0
}

proof fn lemma_plain_loop(s: Seq<Token>, p: int, st: ModState)
    requires
        stream_wf(s),
        0 <= p < s.len(),
        no_declarations(s, p),
    ensures
        module_loop(s, p, false, st) == Ok::<(int, ModState), crate::parse::Fault>(
            (
                s.len() - 1,
                ModState {
                    out: st.out + echo_from(s, p, s.len() - 1) + ws_at(s, s.len() - 1),
                    deps: st.deps,
                    imports: st.imports,
                    exports: st.exports,
                },
            ),
        ),
    decreases s.len() - p,
{
    if p == s.len() - 1 {
        assert(st.out + echo_from(s, p, s.len() - 1) =~= st.out);
    } else {
        assert(s[p].tt != TokenKind::Eof);
        let st2 = ModState {
            out: st.out + echo_at(s, p),
            deps: st.deps,
            imports: st.imports,
            exports: st.exports,
        };
        lemma_plain_loop(s, p + 1, st2);
        assert(st2.out + echo_from(s, p + 1, s.len() - 1) =~= st.out + echo_from(
            s,
            p,
            s.len() - 1,
        ));
    }
}

/// A module without `import` or `export` declarations, rewritten without
/// tracking `require`, keeps every token as it was written, depends on
/// nothing, gets the bare prefix, and is read to its end.
pub proof fn law_plain_module(s: Seq<Token>, p: int)
    requires
        stream_wf(s),
        0 <= p < s.len(),
        no_declarations(s, p),
    ensures
        module_result(s, p, false) == Ok::<(int, CjsView), crate::parse::Fault>(
            (
                s.len() - 1,
                CjsView {
                    source_prefix: "Object.defineProperty(exports, '__esModule', {value: true})\n"@
                        + "~function() {"@ + "\n'use strict';\n"@,
                    source: echo_from(s, p, s.len() - 1) + ws_at(s, s.len() - 1),
                    source_suffix: "}()"@,
                    deps: Seq::empty(),
                },
            ),
        ),
{
    lemma_plain_loop(s, p, empty_state());
    let st = empty_state();
    assert(st.out + echo_from(s, p, s.len() - 1) + ws_at(s, s.len() - 1) =~= echo_from(
        s,
        p,
        s.len() - 1,
    ) + ws_at(s, s.len() - 1));
    assert(!has_reexport(Seq::empty()));
    assert(prefix_text(Seq::empty(), Seq::empty(), false) =~= "Object.defineProperty(exports, '__esModule', {value: true})\n"@
        + "~function() {"@ + "\n'use strict';\n"@);
}

proof fn lemma_joined_front(t: Seq<Token>)
    requires
        t.len() > 0,
    ensures
        joined(t) == pieces(t[0]) + joined(t.drop_first()),
    decreases t.len(),
{
    if t.len() == 1 {
        assert(t.drop_last() =~= Seq::<Token>::empty());
        assert(t.drop_first() =~= Seq::<Token>::empty());
        assert(joined(t) =~= pieces(t[0]) + joined(t.drop_first()));
    } else {
        lemma_joined_front(t.drop_last());
        assert(t.drop_last().drop_first() =~= t.drop_first().drop_last());
        assert(t.drop_first().last() == t.last());
        assert(t.drop_last()[0] == t[0]);
        assert(joined(t) =~= pieces(t[0]) + joined(t.drop_first()));
    }
}

proof fn lemma_clean_echo(s: Seq<Token>, a: int)
    requires
        stream_wf(s),
        clean(s),
        s.last().text@.len() == 0,
        0 <= a < s.len(),
    ensures
        echo_from(s, a, s.len() - 1) + ws_at(s, s.len() - 1) == joined(s.subrange(a, s.len() as int)),
    decreases s.len() - a,
{
    let t = s.subrange(a, s.len() as int);
    lemma_joined_front(t);
    assert(t.drop_first() =~= s.subrange(a + 1, s.len() as int));
    if a == s.len() - 1 {
        assert(s.subrange(a + 1, s.len() as int) =~= Seq::<Token>::empty());
        assert(s[a].tt != TokenKind::LexError);
        assert(s[a].gap@ =~= Seq::<char>::empty());
        assert(s[a].text@ =~= Seq::<char>::empty());
        assert(echo_from(s, a, s.len() - 1) + ws_at(s, s.len() - 1) =~= joined(t));
    } else {
        lemma_clean_echo(s, a + 1);
        assert(s[a].tt != TokenKind::LexError);
        assert(s[a].gap@ =~= Seq::<char>::empty());
        assert(echo_at(s, a) =~= pieces(s[a]));
        assert(echo_from(s, a, s.len() - 1) + ws_at(s, s.len() - 1) =~= joined(t));
    }
}

proof fn lemma_echo_concat(s: Seq<Token>, a: int, b: int, c: int)
    requires
        a <= b <= c,
    ensures
        echo_from(s, a, b) + echo_from(s, b, c) == echo_from(s, a, c),
    decreases b - a,
{
    if a == b {
        assert(echo_from(s, a, b) + echo_from(s, b, c) =~= echo_from(s, a, c));
    } else {
        lemma_echo_concat(s, a + 1, b, c);
        assert(echo_from(s, a, b) + echo_from(s, b, c) =~= echo_from(s, a, c));
    }
}

proof fn lemma_joined_echo(s: Seq<Token>, a: int, b: int)
    requires
        stream_wf(s),
        clean(s),
        0 <= a <= b < s.len(),
    ensures
        joined(s.subrange(a, b)) == echo_from(s, a, b),
    decreases b - a,
{
    if a == b {
        assert(s.subrange(a, b) =~= Seq::<Token>::empty());
    } else {
        let t = s.subrange(a, b);
        lemma_joined_front(t);
        assert(t.drop_first() =~= s.subrange(a + 1, b));
        lemma_joined_echo(s, a + 1, b);
        assert(s[a].tt != TokenKind::LexError);
        assert(s[a].gap@ =~= Seq::<char>::empty());
        assert(pieces(s[a]) =~= echo_at(s, a));
    }
}

#[verifier::rlimit(30)]
proof fn lemma_clean_loop(s: Seq<Token>, p: int, allow_require: bool, st: ModState)
    requires
        stream_wf(s),
        clean(s),
        0 <= p < s.len(),
        no_declarations(s, p),
    ensures
        module_loop(s, p, allow_require, st) matches Ok((_, st2)) ==> st2.out == st.out + echo_from(
            s,
            p,
            s.len() - 1,
        ) + ws_at(s, s.len() - 1),
    decreases s.len() - p,
{
    let k = kind_at(s, p);
    if p == s.len() - 1 {
        assert(st.out + echo_from(s, p, s.len() - 1) =~= st.out);
    } else if allow_require && crate::token::is_id(s, p, "require"@) {
        let end = require_call(s, p).0;
        let w = st.out + ws_at(s, p);
        let out = w + crate::token::copy_text(s, p, end);
        assert(p < end < s.len());
        lemma_joined_echo(s, p + 1, end);
        assert(s[end].tt != TokenKind::LexError);
        assert(s[end].gap@ =~= Seq::<char>::empty());
        assert(out =~= st.out + echo_from(s, p, end));
        lemma_echo_concat(s, p, end, s.len() - 1);
        let d = match require_call(s, p).1 {
            None => st.deps,
            Some(r) => match lit_value(s, r, p, end) {
                Ok(v) => add_dep(st.deps, v),
                Err(_) => st.deps,
            },
        };
        lemma_clean_loop(
            s,
            end,
            allow_require,
            ModState { out, deps: d, imports: st.imports, exports: st.exports },
        );
        assert(out + echo_from(s, end, s.len() - 1) + ws_at(s, s.len() - 1) =~= st.out + echo_from(
            s,
            p,
            s.len() - 1,
        ) + ws_at(s, s.len() - 1));
    } else {
        assert(s[p].tt != TokenKind::Eof);
        assert(k != TokenKind::Export && k != TokenKind::Import);
        let st2 = ModState {
            out: st.out + echo_at(s, p),
            deps: st.deps,
            imports: st.imports,
            exports: st.exports,
        };
        lemma_clean_loop(s, p + 1, allow_require, st2);
        assert(st2.out + echo_from(s, p + 1, s.len() - 1) =~= st.out + echo_from(
            s,
            p,
            s.len() - 1,
        ));
    }
}

/// A script that lexes cleanly and holds no `import` or `export`
/// declaration comes out of the rewriting exactly as it went in, `require`
/// calls included; without `require` tracking the rewriting cannot fail.
pub proof fn law_script_unchanged(lex: TokenStream, allow_require: bool)
    requires
        lex.wf(),
        lex.position() == 0,
        no_declarations(lex.tokens(), 0),
        clean(lex.tokens()),
    ensures
        module_result(lex.tokens(), 0, allow_require) matches Ok((_, m)) ==> m.source
            == lex.source(),
        !allow_require ==> module_result(lex.tokens(), 0, allow_require) is Ok,
{
    lex.lemma_wf();
    let s = lex.tokens();
    law_plain_module(s, 0);
    lemma_clean_loop(s, 0, allow_require, empty_state());
    lemma_clean_echo(s, 0);
    assert(s.subrange(0, s.len() as int) =~= s);
    assert(empty_state().out + echo_from(s, 0, s.len() - 1) + ws_at(s, s.len() - 1) =~= echo_from(
        s,
        0,
        s.len() - 1,
    ) + ws_at(s, s.len() - 1));
}

/// A sequence of names has no repeats.
pub open spec fn distinct(d: Seq<Seq<char>>) -> bool {
    forall|i: int, j: int| 0 <= i < j < d.len() ==> d[i] != d[j]
}

proof fn lemma_add_dep_distinct(d: Seq<Seq<char>>, v: Seq<char>)
    requires
        distinct(d),
    ensures
        distinct(add_dep(d, v)),
        forall|x: Seq<char>| #[trigger] add_dep(d, v).contains(x) <==> (d.contains(x) || x == v),
{
    if !d.contains(v) {
        let e = d.push(v);
        assert forall|i: int, j: int| 0 <= i < j < e.len() implies e[i] != e[j] by {
            if j == d.len() {
                assert(d.contains(d[i]));
            }
        }
        assert forall|x: Seq<char>| #[trigger] e.contains(x) implies (d.contains(x) || x == v) by {
            let k = choose|k: int| 0 <= k < e.len() && e[k] == x;
            if k < d.len() {
                assert(d[k] == x);
            }
        }
        assert forall|x: Seq<char>| (d.contains(x) || x == v) implies #[trigger] e.contains(x) by {
            if d.contains(x) {
                let k = choose|k: int| 0 <= k < d.len() && d[k] == x;
                assert(e[k] == x);
            } else {
                assert(e[d.len() as int] == x);
            }
        }
    }
}

/// Adding the modules of imports to a list of dependencies without
/// repeats keeps it without repeats, keeps every earlier dependency, adds
/// every imported module, and adds nothing else.
pub proof fn law_import_deps(deps: Seq<Seq<char>>, ims: Seq<ImportView>, n: nat)
    requires
        distinct(deps),
        n <= ims.len(),
    ensures
        distinct(add_import_deps(deps, ims, n)),
        forall|x: Seq<char>|
            #[trigger] add_import_deps(deps, ims, n).contains(x) <==> (deps.contains(x) || exists|
                i: int,
            | 0 <= i < n && ims[i].module == x),
    decreases n,
{
    if n > 0 {
        law_import_deps(deps, ims, (n - 1) as nat);
        let d = add_import_deps(deps, ims, (n - 1) as nat);
        lemma_add_dep_distinct(d, ims[n - 1].module);
        assert forall|x: Seq<char>|
            #[trigger] add_import_deps(deps, ims, n).contains(x) <==> (deps.contains(x) || exists|
                i: int,
            | 0 <= i < n && ims[i].module == x) by {
            if add_import_deps(deps, ims, n).contains(x) {
                if !d.contains(x) {
                    assert(ims[n - 1].module == x);
                }
            }
            if exists|i: int| 0 <= i < n && ims[i].module == x {
                let i = choose|i: int| 0 <= i < n && ims[i].module == x;
                if i < n - 1 {
                    assert(d.contains(x));
                }
            }
        }
    }
}


/// The dependencies found while rewriting stay without repeats; without
/// `require` tracking, none are found.
pub proof fn law_loop_deps(s: Seq<Token>, p: int, allow_require: bool, st: ModState)
    requires
        distinct(st.deps),
    ensures
        module_loop(s, p, allow_require, st) matches Ok((_, st2)) ==> distinct(st2.deps) && (
        !allow_require ==> st2.deps == st.deps),
    decreases s.len() - p,
{
    let k = kind_at(s, p);
    let w = st.out + ws_at(s, p);
    if k == TokenKind::Export {
        if let Ok((q, e, o)) = export_decl(s, p + 1, w) {
            if p < q < s.len() {
                law_loop_deps(
                    s,
                    q,
                    allow_require,
                    ModState { out: o, deps: st.deps, imports: st.imports, exports: st.exports.push(e) },
                );
            }
        }
    } else if k == TokenKind::Import {
        if let Ok((q, i, o)) = import_decl(s, p + 1, w) {
            if p < q < s.len() {
                law_loop_deps(
                    s,
                    q,
                    allow_require,
                    ModState { out: o, deps: st.deps, imports: st.imports.push(i), exports: st.exports },
                );
            }
        }
    } else if allow_require && crate::token::is_id(s, p, "require"@) {
        let end = require_call(s, p).0;
        let out = w + crate::token::copy_text(s, p, end);
        match require_call(s, p).1 {
            None => {
                law_loop_deps(
                    s,
                    end,
                    allow_require,
                    ModState { out, deps: st.deps, imports: st.imports, exports: st.exports },
                );
            },
            Some(r) => {
                if let Ok(v) = lit_value(s, r, p, end) {
                    lemma_add_dep_distinct(st.deps, v);
                    law_loop_deps(
                        s,
                        end,
                        allow_require,
                        ModState {
                            out,
                            deps: add_dep(st.deps, v),
                            imports: st.imports,
                            exports: st.exports,
                        },
                    );
                }
            },
        }
    } else if k == TokenKind::Eof {
    } else {
        law_loop_deps(
            s,
            p + 1,
            allow_require,
            ModState { out: st.out + echo_at(s, p), deps: st.deps, imports: st.imports, exports: st.exports },
        );
    }
}

/// A rewritten module lists each dependency once; its source is followed
/// by the end of the module's function, and its prefix starts by marking
/// it as an ES module.
pub proof fn law_module_shape(s: Seq<Token>, p: int, allow_require: bool)
    ensures
        module_result(s, p, allow_require) matches Ok((_, m)) ==> distinct(m.deps)
            && m.source_suffix == "}()"@ && m.source_prefix.subrange(
            0,
            "Object.defineProperty(exports, '__esModule', {value: true})\n"@.len() as int,
        ) == "Object.defineProperty(exports, '__esModule', {value: true})\n"@,
{
    assert(distinct(empty_state().deps));
    law_loop_deps(s, p, allow_require, empty_state());
    if let Ok((q, st)) = module_loop(s, p, allow_require, empty_state()) {
        if !has_reexport(st.exports) {
            law_import_deps(st.deps, st.imports, st.imports.len());
            let head = "Object.defineProperty(exports, '__esModule', {value: true})\n"@;
            let pre = prefix_text(st.imports, st.exports, allow_require);
            assert(pre.subrange(0, head.len() as int) =~= head);
        }
    }
}

/// Skipping nested delimiters never moves back.
proof fn lemma_balanced_forward(s: Seq<Token>, p: int, d: Delim, depth: nat, expect: &'static str)
    ensures
        balanced_end(s, p, d, depth, expect) matches Ok(x) ==> x >= p,
        balanced_end(s, p, d, depth, expect) matches Err(f) ==> f is Expected,
    decreases s.len() - p,
{
    if depth != 0 {
        let k = kind_at(s, p);
        if k != TokenKind::Eof {
            if crate::parse::opens(d, k) {
                lemma_balanced_forward(s, p + 1, d, depth + 1, expect);
            } else if crate::parse::closes(d, k) {
                lemma_balanced_forward(s, p + 1, d, (depth - 1) as nat, expect);
            } else {
                lemma_balanced_forward(s, p + 1, d, depth, expect);
            }
        }
    }
}

/// Skipping prefix operators never moves back.
proof fn lemma_prefix_forward(s: Seq<Token>, p: int)
    ensures
        prefix_end(s, p) matches Ok((q, _, _)) ==> q >= p,
        prefix_end(s, p) matches Err(f) ==> f is Expected,
    decreases s.len() - p,
{
    let k = kind_at(s, p);
    if crate::parse::is_prefix_op(k) || crate::token::is_id(s, p, "await"@) {
        lemma_prefix_forward(s, p + 1);
    } else if k == TokenKind::New {
        if kind_at(s, p + 1) != TokenKind::Dot {
            lemma_prefix_forward(s, p + 1);
        }
    } else if k == TokenKind::Yield {
        if !crate::token::tok_at(s, p + 1).nl_before {
            if kind_at(s, p + 1) == TokenKind::Star {
                lemma_prefix_forward(s, p + 2);
            } else {
                lemma_prefix_forward(s, p + 1);
            }
        }
    }
}

/// Skipping an expression never moves back.
proof fn lemma_expr_forward(s: Seq<Token>, p: int, prec: Prec)
    ensures
        expr_end(s, p, prec) matches Ok(x) ==> x >= p,
        expr_end(s, p, prec) matches Err(f) ==> f is Expected,
    decreases s.len() - p, 3int,
{
    lemma_prefix_forward(s, p);
    if let Ok((q, had_primary, stop)) = prefix_end(s, p) {
        if !(stop || q < p || q >= s.len()) {
            if !had_primary {
                lemma_primary_forward(s, q);
            }
            let prim = if had_primary {
                Ok(q)
            } else {
                primary_end(s, q)
            };
            if let Ok(r) = prim {
                if !(prec == Prec::Primary || r < p || r >= s.len()) {
                    lemma_postfix_forward(s, r, prec);
                }
            }
        }
    }
}

/// Skipping a primary expression never moves back.
proof fn lemma_primary_forward(s: Seq<Token>, p: int)
    ensures
        primary_end(s, p) matches Ok(x) ==> x >= p,
        primary_end(s, p) matches Err(f) ==> f is Expected,
    decreases s.len() - p, 1int,
{
    let k = kind_at(s, p);
    if k == TokenKind::TemplateStart {
        lemma_balanced_forward(s, p + 1, Delim::Template, 1, "end of template literal");
    } else if k == TokenKind::Lbracket {
        lemma_balanced_forward(s, p + 1, Delim::Bracket, 1, "']'");
    } else if k == TokenKind::Lbrace {
        lemma_balanced_forward(s, p + 1, Delim::Brace, 1, "'}'");
    } else if k == TokenKind::Lparen {
        lemma_balanced_forward(s, p + 1, Delim::Paren, 1, "')'");
    } else if k == TokenKind::Function {
        let q1 = if kind_at(s, p + 1) == TokenKind::Star {
            p + 2
        } else {
            p + 1
        };
        let q2 = if kind_at(s, q1) == TokenKind::Id {
            q1 + 1
        } else {
            q1
        };
        lemma_balanced_forward(s, q2 + 1, Delim::Paren, 1, "')'");
        if let Ok(r) = balanced_end(s, q2 + 1, Delim::Paren, 1, "')'") {
            lemma_balanced_forward(s, r + 1, Delim::Brace, 1, "'}'");
        }
    } else if k == TokenKind::Class {
        let q1 = if kind_at(s, p + 1) == TokenKind::Id {
            p + 2
        } else {
            p + 1
        };
        if kind_at(s, q1) == TokenKind::Extends {
            lemma_expr_forward(s, q1 + 1, Prec::NoComma);
        }
        let heritage = if kind_at(s, q1) == TokenKind::Extends {
            expr_end(s, q1 + 1, Prec::NoComma)
        } else {
            Ok(q1)
        };
        if let Ok(q2) = heritage {
            lemma_balanced_forward(s, q2 + 1, Delim::Brace, 1, "'}'");
        }
    }
}

/// Skipping postfix and infix parts never moves back.
proof fn lemma_postfix_forward(s: Seq<Token>, p: int, prec: Prec)
    ensures
        postfix_end(s, p, prec) matches Ok(x) ==> x >= p,
        postfix_end(s, p, prec) matches Err(f) ==> f is Expected,
    decreases s.len() - p, 2int,
{
    let k = kind_at(s, p);
    if (k == TokenKind::PlusPlus || k == TokenKind::MinusMinus) && !crate::token::tok_at(
        s,
        p,
    ).nl_before {
        lemma_postfix_forward(s, p + 1, prec);
    } else if k == TokenKind::Dot {
        if kind_at(s, p + 1) == TokenKind::Id {
            lemma_postfix_forward(s, p + 2, prec);
        }
    } else if k == TokenKind::TemplateStart || k == TokenKind::Lbracket || k == TokenKind::Lparen {
        lemma_balanced_forward(s, p + 1, postfix_delim(k).0, 1, postfix_delim(k).1);
        if let Ok(r) = balanced_end(s, p + 1, postfix_delim(k).0, 1, postfix_delim(k).1) {
            if p < r < s.len() {
                lemma_postfix_forward(s, r, prec);
            }
        }
    } else if is_infix(k) || (k == TokenKind::Comma && prec == Prec::Any) {
        lemma_expr_forward(s, p + 1, Prec::Primary);
        if let Ok(r) = expr_end(s, p + 1, Prec::Primary) {
            if p < r < s.len() {
                lemma_postfix_forward(s, r, prec);
            }
        }
    }
}

/// The postfix part skipped down to `NoComma` ends no later than the one
/// skipped down to `Any`.
proof fn lemma_postfix_comma(s: Seq<Token>, p: int)
    ensures
        (postfix_end(s, p, Prec::NoComma), postfix_end(s, p, Prec::Any)) matches (Ok(b), Ok(c))
            ==> b <= c,
    decreases s.len() - p,
{
    let k = kind_at(s, p);
    if (k == TokenKind::PlusPlus || k == TokenKind::MinusMinus) && !crate::token::tok_at(
        s,
        p,
    ).nl_before {
        lemma_postfix_comma(s, p + 1);
    } else if k == TokenKind::Dot {
        if kind_at(s, p + 1) == TokenKind::Id {
            lemma_postfix_comma(s, p + 2);
        }
    } else if k == TokenKind::TemplateStart || k == TokenKind::Lbracket || k == TokenKind::Lparen {
        if let Ok(r) = balanced_end(s, p + 1, postfix_delim(k).0, 1, postfix_delim(k).1) {
            if p < r < s.len() {
                lemma_postfix_comma(s, r);
            }
        }
    } else if is_infix(k) {
        if let Ok(r) = expr_end(s, p + 1, Prec::Primary) {
            if p < r < s.len() {
                lemma_postfix_comma(s, r);
            }
        }
    } else {
        lemma_postfix_forward(s, p, Prec::Any);
    }
}

/// A looser precedence never stops an expression earlier: where skipping
/// from `p` down to `Primary`, to `NoComma` and to `Any` all succeed, they
/// end in that order.
pub proof fn law_precedence_monotone(s: Seq<Token>, p: int)
    ensures
        (expr_end(s, p, Prec::Primary), expr_end(s, p, Prec::NoComma)) matches (Ok(a), Ok(b)) ==> a
            <= b,
        (expr_end(s, p, Prec::NoComma), expr_end(s, p, Prec::Any)) matches (Ok(b), Ok(c)) ==> b
            <= c,
{
    if let Ok((q, had_primary, stop)) = prefix_end(s, p) {
        if !(stop || q < p || q >= s.len()) {
            let prim = if had_primary {
                Ok(q)
            } else {
                primary_end(s, q)
            };
            if let Ok(r) = prim {
                if !(r < p || r >= s.len()) {
                    lemma_postfix_forward(s, r, Prec::NoComma);
                    lemma_postfix_comma(s, r);
                }
            }
        }
    }
}

/// Every string literal of the stream decodes without panicking: its value
/// or its error is what `esparse` returns.
pub open spec fn literals_decodable(s: Seq<Token>) -> bool {
    forall|i: int| #[trigger] crate::token::is_str_lit(s, i) ==> str_lit_status(crate::token::text_at(s, i)) is Some
}

/// A variable list fails only where something else was expected.
proof fn lemma_var_list_expected(s: Seq<Token>, p: int, acc: Seq<Seq<char>>)
    ensures
        var_list(s, p, acc) matches Err(f) ==> f is Expected,
    decreases s.len() - p,
{
    if kind_at(s, p) == TokenKind::Id {
        let acc2 = acc.push(crate::token::text_at(s, p));
        let q = p + 1;
        if kind_at(s, q) == TokenKind::Eq {
            lemma_expr_forward(s, q + 1, Prec::NoComma);
            if let Ok(r) = expr_end(s, q + 1, Prec::NoComma) {
                if q < r < s.len() && kind_at(s, r) == TokenKind::Comma {
                    lemma_var_list_expected(s, r + 1, acc2);
                }
            }
        } else if kind_at(s, q) == TokenKind::Comma {
            lemma_var_list_expected(s, q + 1, acc2);
        }
    }
}

/// A binding list fails only where something else was expected.
proof fn lemma_binding_list_expected(
    s: Seq<Token>,
    p: int,
    acc: Seq<(Seq<char>, Seq<char>)>,
    out: Seq<char>,
    as_msg: &'static str,
    open_msg: &'static str,
)
    ensures
        binding_list(s, p, acc, out, as_msg, open_msg) matches Err((f, _)) ==> f is Expected,
    decreases s.len() - p,
{
    if kind_at(s, p) == TokenKind::Id {
        let first = crate::token::text_at(s, p);
        let out1 = out + ws_at(s, p);
        let q = p + 1;
        if crate::token::is_id(s, q, "as"@) {
            let r = q + 1;
            if kind_at(s, r) == TokenKind::Id {
                let out3 = out1 + ws_at(s, q) + ws_at(s, r);
                let acc2 = acc.push((first, crate::token::text_at(s, r)));
                let t = r + 1;
                if kind_at(s, t) == TokenKind::Comma {
                    lemma_binding_list_expected(s, t + 1, acc2, out3 + ws_at(s, t), as_msg, open_msg);
                }
            }
        } else if kind_at(s, q) == TokenKind::Comma {
            lemma_binding_list_expected(
                s,
                q + 1,
                acc.push((first, first)),
                out1 + ws_at(s, q),
                as_msg,
                open_msg,
            );
        }
    }
}

/// With decodable literals, an `export` declaration is never unsupported.
proof fn lemma_export_supported(s: Seq<Token>, p: int, out: Seq<char>)
    requires
        literals_decodable(s),
    ensures
        export_decl(s, p, out) matches Err((f, _)) ==> !(f is Unsupported),
{
    let w = out + ws_at(s, p);
    lemma_binding_list_expected(
        s,
        p + 1,
        seq![],
        w,
        "export name after keyword 'as'",
        "binding name or '}'",
    );
    lemma_var_list_expected(s, p + 1, seq![]);
}

/// With decodable literals, an `import` declaration is never unsupported.
proof fn lemma_import_supported(s: Seq<Token>, p: int, out: Seq<char>)
    requires
        literals_decodable(s),
    ensures
        import_decl(s, p, out) matches Err((f, _)) ==> !(f is Unsupported),
{
    let w = out + ws_at(s, p);
    lemma_binding_list_expected(
        s,
        p + 3,
        seq![],
        w + ws_at(s, p + 1) + ws_at(s, p + 2),
        "binding name after keyword 'as'",
        "import specifier or '}'",
    );
    lemma_binding_list_expected(
        s,
        p + 1,
        seq![],
        out + ws_at(s, p),
        "binding name after keyword 'as'",
        "import specifier or '}'",
    );
}

/// With decodable literals, the rewriting loop is never unsupported.
proof fn lemma_loop_supported(s: Seq<Token>, p: int, allow_require: bool, st: ModState)
    requires
        literals_decodable(s),
    ensures
        !(module_loop(s, p, allow_require, st) matches Err(Fault::Unsupported)),
    decreases s.len() - p,
{
    let k = kind_at(s, p);
    let w = st.out + ws_at(s, p);
    if k == TokenKind::Export {
        lemma_export_supported(s, p + 1, w);
        if let Ok((q, e, o)) = export_decl(s, p + 1, w) {
            if p < q < s.len() {
                lemma_loop_supported(
                    s,
                    q,
                    allow_require,
                    ModState { out: o, deps: st.deps, imports: st.imports, exports: st.exports.push(e) },
                );
            }
        }
    } else if k == TokenKind::Import {
        lemma_import_supported(s, p + 1, w);
        if let Ok((q, i, o)) = import_decl(s, p + 1, w) {
            if p < q < s.len() {
                lemma_loop_supported(
                    s,
                    q,
                    allow_require,
                    ModState { out: o, deps: st.deps, imports: st.imports.push(i), exports: st.exports },
                );
            }
        }
    } else if allow_require && crate::token::is_id(s, p, "require"@) {
        let end = require_call(s, p).0;
        let out = w + crate::token::copy_text(s, p, end);
        match require_call(s, p).1 {
            None => {
                lemma_loop_supported(
                    s,
                    end,
                    allow_require,
                    ModState { out, deps: st.deps, imports: st.imports, exports: st.exports },
                );
            },
            Some(r) => {
                assert(crate::token::is_str_lit(s, r));
                if let Ok(v) = lit_value(s, r, p, end) {
                    lemma_loop_supported(
                        s,
                        end,
                        allow_require,
                        ModState {
                            out,
                            deps: add_dep(st.deps, v),
                            imports: st.imports,
                            exports: st.exports,
                        },
                    );
                }
            },
        }
    } else if k != TokenKind::Eof {
        lemma_loop_supported(
            s,
            p + 1,
            allow_require,
            ModState { out: st.out + echo_at(s, p), deps: st.deps, imports: st.imports, exports: st.exports },
        );
    }
}

/// Where every string literal decodes without panicking, the one input that
/// the rewriting does not support is a re-export (`export * from`,
/// `export {…} from`): it otherwise succeeds or reports an error.
pub proof fn law_unsupported_is_reexport(s: Seq<Token>, p: int, allow_require: bool)
    requires
        literals_decodable(s),
    ensures
        module_result(s, p, allow_require) matches Err(Fault::Unsupported) ==> (module_loop(
            s,
            p,
            allow_require,
            empty_state(),
        ) matches Ok((_, st)) && has_reexport(st.exports)),
{
    lemma_loop_supported(s, p, allow_require, empty_state());
}

/// `w` occurs in `t` as a contiguous piece.
pub open spec fn occurs_in(w: Seq<char>, t: Seq<char>) -> bool {
    exists|a: int| 0 <= a && a + w.len() <= t.len() && #[trigger] t.subrange(a, a + w.len()) == w
}

/// A text occurs in any text that holds it between two others.
proof fn lemma_occurs_between(pre: Seq<char>, w: Seq<char>, post: Seq<char>)
    ensures
        occurs_in(w, pre + w + post),
{
    let t = pre + w + post;
    let a = pre.len() as int;
    assert(t.subrange(a, a + w.len()) =~= w);
}

/// What occurs in a piece of a text occurs in the text.
proof fn lemma_occurs_trans(w: Seq<char>, u: Seq<char>, t: Seq<char>)
    requires
        occurs_in(w, u),
        occurs_in(u, t),
    ensures
        occurs_in(w, t),
{
    let a = choose|a: int| 0 <= a && a + u.len() <= t.len() && #[trigger] t.subrange(a, a + u.len()) == u;
    let b = choose|b: int| 0 <= b && b + w.len() <= u.len() && #[trigger] u.subrange(b, b + w.len()) == w;
    assert(t.subrange(a + b, a + b + w.len()) =~= u.subrange(b, b + w.len()));
}

/// The property of the `j`-th `{…}` binding of an import occurs among the
/// properties of its first `n` bindings.
proof fn lemma_named_prop_occurs(specs: Seq<(Seq<char>, Seq<char>)>, i: nat, n: nat, j: int)
    requires
        0 <= j < n,
    ensures
        occurs_in(
            "\n    "@ + specs[j].1 + ": {get() {return __module"@ + decimal(i) + "."@ + specs[j].0
                + "}, enumerable: true},"@,
            named_import_props(specs, i, n),
        ),
    decreases n,
{
    let w = "\n    "@ + specs[j].1 + ": {get() {return __module"@ + decimal(i) + "."@ + specs[j].0
        + "}, enumerable: true},"@;
    let prev = named_import_props(specs, i, (n - 1) as nat);
    let last = "\n    "@ + specs[n - 1].1 + ": {get() {return __module"@ + decimal(i) + "."@
        + specs[n - 1].0 + "}, enumerable: true},"@;
    assert(named_import_props(specs, i, n) =~= prev + last);
    if j == n - 1 {
        lemma_occurs_between(prev, w, Seq::empty());
        assert(prev + w + Seq::<char>::empty() =~= prev + last);
    } else {
        lemma_named_prop_occurs(specs, i, (n - 1) as nat, j);
        lemma_occurs_between(Seq::empty(), prev, last);
        assert(Seq::<char>::empty() + prev + last =~= prev + last);
        lemma_occurs_trans(w, prev, prev + last);
    }
}

/// The properties of the `i`-th import occur among those of the first `n`.
proof fn lemma_import_props_occur(ims: Seq<ImportView>, n: nat, i: int)
    requires
        0 <= i < n,
    ensures
        occurs_in(import_props(ims[i], i as nat), imports_props(ims, n)),
        occurs_in(module_line(ims[i], i as nat), module_lines(ims, n)),
    decreases n,
{
    let pp = imports_props(ims, (n - 1) as nat);
    let lp = import_props(ims[n - 1], (n - 1) as nat);
    let pm = module_lines(ims, (n - 1) as nat);
    let lm = module_line(ims[n - 1], (n - 1) as nat);
    if i == n - 1 {
        lemma_occurs_between(pp, lp, Seq::empty());
        assert(pp + lp + Seq::<char>::empty() =~= pp + lp);
        lemma_occurs_between(pm, lm, Seq::empty());
        assert(pm + lm + Seq::<char>::empty() =~= pm + lm);
    } else {
        lemma_import_props_occur(ims, (n - 1) as nat, i);
        lemma_occurs_between(Seq::empty(), pp, lp);
        assert(Seq::<char>::empty() + pp + lp =~= pp + lp);
        lemma_occurs_trans(import_props(ims[i], i as nat), pp, pp + lp);
        lemma_occurs_between(Seq::empty(), pm, lm);
        assert(Seq::<char>::empty() + pm + lm =~= pm + lm);
        lemma_occurs_trans(module_line(ims[i], i as nat), pm, pm + lm);
    }
}

/// In the prefix of a rewritten module, the `i`-th import is loaded into
/// `__module<i>`, and every binding it makes (default, name space or each
/// `{…}` binding) reads from that same `__module<i>`.
pub proof fn law_import_bindings_indexed(
    ims: Seq<ImportView>,
    exs: Seq<ExportView>,
    allow_require: bool,
    i: int,
)
    requires
        0 <= i < ims.len(),
    ensures
        occurs_in(
            "\n  const __module"@ + decimal(i as nat) + " = require.module("@ + ims[i].module_source
                + ")"@,
            prefix_text(ims, exs, allow_require),
        ),
        ims[i].default_bind matches Some(b) ==> occurs_in(
            "\n    "@ + b + ": {get() {return __module"@ + decimal(i as nat)
                + ".default}, enumerable: true},"@,
            prefix_text(ims, exs, allow_require),
        ),
        ims[i].binds matches BindingsView::NameSpace(b) ==> occurs_in(
            "\n    "@ + b + ": {value: __module"@ + decimal(i as nat) + ", enumerable: true},"@,
            prefix_text(ims, exs, allow_require),
        ),
        ims[i].binds matches BindingsView::Named(specs) ==> forall|j: int|
            0 <= j < specs.len() ==> occurs_in(
                "\n    "@ + specs[j].1 + ": {get() {return __module"@ + decimal(i as nat) + "."@
                    + (#[trigger] specs[j]).0 + "}, enumerable: true},"@,
                prefix_text(ims, exs, allow_require),
            ),
{
    let t = prefix_text(ims, exs, allow_require);
    let n = ims.len();
    let head = "Object.defineProperty(exports, '__esModule', {value: true})\n"@;
    let open_w = "with (function() {"@;
    let lines = module_lines(ims, n);
    let mid = "\n  return Object.freeze(Object.create(null, {\n    [Symbol.toStringTag]: {value: 'ModuleImports'},"@;
    let props = imports_props(ims, n);
    let close = "\n  }))\n}()) "@;
    let rest = t.subrange((head + open_w + lines + mid + props + close).len() as int, t.len() as int);
    assert(t =~= head + open_w + lines + mid + props + close + rest);
    lemma_import_props_occur(ims, n, i);
    lemma_occurs_between(head + open_w, lines, mid + props + close + rest);
    assert(head + open_w + lines + (mid + props + close + rest) =~= t);
    lemma_occurs_trans(module_line(ims[i], i as nat), lines, t);
    lemma_occurs_between(head + open_w + lines + mid, props, close + rest);
    assert(head + open_w + lines + mid + props + (close + rest) =~= t);
    let ip = import_props(ims[i], i as nat);
    lemma_occurs_trans(ip, props, t);
    let dp = match ims[i].default_bind {
        Some(b) => "\n    "@ + b + ": {get() {return __module"@ + decimal(i as nat)
            + ".default}, enumerable: true},"@,
        None => Seq::empty(),
    };
    let bp = ip.subrange(dp.len() as int, ip.len() as int);
    assert(ip =~= dp + bp);
    if let Some(b) = ims[i].default_bind {
        lemma_occurs_between(Seq::empty(), dp, bp);
        assert(Seq::<char>::empty() + dp + bp =~= ip);
        lemma_occurs_trans(dp, ip, t);
    }
    lemma_occurs_between(dp, bp, Seq::empty());
    assert(dp + bp + Seq::<char>::empty() =~= ip);
    lemma_occurs_trans(bp, ip, t);
    if let BindingsView::NameSpace(b) = ims[i].binds {
        assert(bp =~= "\n    "@ + b + ": {value: __module"@ + decimal(i as nat) + ", enumerable: true},"@);
    }
    if let BindingsView::Named(specs) = ims[i].binds {
        assert(bp =~= named_import_props(specs, i as nat, specs.len()));
        assert forall|j: int| 0 <= j < specs.len() implies occurs_in(
            "\n    "@ + specs[j].1 + ": {get() {return __module"@ + decimal(i as nat) + "."@
                + (#[trigger] specs[j]).0 + "}, enumerable: true},"@,
            t,
        ) by {
            lemma_named_prop_occurs(specs, i as nat, specs.len(), j);
            lemma_occurs_trans(
                "\n    "@ + specs[j].1 + ": {get() {return __module"@ + decimal(i as nat) + "."@
                    + specs[j].0 + "}, enumerable: true},"@,
                bp,
                t,
            );
        }
    }
}

/// An `export` of a `var`, `const` or `let` declaration succeeds exactly
/// where its list of names (with their initializers) does; it then ends
/// where the list ends, exports each name under itself, and keeps the
/// declaration's text.  The three keywords are treated alike.
pub proof fn law_export_declaration(s: Seq<Token>, p: int, out: Seq<char>)
    requires
        kind_at(s, p) == TokenKind::Var || kind_at(s, p) == TokenKind::Const
            || crate::token::is_id(s, p, "let"@),
    ensures
        export_decl(s, p, out) is Ok <==> var_list(s, p + 1, seq![]) is Ok,
        var_list(s, p + 1, seq![]) matches Ok((q, names)) ==> export_decl(s, p, out) == Ok::<
            (int, ExportView, Seq<char>),
            (Fault, Seq<char>),
        >(
            (
                q,
                ExportView::Named(names.map_values(|x: Seq<char>| (x, x))),
                out + ws_at(s, p) + crate::token::copy_text(s, p, q),
            ),
        ),
{
}

/// `export const x = 1` (any of `var`, `const`, `let`, a name, `=` and a
/// one-token primary expression other than `await`, then the end of the
/// stream) exports the name, ending before the end of the stream.
pub proof fn law_export_simple_declaration(s: Seq<Token>, p: int, out: Seq<char>)
    requires
        stream_wf(s),
        0 <= p,
        s.len() == p + 5,
        kind_at(s, p) == TokenKind::Var || kind_at(s, p) == TokenKind::Const
            || crate::token::is_id(s, p, "let"@),
        kind_at(s, p + 1) == TokenKind::Id,
        kind_at(s, p + 2) == TokenKind::Eq,
        crate::parse::is_literal(kind_at(s, p + 3)),
        !crate::token::is_id(s, p + 3, "await"@),
    ensures
        export_decl(s, p, out) matches Ok((q, e, _)) && q == p + 4 && e == ExportView::Named(
            seq![(crate::token::text_at(s, p + 1), crate::token::text_at(s, p + 1))],
        ),
{
    assert(kind_at(s, p + 4) == TokenKind::Eof);
    assert(postfix_end(s, p + 4, Prec::NoComma) == Ok::<int, Fault>(p + 4));
    assert(primary_end(s, p + 3) == Ok::<int, Fault>(p + 4));
    assert(prefix_end(s, p + 3) == Ok::<(int, bool, bool), Fault>((p + 3, false, false)));
    assert(expr_end(s, p + 3, Prec::NoComma) == Ok::<int, Fault>(p + 4));
    let names = seq![crate::token::text_at(s, p + 1)];
    assert(seq![].push(crate::token::text_at(s, p + 1)) =~= names);
    assert(var_list(s, p + 1, seq![]) == Ok::<(int, Seq<Seq<char>>), Fault>((p + 4, names)));
    assert(names.map_values(|x: Seq<char>| (x, x)) =~= seq![
        (crate::token::text_at(s, p + 1), crate::token::text_at(s, p + 1)),
    ]);
}

/// An `import` whose first token is a name binds that name to the module's
/// default export, whether or not more bindings follow; any other import
/// binds no default.
pub proof fn law_import_default_bind(s: Seq<Token>, p: int, out: Seq<char>)
    ensures
        import_decl(s, p, out) matches Ok((_, im, _)) ==> (if kind_at(s, p) == TokenKind::Id {
            im.default_bind == Some(crate::token::text_at(s, p))
        } else {
            im.default_bind is None
        }),
{
}

/// `new` not followed by `.` is skipped like a prefix operator, as is every
/// prefix operator: the expression ends where the one after it ends.
pub proof fn law_new_is_prefix(s: Seq<Token>, p: int, prec: Prec)
    requires
        (kind_at(s, p) == TokenKind::New && kind_at(s, p + 1) != TokenKind::Dot)
            || crate::parse::is_prefix_op(kind_at(s, p)),
    ensures
        expr_end(s, p, prec) == expr_end(s, p + 1, prec),
{
    assert(prefix_end(s, p) == prefix_end(s, p + 1));
    lemma_prefix_forward(s, p + 1);
    if let Ok((q, had_primary, stop)) = prefix_end(s, p + 1) {
        if !had_primary {
            lemma_primary_forward(s, q);
        }
    }
}

/// A `require` call never loses a dependency found before it is rewritten:
/// the rewriting from any state keeps every dependency of that state.
pub proof fn law_loop_keeps_deps(s: Seq<Token>, p: int, allow_require: bool, st: ModState)
    ensures
        module_loop(s, p, allow_require, st) matches Ok((_, st2)) ==> forall|x: Seq<char>|
            st.deps.contains(x) ==> #[trigger] st2.deps.contains(x),
    decreases s.len() - p,
{
    let k = kind_at(s, p);
    let w = st.out + ws_at(s, p);
    if k == TokenKind::Export {
        if let Ok((q, e, o)) = export_decl(s, p + 1, w) {
            if p < q < s.len() {
                law_loop_keeps_deps(
                    s,
                    q,
                    allow_require,
                    ModState { out: o, deps: st.deps, imports: st.imports, exports: st.exports.push(e) },
                );
            }
        }
    } else if k == TokenKind::Import {
        if let Ok((q, i, o)) = import_decl(s, p + 1, w) {
            if p < q < s.len() {
                law_loop_keeps_deps(
                    s,
                    q,
                    allow_require,
                    ModState { out: o, deps: st.deps, imports: st.imports.push(i), exports: st.exports },
                );
            }
        }
    } else if allow_require && crate::token::is_id(s, p, "require"@) {
        let end = require_call(s, p).0;
        let out = w + crate::token::copy_text(s, p, end);
        match require_call(s, p).1 {
            None => {
                law_loop_keeps_deps(
                    s,
                    end,
                    allow_require,
                    ModState { out, deps: st.deps, imports: st.imports, exports: st.exports },
                );
            },
            Some(r) => {
                if let Ok(v) = lit_value(s, r, p, end) {
                    let d = add_dep(st.deps, v);
                    assert forall|x: Seq<char>| st.deps.contains(x) implies #[trigger] d.contains(x) by {
                        if !st.deps.contains(v) {
                            let k = choose|k: int| 0 <= k < st.deps.len() && st.deps[k] == x;
                            assert(d[k] == x);
                        }
                    }
                    law_loop_keeps_deps(
                        s,
                        end,
                        allow_require,
                        ModState { out, deps: d, imports: st.imports, exports: st.exports },
                    );
                }
            },
        }
    } else if k != TokenKind::Eof {
        law_loop_keeps_deps(
            s,
            p + 1,
            allow_require,
            ModState { out: st.out + echo_at(s, p), deps: st.deps, imports: st.imports, exports: st.exports },
        );
    }
}

/// With `require` tracking, a complete `require('…')` call whose literal
/// decodes records the literal's value as a dependency, whatever imports,
/// exports and dependencies were seen before it.
pub proof fn law_require_recorded(s: Seq<Token>, p: int, st: ModState)
    requires
        crate::token::is_id(s, p, "require"@),
        kind_at(s, p + 1) == TokenKind::Lparen,
        crate::token::is_str_lit(s, p + 2),
        kind_at(s, p + 3) == TokenKind::Rparen,
        str_lit_status(crate::token::text_at(s, p + 2)) == Some(Ok::<(), crate::strlit::ParseStrLitError>(())),
    ensures
        module_loop(s, p, true, st) matches Ok((_, st2)) ==> st2.deps.contains(
            str_lit_text(crate::token::text_at(s, p + 2)),
        ),
{
    let v = str_lit_text(crate::token::text_at(s, p + 2));
    let end = p + 4;
    assert(require_call(s, p) == (end, Some(p + 2)));
    let d = add_dep(st.deps, v);
    if !st.deps.contains(v) {
        assert(d[st.deps.len() as int] == v);
    }
    assert(d.contains(v));
    let w = st.out + ws_at(s, p);
    let out = w + crate::token::copy_text(s, p, end);
    law_loop_keeps_deps(s, end, true, ModState { out, deps: d, imports: st.imports, exports: st.exports });
}

/// The property of the `j`-th binding of an `export {…}` occurs among the
/// properties of its first `n` bindings.
proof fn lemma_named_export_occurs(specs: Seq<(Seq<char>, Seq<char>)>, n: nat, j: int)
    requires
        0 <= j < n,
    ensures
        occurs_in(
            "\n  "@ + specs[j].1 + ": {get() {return "@ + specs[j].0 + "}, enumerable: true},"@,
            named_export_props(specs, n),
        ),
    decreases n,
{
    let w = "\n  "@ + specs[j].1 + ": {get() {return "@ + specs[j].0 + "}, enumerable: true},"@;
    let prev = named_export_props(specs, (n - 1) as nat);
    let last = "\n  "@ + specs[n - 1].1 + ": {get() {return "@ + specs[n - 1].0
        + "}, enumerable: true},"@;
    assert(named_export_props(specs, n) =~= prev + last);
    if j == n - 1 {
        lemma_occurs_between(prev, w, Seq::empty());
        assert(prev + w + Seq::<char>::empty() =~= prev + last);
    } else {
        lemma_named_export_occurs(specs, (n - 1) as nat, j);
        lemma_occurs_between(Seq::empty(), prev, last);
        assert(Seq::<char>::empty() + prev + last =~= prev + last);
        lemma_occurs_trans(w, prev, prev + last);
    }
}

/// The properties of the `i`-th export occur among those of the first `n`.
proof fn lemma_export_props_occur(exs: Seq<ExportView>, n: nat, i: int)
    requires
        0 <= i < n,
    ensures
        occurs_in(export_props(exs[i]), exports_props(exs, n)),
    decreases n,
{
    let pp = exports_props(exs, (n - 1) as nat);
    let lp = export_props(exs[n - 1]);
    if i == n - 1 {
        lemma_occurs_between(pp, lp, Seq::empty());
        assert(pp + lp + Seq::<char>::empty() =~= pp + lp);
    } else {
        lemma_export_props_occur(exs, (n - 1) as nat, i);
        lemma_occurs_between(Seq::empty(), pp, lp);
        assert(Seq::<char>::empty() + pp + lp =~= pp + lp);
        lemma_occurs_trans(export_props(exs[i]), pp, pp + lp);
    }
}

/// In the prefix of a rewritten module, every export is defined on
/// `exports`: a default export as a `default` getter of its binding, and
/// each `{…}` or declared name as a getter, under its exported name, of the
/// local binding.
pub proof fn law_exports_defined(
    ims: Seq<ImportView>,
    exs: Seq<ExportView>,
    allow_require: bool,
    i: int,
)
    requires
        0 <= i < exs.len(),
    ensures
        exs[i] matches ExportView::Default(b) ==> occurs_in(
            "\n  default: {get() {return "@ + b + "}, enumerable: true},"@,
            prefix_text(ims, exs, allow_require),
        ),
        exs[i] matches ExportView::Named(specs) ==> forall|j: int|
            0 <= j < specs.len() ==> occurs_in(
                "\n  "@ + specs[j].1 + ": {get() {return "@ + (#[trigger] specs[j]).0
                    + "}, enumerable: true},"@,
                prefix_text(ims, exs, allow_require),
            ),
{
    let t = prefix_text(ims, exs, allow_require);
    let n = exs.len();
    let open_d = "Object.defineProperties(exports, {\n"@;
    let props = exports_props(exs, n);
    let close = "\n});\n"@;
    let pre = t.subrange(0, t.len() - (open_d + props + close).len());
    assert(t =~= pre + open_d + props + close);
    lemma_export_props_occur(exs, n, i);
    lemma_occurs_between(pre + open_d, props, close);
    lemma_occurs_trans(export_props(exs[i]), props, t);
    if let ExportView::Default(b) = exs[i] {
        assert(export_props(exs[i]) =~= "\n  default: {get() {return "@ + b
            + "}, enumerable: true},"@);
    }
    if let ExportView::Named(specs) = exs[i] {
        assert forall|j: int| 0 <= j < specs.len() implies occurs_in(
            "\n  "@ + specs[j].1 + ": {get() {return "@ + (#[trigger] specs[j]).0
                + "}, enumerable: true},"@,
            t,
        ) by {
            lemma_named_export_occurs(specs, specs.len(), j);
            lemma_occurs_trans(
                "\n  "@ + specs[j].1 + ": {get() {return "@ + specs[j].0 + "}, enumerable: true},"@,
                export_props(exs[i]),
                t,
            );
        }
    }
}

/// `import 'm'` loads the module named by the literal's value and binds
/// nothing; only the literal's whitespace is kept in the source.
pub proof fn law_import_bare(s: Seq<Token>, p: int, out: Seq<char>)
    requires
        crate::token::is_str_lit(s, p),
        str_lit_status(crate::token::text_at(s, p)) == Some(Ok::<(), crate::strlit::ParseStrLitError>(())),
    ensures
        import_decl(s, p, out) == Ok::<(int, ImportView, Seq<char>), (Fault, Seq<char>)>(
            (
                p + 1,
                ImportView {
                    module_source: crate::token::text_at(s, p),
                    module: str_lit_text(crate::token::text_at(s, p)),
                    default_bind: None,
                    binds: BindingsView::Empty,
                },
                out + ws_at(s, p),
            ),
        ),
{
}

/// `import * as ns from 'm'` binds `ns` to the whole module and nothing
/// else; only whitespace is kept in the source.
pub proof fn law_import_namespace(s: Seq<Token>, p: int, out: Seq<char>)
    requires
        kind_at(s, p) == TokenKind::Star,
        crate::token::is_id(s, p + 1, "as"@),
        kind_at(s, p + 2) == TokenKind::Id,
        crate::token::is_id(s, p + 3, "from"@),
        crate::token::is_str_lit(s, p + 4),
        str_lit_status(crate::token::text_at(s, p + 4)) == Some(
            Ok::<(), crate::strlit::ParseStrLitError>(()),
        ),
    ensures
        import_decl(s, p, out) == Ok::<(int, ImportView, Seq<char>), (Fault, Seq<char>)>(
            (
                p + 5,
                ImportView {
                    module_source: crate::token::text_at(s, p + 4),
                    module: str_lit_text(crate::token::text_at(s, p + 4)),
                    default_bind: None,
                    binds: BindingsView::NameSpace(crate::token::text_at(s, p + 2)),
                },
                out + ws_at(s, p) + ws_at(s, p + 1) + ws_at(s, p + 2) + ws_at(s, p + 3) + ws_at(
                    s,
                    p + 4,
                ),
            ),
        ),
{
    assert(!crate::token::is_str_lit(s, p));
}

/// In a `{…}` list, `a as b` pairs the two names in order and `a` alone
/// pairs the name with itself; a closing `}` ends the list after it.
pub proof fn law_binding_pairs(
    s: Seq<Token>,
    p: int,
    acc: Seq<(Seq<char>, Seq<char>)>,
    out: Seq<char>,
    as_msg: &'static str,
    open_msg: &'static str,
)
    requires
        kind_at(s, p) == TokenKind::Id,
    ensures
        crate::token::is_id(s, p + 1, "as"@) && kind_at(s, p + 2) == TokenKind::Id && kind_at(s, p + 3)
            == TokenKind::Rbrace ==> (binding_list(s, p, acc, out, as_msg, open_msg) matches Ok((q, v, _))
            && q == p + 4 && v == acc.push((crate::token::text_at(s, p), crate::token::text_at(s, p + 2)))),
        kind_at(s, p + 1) == TokenKind::Rbrace ==> (binding_list(s, p, acc, out, as_msg, open_msg) matches Ok(
            (q, v, _),
        ) && q == p + 2 && v == acc.push((crate::token::text_at(s, p), crate::token::text_at(s, p)))),
{
}

/// `export default` followed by anything but `function` or `class` names
/// the exported expression `__default`: the keyword is replaced by
/// `const __default = ` and the expression is left to follow.
pub proof fn law_export_default_expression(s: Seq<Token>, p: int, out: Seq<char>)
    requires
        kind_at(s, p) == TokenKind::Default,
        kind_at(s, p + 1) != TokenKind::Function,
        kind_at(s, p + 1) != TokenKind::Class,
    ensures
        export_decl(s, p, out) == Ok::<(int, ExportView, Seq<char>), (Fault, Seq<char>)>(
            (p + 1, ExportView::Default("__default"@), out + ws_at(s, p) + "const __default = "@),
        ),
{
}

/// `export default function f` and `export default class C` export the
/// declared name as the default; the declaration stays in the source.
pub proof fn law_export_default_declaration(s: Seq<Token>, p: int, out: Seq<char>)
    requires
        kind_at(s, p) == TokenKind::Default,
        kind_at(s, p + 1) == TokenKind::Function || kind_at(s, p + 1) == TokenKind::Class,
        kind_at(s, p + 2) == TokenKind::Id,
    ensures
        export_decl(s, p, out) matches Ok((q, e, _)) && q == p + 3 && e == ExportView::Default(
            crate::token::text_at(s, p + 2),
        ),
{
}

/// An `export` followed by no form of declaration fails at that token and
/// writes nothing.
pub proof fn law_export_unknown(s: Seq<Token>, p: int, out: Seq<char>)
    requires
        kind_at(s, p) != TokenKind::Default,
        kind_at(s, p) != TokenKind::Star,
        kind_at(s, p) != TokenKind::Lbrace,
        kind_at(s, p) != TokenKind::Var,
        kind_at(s, p) != TokenKind::Const,
        kind_at(s, p) != TokenKind::Function,
        kind_at(s, p) != TokenKind::Class,
        !crate::token::is_id(s, p, "let"@),
    ensures
        export_decl(s, p, out) == Err::<(int, ExportView, Seq<char>), (Fault, Seq<char>)>(
            (Fault::Expected("keyword 'default' or '*' or '{' or declaration", p as usize), out),
        ),
{
}

} // verus!
