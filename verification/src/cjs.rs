//! The CommonJS text that replaces `import` and `export` declarations.

use vstd::prelude::*;
use vstd::string::*;
use crate::es6::{
    Export, ExportView, Import, ImportView, Bindings, BindingsView, ImportSpec, CjsModule, Error,
    ErrorKind,
};
use crate::text::{decimal, push_decimal};
use crate::token::TokenStream;
use crate::parse::{Fault, export_decl, import_decl, lit_value, parse_export, parse_import, literal_value};
use crate::token::{
    Token, TokenKind, stream_wf, kind_at, ws_at, echo_at, copy_text, is_id, is_str_lit, kind,
    id_is, str_lit_at, push_ws, push_echo, push_copy,
};

verus! {

/// The views of a list of imports.
pub open spec fn imports_view(v: Seq<Import>) -> Seq<ImportView> {
    v.map_values(|i: Import| i@)
}

/// The views of a list of exports.
pub open spec fn exports_view(v: Seq<Export>) -> Seq<ExportView> {
    v.map_values(|e: Export| e@)
}

/// The line that loads the `i`-th imported module.
pub open spec fn module_line(im: ImportView, i: nat) -> Seq<char> {
    "\n  const __module"@ + decimal(i) + " = require.module("@ + im.module_source + ")"@
}

/// The lines that load the first `n` imported modules.
pub open spec fn module_lines(ims: Seq<ImportView>, n: nat) -> Seq<char>
    decreases n,
{
    if n == 0 {
        Seq::empty()
    } else {
        module_lines(ims, (n - 1) as nat) + module_line(ims[n - 1], (n - 1) as nat)
    }
}

/// The properties for the first `n` of the `{…}` bindings of the `i`-th import.
pub open spec fn named_import_props(specs: Seq<(Seq<char>, Seq<char>)>, i: nat, n: nat) -> Seq<
    char,
>
    decreases n,
{
    if n == 0 {
        Seq::empty()
    } else {
        named_import_props(specs, i, (n - 1) as nat) + "\n    "@ + specs[n - 1].1
            + ": {get() {return __module"@ + decimal(i) + "."@ + specs[n - 1].0
            + "}, enumerable: true},"@
    }
}

/// The properties for the bindings of the `i`-th import.
pub open spec fn import_props(im: ImportView, i: nat) -> Seq<char> {
    let default_part = match im.default_bind {
        Some(b) => "\n    "@ + b + ": {get() {return __module"@ + decimal(i)
            + ".default}, enumerable: true},"@,
        None => Seq::empty(),
    };
    default_part + match im.binds {
        BindingsView::Empty => Seq::empty(),
        BindingsView::NameSpace(b) => "\n    "@ + b + ": {value: __module"@ + decimal(i)
            + ", enumerable: true},"@,
        BindingsView::Named(specs) => named_import_props(specs, i, specs.len()),
    }
}

/// The properties for the bindings of the first `n` imports.
pub open spec fn imports_props(ims: Seq<ImportView>, n: nat) -> Seq<char>
    decreases n,
{
    if n == 0 {
        Seq::empty()
    } else {
        imports_props(ims, (n - 1) as nat) + import_props(ims[n - 1], (n - 1) as nat)
    }
}

/// The properties for the first `n` bindings of an `export {…}`.
pub open spec fn named_export_props(specs: Seq<(Seq<char>, Seq<char>)>, n: nat) -> Seq<char>
    decreases n,
{
    if n == 0 {
        Seq::empty()
    } else {
        named_export_props(specs, (n - 1) as nat) + "\n  "@ + specs[n - 1].1
            + ": {get() {return "@ + specs[n - 1].0 + "}, enumerable: true},"@
    }
}

/// The properties for one export.
pub open spec fn export_props(e: ExportView) -> Seq<char> {
    match e {
        ExportView::Default(b) => "\n  default: {get() {return "@ + b
            + "}, enumerable: true},"@,
        ExportView::Named(specs) => named_export_props(specs, specs.len()),
        _ => Seq::empty(),
    }
}

/// The properties for the first `n` exports.
pub open spec fn exports_props(exs: Seq<ExportView>, n: nat) -> Seq<char>
    decreases n,
{
    if n == 0 {
        Seq::empty()
    } else {
        exports_props(exs, (n - 1) as nat) + export_props(exs[n - 1])
    }
}

/// An export that re-exports from another module.
pub open spec fn is_reexport(e: ExportView) -> bool {
    e is AllFrom || e is NamedFrom
}

/// Some export re-exports from another module.
pub open spec fn has_reexport(exs: Seq<ExportView>) -> bool {
    exists|i: int| 0 <= i < exs.len() && is_reexport(#[trigger] exs[i])
}

/// The text put before the module's source: it marks the module as an ES
/// module, binds the imports, starts the module's function, and defines
/// the exports.
pub open spec fn prefix_text(ims: Seq<ImportView>, exs: Seq<ExportView>, allow_require: bool) -> Seq<
    char,
> {
    "Object.defineProperty(exports, '__esModule', {value: true})\n"@ + (if ims.len() > 0 {
        "with (function() {"@ + module_lines(ims, ims.len())
            + "\n  return Object.freeze(Object.create(null, {\n    [Symbol.toStringTag]: {value: 'ModuleImports'},"@
            + imports_props(ims, ims.len()) + "\n  }))\n}()) "@
    } else {
        Seq::empty()
    }) + "~function() {"@ + (if !allow_require || exs.len() > 0 || ims.len() > 0 {
        "\n'use strict';\n"@
    } else {
        Seq::empty()
    }) + (if exs.len() > 0 {
        "Object.defineProperties(exports, {\n"@ + exports_props(exs, exs.len()) + "\n});\n"@
    } else {
        Seq::empty()
    })
}

/// Appends the properties of the `{…}` bindings of the `i`-th import.
fn push_named_import_props(out: &mut String, specs: &Vec<ImportSpec>, i: usize)
    ensures
        final(out)@ == old(out)@ + named_import_props(
            crate::es6::import_specs_view(specs@),
            i as nat,
            specs@.len(),
        ),
{
    let ghost v = crate::es6::import_specs_view(specs@);
    let mut j: usize = 0;
    while j < specs.len()
        invariant
            v == crate::es6::import_specs_view(specs@),
            j <= specs@.len(),
            out@ == old(out)@ + named_import_props(v, i as nat, j as nat),
        decreases specs@.len() - j,
    {
        out.append("\n    ");
        out.append(specs[j].bind());
        out.append(": {get() {return __module");
        push_decimal(out, i as u128);
        out.append(".");
        out.append(specs[j].name());
        out.append("}, enumerable: true},");
        j = j + 1;
        assert(out@ =~= old(out)@ + named_import_props(v, i as nat, j as nat));
    }
}

/// Appends the properties for the bindings of the `i`-th import.
fn push_import_props(out: &mut String, im: &Import, i: usize)
    ensures
        final(out)@ == old(out)@ + import_props(im@, i as nat),
{
    let ghost before = out@;
    match im.default_bind() {
        Some(b) => {
            out.append("\n    ");
            out.append(b.as_str());
            out.append(": {get() {return __module");
            push_decimal(out, i as u128);
            out.append(".default}, enumerable: true},");
        },
        None => {},
    }
    let ghost mid = out@;
    match im.binds() {
        Bindings::Empty => {},
        Bindings::NameSpace(b) => {
            out.append("\n    ");
            out.append(b.as_str());
            out.append(": {value: __module");
            push_decimal(out, i as u128);
            out.append(", enumerable: true},");
        },
        Bindings::Named(specs) => {
            push_named_import_props(out, specs, i);
        },
    }
    assert(out@ =~= old(out)@ + import_props(im@, i as nat));
}

/// Appends the properties for one export, which re-exports nothing.
fn push_export_props(out: &mut String, e: &Export)
    requires
        !is_reexport(e@),
    ensures
        final(out)@ == old(out)@ + export_props(e@),
{
    match e {
        Export::Default(b) => {
            out.append("\n  default: {get() {return ");
            out.append(b.as_str());
            out.append("}, enumerable: true},");
            assert(out@ =~= old(out)@ + export_props(e@));
        },
        Export::Named(specs) => {
            let ghost v = crate::es6::export_specs_view(specs@);
            let mut j: usize = 0;
            while j < specs.len()
                invariant
                    v == crate::es6::export_specs_view(specs@),
                    j <= specs@.len(),
                    out@ == old(out)@ + named_export_props(v, j as nat),
                decreases specs@.len() - j,
            {
                out.append("\n  ");
                out.append(specs[j].name());
                out.append(": {get() {return ");
                out.append(specs[j].bind());
                out.append("}, enumerable: true},");
                j = j + 1;
                assert(out@ =~= old(out)@ + named_export_props(v, j as nat));
            }
        },
        _ => {},
    }
}

/// The text put before the module's source (see [`prefix_text`]).
pub fn render_prefix(imports: &Vec<Import>, exports: &Vec<Export>, allow_require: bool) -> (r:
    String)
    requires
        !has_reexport(exports_view(exports@)),
    ensures
        r@ == prefix_text(imports_view(imports@), exports_view(exports@), allow_require),
{
    let ghost ims = imports_view(imports@);
    let ghost exs = exports_view(exports@);
    let mut out = String::new();
    out.append("Object.defineProperty(exports, '__esModule', {value: true})\n");
    let ghost head = out@;
    if imports.len() > 0 {
        out.append("with (function() {");
        let mut i: usize = 0;
        while i < imports.len()
            invariant
                ims == imports_view(imports@),
                i <= imports@.len(),
                out@ == head + "with (function() {"@ + module_lines(ims, i as nat),
            decreases imports@.len() - i,
        {
            out.append("\n  const __module");
            push_decimal(&mut out, i as u128);
            out.append(" = require.module(");
            out.append(imports[i].module_source());
            out.append(")");
            i = i + 1;
            assert(out@ =~= head + "with (function() {"@ + module_lines(ims, i as nat));
        }
        out.append(
            "\n  return Object.freeze(Object.create(null, {\n    [Symbol.toStringTag]: {value: 'ModuleImports'},",
        );
        let ghost head2 = out@;
        let mut i: usize = 0;
        while i < imports.len()
            invariant
                ims == imports_view(imports@),
                i <= imports@.len(),
                out@ == head2 + imports_props(ims, i as nat),
            decreases imports@.len() - i,
        {
            push_import_props(&mut out, &imports[i], i);
            i = i + 1;
            assert(out@ =~= head2 + imports_props(ims, i as nat));
        }
        out.append("\n  }))\n}()) ");
    }
    out.append("~function() {");
    if !allow_require || exports.len() > 0 || imports.len() > 0 {
        out.append("\n'use strict';\n");
    }
    if exports.len() > 0 {
        out.append("Object.defineProperties(exports, {\n");
        let ghost head3 = out@;
        let mut i: usize = 0;
        while i < exports.len()
            invariant
                exs == exports_view(exports@),
                !has_reexport(exs),
                i <= exports@.len(),
                out@ == head3 + exports_props(exs, i as nat),
            decreases exports@.len() - i,
        {
            assert(!is_reexport(exs[i as int]));
            push_export_props(&mut out, &exports[i]);
            i = i + 1;
            assert(out@ =~= head3 + exports_props(exs, i as nat));
        }
        out.append("\n});\n");
    }
    assert(out@ =~= prefix_text(ims, exs, allow_require));
    out
}


/// What the rewriting has gathered: the output so far, the dependencies
/// found (each once), the imports and the exports.
pub struct ModState {
    pub out: Seq<char>,
    pub deps: Seq<Seq<char>>,
    pub imports: Seq<ImportView>,
    pub exports: Seq<ExportView>,
}

/// Adds a dependency unless it is already there.
pub open spec fn add_dep(deps: Seq<Seq<char>>, v: Seq<char>) -> Seq<Seq<char>> {
    if deps.contains(v) {
        deps
    } else {
        deps.push(v)
    }
}

/// The tokens of a `require` call that starts at `p`: where the stream
/// stands after them, and, for a complete `require('…')`, the position of
/// the string literal.
pub open spec fn require_call(s: Seq<Token>, p: int) -> (int, Option<int>) {
    let q = p + 1;
    if kind_at(s, q) == TokenKind::Lparen {
        let r = q + 1;
        if is_str_lit(s, r) {
            let t = r + 1;
            if kind_at(s, t) == TokenKind::Rparen {
                (t + 1, Some(r))
            } else {
                (t, None)
            }
        } else {
            (r, None)
        }
    } else {
        (q, None)
    }
}

/// Rewrites the tokens from `p` to the end, from the state `st`: each
/// `export` and `import` declaration is parsed and replaced, each
/// `require('…')` (where `allow_require`) is kept and its module recorded,
/// and every other token is kept as written.  Gives the end position and
/// the final state.
pub open spec fn module_loop(s: Seq<Token>, p: int, allow_require: bool, st: ModState) -> Result<
    (int, ModState),
    Fault,
>
    decreases s.len() - p,
{
    let k = kind_at(s, p);
    let w = st.out + ws_at(s, p);
    if k == TokenKind::Export {
        match export_decl(s, p + 1, w) {
            Err((e, _)) => Err(e),
            Ok((q, e, o)) => if p < q < s.len() {
                module_loop(
                    s,
                    q,
                    allow_require,
                    ModState { out: o, deps: st.deps, imports: st.imports, exports: st.exports.push(e) },
                )
            } else {
                Ok((q, st))
            },
        }
    } else if k == TokenKind::Import {
        match import_decl(s, p + 1, w) {
            Err((e, _)) => Err(e),
            Ok((q, i, o)) => if p < q < s.len() {
                module_loop(
                    s,
                    q,
                    allow_require,
                    ModState { out: o, deps: st.deps, imports: st.imports.push(i), exports: st.exports },
                )
            } else {
                Ok((q, st))
            },
        }
    } else if allow_require && is_id(s, p, "require"@) {
        let end = require_call(s, p).0;
        let out = w + copy_text(s, p, end);
        match require_call(s, p).1 {
            None => module_loop(
                s,
                end,
                allow_require,
                ModState { out, deps: st.deps, imports: st.imports, exports: st.exports },
            ),
            Some(r) => match lit_value(s, r, p, end) {
                Err(e) => Err(e),
                Ok(v) => module_loop(
                    s,
                    end,
                    allow_require,
                    ModState { out, deps: add_dep(st.deps, v), imports: st.imports, exports: st.exports },
                ),
            },
        }
    } else if k == TokenKind::Eof {
        Ok((p, ModState { out: w, deps: st.deps, imports: st.imports, exports: st.exports }))
    } else {
        module_loop(
            s,
            p + 1,
            allow_require,
            ModState { out: st.out + echo_at(s, p), deps: st.deps, imports: st.imports, exports: st.exports },
        )
    }
}

/// The dependencies after adding the modules of the first `n` imports.
pub open spec fn add_import_deps(deps: Seq<Seq<char>>, ims: Seq<ImportView>, n: nat) -> Seq<
    Seq<char>,
>
    decreases n,
{
    if n == 0 {
        deps
    } else {
        add_dep(add_import_deps(deps, ims, (n - 1) as nat), ims[n - 1].module)
    }
}

/// The meaning of a CommonJS module.
pub struct CjsView {
    pub source_prefix: Seq<char>,
    pub source: Seq<char>,
    pub source_suffix: Seq<char>,
    pub deps: Seq<Seq<char>>,
}

impl View for CjsModule {
    type V = CjsView;

    open spec fn view(&self) -> CjsView {
        CjsView {
            source_prefix: self.source_prefix@,
            source: self.source@,
            source_suffix: self.source_suffix@,
            deps: self.deps@.map_values(|d: String| d@),
        }
    }
}

/// The state the rewriting starts from.
pub open spec fn empty_state() -> ModState {
    ModState { out: Seq::empty(), deps: Seq::empty(), imports: Seq::empty(), exports: Seq::empty() }
}

/// The CommonJS module for the tokens from `p` on, and where the stream
/// stands after them.  A module that re-exports from another module is not
/// supported.
pub open spec fn module_result(s: Seq<Token>, p: int, allow_require: bool) -> Result<
    (int, CjsView),
    Fault,
> {
    match module_loop(s, p, allow_require, empty_state()) {
        Err(e) => Err(e),
        Ok((q, st)) => if has_reexport(st.exports) {
            Err(Fault::Unsupported)
        } else {
            Ok(
                (
                    q,
                    CjsView {
                        source_prefix: prefix_text(st.imports, st.exports, allow_require),
                        source: st.out,
                        source_suffix: "}()"@,
                        deps: add_import_deps(st.deps, st.imports, st.imports.len()),
                    },
                ),
            )
        },
    }
}

/// The names of a list of strings.
pub open spec fn strings_view(v: Seq<String>) -> Seq<Seq<char>> {
    v.map_values(|d: String| d@)
}

/// Adds a dependency unless it is already there.
fn insert_dep(deps: &mut Vec<String>, v: String)
    ensures
        strings_view(final(deps)@) == add_dep(strings_view(old(deps)@), v@),
{
    let ghost view = strings_view(deps@);
    let mut i: usize = 0;
    while i < deps.len()
        invariant
            view == strings_view(deps@),
            deps@ == old(deps)@,
            i <= deps@.len(),
            forall|j: int| 0 <= j < i ==> view[j] != v@,
        decreases deps@.len() - i,
    {
        if deps[i] == v {
            assert(view[i as int] == v@);
            assert(view.contains(v@));
            return;
        }
        i = i + 1;
    }
    assert(!view.contains(v@));
    deps.push(v);
    assert(strings_view(deps@) =~= view.push(v@));
}

/// Rewrites the tokens from `p` on (see [`module_result`]).
pub fn rewrite_tokens(toks: &Vec<Token>, p: usize, allow_require: bool) -> (r: Result<
    (usize, CjsModule),
    Fault,
>)
    requires
        stream_wf(toks@),
        p < toks@.len(),
    ensures
        match (r, module_result(toks@, p as int, allow_require)) {
            (Ok((q, m)), Ok((sq, sm))) => q == sq && m@ == sm,
            (Err(f), Err(sf)) => f == sf,
            _ => false,
        },
        r matches Ok((q, _)) ==> q == toks@.len() - 1,
{
    let ghost s = toks@;
    let n = toks.len();
    let mut q = p;
    let mut source = String::new();
    let mut deps: Vec<String> = Vec::new();
    let mut imports: Vec<Import> = Vec::new();
    let mut exports: Vec<Export> = Vec::new();
    assert(strings_view(deps@) =~= Seq::<Seq<char>>::empty());
    assert(imports_view(imports@) =~= Seq::<ImportView>::empty());
    assert(exports_view(exports@) =~= Seq::<ExportView>::empty());
    loop
        invariant
            s == toks@,
            stream_wf(s),
            n == s.len(),
            p <= q < n,
            module_loop(
                s,
                q as int,
                allow_require,
                ModState {
                    out: source@,
                    deps: strings_view(deps@),
                    imports: imports_view(imports@),
                    exports: exports_view(exports@),
                },
            ) == module_loop(s, p as int, allow_require, empty_state()),
        decreases n - q,
    {
        let k = kind(toks, q);
        if k == TokenKind::Export {
            push_ws(&mut source, toks, q);
            match parse_export(toks, q + 1, &mut source) {
                Err(e) => return Err(e),
                Ok((q2, e)) => {
                    let ghost before = exports@;
                    exports.push(e);
                    assert(exports_view(exports@) =~= exports_view(before).push(e@));
                    q = q2;
                },
            }
        } else if k == TokenKind::Import {
            push_ws(&mut source, toks, q);
            match parse_import(toks, q + 1, &mut source) {
                Err(e) => return Err(e),
                Ok((q2, i)) => {
                    let ghost before = imports@;
                    imports.push(i);
                    assert(imports_view(imports@) =~= imports_view(before).push(i@));
                    q = q2;
                },
            }
        } else if allow_require && id_is(toks, q, "require") {
            push_ws(&mut source, toks, q);
            let q1 = q + 1;
            let mut end = q1;
            let mut lit: Option<usize> = None;
            if kind(toks, q1) == TokenKind::Lparen {
                let r = q1 + 1;
                end = r;
                if str_lit_at(toks, r) {
                    let t = r + 1;
                    end = t;
                    if kind(toks, t) == TokenKind::Rparen {
                        end = t + 1;
                        lit = Some(r);
                    }
                }
            }
            assert(end == require_call(s, q as int).0);
            match lit {
                Some(r) => {
                    match literal_value(toks, r, q, end) {
                        Err(e) => return Err(e),
                        Ok(v) => insert_dep(&mut deps, v),
                    }
                },
                None => {},
            }
            push_copy(&mut source, toks, q, end);
            q = end;
        } else if k == TokenKind::Eof {
            push_ws(&mut source, toks, q);
            let ghost ims = imports_view(imports@);
            let ghost exs = exports_view(exports@);
            let mut i: usize = 0;
            let ghost d0 = strings_view(deps@);
            while i < imports.len()
                invariant
                    ims == imports_view(imports@),
                    i <= imports@.len(),
                    strings_view(deps@) == add_import_deps(d0, ims, i as nat),
                decreases imports@.len() - i,
            {
                insert_dep(&mut deps, imports[i].module().to_owned());
                i = i + 1;
            }
            if has_reexport_exec(&exports) {
                return Err(Fault::Unsupported);
            }
            let prefix = render_prefix(&imports, &exports, allow_require);
            return Ok(
                (
                    q,
                    CjsModule {
                        source_prefix: prefix,
                        source,
                        source_suffix: "}()".to_string(),
                        deps,
                    },
                ),
            );
        } else {
            push_echo(&mut source, toks, q);
            q = q + 1;
        }
    }
}

/// Whether some export re-exports from another module.
fn has_reexport_exec(exports: &Vec<Export>) -> (r: bool)
    ensures
        r == has_reexport(exports_view(exports@)),
{
    let ghost exs = exports_view(exports@);
    let mut i: usize = 0;
    while i < exports.len()
        invariant
            exs == exports_view(exports@),
            i <= exports@.len(),
            forall|j: int| 0 <= j < i ==> !is_reexport(#[trigger] exs[j]),
        decreases exports@.len() - i,
    {
        match &exports[i] {
            Export::AllFrom(_) | Export::NamedFrom(_, _) => {
                assert(is_reexport(exs[i as int]));
                return true;
            },
            _ => {},
        }
        i = i + 1;
    }
    false
}


/// An error reports a parse failure: the same kind, at the location of the
/// token that the failure names.
pub open spec fn error_reports(e: Error, f: Fault, lex: TokenStream) -> bool {
    match f {
        Fault::Expected(msg, i) => e.kind_spec() == ErrorKind::Expected(msg) && (
        e.loc_spec().pos,
        e.loc_spec().row,
        e.loc_spec().col,
        ) == lex.loc_spec(i as int),
        Fault::StrLit(x, at, _) => e.kind_spec() == ErrorKind::ParseStrLitError(x) && (
        e.loc_spec().pos,
        e.loc_spec().row,
        e.loc_spec().col,
        ) == lex.loc_spec(at as int),
        Fault::Unsupported => false,
    }
}

/// Where the stream stops after a parse failure.
pub open spec fn fault_stop(f: Fault) -> int {
    match f {
        Fault::Expected(_, i) => i as int,
        Fault::StrLit(_, _, stop) => stop as int,
        Fault::Unsupported => 0,
    }
}

/// A position, or the last token's where it lies past the end.
pub open spec fn clamp(q: int, len: int) -> int {
    if q < len {
        q
    } else {
        len - 1
    }
}

/// The rewriting of the stream from its current position meets neither a
/// re-export nor a string literal on which `esparse` panics: it succeeds
/// or fails with a reported error.
pub open spec fn module_supported(lex: TokenStream, allow_require: bool) -> bool {
    !(module_result(lex.tokens(), lex.position(), allow_require) matches Err(Fault::Unsupported))
}

/// Rewrites an ES6 module into a CommonJS module, reading `lex` from its
/// current position to its end: `import` declarations become bindings in
/// the prefix, `export` declarations become property definitions, and
/// other tokens are kept.  `require('…')` calls are recorded as
/// dependencies where `allow_require` holds.  Returns `None` on the input
/// that is not supported: a re-export (`export * from` or
/// `export {…} from`), or a module name on which `esparse`'s literal
/// decoding panics (see [`crate::strlit::str_lit_status`]).
pub fn module_to_cjs_checked(lex: &mut TokenStream, allow_require: bool) -> (r: Option<
    Result<CjsModule, Error>,
>)
    requires
        old(lex).wf(),
    ensures
        final(lex).wf(),
        final(lex).tokens() == old(lex).tokens(),
        final(lex).source() == old(lex).source(),
        r is None <==> !module_supported(*old(lex), allow_require),
        r matches Some(Ok(m)) ==> module_result(old(lex).tokens(), old(lex).position(), allow_require)
            == Ok::<(int, CjsView), Fault>((final(lex).position(), m@)) && final(lex).position()
            == old(lex).tokens().len() - 1,
        r matches Some(Err(e)) ==> (module_result(
            old(lex).tokens(),
            old(lex).position(),
            allow_require,
        ) matches Err(f) && error_reports(e, f, *old(lex)) && final(lex).position() == clamp(
            fault_stop(f),
            old(lex).tokens().len() as int,
        )),
{
    proof {
        lex.lemma_wf();
    }
    let toks = lex.token_vec();
    let p = lex.pos();
    let r = rewrite_tokens(toks, p, allow_require);
    match r {
        Ok((q, m)) => {
            lex.seek(q);
            Some(Ok(m))
        },
        Err(Fault::Expected(msg, i)) => {
            let l = lex.loc_of(i);
            lex.seek(i);
            Some(Err(Error::new(ErrorKind::Expected(msg), l)))
        },
        Err(Fault::StrLit(x, at, stop)) => {
            let l = lex.loc_of(at);
            lex.seek(stop);
            Some(Err(Error::new(ErrorKind::ParseStrLitError(x), l)))
        },
        Err(Fault::Unsupported) => None,
    }
}

/// Rewrites an ES6 module into a CommonJS module (see
/// [`module_to_cjs_checked`]), on input that is supported.
pub fn module_to_cjs(lex: &mut TokenStream, allow_require: bool) -> (r: Result<CjsModule, Error>)
    requires
        old(lex).wf(),
        module_supported(*old(lex), allow_require),
    ensures
        final(lex).wf(),
        final(lex).tokens() == old(lex).tokens(),
        final(lex).source() == old(lex).source(),
        r matches Ok(m) ==> module_result(old(lex).tokens(), old(lex).position(), allow_require)
            == Ok::<(int, CjsView), Fault>((final(lex).position(), m@)) && final(lex).position()
            == old(lex).tokens().len() - 1,
        r matches Err(e) ==> (module_result(
            old(lex).tokens(),
            old(lex).position(),
            allow_require,
        ) matches Err(f) && error_reports(e, f, *old(lex)) && final(lex).position() == clamp(
            fault_stop(f),
            old(lex).tokens().len() as int,
        )),
{
    match module_to_cjs_checked(lex, allow_require) {
        Some(r) => r,
        None => {
            assert(false);
            Err(Error::new(ErrorKind::Expected(""), crate::token::Loc { pos: 0, row: 0, col: 0 }))
        },
    }
}

} // verus!
