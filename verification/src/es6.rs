//! ES6 module declarations and the CommonJS module that replaces them.

use vstd::prelude::*;
use vstd::string::*;
use crate::strlit::{ParseStrLitError, str_lit_error_text, es_str_lit_error_text};
use crate::text::{decimal, push_decimal};
use crate::token::Loc;
pub use crate::cjs::{module_to_cjs, module_to_cjs_checked};

verus! {

/// A binding listed by an `export` declaration: local name `bind`,
/// exported as `name`.
pub struct ExportSpec {
    bind: String,
    name: String,
}

impl View for ExportSpec {
    /// `(bind, name)`
    type V = (Seq<char>, Seq<char>);

    closed spec fn view(&self) -> (Seq<char>, Seq<char>) {
        (self.bind@, self.name@)
    }
}

impl ExportSpec {
    /// Exports the local `bind` under the name `name`.
    pub fn new(bind: &str, name: &str) -> (r: Self)
        ensures
            r@ == (bind@, name@),
    {
        ExportSpec { name: name.to_owned(), bind: bind.to_owned() }
    }

    /// Exports the local `name` under its own name.
    pub fn same(name: &str) -> (r: Self)
        ensures
            r@ == (name@, name@),
    {
        ExportSpec::new(name, name)
    }

    /// The local binding.
    pub fn bind(&self) -> (r: &str)
        ensures
            r@ == self@.0,
    {
        self.bind.as_str()
    }

    /// The exported name.
    pub fn name(&self) -> (r: &str)
        ensures
            r@ == self@.1,
    {
        self.name.as_str()
    }
}

/// A binding listed by an `import` declaration: the imported `name`, bound
/// locally as `bind`.
pub struct ImportSpec {
    name: String,
    bind: String,
}

impl View for ImportSpec {
    /// `(name, bind)`
    type V = (Seq<char>, Seq<char>);

    closed spec fn view(&self) -> (Seq<char>, Seq<char>) {
        (self.name@, self.bind@)
    }
}

impl ImportSpec {
    /// Imports `name`, bound locally as `bind`.
    pub fn new(name: &str, bind: &str) -> (r: Self)
        ensures
            r@ == (name@, bind@),
    {
        ImportSpec { name: name.to_owned(), bind: bind.to_owned() }
    }

    /// Imports `name` under its own name.
    pub fn same(name: &str) -> (r: Self)
        ensures
            r@ == (name@, name@),
    {
        ImportSpec::new(name, name)
    }

    /// The imported name.
    pub fn name(&self) -> (r: &str)
        ensures
            r@ == self@.0,
    {
        self.name.as_str()
    }

    /// The local binding.
    pub fn bind(&self) -> (r: &str)
        ensures
            r@ == self@.1,
    {
        self.bind.as_str()
    }
}

/// The views of a list of export bindings.
pub open spec fn export_specs_view(v: Seq<ExportSpec>) -> Seq<(Seq<char>, Seq<char>)> {
    v.map_values(|s: ExportSpec| s@)
}

/// The views of a list of import bindings.
pub open spec fn import_specs_view(v: Seq<ImportSpec>) -> Seq<(Seq<char>, Seq<char>)> {
    v.map_values(|s: ImportSpec| s@)
}

/// An `export` declaration.
pub enum Export {
    /// `export default …`: the local that holds the default export.
    Default(String),
    /// `export * from 'module'`.
    AllFrom(String),
    /// `export {…}` and exported declarations.
    Named(Vec<ExportSpec>),
    /// `export {…} from 'module'`.
    NamedFrom(Vec<ExportSpec>, String),
}

/// The meaning of an `export` declaration.
pub enum ExportView {
    Default(Seq<char>),
    AllFrom(Seq<char>),
    Named(Seq<(Seq<char>, Seq<char>)>),
    NamedFrom(Seq<(Seq<char>, Seq<char>)>, Seq<char>),
}

impl View for Export {
    type V = ExportView;

    open spec fn view(&self) -> ExportView {
        match self {
            Export::Default(b) => ExportView::Default(b@),
            Export::AllFrom(m) => ExportView::AllFrom(m@),
            Export::Named(v) => ExportView::Named(export_specs_view(v@)),
            Export::NamedFrom(v, m) => ExportView::NamedFrom(export_specs_view(v@), m@),
        }
    }
}

/// The bindings of an `import` declaration.
pub enum Bindings {
    /// No bindings besides a default one.
    Empty,
    /// `* as name`.
    NameSpace(String),
    /// `{…}`.
    Named(Vec<ImportSpec>),
}

/// The meaning of an import's bindings.
pub enum BindingsView {
    Empty,
    NameSpace(Seq<char>),
    Named(Seq<(Seq<char>, Seq<char>)>),
}

impl View for Bindings {
    type V = BindingsView;

    open spec fn view(&self) -> BindingsView {
        match self {
            Bindings::Empty => BindingsView::Empty,
            Bindings::NameSpace(n) => BindingsView::NameSpace(n@),
            Bindings::Named(v) => BindingsView::Named(import_specs_view(v@)),
        }
    }
}

/// An `import` declaration.
pub struct Import {
    module_source: String,
    module: String,
    default_bind: Option<String>,
    binds: Bindings,
}

/// The meaning of an `import` declaration.
pub struct ImportView {
    /// The module's string literal as written.
    pub module_source: Seq<char>,
    /// The module's name.
    pub module: Seq<char>,
    /// The local bound to the module's default export.
    pub default_bind: Option<Seq<char>>,
    /// The other bindings.
    pub binds: BindingsView,
}

/// The view of an optional string.
pub open spec fn opt_view(o: Option<String>) -> Option<Seq<char>> {
    match o {
        Some(s) => Some(s@),
        None => None,
    }
}

impl View for Import {
    type V = ImportView;

    closed spec fn view(&self) -> ImportView {
        ImportView {
            module_source: self.module_source@,
            module: self.module@,
            default_bind: opt_view(self.default_bind),
            binds: self.binds@,
        }
    }
}

impl Import {
    /// A side-effect import of a module, with no bindings:
    /// `module_source` is its string literal, `module` its name.
    pub fn new(module_source: &str, module: &str) -> (r: Self)
        ensures
            r@ == (ImportView {
                module_source: module_source@,
                module: module@,
                default_bind: None,
                binds: BindingsView::Empty,
            }),
    {
        Import {
            module_source: module_source.to_owned(),
            module: module.to_owned(),
            default_bind: None,
            binds: Bindings::Empty,
        }
    }

    /// An import with the given bindings.
    pub fn with_bindings(
        module_source: String,
        module: String,
        default_bind: Option<String>,
        binds: Bindings,
    ) -> (r: Self)
        ensures
            r@ == (ImportView {
                module_source: module_source@,
                module: module@,
                default_bind: opt_view(default_bind),
                binds: binds@,
            }),
    {
        Import { module_source, module, default_bind, binds }
    }

    /// The module's string literal as written.
    pub fn module_source(&self) -> (r: &str)
        ensures
            r@ == self@.module_source,
    {
        self.module_source.as_str()
    }

    /// The module's name.
    pub fn module(&self) -> (r: &str)
        ensures
            r@ == self@.module,
    {
        self.module.as_str()
    }

    /// The local bound to the module's default export.
    pub fn default_bind(&self) -> (r: &Option<String>)
        ensures
            opt_view(*r) == self@.default_bind,
    {
        &self.default_bind
    }

    /// The other bindings.
    pub fn binds(&self) -> (r: &Bindings)
        ensures
            r@ == self@.binds,
    {
        &self.binds
    }
}

/// A CommonJS module: the rewritten source between a prefix and a suffix,
/// and the modules it depends on.
pub struct CjsModule {
    pub source_prefix: String,
    pub source: String,
    pub source_suffix: String,
    /// Each dependency once.
    pub deps: Vec<String>,
}

/// What went wrong.
#[derive(Clone, Copy, PartialEq, Eq, Debug)]
pub enum ErrorKind {
    /// Something else was expected (the text says what).
    Expected(&'static str),
    /// An invalid string literal.
    ParseStrLitError(ParseStrLitError),
}

/// The text of an error of kind `kind` at `loc`.
pub open spec fn error_message(kind: ErrorKind, loc: Loc) -> Seq<char> {
    (match kind {
        ErrorKind::Expected(s) => "expected "@ + s@,
        ErrorKind::ParseStrLitError(e) => "invalid string literal: "@ + str_lit_error_text(e),
    }) + " at <?>:"@ + decimal((loc.row + 1) as nat) + ","@ + decimal((loc.col + 1) as nat) + "\n"@
}

/// An error, with the location of the token where it was found.
#[derive(Clone, Copy, Debug)]
pub struct Error {
    kind: ErrorKind,
    loc: Loc,
}

impl Error {
    /// The error's kind.
    pub closed spec fn kind_spec(&self) -> ErrorKind {
        self.kind
    }

    /// The error's location.
    pub closed spec fn loc_spec(&self) -> Loc {
        self.loc
    }

    /// An error of the given kind at the given location.
    pub fn new(kind: ErrorKind, loc: Loc) -> (e: Error)
        ensures
            e.kind_spec() == kind,
            e.loc_spec() == loc,
    {
        Error { kind, loc }
    }

    /// The error's kind.
    pub fn kind(&self) -> (k: ErrorKind)
        ensures
            k == self.kind_spec(),
    {
        self.kind
    }

    /// The error's location.
    pub fn loc(&self) -> (l: Loc)
        ensures
            l == self.loc_spec(),
    {
        self.loc
    }

    /// The error as text: what went wrong, then the 1-based line and column
    /// in an unnamed file, and a line break.
    pub fn message(&self) -> (r: String)
        ensures
            r@ == error_message(self.kind_spec(), self.loc_spec()),
    {
        let mut out = String::new();
        match self.kind {
            ErrorKind::Expected(s) => {
                out.append("expected ");
                out.append(s);
            },
            ErrorKind::ParseStrLitError(e) => {
                out.append("invalid string literal: ");
                out.append(es_str_lit_error_text(e).as_str());
            },
        }
        out.append(" at <?>:");
        push_decimal(&mut out, self.loc.row as u128 + 1);
        out.append(",");
        push_decimal(&mut out, self.loc.col as u128 + 1);
        out.append("\n");
        proof {
            assert(out@ =~= error_message(self.kind_spec(), self.loc_spec()));
        }
        out
    }
}

} // verus!
