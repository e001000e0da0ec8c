use parcel_cjs::cjs::{module_to_cjs, module_to_cjs_checked};
use parcel_cjs::es6::{Bindings, CjsModule, ErrorKind, Export, ExportSpec, Import, ImportSpec};
use parcel_cjs::strlit::{str_lit_check, ParseStrLitError};
use parcel_cjs::parse::{parse_export, parse_import, skip_expr, Fault, Prec};
use parcel_cjs::token::{is_lexable, TokenKind, TokenStream};

fn convert(input: &str, allow_require: bool) -> Result<CjsModule, parcel_cjs::es6::Error> {
    let mut lex = TokenStream::new(input);
    module_to_cjs(&mut lex, allow_require)
}

const HEAD: &str = "Object.defineProperty(exports, '__esModule', {value: true})\n";

#[test]
fn export_spec_new_keeps_bind_and_name() {
    let s = ExportSpec::new("local", "exported");
    assert_eq!(s.bind(), "local");
    assert_eq!(s.name(), "exported");
}

#[test]
fn export_spec_same_uses_one_name_twice() {
    let s = ExportSpec::same("x");
    assert_eq!(s.bind(), "x");
    assert_eq!(s.name(), "x");
}

#[test]
fn import_spec_new_keeps_name_and_bind() {
    let s = ImportSpec::new("imported", "local");
    assert_eq!(s.name(), "imported");
    assert_eq!(s.bind(), "local");
    let t = ImportSpec::same("y");
    assert_eq!(t.name(), "y");
    assert_eq!(t.bind(), "y");
}

#[test]
fn import_new_has_no_bindings() {
    let i = Import::new("'./m'", "./m");
    assert_eq!(i.module_source(), "'./m'");
    assert_eq!(i.module(), "./m");
    assert!(i.default_bind().is_none());
    assert!(matches!(i.binds(), Bindings::Empty));
}

#[test]
fn plain_script_is_unchanged() {
    let input = "var x = 1; /* note */ foo(x, `t${x}`)\n// end\n";
    let m = convert(input, false).unwrap();
    assert_eq!(m.source, input);
    assert_eq!(m.source_prefix, format!("{}~function() {{\n'use strict';\n", HEAD));
    assert_eq!(m.source_suffix, "}()");
    assert!(m.deps.is_empty());
}

#[test]
fn plain_script_with_require_allowed_has_no_strict_mode() {
    let input = "const a = require('a'), b = require(\"b\"), c = require('a')\n";
    let m = convert(input, true).unwrap();
    assert_eq!(m.source, input);
    assert_eq!(m.source_prefix, format!("{}~function() {{", HEAD));
    assert_eq!(m.deps, vec!["a".to_string(), "b".to_string()]);
}

#[test]
fn require_is_ignored_when_not_allowed() {
    let input = "require('a')";
    let m = convert(input, false).unwrap();
    assert_eq!(m.source, input);
    assert!(m.deps.is_empty());
}

#[test]
fn incomplete_require_is_copied() {
    let input = "require('a' + b)";
    let m = convert(input, true).unwrap();
    assert_eq!(m.source, input);
    assert!(m.deps.is_empty());
}

#[test]
fn imports_and_exports_are_rewritten() {
    let input = "import a, {b as c, d} from \"m\";\nexport {c, d as e};\nexport default a;\n";
    let m = convert(input, false).unwrap();
    assert_eq!(m.source, "       ;\n    ;\n const __default =  a;\n");
    let prefix = String::new()
        + HEAD
        + "with (function() {"
        + "\n  const __module0 = require.module(\"m\")"
        + "\n  return Object.freeze(Object.create(null, {\n    [Symbol.toStringTag]: {value: 'ModuleImports'},"
        + "\n    a: {get() {return __module0.default}, enumerable: true},"
        + "\n    c: {get() {return __module0.b}, enumerable: true},"
        + "\n    d: {get() {return __module0.d}, enumerable: true},"
        + "\n  }))\n}()) "
        + "~function() {"
        + "\n'use strict';\n"
        + "Object.defineProperties(exports, {\n"
        + "\n  c: {get() {return c}, enumerable: true},"
        + "\n  e: {get() {return d}, enumerable: true},"
        + "\n  default: {get() {return __default}, enumerable: true},"
        + "\n});\n";
    assert_eq!(m.source_prefix, prefix);
    assert_eq!(m.source_suffix, "}()");
    assert_eq!(m.deps, vec!["m".to_string()]);
}

#[test]
fn namespace_and_bare_imports() {
    let input = "import * as ns from './a'\nimport './b'\n";
    let m = convert(input, true).unwrap();
    assert_eq!(m.source, "     \n \n");
    let prefix = String::new()
        + HEAD
        + "with (function() {"
        + "\n  const __module0 = require.module('./a')"
        + "\n  const __module1 = require.module('./b')"
        + "\n  return Object.freeze(Object.create(null, {\n    [Symbol.toStringTag]: {value: 'ModuleImports'},"
        + "\n    ns: {value: __module0, enumerable: true},"
        + "\n  }))\n}()) "
        + "~function() {"
        + "\n'use strict';\n";
    assert_eq!(m.source_prefix, prefix);
    assert_eq!(m.deps, vec!["./a".to_string(), "./b".to_string()]);
}

#[test]
fn many_imports_are_numbered_in_decimal() {
    let mut input = String::new();
    for i in 0..12 {
        input.push_str(&format!("import 'm{}'\n", i));
    }
    let m = convert(&input, false).unwrap();
    assert!(m.source_prefix.contains("\n  const __module11 = require.module('m11')"));
    assert!(m.source_prefix.contains("\n  const __module10 = require.module('m10')"));
    assert_eq!(m.deps.len(), 12);
}

#[test]
fn repeated_import_is_one_dependency() {
    let m = convert("import 'x'; import y from 'x'", false).unwrap();
    assert_eq!(m.deps, vec!["x".to_string()]);
}

#[test]
fn exported_declarations_keep_their_text() {
    let input = "export var x = function() { return [1, 2] }, y = a ? b : c;\nexport function* f(a) {}\nexport class K extends B {}\nexport let z";
    let m = convert(input, false).unwrap();
    assert_eq!(
        m.source,
        " var x = function() { return [1, 2] }, y = a ? b : c;\n function* f(a) {}\n class K extends B {}\n let z"
    );
    let expected_exports = String::new()
        + "Object.defineProperties(exports, {\n"
        + "\n  x: {get() {return x}, enumerable: true},"
        + "\n  y: {get() {return y}, enumerable: true},"
        + "\n  f: {get() {return f}, enumerable: true},"
        + "\n  K: {get() {return K}, enumerable: true},"
        + "\n  z: {get() {return z}, enumerable: true},"
        + "\n});\n";
    assert!(m.source_prefix.ends_with(&expected_exports));
}

#[test]
fn export_default_function_and_class_keep_their_names() {
    let m = convert("export default function* g() {}\nexport default class C {}", false).unwrap();
    assert_eq!(m.source, "  function* g() {}\n  class C {}");
    assert!(m.source_prefix.contains("\n  default: {get() {return g}, enumerable: true},"));
    assert!(m.source_prefix.contains("\n  default: {get() {return C}, enumerable: true},"));
}

#[test]
fn export_default_expression_gets_a_name() {
    let m = convert("export default 1 + 2;", false).unwrap();
    assert_eq!(m.source, " const __default =  1 + 2;");
}

#[test]
fn unexpected_token_is_reported_where_it_stands() {
    let e = convert("export {a b}", false).err().unwrap();
    assert_eq!(e.kind(), ErrorKind::Expected("',' or '}' or keyword 'as'"));
    assert_eq!(e.loc().pos, 10);
    assert_eq!(e.loc().row, 0);
    assert_eq!(e.loc().col, 10);
    assert_eq!(e.message(), "expected ',' or '}' or keyword 'as' at <?>:1,11\n");
}

#[test]
fn error_on_a_later_line() {
    let e = convert("let a = 1\nimport x", false).err().unwrap();
    assert_eq!(e.kind(), ErrorKind::Expected("keyword 'from'"));
    assert_eq!(e.loc().row, 1);
    assert_eq!(e.loc().col, 8);
    assert_eq!(e.message(), "expected keyword 'from' at <?>:2,9\n");
}

#[test]
fn unbalanced_initializer_fails_at_end() {
    let e = convert("export var a = (1, 2", false).err().unwrap();
    assert_eq!(e.kind(), ErrorKind::Expected("')'"));
    assert_eq!(e.loc().pos, 20);
}

#[test]
fn missing_primary_expression() {
    let e = convert("export var a = ;", false).err().unwrap();
    assert_eq!(e.kind(), ErrorKind::Expected("primary expression"));
    assert_eq!(e.loc().pos, 15);
}

#[test]
fn invalid_module_literal_is_reported() {
    let e = convert("import '\\x'", false).err().unwrap();
    assert_eq!(e.kind(), ErrorKind::ParseStrLitError(ParseStrLitError::ExpectedHex2));
    assert_eq!(e.loc().pos, 7);
    assert_eq!(
        e.message(),
        "invalid string literal: expected two hexadecimal characters after '\\x' at <?>:1,8\n"
    );
}

#[test]
fn invalid_required_literal_is_reported_at_require() {
    let e = convert("x; require('\\u12')", true).err().unwrap();
    assert_eq!(e.kind(), ErrorKind::ParseStrLitError(ParseStrLitError::ExpectedHex4));
    assert_eq!(e.loc().pos, 3);
}

#[test]
fn escaped_module_name_is_decoded() {
    let m = convert("import 'a\\x41b'", false).unwrap();
    assert_eq!(m.deps, vec!["aAb".to_string()]);
    assert!(m.source_prefix.contains("require.module('a\\x41b')"));
}

#[test]
fn reexport_is_not_supported() {
    let mut lex = TokenStream::new("export * from 'a'");
    assert!(module_to_cjs_checked(&mut lex, false).is_none());
    let mut lex = TokenStream::new("export {a} from 'a'");
    assert!(module_to_cjs_checked(&mut lex, false).is_none());
}

#[test]
fn stream_is_read_to_its_end() {
    let mut lex = TokenStream::new("a + b");
    let n = lex.token_vec().len();
    module_to_cjs(&mut lex, false).unwrap();
    assert_eq!(lex.pos(), n - 1);
}

#[test]
fn tokens_account_for_the_whole_input() {
    let input = "a /* c */ + 'b'\nc = /x/g";
    let lex = TokenStream::new(input);
    let mut text = String::new();
    for t in lex.token_vec() {
        text.push_str(&t.gap);
        text.push_str(&t.ws_before);
        text.push_str(&t.text);
    }
    assert_eq!(text, input);
    let kinds: Vec<TokenKind> = lex.token_vec().iter().map(|t| t.tt).collect();
    assert_eq!(
        kinds,
        vec![
            TokenKind::Id,
            TokenKind::Plus,
            TokenKind::StrLitSgl,
            TokenKind::Id,
            TokenKind::Eq,
            TokenKind::RegExpLit,
            TokenKind::Eof,
        ]
    );
}

#[test]
fn lexical_error_token_is_dropped_from_output() {
    let m = convert("a # b", false).unwrap();
    assert_eq!(m.source, "a ");
}

#[test]
fn unterminated_comment_is_kept_only_in_the_stream() {
    let input = "a /* open";
    let lex = TokenStream::new(input);
    let toks = lex.token_vec();
    assert_eq!(toks[1].tt, TokenKind::LexError);
    assert_eq!(toks[1].gap, " /* open");
    let m = convert(input, false).unwrap();
    assert_eq!(m.source, "a");
}

#[test]
fn lexable_input() {
    assert!(is_lexable("plain \u{00e9} text \u{1F600}"));
    assert!(!is_lexable("odd \u{40000} char"));
}

#[test]
fn yield_before_line_break_ends_the_initializer() {
    let m = convert("export var a = yield\n, b", false).unwrap();
    assert_eq!(m.source, " var a = yield\n, b");
    assert!(m.source_prefix.contains("\n  b: {get() {return b}, enumerable: true},"));
}

#[test]
fn named_export_values() {
    let mut lex = TokenStream::new("export {a as b}");
    let toks = lex.token_vec();
    assert_eq!(toks[0].tt, TokenKind::Export);
    let _ = Export::Named(vec![ExportSpec::new("a", "b")]);
    let m = module_to_cjs(&mut lex, false).unwrap();
    assert!(m.source_prefix.contains("\n  b: {get() {return a}, enumerable: true},"));
}

#[test]
fn each_reachable_literal_error() {
    let cases = [
        ("import '\\xZZ'", ParseStrLitError::NotHex2, "expected two hexadecimal characters after '\\x'"),
        ("import '\\uD800'", ParseStrLitError::NotChar, "hexadecimal number in `\\u{…}` escape is not a Unicode Scalar Value"),
        ("import '\\uZZZZ'", ParseStrLitError::NotHex4, "expected four hexadecimal characters or '{…}' after '\\u'"),
    ];
    for (input, kind, text) in cases.iter() {
        let e = convert(input, false).err().unwrap();
        assert_eq!(e.kind(), ErrorKind::ParseStrLitError(*kind));
        assert_eq!(e.message(), format!("invalid string literal: {} at <?>:1,8\n", text));
    }
}

#[test]
fn braced_unicode_escape_is_not_supported() {
    let mut lex = TokenStream::new("import '\\u{41}'");
    assert!(module_to_cjs_checked(&mut lex, false).is_none());
    let mut lex = TokenStream::new("import 'a\\n\\t'");
    assert!(module_to_cjs_checked(&mut lex, false).is_none());
}

#[test]
fn escaped_quote_and_backslash_are_supported() {
    let m = convert("import 'it\\'s'; import '\\\\x'", false).unwrap();
    assert_eq!(m.deps, vec!["it's".to_string(), "\\x".to_string()]);
}

#[test]
fn unclosed_braced_escape_is_reported() {
    let e = convert("import '\\u{'", false).err().unwrap();
    assert_eq!(e.kind(), ErrorKind::ParseStrLitError(ParseStrLitError::ExpectedRbrace));
    assert_eq!(e.loc().pos, 7);
    assert_eq!(e.message(), "invalid string literal: expected `}` after `\\u{` at <?>:1,8\n");
    let e = convert("import x from '\\u{'", false).err().unwrap();
    assert_eq!(e.kind(), ErrorKind::ParseStrLitError(ParseStrLitError::ExpectedRbrace));
    assert_eq!(e.loc().pos, 14);
}

#[test]
fn braced_escape_is_read_by_relative_index() {
    let m = convert("import '\\u{+1F600}'", false).unwrap();
    assert_eq!(m.deps, vec!["\u{1F}00}".to_string()]);
}

#[test]
fn second_escape_is_read_by_relative_index() {
    let e = convert("import '\\nabx\\41'", false).err().unwrap();
    assert_eq!(e.kind(), ErrorKind::ParseStrLitError(ParseStrLitError::NotHex2));
    assert_eq!(e.loc().pos, 7);
}

#[test]
fn literal_status_follows_the_scan() {
    assert_eq!(str_lit_check("'a'"), Some(Ok(())));
    assert_eq!(str_lit_check("'\\u{'"), Some(Err(ParseStrLitError::ExpectedRbrace)));
    assert_eq!(str_lit_check("'\\u{41}'"), None);
    assert_eq!(str_lit_check("'a\\n\\t'"), None);
    assert_eq!(str_lit_check("'\\x4'"), Some(Err(ParseStrLitError::ExpectedHex2)));
    assert_eq!(str_lit_check("'\\x+4'"), Some(Ok(())));
    assert_eq!(str_lit_check("'\\u{110000'"), Some(Err(ParseStrLitError::ExpectedRbrace)));
    assert_eq!(str_lit_check("'ab\\'"), Some(Err(ParseStrLitError::ExpectedEscape)));
    assert_eq!(str_lit_check("'"), None);
}

#[test]
fn looser_precedence_skips_at_least_as_far() {
    let lex = TokenStream::new("a + b, c");
    let toks = lex.token_vec();
    let a = skip_expr(toks, 0, Prec::Primary).ok().unwrap();
    let b = skip_expr(toks, 0, Prec::NoComma).ok().unwrap();
    let c = skip_expr(toks, 0, Prec::Any).ok().unwrap();
    assert_eq!((a, b, c), (1, 3, 5));
}

#[test]
fn failed_export_keeps_only_consumed_whitespace() {
    let lex = TokenStream::new("foo");
    let mut source = String::new();
    let r = parse_export(lex.token_vec(), 0, &mut source);
    assert!(matches!(
        r,
        Err(Fault::Expected("keyword 'default' or '*' or '{' or declaration", 0))
    ));
    assert_eq!(source, "");
    let lex = TokenStream::new(" * from  x");
    let mut source = String::from("ab");
    let r = parse_export(lex.token_vec(), 0, &mut source);
    assert!(matches!(r, Err(Fault::Expected("module name (string literal)", 2))));
    assert_eq!(source, "ab  ");
    let lex = TokenStream::new(" var a = ;");
    let mut source = String::from("ab");
    let r = parse_export(lex.token_vec(), 0, &mut source);
    assert!(matches!(r, Err(Fault::Expected("primary expression", 3))));
    assert_eq!(source, "ab ");
}

#[test]
fn failed_import_keeps_only_consumed_whitespace() {
    let lex = TokenStream::new(" {a, b} from 'x\\u{'");
    let mut source = String::from("ab");
    let r = parse_import(lex.token_vec(), 0, &mut source);
    assert!(matches!(r, Err(Fault::StrLit(ParseStrLitError::ExpectedRbrace, 6, 7))));
    assert_eq!(source, "ab    ");
    let lex = TokenStream::new(" x y");
    let mut source = String::new();
    let r = parse_import(lex.token_vec(), 0, &mut source);
    assert!(matches!(r, Err(Fault::Expected("keyword 'from'", 1))));
    assert_eq!(source, " ");
}

#[test]
fn lines_end_at_separators_but_not_at_carriage_returns() {
    let e = convert("a;\u{2028} export 5", false).err().unwrap();
    assert_eq!(e.loc().pos, 13);
    assert_eq!(e.loc().row, 1);
    assert_eq!(e.loc().col, 8);
    let e = convert("a;\r\u{e9} export 5", false).err().unwrap();
    assert_eq!(e.loc().pos, 13);
    assert_eq!(e.loc().row, 0);
    assert_eq!(e.loc().col, 12);
}

#[test]
fn only_a_reexport_is_unsupported_when_literals_decode() {
    let mut lex = TokenStream::new("import '\\u{'; export {b}");
    let r = module_to_cjs_checked(&mut lex, false).unwrap();
    assert_eq!(
        r.err().unwrap().kind(),
        ErrorKind::ParseStrLitError(ParseStrLitError::ExpectedRbrace)
    );
    let mut lex = TokenStream::new("import 'a'; export {b}");
    assert!(module_to_cjs_checked(&mut lex, false).unwrap().is_ok());
    let mut lex = TokenStream::new("import 'a'; export * from 'b'");
    assert!(module_to_cjs_checked(&mut lex, false).is_none());
}
