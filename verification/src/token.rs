//! Tokens of JavaScript source text and the token stream that the module
//! rewriter walks.  The stream is produced by the `esparse` lexer; this module
//! checks what the lexer hands back and keeps it as plain values.

use vstd::prelude::*;
use vstd::string::*;
use vstd::utf8::*;
use esparse::lex::Tt;
use crate::text::{
    text_is, slice_bytes, decoded, lemma_decoded_all, lemma_decoded_concat, lemma_decoded_empty,
};

verus! {

/// The `esparse` lexer decodes its input itself, and panics on the leading
/// bytes `0xF1` and `0xF3` (characters U+40000 to U+7FFFF and U+C0000 to
/// U+FFFFF).  Text without them can be lexed.
pub open spec fn lexable(s: Seq<char>) -> bool {
    forall|i: int|
        0 <= i < encode_utf8(s).len() ==> #[trigger] encode_utf8(s)[i] != 0xf1u8
            && encode_utf8(s)[i] != 0xf3u8
}

/// Whether `input` can be lexed (see [`lexable`]).
pub fn is_lexable(input: &str) -> (r: bool)
    ensures
        r == lexable(input@),
{
    let b = input.as_bytes();
    let mut i: usize = 0;
    while i < b.len()
        invariant
            b@ == encode_utf8(input@),
            i <= b@.len(),
            forall|j: int| 0 <= j < i ==> b@[j] != 0xf1u8 && b@[j] != 0xf3u8,
        decreases b@.len() - i,
    {
        if b[i] == 0xf1u8 || b[i] == 0xf3u8 {
            return false;
        }
        i += 1;
    }
    true
}

/// A location in the source: byte offset, and 0-based line and column.
#[derive(Clone, Copy, PartialEq, Eq, Debug, Structural)]
pub struct Loc {
    pub pos: usize,
    pub row: usize,
    pub col: usize,
}

/// A character that ends a line for `esparse`'s locations: line feed, line
/// separator or paragraph separator (a carriage return does not).
pub open spec fn line_terminator(c: char) -> bool {
    c == '\n' || c == '\u{2028}' || c == '\u{2029}'
}

/// The 0-based line and column of the character that follows `before`:
/// the number of line terminators in `before`, and the number of
/// characters after the last of them.
pub open spec fn row_col(before: Seq<char>) -> (nat, nat)
    decreases before.len(),
{
    if before.len() == 0 {
        (0, 0)
    } else {
        let rc = row_col(before.drop_last());
        if line_terminator(before.last()) {
            (rc.0 + 1, 0)
        } else {
            (rc.0, rc.1 + 1)
        }
    }
}

/// The location of a byte offset (`esparse::lex::Lexer::recover_loc`, on a
/// lexer over `input`).  Claimed: the offset, and the line and column of the
/// character there, as [`row_col`] counts them over the text before it.
/// The offset must be a character boundary within the text: the scan for a
/// larger one never ends.
#[verifier::external_body]
fn es_recover_loc(input: &str, pos: usize) -> (l: Loc)
    requires
        lexable(input@),
        pos <= input.spec_bytes().len(),
        is_char_boundary(input.spec_bytes(), pos as int),
    ensures
        l.pos == pos,
        l.row == row_col(decoded(input.spec_bytes(), 0, pos as int)).0,
        l.col == row_col(decoded(input.spec_bytes(), 0, pos as int)).1,
{
    let l = esparse::lex::Lexer::new_unnamed(input).recover_loc(pos);
    Loc { pos: l.pos, row: l.row, col: l.col }
}

/// What the lexer says a token is, before its text is looked at.
#[derive(Clone, Copy, PartialEq, Eq, Debug, Structural)]
pub enum TokClass {
    Id,
    StrLitSgl,
    StrLitDbl,
    RegExpLit,
    NumLit,
    TemplateNoSub,
    TemplateStart,
    TemplateMiddle,
    TemplateEnd,
    Eof,
    LexError,
    /// A punctuator or keyword: its kind is fixed by its text.
    Fixed,
}

/// The type of a token.  Punctuators and keywords that the rewriter never
/// tells apart are `Other`.
#[derive(Clone, Copy, PartialEq, Eq, Debug, Structural)]
pub enum TokenKind {
    Id,
    StrLitSgl,
    StrLitDbl,
    RegExpLit,
    NumLit,
    TemplateNoSub,
    TemplateStart,
    TemplateMiddle,
    TemplateEnd,
    Eof,
    LexError,
    Lbrace,
    Lparen,
    Rparen,
    Lbracket,
    Rbracket,
    Dot,
    DotDotDot,
    Comma,
    Lt,
    Gt,
    LtEq,
    GtEq,
    EqEq,
    BangEq,
    EqEqEq,
    BangEqEq,
    Plus,
    Minus,
    Star,
    Percent,
    StarStar,
    PlusPlus,
    MinusMinus,
    LtLt,
    GtGt,
    GtGtGt,
    And,
    Or,
    Circumflex,
    Bang,
    Tilde,
    AndAnd,
    OrOr,
    Question,
    Colon,
    Eq,
    PlusEq,
    MinusEq,
    StarEq,
    PercentEq,
    StarStarEq,
    LtLtEq,
    GtGtEq,
    GtGtGtEq,
    AndEq,
    OrEq,
    CircumflexEq,
    EqGt,
    Slash,
    SlashEq,
    Rbrace,
    Null,
    True,
    False,
    Class,
    Const,
    Default,
    Delete,
    Export,
    Extends,
    Function,
    Import,
    In,
    Instanceof,
    New,
    Super,
    This,
    Typeof,
    Var,
    Void,
    Yield,
    Other,
}

/// The fixed token of group `punct_a` whose source text is `text`, if any.
pub open spec fn spec_punct_a(text: Seq<char>) -> Option<TokenKind> {
    if text == "{"@ {
        Some(TokenKind::Lbrace)
    } else if text == "("@ {
        Some(TokenKind::Lparen)
    } else if text == ")"@ {
        Some(TokenKind::Rparen)
    } else if text == "["@ {
        Some(TokenKind::Lbracket)
    } else if text == "]"@ {
        Some(TokenKind::Rbracket)
    } else if text == "."@ {
        Some(TokenKind::Dot)
    } else if text == "..."@ {
        Some(TokenKind::DotDotDot)
    } else if text == ","@ {
        Some(TokenKind::Comma)
    } else if text == "<"@ {
        Some(TokenKind::Lt)
    } else if text == ">"@ {
        Some(TokenKind::Gt)
    } else if text == "<="@ {
        Some(TokenKind::LtEq)
    } else if text == ">="@ {
        Some(TokenKind::GtEq)
    } else if text == "=="@ {
        Some(TokenKind::EqEq)
    } else if text == "!="@ {
        Some(TokenKind::BangEq)
    } else if text == "==="@ {
        Some(TokenKind::EqEqEq)
    } else if text == "!=="@ {
        Some(TokenKind::BangEqEq)
    } else if text == "+"@ {
        Some(TokenKind::Plus)
    } else if text == "-"@ {
        Some(TokenKind::Minus)
    } else {
        None
    }
}

fn punct_a(text: &str) -> (r: Option<TokenKind>)
    ensures
        r == spec_punct_a(text@),
{
    if text_is(text, "{") {
        Some(TokenKind::Lbrace)
    } else if text_is(text, "(") {
        Some(TokenKind::Lparen)
    } else if text_is(text, ")") {
        Some(TokenKind::Rparen)
    } else if text_is(text, "[") {
        Some(TokenKind::Lbracket)
    } else if text_is(text, "]") {
        Some(TokenKind::Rbracket)
    } else if text_is(text, ".") {
        Some(TokenKind::Dot)
    } else if text_is(text, "...") {
        Some(TokenKind::DotDotDot)
    } else if text_is(text, ",") {
        Some(TokenKind::Comma)
    } else if text_is(text, "<") {
        Some(TokenKind::Lt)
    } else if text_is(text, ">") {
        Some(TokenKind::Gt)
    } else if text_is(text, "<=") {
        Some(TokenKind::LtEq)
    } else if text_is(text, ">=") {
        Some(TokenKind::GtEq)
    } else if text_is(text, "==") {
        Some(TokenKind::EqEq)
    } else if text_is(text, "!=") {
        Some(TokenKind::BangEq)
    } else if text_is(text, "===") {
        Some(TokenKind::EqEqEq)
    } else if text_is(text, "!==") {
        Some(TokenKind::BangEqEq)
    } else if text_is(text, "+") {
        Some(TokenKind::Plus)
    } else if text_is(text, "-") {
        Some(TokenKind::Minus)
    } else {
        None
    }
}

/// The fixed token of group `punct_b` whose source text is `text`, if any.
pub open spec fn spec_punct_b(text: Seq<char>) -> Option<TokenKind> {
    if text == "*"@ {
        Some(TokenKind::Star)
    } else if text == "%"@ {
        Some(TokenKind::Percent)
    } else if text == "**"@ {
        Some(TokenKind::StarStar)
    } else if text == "++"@ {
        Some(TokenKind::PlusPlus)
    } else if text == "--"@ {
        Some(TokenKind::MinusMinus)
    } else if text == "<<"@ {
        Some(TokenKind::LtLt)
    } else if text == ">>"@ {
        Some(TokenKind::GtGt)
    } else if text == ">>>"@ {
        Some(TokenKind::GtGtGt)
    } else if text == "&"@ {
        Some(TokenKind::And)
    } else if text == "|"@ {
        Some(TokenKind::Or)
    } else if text == "^"@ {
        Some(TokenKind::Circumflex)
    } else if text == "!"@ {
        Some(TokenKind::Bang)
    } else if text == "~"@ {
        Some(TokenKind::Tilde)
    } else if text == "&&"@ {
        Some(TokenKind::AndAnd)
    } else if text == "||"@ {
        Some(TokenKind::OrOr)
    } else if text == "?"@ {
        Some(TokenKind::Question)
    } else if text == ":"@ {
        Some(TokenKind::Colon)
    } else if text == "="@ {
        Some(TokenKind::Eq)
    } else {
        None
    }
}

fn punct_b(text: &str) -> (r: Option<TokenKind>)
    ensures
        r == spec_punct_b(text@),
{
    if text_is(text, "*") {
        Some(TokenKind::Star)
    } else if text_is(text, "%") {
        Some(TokenKind::Percent)
    } else if text_is(text, "**") {
        Some(TokenKind::StarStar)
    } else if text_is(text, "++") {
        Some(TokenKind::PlusPlus)
    } else if text_is(text, "--") {
        Some(TokenKind::MinusMinus)
    } else if text_is(text, "<<") {
        Some(TokenKind::LtLt)
    } else if text_is(text, ">>") {
        Some(TokenKind::GtGt)
    } else if text_is(text, ">>>") {
        Some(TokenKind::GtGtGt)
    } else if text_is(text, "&") {
        Some(TokenKind::And)
    } else if text_is(text, "|") {
        Some(TokenKind::Or)
    } else if text_is(text, "^") {
        Some(TokenKind::Circumflex)
    } else if text_is(text, "!") {
        Some(TokenKind::Bang)
    } else if text_is(text, "~") {
        Some(TokenKind::Tilde)
    } else if text_is(text, "&&") {
        Some(TokenKind::AndAnd)
    } else if text_is(text, "||") {
        Some(TokenKind::OrOr)
    } else if text_is(text, "?") {
        Some(TokenKind::Question)
    } else if text_is(text, ":") {
        Some(TokenKind::Colon)
    } else if text_is(text, "=") {
        Some(TokenKind::Eq)
    } else {
        None
    }
}

/// The fixed token of group `punct_c` whose source text is `text`, if any.
pub open spec fn spec_punct_c(text: Seq<char>) -> Option<TokenKind> {
    if text == "+="@ {
        Some(TokenKind::PlusEq)
    } else if text == "-="@ {
        Some(TokenKind::MinusEq)
    } else if text == "*="@ {
        Some(TokenKind::StarEq)
    } else if text == "%="@ {
        Some(TokenKind::PercentEq)
    } else if text == "**="@ {
        Some(TokenKind::StarStarEq)
    } else if text == "<<="@ {
        Some(TokenKind::LtLtEq)
    } else if text == ">>="@ {
        Some(TokenKind::GtGtEq)
    } else if text == ">>>="@ {
        Some(TokenKind::GtGtGtEq)
    } else if text == "&="@ {
        Some(TokenKind::AndEq)
    } else if text == "|="@ {
        Some(TokenKind::OrEq)
    } else if text == "^="@ {
        Some(TokenKind::CircumflexEq)
    } else if text == "=>"@ {
        Some(TokenKind::EqGt)
    } else if text == "/"@ {
        Some(TokenKind::Slash)
    } else if text == "/="@ {
        Some(TokenKind::SlashEq)
    } else if text == "}"@ {
        Some(TokenKind::Rbrace)
    } else {
        None
    }
}

fn punct_c(text: &str) -> (r: Option<TokenKind>)
    ensures
        r == spec_punct_c(text@),
{
    if text_is(text, "+=") {
        Some(TokenKind::PlusEq)
    } else if text_is(text, "-=") {
        Some(TokenKind::MinusEq)
    } else if text_is(text, "*=") {
        Some(TokenKind::StarEq)
    } else if text_is(text, "%=") {
        Some(TokenKind::PercentEq)
    } else if text_is(text, "**=") {
        Some(TokenKind::StarStarEq)
    } else if text_is(text, "<<=") {
        Some(TokenKind::LtLtEq)
    } else if text_is(text, ">>=") {
        Some(TokenKind::GtGtEq)
    } else if text_is(text, ">>>=") {
        Some(TokenKind::GtGtGtEq)
    } else if text_is(text, "&=") {
        Some(TokenKind::AndEq)
    } else if text_is(text, "|=") {
        Some(TokenKind::OrEq)
    } else if text_is(text, "^=") {
        Some(TokenKind::CircumflexEq)
    } else if text_is(text, "=>") {
        Some(TokenKind::EqGt)
    } else if text_is(text, "/") {
        Some(TokenKind::Slash)
    } else if text_is(text, "/=") {
        Some(TokenKind::SlashEq)
    } else if text_is(text, "}") {
        Some(TokenKind::Rbrace)
    } else {
        None
    }
}

/// The fixed token of group `keyword` whose source text is `text`, if any.
pub open spec fn spec_keyword(text: Seq<char>) -> Option<TokenKind> {
    if text == "null"@ {
        Some(TokenKind::Null)
    } else if text == "true"@ {
        Some(TokenKind::True)
    } else if text == "false"@ {
        Some(TokenKind::False)
    } else if text == "class"@ {
        Some(TokenKind::Class)
    } else if text == "const"@ {
        Some(TokenKind::Const)
    } else if text == "default"@ {
        Some(TokenKind::Default)
    } else if text == "delete"@ {
        Some(TokenKind::Delete)
    } else if text == "export"@ {
        Some(TokenKind::Export)
    } else if text == "extends"@ {
        Some(TokenKind::Extends)
    } else if text == "function"@ {
        Some(TokenKind::Function)
    } else if text == "import"@ {
        Some(TokenKind::Import)
    } else if text == "in"@ {
        Some(TokenKind::In)
    } else if text == "instanceof"@ {
        Some(TokenKind::Instanceof)
    } else if text == "new"@ {
        Some(TokenKind::New)
    } else if text == "super"@ {
        Some(TokenKind::Super)
    } else if text == "this"@ {
        Some(TokenKind::This)
    } else if text == "typeof"@ {
        Some(TokenKind::Typeof)
    } else if text == "var"@ {
        Some(TokenKind::Var)
    } else if text == "void"@ {
        Some(TokenKind::Void)
    } else if text == "yield"@ {
        Some(TokenKind::Yield)
    } else {
        None
    }
}

fn keyword(text: &str) -> (r: Option<TokenKind>)
    ensures
        r == spec_keyword(text@),
{
    if text_is(text, "null") {
        Some(TokenKind::Null)
    } else if text_is(text, "true") {
        Some(TokenKind::True)
    } else if text_is(text, "false") {
        Some(TokenKind::False)
    } else if text_is(text, "class") {
        Some(TokenKind::Class)
    } else if text_is(text, "const") {
        Some(TokenKind::Const)
    } else if text_is(text, "default") {
        Some(TokenKind::Default)
    } else if text_is(text, "delete") {
        Some(TokenKind::Delete)
    } else if text_is(text, "export") {
        Some(TokenKind::Export)
    } else if text_is(text, "extends") {
        Some(TokenKind::Extends)
    } else if text_is(text, "function") {
        Some(TokenKind::Function)
    } else if text_is(text, "import") {
        Some(TokenKind::Import)
    } else if text_is(text, "in") {
        Some(TokenKind::In)
    } else if text_is(text, "instanceof") {
        Some(TokenKind::Instanceof)
    } else if text_is(text, "new") {
        Some(TokenKind::New)
    } else if text_is(text, "super") {
        Some(TokenKind::Super)
    } else if text_is(text, "this") {
        Some(TokenKind::This)
    } else if text_is(text, "typeof") {
        Some(TokenKind::Typeof)
    } else if text_is(text, "var") {
        Some(TokenKind::Var)
    } else if text_is(text, "void") {
        Some(TokenKind::Void)
    } else if text_is(text, "yield") {
        Some(TokenKind::Yield)
    } else {
        None
    }
}

/// The type of a punctuator or keyword with the given text.
pub open spec fn spec_fixed_tt(text: Seq<char>) -> TokenKind {
    match spec_punct_a(text) {
        Some(t) => t,
        None => match spec_punct_b(text) {
            Some(t) => t,
            None => match spec_punct_c(text) {
                Some(t) => t,
                None => match spec_keyword(text) {
                    Some(t) => t,
                    None => TokenKind::Other,
                },
            },
        },
    }
}

/// The type of a token of the given class and text.
pub open spec fn spec_classify(class: TokClass, text: Seq<char>) -> TokenKind {
    match class {
        TokClass::Id => TokenKind::Id,
        TokClass::StrLitSgl => TokenKind::StrLitSgl,
        TokClass::StrLitDbl => TokenKind::StrLitDbl,
        TokClass::RegExpLit => TokenKind::RegExpLit,
        TokClass::NumLit => TokenKind::NumLit,
        TokClass::TemplateNoSub => TokenKind::TemplateNoSub,
        TokClass::TemplateStart => TokenKind::TemplateStart,
        TokClass::TemplateMiddle => TokenKind::TemplateMiddle,
        TokClass::TemplateEnd => TokenKind::TemplateEnd,
        TokClass::Eof => TokenKind::Eof,
        TokClass::LexError => TokenKind::LexError,
        TokClass::Fixed => spec_fixed_tt(text),
    }
}

/// The spelling of a punctuator or keyword type.
pub open spec fn spelling(k: TokenKind) -> Option<Seq<char>> {
    match k {
        TokenKind::Lbrace => Some("{"@),
        TokenKind::Lparen => Some("("@),
        TokenKind::Rparen => Some(")"@),
        TokenKind::Lbracket => Some("["@),
        TokenKind::Rbracket => Some("]"@),
        TokenKind::Dot => Some("."@),
        TokenKind::DotDotDot => Some("..."@),
        TokenKind::Comma => Some(","@),
        TokenKind::Lt => Some("<"@),
        TokenKind::Gt => Some(">"@),
        TokenKind::LtEq => Some("<="@),
        TokenKind::GtEq => Some(">="@),
        TokenKind::EqEq => Some("=="@),
        TokenKind::BangEq => Some("!="@),
        TokenKind::EqEqEq => Some("==="@),
        TokenKind::BangEqEq => Some("!=="@),
        TokenKind::Plus => Some("+"@),
        TokenKind::Minus => Some("-"@),
        TokenKind::Star => Some("*"@),
        TokenKind::Percent => Some("%"@),
        TokenKind::StarStar => Some("**"@),
        TokenKind::PlusPlus => Some("++"@),
        TokenKind::MinusMinus => Some("--"@),
        TokenKind::LtLt => Some("<<"@),
        TokenKind::GtGt => Some(">>"@),
        TokenKind::GtGtGt => Some(">>>"@),
        TokenKind::And => Some("&"@),
        TokenKind::Or => Some("|"@),
        TokenKind::Circumflex => Some("^"@),
        TokenKind::Bang => Some("!"@),
        TokenKind::Tilde => Some("~"@),
        TokenKind::AndAnd => Some("&&"@),
        TokenKind::OrOr => Some("||"@),
        TokenKind::Question => Some("?"@),
        TokenKind::Colon => Some(":"@),
        TokenKind::Eq => Some("="@),
        TokenKind::PlusEq => Some("+="@),
        TokenKind::MinusEq => Some("-="@),
        TokenKind::StarEq => Some("*="@),
        TokenKind::PercentEq => Some("%="@),
        TokenKind::StarStarEq => Some("**="@),
        TokenKind::LtLtEq => Some("<<="@),
        TokenKind::GtGtEq => Some(">>="@),
        TokenKind::GtGtGtEq => Some(">>>="@),
        TokenKind::AndEq => Some("&="@),
        TokenKind::OrEq => Some("|="@),
        TokenKind::CircumflexEq => Some("^="@),
        TokenKind::EqGt => Some("=>"@),
        TokenKind::Slash => Some("/"@),
        TokenKind::SlashEq => Some("/="@),
        TokenKind::Rbrace => Some("}"@),
        TokenKind::Null => Some("null"@),
        TokenKind::True => Some("true"@),
        TokenKind::False => Some("false"@),
        TokenKind::Class => Some("class"@),
        TokenKind::Const => Some("const"@),
        TokenKind::Default => Some("default"@),
        TokenKind::Delete => Some("delete"@),
        TokenKind::Export => Some("export"@),
        TokenKind::Extends => Some("extends"@),
        TokenKind::Function => Some("function"@),
        TokenKind::Import => Some("import"@),
        TokenKind::In => Some("in"@),
        TokenKind::Instanceof => Some("instanceof"@),
        TokenKind::New => Some("new"@),
        TokenKind::Super => Some("super"@),
        TokenKind::This => Some("this"@),
        TokenKind::Typeof => Some("typeof"@),
        TokenKind::Var => Some("var"@),
        TokenKind::Void => Some("void"@),
        TokenKind::Yield => Some("yield"@),
        _ => None,
    }
}

/// Classifies a token by its class and text.
pub fn classify(class: TokClass, text: &str) -> (r: TokenKind)
    ensures
        r == spec_classify(class, text@),
        spelling(r) matches Some(w) ==> text@ == w,
{
    match class {
        TokClass::Id => TokenKind::Id,
        TokClass::StrLitSgl => TokenKind::StrLitSgl,
        TokClass::StrLitDbl => TokenKind::StrLitDbl,
        TokClass::RegExpLit => TokenKind::RegExpLit,
        TokClass::NumLit => TokenKind::NumLit,
        TokClass::TemplateNoSub => TokenKind::TemplateNoSub,
        TokClass::TemplateStart => TokenKind::TemplateStart,
        TokClass::TemplateMiddle => TokenKind::TemplateMiddle,
        TokClass::TemplateEnd => TokenKind::TemplateEnd,
        TokClass::Eof => TokenKind::Eof,
        TokClass::LexError => TokenKind::LexError,
        TokClass::Fixed => {
            if let Some(t) = punct_a(text) {
                t
            } else if let Some(t) = punct_b(text) {
                t
            } else if let Some(t) = punct_c(text) {
                t
            } else if let Some(t) = keyword(text) {
                t
            } else {
                TokenKind::Other
            }
        },
    }
}


/// A token of the source text, with the text around it.
///
/// Each token covers four consecutive stretches of the source:
/// `gap`, `ws_before`, `text`, in that order, and they follow the
/// previous token without overlap.  `gap` is empty except where the lexer
/// gave up inside a comment, so that the comment belongs to no token.
pub struct Token {
    /// The token type.
    pub tt: TokenKind,
    /// The source text the token covers.
    pub text: String,
    /// Whitespace and comments directly before the token.
    pub ws_before: String,
    /// Source text between the previous token and `ws_before`.
    pub gap: String,
    /// Whether `ws_before` holds a line terminator.
    pub nl_before: bool,
    /// Byte offset of the token's first character in the source.
    pub start: usize,
}

/// The source text that a token accounts for.
pub open spec fn pieces(t: Token) -> Seq<char> {
    t.gap@ + t.ws_before@ + t.text@
}

/// The source text that a sequence of tokens accounts for.
pub open spec fn joined(toks: Seq<Token>) -> Seq<char>
    decreases toks.len(),
{
    if toks.len() == 0 {
        Seq::empty()
    } else {
        joined(toks.drop_last()) + pieces(toks.last())
    }
}

/// A token stream ends with exactly one end-of-file token.
pub open spec fn stream_wf(toks: Seq<Token>) -> bool {
    &&& toks.len() >= 1
    &&& toks.last().tt == TokenKind::Eof
    &&& forall|i: int| 0 <= i < toks.len() - 1 ==> #[trigger] toks[i].tt != TokenKind::Eof
}

/// Every punctuator and keyword token is spelled as its type says.
pub open spec fn spelled(toks: Seq<Token>) -> bool {
    forall|i: int|
        0 <= i < toks.len() ==> (spelling((#[trigger] toks[i]).tt) matches Some(w) ==> toks[i].text@
            == w)
}

/// Every token starts at a character boundary of the source.
pub open spec fn starts_wf(toks: Seq<Token>, src: Seq<char>) -> bool {
    forall|i: int|
        0 <= i < toks.len() ==> (#[trigger] toks[i]).start <= encode_utf8(src).len()
            && is_char_boundary(encode_utf8(src), toks[i].start as int)
}

/// A stream of tokens over a source text, with a current position.
///
/// Past the last token the stream keeps yielding its end-of-file token.
pub struct TokenStream {
    input: String,
    toks: Vec<Token>,
    pos: usize,
}

/// A token as the `esparse` lexer reports it: its class and the byte
/// offsets of its whitespace and text.
struct RawToken {
    class: TokClass,
    ws_len: usize,
    start: usize,
    end: usize,
    nl_before: bool,
}

#[verifier::external_type_specification]
#[verifier::external_body]
pub struct ExEsLexer<'f, 's>(esparse::lex::Lexer<'f, 's>);

#[verifier::external_type_specification]
#[verifier::external_body]
pub struct ExEsTt<'s>(esparse::lex::Tt<'s>);

/// An `esparse` lexer over `input`, with the number of tokens taken from
/// it so far.
struct EsLexer<'s> {
    lex: esparse::lex::Lexer<'static, 's>,
    input: Ghost<Seq<char>>,
    count: Ghost<nat>,
}

/// A raw token as plain values: class, whitespace length, start, end and
/// line-terminator flag.
spec fn raw_view(r: RawToken) -> (TokClass, usize, usize, usize, bool) {
    (r.class, r.ws_len, r.start, r.end, r.nl_before)
}

/// The token at index `i` (from 0) of those that successive calls of
/// `esparse::lex::Lexer::advance` return on a lexer made by
/// `Lexer::new_unnamed(input)`, as [`raw_view`] gives it.
pub uninterp spec fn es_raw_token(input: Seq<char>, i: nat) -> (TokClass, usize, usize, usize, bool);

/// Whether the raw token `r` continues the text `b` from byte `prev`: its
/// whitespace starts at or after `prev`, its span lies in `b` between
/// character boundaries, and it is an end of file at the end of `b` or
/// ends past `prev`.
pub open spec fn raw_fits(b: Seq<u8>, prev: int, r: (TokClass, usize, usize, usize, bool)) -> bool {
    &&& r.1 <= r.2
    &&& prev <= r.2 - r.1
    &&& r.2 <= r.3 <= b.len()
    &&& is_char_boundary(b, r.2 - r.1)
    &&& is_char_boundary(b, r.2 as int)
    &&& is_char_boundary(b, r.3 as int)
    &&& if r.0 == TokClass::Eof {
        r.2 == r.3 && r.3 == b.len()
    } else {
        prev < r.3
    }
}

/// The byte at which the text read by the first `i` raw tokens of `input`
/// ends.
pub open spec fn raw_prev(input: Seq<char>, i: nat) -> int {
    if i == 0 {
        0
    } else {
        es_raw_token(input, (i - 1) as nat).3 as int
    }
}

/// Token `t` is the raw token `r` over the text `b`, read from byte `prev`.
pub open spec fn converted(
    b: Seq<u8>,
    prev: int,
    r: (TokClass, usize, usize, usize, bool),
    t: Token,
) -> bool {
    &&& t.tt == spec_classify(r.0, decoded(b, r.2 as int, r.3 as int))
    &&& t.text@ == decoded(b, r.2 as int, r.3 as int)
    &&& t.ws_before@ == decoded(b, r.2 - r.1, r.2 as int)
    &&& t.gap@ == decoded(b, prev, r.2 - r.1)
    &&& t.nl_before == r.4
    &&& t.start == r.2
}

/// Token `t` ends the stream at byte `prev` of `b`, the rest of `b` being
/// its whitespace.
pub open spec fn fallback_eof(b: Seq<u8>, prev: int, t: Token) -> bool {
    &&& t.tt == TokenKind::Eof
    &&& t.text@.len() == 0
    &&& t.ws_before@ == decoded(b, prev, b.len() as int)
    &&& t.gap@.len() == 0
    &&& !t.nl_before
    &&& t.start == b.len()
}

/// The tokens `s` are those that `esparse` yields on `input`, converted, up
/// to and including its end of file; should a raw token not fit, the
/// stream ends there with a [`fallback_eof`].
pub open spec fn lexed_from(input: Seq<char>, s: Seq<Token>) -> bool {
    let b = encode_utf8(input);
    let k = (s.len() - 1) as nat;
    &&& s.len() >= 1
    &&& forall|i: nat|
        i < k ==> {
            let r = #[trigger] es_raw_token(input, i);
            &&& raw_fits(b, raw_prev(input, i), r)
            &&& r.0 != TokClass::Eof
            &&& converted(b, raw_prev(input, i), r, s[i as int])
        }
    &&& if raw_fits(b, raw_prev(input, k), es_raw_token(input, k)) {
        es_raw_token(input, k).0 == TokClass::Eof && converted(
            b,
            raw_prev(input, k),
            es_raw_token(input, k),
            s[k as int],
        )
    } else {
        fallback_eof(b, raw_prev(input, k), s[k as int])
    }
}

/// Creates an `esparse` lexer over `input` (`esparse::lex::Lexer::new_unnamed`),
/// with no token taken yet.
/// The lexer's character decoder panics on a leading byte `0xF1` or `0xF3`,
/// so such input is left out here, for this call and for every later
/// [`es_lexer_advance`] on the lexer it returns.
#[verifier::external_body]
fn es_lexer_new<'s>(input: &'s str) -> (l: EsLexer<'s>)
    requires
        lexable(input@),
    ensures
        l.input@ == input@,
        l.count@ == 0,
{
    EsLexer { lex: esparse::lex::Lexer::new_unnamed(input), input: Ghost(input@), count: Ghost(0) }
}

/// The class of an `esparse` token type: one class per kind of token that
/// carries source text, and `Fixed` for punctuators and keywords.
/// Nothing is claimed: the value is opaque here.
#[verifier::external_body]
fn es_token_class(tt: Tt) -> TokClass {
    match tt {
        Tt::Id(_) => TokClass::Id,
        Tt::StrLitSgl(_) => TokClass::StrLitSgl,
        Tt::StrLitDbl(_) => TokClass::StrLitDbl,
        Tt::RegExpLit(_, _) => TokClass::RegExpLit,
        Tt::NumLitBin(_) | Tt::NumLitOct(_) | Tt::NumLitDec(_) | Tt::NumLitHex(_) => TokClass::NumLit,
        Tt::TemplateNoSub(_) => TokClass::TemplateNoSub,
        Tt::TemplateStart(_) => TokClass::TemplateStart,
        Tt::TemplateMiddle(_) => TokClass::TemplateMiddle,
        Tt::TemplateEnd(_) => TokClass::TemplateEnd,
        Tt::Eof => TokClass::Eof,
        Tt::Err => TokClass::LexError,
        _ => TokClass::Fixed,
    }
}

/// Takes the next token from an `esparse` lexer (`esparse::lex::Lexer::advance`)
/// and reports its class, the byte length of its leading whitespace, its byte
/// span and its line-terminator flag.  Claimed: the lexer is deterministic,
/// so the token is the one at the lexer's count in the sequence that its
/// input gives ([`es_raw_token`]); the call counts one more token.
#[verifier::external_body]
fn es_lexer_advance(lex: &mut EsLexer) -> (r: RawToken)
    requires
        lexable(old(lex).input@),
    ensures
        raw_view(r) == es_raw_token(old(lex).input@, old(lex).count@),
        final(lex).input == old(lex).input,
        final(lex).count@ == old(lex).count@ + 1,
{
    let t = lex.lex.advance();
    lex.count = Ghost(lex.count@ + 1);
    RawToken {
        class: es_token_class(t.tt),
        ws_len: t.ws_before.len(),
        start: t.span.start,
        end: t.span.end,
        nl_before: t.nl_before,
    }
}

impl TokenStream {
    /// The tokens of the stream.
    pub closed spec fn tokens(&self) -> Seq<Token> {
        self.toks@
    }

    /// The index of the current token.
    pub closed spec fn position(&self) -> int {
        self.pos as int
    }

    /// The source text.
    pub closed spec fn source(&self) -> Seq<char> {
        self.input@
    }

    /// The stream's invariant.
    pub closed spec fn wf(&self) -> bool {
        &&& lexable(self.input@)
        &&& stream_wf(self.toks@)
        &&& joined(self.toks@) == self.input@
        &&& self.toks@.last().text@.len() == 0
        &&& spelled(self.toks@)
        &&& self.pos < self.toks@.len()
        &&& starts_wf(self.toks@, self.input@)
    }

    /// The location of the token at position `p`.
    pub open spec fn loc_spec(&self, p: int) -> (usize, usize, usize) {
        let start = tok_at(self.tokens(), p).start;
        let before = decoded(encode_utf8(self.source()), 0, start as int);
        (start, row_col(before).0 as usize, row_col(before).1 as usize)
    }

    /// The location of the start of the token at position `p`.
    pub fn loc_of(&self, p: usize) -> (l: Loc)
        requires
            self.wf(),
        ensures
            (l.pos, l.row, l.col) == self.loc_spec(p as int),
    {
        let t = tok(&self.toks, p);
        proof {
            let i = if p < self.toks@.len() { p as int } else { self.toks@.len() - 1 };
            assert(self.toks@[i] == tok_at(self.toks@, p as int));
        }
        es_recover_loc(self.input.as_str(), t.start)
    }

    /// Moves the stream to position `q` (the last token, if `q` is past it).
    pub fn seek(&mut self, q: usize)
        requires
            old(self).wf(),
        ensures
            final(self).wf(),
            final(self).tokens() == old(self).tokens(),
            final(self).source() == old(self).source(),
            final(self).position() == if q < old(self).tokens().len() {
                q as int
            } else {
                old(self).tokens().len() - 1
            },
    {
        if q < self.toks.len() {
            self.pos = q;
        } else {
            self.pos = self.toks.len() - 1;
        }
    }

    /// What the stream's invariant says of its tokens and position.
    pub proof fn lemma_wf(&self)
        requires
            self.wf(),
        ensures
            stream_wf(self.tokens()),
            0 <= self.position() < self.tokens().len(),
            lexable(self.source()),
            joined(self.tokens()) == self.source(),
            self.tokens().last().text@.len() == 0,
            spelled(self.tokens()),
    {
    }

    /// The tokens, for reading.
    pub fn token_vec(&self) -> (v: &Vec<Token>)
        ensures
            v@ == self.tokens(),
    {
        &self.toks
    }

    /// The current position.
    pub fn pos(&self) -> (p: usize)
        ensures
            p == self.position(),
    {
        self.pos
    }

    /// Lexes `input` with `esparse` and keeps the tokens.
    ///
    /// The tokens always account for the whole of `input`.  Should the lexer
    /// report a token that does not continue the source text where the
    /// previous one ended, or an end of file before the end of the text,
    /// the stream ends there with an end-of-file token whose whitespace is
    /// the rest of the text.
    #[verifier::rlimit(60)]
    pub fn new(input: &str) -> (l: TokenStream)
        requires
            lexable(input@),
        ensures
            l.wf(),
            l.position() == 0,
            l.source() == input@,
            joined(l.tokens()) == input@,
            stream_wf(l.tokens()),
            spelled(l.tokens()),
            lexed_from(input@, l.tokens()),
    {
        let ghost b = input.spec_bytes();
        proof {
            lemma_decoded_all(input);
            lemma_decoded_empty(b, 0);
        }
        let len = input.as_bytes().len();
        let mut es = es_lexer_new(input);
        let mut toks: Vec<Token> = Vec::new();
        let mut prev_end: usize = 0;
        assert(joined(toks@) =~= decoded(b, 0, 0));
        loop
            invariant
                b == input.spec_bytes(),
                lexable(input@),
                len == b.len(),
                valid_utf8(b),
                is_char_boundary(b, 0),
                is_char_boundary(b, len as int),
                decoded(b, 0, len as int) == input@,
                prev_end <= len,
                is_char_boundary(b, prev_end as int),
                joined(toks@) == decoded(b, 0, prev_end as int),
                forall|i: int| 0 <= i < toks@.len() ==> #[trigger] toks@[i].tt != TokenKind::Eof,
                starts_wf(toks@, input@),
                spelled(toks@),
                es.input@ == input@,
                es.count@ == toks@.len(),
                prev_end == raw_prev(input@, toks@.len()),
                forall|i: nat|
                    i < toks@.len() ==> {
                        let r = #[trigger] es_raw_token(input@, i);
                        &&& raw_fits(b, raw_prev(input@, i), r)
                        &&& r.0 != TokClass::Eof
                        &&& converted(b, raw_prev(input@, i), r, toks@[i as int])
                    },
            decreases len - prev_end,
        {
            let r = es_lexer_advance(&mut es);
            let ok = r.ws_len <= r.start && prev_end <= r.start - r.ws_len && r.start <= r.end
                && r.end <= len && input.is_char_boundary(r.start - r.ws_len)
                && input.is_char_boundary(r.start) && input.is_char_boundary(r.end) && (
            match r.class {
                TokClass::Eof => r.start == r.end && r.end == len,
                _ => prev_end < r.end,
            });
            if !ok {
                let ws = slice_bytes(input, prev_end, len);
                let eof = Token {
                    tt: TokenKind::Eof,
                    text: String::new(),
                    ws_before: ws,
                    gap: String::new(),
                    nl_before: false,
                    start: len,
                };
                proof {
                    assert(pieces(eof) =~= decoded(b, prev_end as int, len as int));
                    lemma_decoded_concat(b, 0, prev_end as int, len as int);
                }
                let ghost before = toks@;
                toks.push(eof);
                proof {
                    assert(toks@.drop_last() =~= before);
                    assert(!raw_fits(b, prev_end as int, raw_view(r)));
                    assert(lexed_from(input@, toks@));
                }
                return TokenStream { input: input.to_owned(), toks, pos: 0 };
            }
            let ws_start = r.start - r.ws_len;
            let gap = slice_bytes(input, prev_end, ws_start);
            let ws = slice_bytes(input, ws_start, r.start);
            let text = slice_bytes(input, r.start, r.end);
            let tt = classify(r.class, text.as_str());
            let tok = Token { tt, text, ws_before: ws, gap, nl_before: r.nl_before, start: r.start };
            proof {
                lemma_decoded_concat(b, 0, prev_end as int, ws_start as int);
                lemma_decoded_concat(b, 0, ws_start as int, r.start as int);
                lemma_decoded_concat(b, 0, r.start as int, r.end as int);
            }
            let ghost before = toks@;
            toks.push(tok);
            proof {
                assert(toks@.drop_last() =~= before);
                assert(raw_fits(b, prev_end as int, raw_view(r)));
                assert(converted(b, prev_end as int, raw_view(r), tok));
            }
            prev_end = r.end;
            if r.class == TokClass::Eof {
                proof {
                    lemma_decoded_empty(b, r.start as int);
                    assert(r.start == r.end);
                    assert(toks@.last() == tok);
                    assert(toks@.last().text@.len() == 0);
                    assert(joined(toks@) == input@);
                    assert(stream_wf(toks@));
                    assert(starts_wf(toks@, input@));
                    assert(lexed_from(input@, toks@));
                }
                return TokenStream { input: input.to_owned(), toks, pos: 0 };
            }
        }
    }
}


/// The type of the token at position `p`: past the last token, and at the
/// last token itself, the stream is at its end.
pub open spec fn kind_at(s: Seq<Token>, p: int) -> TokenKind {
    if 0 <= p < s.len() - 1 {
        s[p].tt
    } else {
        TokenKind::Eof
    }
}

/// The token at position `p`; past the end, the last token.
pub open spec fn tok_at(s: Seq<Token>, p: int) -> Token {
    if 0 <= p < s.len() {
        s[p]
    } else {
        s.last()
    }
}

/// The whitespace before the token at `p`.
pub open spec fn ws_at(s: Seq<Token>, p: int) -> Seq<char> {
    tok_at(s, p).ws_before@
}

/// The source text of the token at `p`.
pub open spec fn text_at(s: Seq<Token>, p: int) -> Seq<char> {
    tok_at(s, p).text@
}

/// The token at `p` is an identifier spelled `w`.
pub open spec fn is_id(s: Seq<Token>, p: int, w: Seq<char>) -> bool {
    kind_at(s, p) == TokenKind::Id && text_at(s, p) == w
}

/// The token at `p` is a string literal.
pub open spec fn is_str_lit(s: Seq<Token>, p: int) -> bool {
    kind_at(s, p) == TokenKind::StrLitSgl || kind_at(s, p) == TokenKind::StrLitDbl
}

/// The token at `p` as it is written back out: its whitespace and its text
/// (a lexical error shows no text).
pub open spec fn echo_at(s: Seq<Token>, p: int) -> Seq<char> {
    ws_at(s, p) + if kind_at(s, p) == TokenKind::LexError {
        Seq::<char>::empty()
    } else {
        text_at(s, p)
    }
}

/// The source text from the start of token `i` up to the whitespace before
/// token `j`.
pub open spec fn copy_text(s: Seq<Token>, i: int, j: int) -> Seq<char> {
    s[i].text@ + joined(s.subrange(i + 1, j)) + s[j].gap@
}

/// The type of the token at `p`.
pub(crate) fn kind(toks: &Vec<Token>, p: usize) -> (k: TokenKind)
    requires
        stream_wf(toks@),
    ensures
        k == kind_at(toks@, p as int),
{
    if p < toks.len() - 1 {
        toks[p].tt
    } else {
        TokenKind::Eof
    }
}

/// The token at `p` (the last one past the end).
pub(crate) fn tok(toks: &Vec<Token>, p: usize) -> (t: &Token)
    requires
        stream_wf(toks@),
    ensures
        *t == tok_at(toks@, p as int),
{
    if p < toks.len() {
        &toks[p]
    } else {
        &toks[toks.len() - 1]
    }
}

/// Whether the token at `p` is the identifier `w`.
pub(crate) fn id_is(toks: &Vec<Token>, p: usize, w: &str) -> (r: bool)
    requires
        stream_wf(toks@),
    ensures
        r == is_id(toks@, p as int, w@),
{
    kind(toks, p) == TokenKind::Id && text_is(tok(toks, p).text.as_str(), w)
}

/// Whether the token at `p` is a string literal.
pub(crate) fn str_lit_at(toks: &Vec<Token>, p: usize) -> (r: bool)
    requires
        stream_wf(toks@),
    ensures
        r == is_str_lit(toks@, p as int),
{
    let k = kind(toks, p);
    k == TokenKind::StrLitSgl || k == TokenKind::StrLitDbl
}

/// Appends the whitespace before the token at `p`.
pub(crate) fn push_ws(out: &mut String, toks: &Vec<Token>, p: usize)
    requires
        stream_wf(toks@),
    ensures
        final(out)@ == old(out)@ + ws_at(toks@, p as int),
{
    out.append(tok(toks, p).ws_before.as_str());
}

/// Appends the token at `p` as it is written back out.
pub(crate) fn push_echo(out: &mut String, toks: &Vec<Token>, p: usize)
    requires
        stream_wf(toks@),
    ensures
        final(out)@ == old(out)@ + echo_at(toks@, p as int),
{
    let t = tok(toks, p);
    out.append(t.ws_before.as_str());
    if kind(toks, p) != TokenKind::LexError {
        out.append(t.text.as_str());
    }
    proof {
        assert(final(out)@ =~= old(out)@ + echo_at(toks@, p as int));
    }
}

/// Appends the source text from the start of token `i` up to the whitespace
/// before token `j`.
pub(crate) fn push_copy(out: &mut String, toks: &Vec<Token>, i: usize, j: usize)
    requires
        i < j < toks@.len(),
    ensures
        final(out)@ == old(out)@ + copy_text(toks@, i as int, j as int),
{
    out.append(toks[i].text.as_str());
    let mut k = i + 1;
    assert(toks@.subrange(i + 1, i + 1) =~= Seq::<Token>::empty());
    while k < j
        invariant
            i < k <= j < toks@.len(),
            out@ == old(out)@ + toks@[i as int].text@ + joined(toks@.subrange(i + 1, k as int)),
        decreases j - k,
    {
        let t = &toks[k];
        out.append(t.gap.as_str());
        out.append(t.ws_before.as_str());
        out.append(t.text.as_str());
        proof {
            let sub = toks@.subrange(i + 1, k + 1);
            assert(sub.drop_last() =~= toks@.subrange(i + 1, k as int));
            assert(sub.last() == toks@[k as int]);
            assert(out@ =~= old(out)@ + toks@[i as int].text@ + joined(sub));
        }
        k += 1;
    }
    out.append(toks[j].gap.as_str());
    proof {
        assert(out@ =~= old(out)@ + copy_text(toks@, i as int, j as int));
    }
}

} // verus!
