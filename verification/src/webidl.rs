//! WebIDL: a parser for interface, dictionary, enum and callback
//! definitions, and a generator of Rust declarations from them.
//!
//! Tokens may be separated by whitespace and by `//` and `/* */` comments.
//! Each parse step is stated as a function of the input and the position it
//! starts from: where it ends (`None` where it fails) and what it yields.

use vstd::prelude::*;
use crate::error::{Error, Result};
use crate::table::{KeyedTable, Entries, table_insert};
use crate::text::{is_whitespace, char_is_whitespace, str_chars, string_from_chars, str_equal, str_to_string,
    copy_string, concat_str, push_str};

verus! {

/// WebIDL type definitions
#[derive(Debug, PartialEq, Eq, Hash)]
pub enum WebIDLType {
    /// Basic types
    DOMString,
    USVString,
    ByteString,
    Boolean,
    Byte,
    Octet,
    Short,
    UnsignedShort,
    Long,
    UnsignedLong,
    LongLong,
    UnsignedLongLong,
    Float,
    UnrestrictedFloat,
    Double,
    UnrestrictedDouble,
    /// Object types
    Object,
    ArrayBuffer,
    ArrayBufferView,
    DataView,
    Int8Array,
    Int16Array,
    Int32Array,
    Uint8Array,
    Uint16Array,
    Uint32Array,
    Uint8ClampedArray,
    Float32Array,
    Float64Array,
    /// Promise types
    Promise(Box<WebIDLType>),
    /// Union types
    Union(Vec<WebIDLType>),
    /// Sequence types
    Sequence(Box<WebIDLType>),
    /// Record types
    Record(Box<WebIDLType>, Box<WebIDLType>),
    /// Custom interface types
    Interface(String),
    /// Nullable types
    Nullable(Box<WebIDLType>),
    /// Optional types
    Optional(Box<WebIDLType>),
    /// Any type
    Any,
    /// Void type
    Void,
}

impl Clone for WebIDLType {
    /// A copy of the type, part by part.
    fn clone(&self) -> (r: Self)
        decreases self,
    {
        match self {
            WebIDLType::Promise(b) => WebIDLType::Promise(Box::new((**b).clone())),
            WebIDLType::Union(v) => {
                let mut out: Vec<WebIDLType> = Vec::new();
                let mut i: usize = 0;
                while i < v.len()
                    invariant
                        *self == WebIDLType::Union(*v),
                    decreases v.len() - i,
                {
                    proof {
                        let w = (*self)->Union_0;
                        assert(decreases_to!(*self => (*self)->Union_0));
                        assert(decreases_to!(w => w@));
                        assert(decreases_to!(w@ => w@[i as int]));
                        assert(w@[i as int] == v@[i as int]);
                    }
                    out.push(v[i].clone());
                    i = i + 1;
                }
                WebIDLType::Union(out)
            },
            WebIDLType::Sequence(b) => WebIDLType::Sequence(Box::new((**b).clone())),
            WebIDLType::Record(k, v) => WebIDLType::Record(Box::new((**k).clone()), Box::new((**v).clone())),
            WebIDLType::Interface(name) => WebIDLType::Interface(name.clone()),
            WebIDLType::Nullable(b) => WebIDLType::Nullable(Box::new((**b).clone())),
            WebIDLType::Optional(b) => WebIDLType::Optional(Box::new((**b).clone())),
            WebIDLType::DOMString => WebIDLType::DOMString,
            WebIDLType::USVString => WebIDLType::USVString,
            WebIDLType::ByteString => WebIDLType::ByteString,
            WebIDLType::Boolean => WebIDLType::Boolean,
            WebIDLType::Byte => WebIDLType::Byte,
            WebIDLType::Octet => WebIDLType::Octet,
            WebIDLType::Short => WebIDLType::Short,
            WebIDLType::UnsignedShort => WebIDLType::UnsignedShort,
            WebIDLType::Long => WebIDLType::Long,
            WebIDLType::UnsignedLong => WebIDLType::UnsignedLong,
            WebIDLType::LongLong => WebIDLType::LongLong,
            WebIDLType::UnsignedLongLong => WebIDLType::UnsignedLongLong,
            WebIDLType::Float => WebIDLType::Float,
            WebIDLType::UnrestrictedFloat => WebIDLType::UnrestrictedFloat,
            WebIDLType::Double => WebIDLType::Double,
            WebIDLType::UnrestrictedDouble => WebIDLType::UnrestrictedDouble,
            WebIDLType::Object => WebIDLType::Object,
            WebIDLType::ArrayBuffer => WebIDLType::ArrayBuffer,
            WebIDLType::ArrayBufferView => WebIDLType::ArrayBufferView,
            WebIDLType::DataView => WebIDLType::DataView,
            WebIDLType::Int8Array => WebIDLType::Int8Array,
            WebIDLType::Int16Array => WebIDLType::Int16Array,
            WebIDLType::Int32Array => WebIDLType::Int32Array,
            WebIDLType::Uint8Array => WebIDLType::Uint8Array,
            WebIDLType::Uint16Array => WebIDLType::Uint16Array,
            WebIDLType::Uint32Array => WebIDLType::Uint32Array,
            WebIDLType::Uint8ClampedArray => WebIDLType::Uint8ClampedArray,
            WebIDLType::Float32Array => WebIDLType::Float32Array,
            WebIDLType::Float64Array => WebIDLType::Float64Array,
            WebIDLType::Any => WebIDLType::Any,
            WebIDLType::Void => WebIDLType::Void,
        }
    }
}

/// WebIDL argument definition
#[derive(Debug, Clone)]
pub struct WebIDLArgument {
    /// Argument name
    pub name: String,
    /// Argument type
    pub arg_type: WebIDLType,
    /// Whether the argument is optional
    pub optional: bool,
    /// Default value if optional
    pub default_value: Option<String>,
    /// Whether the argument is variadic
    pub variadic: bool,
    /// Argument documentation
    pub documentation: Option<String>,
}

/// WebIDL method definition
#[derive(Debug, Clone)]
pub struct WebIDLMethod {
    /// Method name
    pub name: String,
    /// Return type
    pub return_type: WebIDLType,
    /// Method arguments
    pub arguments: Vec<WebIDLArgument>,
    /// Whether the method is static
    pub static_method: bool,
    /// Whether the method is a getter
    pub getter: bool,
    /// Whether the method is a setter
    pub setter: bool,
    /// Whether the method is a deleter
    pub deleter: bool,
    /// Method documentation
    pub documentation: Option<String>,
}

/// WebIDL property definition
#[derive(Debug, Clone)]
pub struct WebIDLProperty {
    /// Property name
    pub name: String,
    /// Property type
    pub property_type: WebIDLType,
    /// Whether the property is read-only
    pub readonly: bool,
    /// Whether the property is required
    pub required: bool,
    /// Whether the property is inherited
    pub inherited: bool,
    /// Property documentation
    pub documentation: Option<String>,
}

/// WebIDL interface definition
#[derive(Debug, Clone)]
pub struct WebIDLInterface {
    /// Interface name
    pub name: String,
    /// Parent interface (inheritance)
    pub parent: Option<String>,
    /// Interface methods
    pub methods: Vec<WebIDLMethod>,
    /// Interface properties
    pub properties: Vec<WebIDLProperty>,
    /// Whether the interface is a mixin
    pub mixin: bool,
    /// Whether the interface is a partial interface
    pub partial: bool,
    /// Interface documentation
    pub documentation: Option<String>,
    /// Interface attributes
    pub attributes: KeyedTable<String>,
}

/// WebIDL dictionary definition
#[derive(Debug, Clone)]
pub struct WebIDLDictionary {
    /// Dictionary name
    pub name: String,
    /// Parent dictionary (inheritance)
    pub parent: Option<String>,
    /// Dictionary members
    pub members: Vec<WebIDLDictionaryMember>,
    /// Dictionary documentation
    pub documentation: Option<String>,
}

/// WebIDL dictionary member
#[derive(Debug, Clone)]
pub struct WebIDLDictionaryMember {
    /// Member name
    pub name: String,
    /// Member type
    pub member_type: WebIDLType,
    /// Default value
    pub default_value: Option<String>,
    /// Whether the member is required
    pub required: bool,
    /// Member documentation
    pub documentation: Option<String>,
}

/// WebIDL enum definition
#[derive(Debug, Clone)]
pub struct WebIDLEnum {
    /// Enum name
    pub name: String,
    /// Enum values
    pub values: Vec<String>,
    /// Enum documentation
    pub documentation: Option<String>,
}

/// WebIDL callback definition
#[derive(Debug, Clone)]
pub struct WebIDLCallback {
    /// Callback name
    pub name: String,
    /// Return type
    pub return_type: WebIDLType,
    /// Callback arguments
    pub arguments: Vec<WebIDLArgument>,
    /// Callback documentation
    pub documentation: Option<String>,
}

/// WebIDL definition container
#[derive(Debug, Clone)]
pub struct WebIDLDefinition {
    /// Interfaces
    pub interfaces: KeyedTable<WebIDLInterface>,
    /// Dictionaries
    pub dictionaries: KeyedTable<WebIDLDictionary>,
    /// Enums
    pub enums: KeyedTable<WebIDLEnum>,
    /// Callbacks
    pub callbacks: KeyedTable<WebIDLCallback>,
    /// Global definitions
    pub globals: KeyedTable<WebIDLMethod>,
}

/// What `char::is_alphanumeric` says of a character (the Unicode `Alphabetic`
/// and `Numeric` properties).
pub uninterp spec fn alphanumeric(c: char) -> bool;

/// Calls `char::is_alphanumeric`. Its documentation defines it by Unicode
/// properties; the contract states only the ASCII part: an ASCII character is
/// alphanumeric exactly when it is a letter or a digit.
#[verifier::external_body]
fn is_alphanumeric(c: char) -> (r: bool)
    ensures
        r == alphanumeric(c),
        (c as u32) < 128 ==> (r == (('0' <= c && c <= '9') || ('a' <= c && c <= 'z') || ('A' <= c && c <= 'Z'))),
{
    c.is_alphanumeric()
}

/// A character that may stand in an identifier.
pub open spec fn ident_char(c: char) -> bool {
    alphanumeric(c) || c == '_'
}

/// A character that may stand in a literal value.
pub open spec fn literal_char(c: char) -> bool {
    ident_char(c) || c == '.' || c == '-'
}

/// Where a `//` comment starting at `p` stops: at the next newline (which is
/// left for the whitespace rule), or at the end.
pub open spec fn line_comment_end(s: Seq<char>, p: int) -> int
    decreases s.len() - p,
{
    if p < 0 || p >= s.len() || s[p] == '\n' {
        p
    } else {
        line_comment_end(s, p + 1)
    }
}

/// Where the body of a `/*` comment starting at `p` stops: just after the
/// first `*/`, or at the last character where there is none.
pub open spec fn block_comment_end(s: Seq<char>, p: int) -> int
    decreases s.len() - p,
{
    if p < 0 || p >= s.len() - 1 {
        p
    } else if s[p] == '*' && s[p + 1] == '/' {
        p + 2
    } else {
        block_comment_end(s, p + 1)
    }
}

/// A `//` comment starts at `p`.
pub open spec fn line_comment_at(s: Seq<char>, p: int) -> bool {
    0 <= p && p + 1 < s.len() && s[p] == '/' && s[p + 1] == '/'
}

/// A `/*` comment starts at `p`.
pub open spec fn block_comment_at(s: Seq<char>, p: int) -> bool {
    0 <= p && p + 1 < s.len() && s[p] == '/' && s[p + 1] == '*'
}

/// The position after the whitespace and comments that start at `p`.
pub open spec fn ws_end(s: Seq<char>, p: int) -> int
    decreases s.len() - p,
{
    if p < 0 || p >= s.len() {
        p
    } else if is_whitespace(s[p]) {
        ws_end(s, p + 1)
    } else if line_comment_at(s, p) {
        let e = line_comment_end(s, p);
        if p < e <= s.len() {
            ws_end(s, e)
        } else {
            p
        }
    } else if block_comment_at(s, p) {
        let e = block_comment_end(s, p + 2);
        if p < e <= s.len() {
            ws_end(s, e)
        } else {
            p
        }
    } else {
        p
    }
}

/// The end of the run of characters with `ident_char` from `p`.
pub open spec fn ident_end(s: Seq<char>, p: int) -> int
    decreases s.len() - p,
{
    if 0 <= p < s.len() && ident_char(s[p]) {
        ident_end(s, p + 1)
    } else {
        p
    }
}

/// The end of the run of characters with `literal_char` from `p`.
pub open spec fn literal_end(s: Seq<char>, p: int) -> int
    decreases s.len() - p,
{
    if 0 <= p < s.len() && literal_char(s[p]) {
        literal_end(s, p + 1)
    } else {
        p
    }
}

/// The position of the next `"` from `p`, or the end.
pub open spec fn quote_end(s: Seq<char>, p: int) -> int
    decreases s.len() - p,
{
    if 0 <= p < s.len() && s[p] != '"' {
        quote_end(s, p + 1)
    } else {
        p
    }
}

/// The identifier that starts at the next token after `p`, and where it ends.
pub open spec fn ident_tok(s: Seq<char>, p: int) -> Option<(Seq<char>, int)> {
    let q = ws_end(s, p);
    let e = ident_end(s, q);
    if e > q {
        Some((s.subrange(q, e), e))
    } else {
        None
    }
}

/// The literal that starts at the next token after `p`, and where it ends.
pub open spec fn literal_tok(s: Seq<char>, p: int) -> Option<(Seq<char>, int)> {
    let q = ws_end(s, p);
    let e = literal_end(s, q);
    if e > q {
        Some((s.subrange(q, e), e))
    } else {
        None
    }
}

/// The quoted string that starts at the next token after `p` (its text
/// without the quotes), and where it ends.
pub open spec fn quoted_tok(s: Seq<char>, p: int) -> Option<(Seq<char>, int)> {
    let q = ws_end(s, p);
    if 0 <= q < s.len() && s[q] == '"' {
        let c = quote_end(s, q + 1);
        if c < s.len() {
            Some((s.subrange(q + 1, c), c + 1))
        } else {
            None
        }
    } else {
        None
    }
}

/// The next token after `p` is the character `c`: where it ends.
pub open spec fn char_tok(s: Seq<char>, p: int, c: char) -> Option<int> {
    let q = ws_end(s, p);
    if 0 <= q < s.len() && s[q] == c {
        Some(q + 1)
    } else {
        None
    }
}

/// The next token after `p` starts with the keyword `kw`: where it ends.
pub open spec fn kw_tok(s: Seq<char>, p: int, kw: Seq<char>) -> Option<int> {
    let q = ws_end(s, p);
    if 0 <= q && q + kw.len() <= s.len() && s.subrange(q, q + kw.len()) == kw {
        Some(q + kw.len())
    } else {
        None
    }
}

/// The number of line breaks in a text.
pub open spec fn newlines(t: Seq<char>) -> nat
    decreases t.len(),
{
    if t.len() == 0 {
        0
    } else {
        newlines(t.drop_last()) + if t.last() == '\n' {
            1nat
        } else {
            0nat
        }
    }
}

/// Counting one more character of `s` from `a`.
proof fn lemma_newlines_step(s: Seq<char>, a: int, b: int)
    requires
        0 <= a <= b < s.len(),
    ensures
        newlines(s.subrange(a, b + 1)) == newlines(s.subrange(a, b)) + if s[b] == '\n' {
            1nat
        } else {
            0nat
        },
{
    assert(s.subrange(a, b + 1).drop_last() =~= s.subrange(a, b));
}

/// Skipping whitespace and comments never moves back, nor past the end.
pub proof fn lemma_ws_end(s: Seq<char>, p: int)
    requires
        0 <= p <= s.len(),
    ensures
        p <= ws_end(s, p) <= s.len(),
    decreases s.len() - p,
{
    if p < s.len() {
        if is_whitespace(s[p]) {
            lemma_ws_end(s, p + 1);
        } else if line_comment_at(s, p) {
            lemma_line_comment_end(s, p);
            if line_comment_end(s, p) > p {
                lemma_ws_end(s, line_comment_end(s, p));
            }
        } else if block_comment_at(s, p) {
            lemma_block_comment_end(s, p + 2);
            if block_comment_end(s, p + 2) > p {
                lemma_ws_end(s, block_comment_end(s, p + 2));
            }
        }
    }
}

proof fn lemma_line_comment_end(s: Seq<char>, p: int)
    requires
        0 <= p <= s.len(),
    ensures
        p <= line_comment_end(s, p) <= s.len(),
    decreases s.len() - p,
{
    if p < s.len() && s[p] != '\n' {
        lemma_line_comment_end(s, p + 1);
    }
}

proof fn lemma_block_comment_end(s: Seq<char>, p: int)
    requires
        0 <= p <= s.len(),
    ensures
        p <= block_comment_end(s, p) <= s.len(),
    decreases s.len() - p,
{
    if p < s.len() - 1 && !(s[p] == '*' && s[p + 1] == '/') {
        lemma_block_comment_end(s, p + 1);
    }
}

proof fn lemma_ident_end(s: Seq<char>, p: int)
    requires
        0 <= p <= s.len(),
    ensures
        p <= ident_end(s, p) <= s.len(),
    decreases s.len() - p,
{
    if p < s.len() && ident_char(s[p]) {
        lemma_ident_end(s, p + 1);
    }
}

proof fn lemma_literal_end(s: Seq<char>, p: int)
    requires
        0 <= p <= s.len(),
    ensures
        p <= literal_end(s, p) <= s.len(),
    decreases s.len() - p,
{
    if p < s.len() && literal_char(s[p]) {
        lemma_literal_end(s, p + 1);
    }
}

proof fn lemma_quote_end(s: Seq<char>, p: int)
    requires
        0 <= p <= s.len(),
    ensures
        p <= quote_end(s, p) <= s.len(),
    decreases s.len() - p,
{
    if p < s.len() && s[p] != '"' {
        lemma_quote_end(s, p + 1);
    }
}

/// Every token step moves forward and stays within the input.
pub proof fn lemma_tokens_advance(s: Seq<char>, p: int, c: char, kw: Seq<char>)
    requires
        0 <= p <= s.len(),
    ensures
        ident_tok(s, p) matches Some((_, e)) ==> p < e <= s.len(),
        literal_tok(s, p) matches Some((_, e)) ==> p < e <= s.len(),
        quoted_tok(s, p) matches Some((_, e)) ==> p < e <= s.len(),
        char_tok(s, p, c) matches Some(e) ==> p < e <= s.len(),
        kw.len() > 0 ==> (kw_tok(s, p, kw) matches Some(e) ==> p < e <= s.len()),
{
    lemma_ws_end(s, p);
    let q = ws_end(s, p);
    lemma_ident_end(s, q);
    lemma_literal_end(s, q);
    if q < s.len() {
        lemma_quote_end(s, q + 1);
    }
}

/// Skipping whitespace and comments a second time moves no further.
pub proof fn lemma_ws_end_idem(s: Seq<char>, p: int)
    requires
        0 <= p <= s.len(),
    ensures
        ws_end(s, ws_end(s, p)) == ws_end(s, p),
    decreases s.len() - p,
{
    if p < s.len() {
        if is_whitespace(s[p]) {
            lemma_ws_end_idem(s, p + 1);
        } else if line_comment_at(s, p) {
            lemma_line_comment_end(s, p);
            if p < line_comment_end(s, p) <= s.len() {
                lemma_ws_end_idem(s, line_comment_end(s, p));
            }
        } else if block_comment_at(s, p) {
            lemma_block_comment_end(s, p + 2);
            if p < block_comment_end(s, p + 2) <= s.len() {
                lemma_ws_end_idem(s, block_comment_end(s, p + 2));
            }
        }
    }
}

/// The keyword `kw` stands at `p` (with no whitespace skipped).
pub open spec fn kw_at(s: Seq<char>, p: int, kw: Seq<char>) -> bool {
    0 <= p && p + kw.len() <= s.len() && s.subrange(p, p + kw.len()) == kw
}

/// The next token, if it is `c`, is passed over.
pub open spec fn opt_char(s: Seq<char>, p: int, c: char) -> int {
    match char_tok(s, p, c) {
        Some(x) => x,
        None => p,
    }
}

/// The next token, if it is the keyword `kw`, is passed over.
pub open spec fn opt_kw(s: Seq<char>, p: int, kw: Seq<char>) -> int {
    match kw_tok(s, p, kw) {
        Some(x) => x,
        None => p,
    }
}

/// The built-in type a name stands for.
pub open spec fn builtin_type(name: Seq<char>) -> Option<WebIDLType> {
    if name == "DOMString"@ {
        Some(WebIDLType::DOMString)
    } else if name == "USVString"@ {
        Some(WebIDLType::USVString)
    } else if name == "ByteString"@ {
        Some(WebIDLType::ByteString)
    } else if name == "boolean"@ {
        Some(WebIDLType::Boolean)
    } else if name == "byte"@ {
        Some(WebIDLType::Byte)
    } else if name == "octet"@ {
        Some(WebIDLType::Octet)
    } else if name == "short"@ {
        Some(WebIDLType::Short)
    } else if name == "unsigned short"@ {
        Some(WebIDLType::UnsignedShort)
    } else if name == "long"@ {
        Some(WebIDLType::Long)
    } else if name == "unsigned long"@ {
        Some(WebIDLType::UnsignedLong)
    } else if name == "long long"@ {
        Some(WebIDLType::LongLong)
    } else if name == "unsigned long long"@ {
        Some(WebIDLType::UnsignedLongLong)
    } else if name == "float"@ {
        Some(WebIDLType::Float)
    } else if name == "unrestricted float"@ {
        Some(WebIDLType::UnrestrictedFloat)
    } else if name == "double"@ {
        Some(WebIDLType::Double)
    } else if name == "unrestricted double"@ {
        Some(WebIDLType::UnrestrictedDouble)
    } else if name == "object"@ {
        Some(WebIDLType::Object)
    } else if name == "ArrayBuffer"@ {
        Some(WebIDLType::ArrayBuffer)
    } else if name == "ArrayBufferView"@ {
        Some(WebIDLType::ArrayBufferView)
    } else if name == "DataView"@ {
        Some(WebIDLType::DataView)
    } else if name == "Int8Array"@ {
        Some(WebIDLType::Int8Array)
    } else if name == "Int16Array"@ {
        Some(WebIDLType::Int16Array)
    } else if name == "Int32Array"@ {
        Some(WebIDLType::Int32Array)
    } else if name == "Uint8Array"@ {
        Some(WebIDLType::Uint8Array)
    } else if name == "Uint16Array"@ {
        Some(WebIDLType::Uint16Array)
    } else if name == "Uint32Array"@ {
        Some(WebIDLType::Uint32Array)
    } else if name == "Uint8ClampedArray"@ {
        Some(WebIDLType::Uint8ClampedArray)
    } else if name == "Float32Array"@ {
        Some(WebIDLType::Float32Array)
    } else if name == "Float64Array"@ {
        Some(WebIDLType::Float64Array)
    } else if name == "any"@ {
        Some(WebIDLType::Any)
    } else if name == "void"@ {
        Some(WebIDLType::Void)
    } else {
        None
    }
}

/// The WebIDL keyword that names a built-in type.
pub open spec fn builtin_keyword(t: WebIDLType) -> Option<Seq<char>> {
    match t {
        WebIDLType::DOMString => Some("DOMString"@),
        WebIDLType::USVString => Some("USVString"@),
        WebIDLType::ByteString => Some("ByteString"@),
        WebIDLType::Boolean => Some("boolean"@),
        WebIDLType::Byte => Some("byte"@),
        WebIDLType::Octet => Some("octet"@),
        WebIDLType::Short => Some("short"@),
        WebIDLType::UnsignedShort => Some("unsigned short"@),
        WebIDLType::Long => Some("long"@),
        WebIDLType::UnsignedLong => Some("unsigned long"@),
        WebIDLType::LongLong => Some("long long"@),
        WebIDLType::UnsignedLongLong => Some("unsigned long long"@),
        WebIDLType::Float => Some("float"@),
        WebIDLType::UnrestrictedFloat => Some("unrestricted float"@),
        WebIDLType::Double => Some("double"@),
        WebIDLType::UnrestrictedDouble => Some("unrestricted double"@),
        WebIDLType::Object => Some("object"@),
        WebIDLType::ArrayBuffer => Some("ArrayBuffer"@),
        WebIDLType::ArrayBufferView => Some("ArrayBufferView"@),
        WebIDLType::DataView => Some("DataView"@),
        WebIDLType::Int8Array => Some("Int8Array"@),
        WebIDLType::Int16Array => Some("Int16Array"@),
        WebIDLType::Int32Array => Some("Int32Array"@),
        WebIDLType::Uint8Array => Some("Uint8Array"@),
        WebIDLType::Uint16Array => Some("Uint16Array"@),
        WebIDLType::Uint32Array => Some("Uint32Array"@),
        WebIDLType::Uint8ClampedArray => Some("Uint8ClampedArray"@),
        WebIDLType::Float32Array => Some("Float32Array"@),
        WebIDLType::Float64Array => Some("Float64Array"@),
        WebIDLType::Any => Some("any"@),
        WebIDLType::Void => Some("void"@),
        _ => None,
    }
}

/// Built-in type names and built-in types correspond one to one: a name
/// that stands for a built-in type is that type's keyword (so no two names
/// give the same type), and each built-in type is read from its keyword.
pub proof fn lemma_builtin_names(t: WebIDLType, name: Seq<char>)
    ensures
        builtin_type(name) matches Some(x) ==> builtin_keyword(x) == Some(name),
        builtin_keyword(t) matches Some(k) ==> builtin_type(k) == Some(t),
{
    reveal_strlit("DOMString");
    assert("DOMString"@.len() == 9);
    reveal_strlit("USVString");
    assert("USVString"@.len() == 9);
    reveal_strlit("ByteString");
    assert("ByteString"@.len() == 10);
    reveal_strlit("boolean");
    assert("boolean"@.len() == 7);
    reveal_strlit("byte");
    assert("byte"@.len() == 4);
    reveal_strlit("octet");
    assert("octet"@.len() == 5);
    reveal_strlit("short");
    assert("short"@.len() == 5);
    reveal_strlit("unsigned short");
    assert("unsigned short"@.len() == 14);
    reveal_strlit("long");
    assert("long"@.len() == 4);
    reveal_strlit("unsigned long");
    assert("unsigned long"@.len() == 13);
    reveal_strlit("long long");
    assert("long long"@.len() == 9);
    reveal_strlit("unsigned long long");
    assert("unsigned long long"@.len() == 18);
    reveal_strlit("float");
    assert("float"@.len() == 5);
    reveal_strlit("unrestricted float");
    assert("unrestricted float"@.len() == 18);
    reveal_strlit("double");
    assert("double"@.len() == 6);
    reveal_strlit("unrestricted double");
    assert("unrestricted double"@.len() == 19);
    reveal_strlit("object");
    assert("object"@.len() == 6);
    reveal_strlit("ArrayBuffer");
    assert("ArrayBuffer"@.len() == 11);
    reveal_strlit("ArrayBufferView");
    assert("ArrayBufferView"@.len() == 15);
    reveal_strlit("DataView");
    assert("DataView"@.len() == 8);
    reveal_strlit("Int8Array");
    assert("Int8Array"@.len() == 9);
    reveal_strlit("Int16Array");
    assert("Int16Array"@.len() == 10);
    reveal_strlit("Int32Array");
    assert("Int32Array"@.len() == 10);
    reveal_strlit("Uint8Array");
    assert("Uint8Array"@.len() == 10);
    reveal_strlit("Uint16Array");
    assert("Uint16Array"@.len() == 11);
    reveal_strlit("Uint32Array");
    assert("Uint32Array"@.len() == 11);
    reveal_strlit("Uint8ClampedArray");
    assert("Uint8ClampedArray"@.len() == 17);
    reveal_strlit("Float32Array");
    assert("Float32Array"@.len() == 12);
    reveal_strlit("Float64Array");
    assert("Float64Array"@.len() == 12);
    reveal_strlit("any");
    assert("any"@.len() == 3);
    reveal_strlit("void");
    assert("void"@.len() == 4);
    match t {
        WebIDLType::DOMString => {},
        WebIDLType::USVString => {
            assert("USVString"@ != "DOMString"@) by { assert("USVString"@[0] != "DOMString"@[0]); }
        },
        WebIDLType::ByteString => {},
        WebIDLType::Boolean => {},
        WebIDLType::Byte => {},
        WebIDLType::Octet => {},
        WebIDLType::Short => {
            assert("short"@ != "octet"@) by { assert("short"@[0] != "octet"@[0]); }
        },
        WebIDLType::UnsignedShort => {},
        WebIDLType::Long => {
            assert("long"@ != "byte"@) by { assert("long"@[0] != "byte"@[0]); }
        },
        WebIDLType::UnsignedLong => {},
        WebIDLType::LongLong => {
            assert("long long"@ != "DOMString"@) by { assert("long long"@[0] != "DOMString"@[0]); }
            assert("long long"@ != "USVString"@) by { assert("long long"@[0] != "USVString"@[0]); }
        },
        WebIDLType::UnsignedLongLong => {},
        WebIDLType::Float => {
            assert("float"@ != "octet"@) by { assert("float"@[0] != "octet"@[0]); }
            assert("float"@ != "short"@) by { assert("float"@[0] != "short"@[0]); }
        },
        WebIDLType::UnrestrictedFloat => {
            assert("unrestricted float"@ != "unsigned long long"@) by { assert("unrestricted float"@[2] != "unsigned long long"@[2]); }
        },
        WebIDLType::Double => {},
        WebIDLType::UnrestrictedDouble => {},
        WebIDLType::Object => {
            assert("object"@ != "double"@) by { assert("object"@[0] != "double"@[0]); }
        },
        WebIDLType::ArrayBuffer => {},
        WebIDLType::ArrayBufferView => {},
        WebIDLType::DataView => {},
        WebIDLType::Int8Array => {
            assert("Int8Array"@ != "DOMString"@) by { assert("Int8Array"@[0] != "DOMString"@[0]); }
            assert("Int8Array"@ != "USVString"@) by { assert("Int8Array"@[0] != "USVString"@[0]); }
            assert("Int8Array"@ != "long long"@) by { assert("Int8Array"@[0] != "long long"@[0]); }
        },
        WebIDLType::Int16Array => {
            assert("Int16Array"@ != "ByteString"@) by { assert("Int16Array"@[0] != "ByteString"@[0]); }
        },
        WebIDLType::Int32Array => {
            assert("Int32Array"@ != "ByteString"@) by { assert("Int32Array"@[0] != "ByteString"@[0]); }
            assert("Int32Array"@ != "Int16Array"@) by { assert("Int32Array"@[3] != "Int16Array"@[3]); }
        },
        WebIDLType::Uint8Array => {
            assert("Uint8Array"@ != "ByteString"@) by { assert("Uint8Array"@[0] != "ByteString"@[0]); }
            assert("Uint8Array"@ != "Int16Array"@) by { assert("Uint8Array"@[0] != "Int16Array"@[0]); }
            assert("Uint8Array"@ != "Int32Array"@) by { assert("Uint8Array"@[0] != "Int32Array"@[0]); }
        },
        WebIDLType::Uint16Array => {
            assert("Uint16Array"@ != "ArrayBuffer"@) by { assert("Uint16Array"@[0] != "ArrayBuffer"@[0]); }
        },
        WebIDLType::Uint32Array => {
            assert("Uint32Array"@ != "ArrayBuffer"@) by { assert("Uint32Array"@[0] != "ArrayBuffer"@[0]); }
            assert("Uint32Array"@ != "Uint16Array"@) by { assert("Uint32Array"@[4] != "Uint16Array"@[4]); }
        },
        WebIDLType::Uint8ClampedArray => {},
        WebIDLType::Float32Array => {},
        WebIDLType::Float64Array => {
            assert("Float64Array"@ != "Float32Array"@) by { assert("Float64Array"@[5] != "Float32Array"@[5]); }
        },
        WebIDLType::Any => {},
        WebIDLType::Void => {
            assert("void"@ != "byte"@) by { assert("void"@[0] != "byte"@[0]); }
            assert("void"@ != "long"@) by { assert("void"@[0] != "long"@[0]); }
        },
        _ => {},
    }
}

/// The type a name stands for: a built-in type, or an interface of that name.
pub open spec fn named_type(t: WebIDLType, name: Seq<char>) -> bool {
    match builtin_type(name) {
        Some(b) => t == b,
        None => t matches WebIDLType::Interface(x) && x@ == name,
    }
}

/// A named type, marked nullable (`?`) and then optional (`=`) as written.
pub open spec fn marked_type(t: WebIDLType, name: Seq<char>, nullable: bool, optional: bool) -> bool {
    if optional {
        if nullable {
            t matches WebIDLType::Optional(o) && (*o matches WebIDLType::Nullable(n) && named_type(*n, name))
        } else {
            t matches WebIDLType::Optional(o) && named_type(*o, name)
        }
    } else {
        if nullable {
            t matches WebIDLType::Nullable(n) && named_type(*n, name)
        } else {
            named_type(t, name)
        }
    }
}

/// Where the type that starts at `p` ends.
pub open spec fn type_end(s: Seq<char>, p: int) -> Option<int>
    decreases s.len() - p + 1, 1int,
{
    if !(0 <= p <= s.len()) {
        None
    } else if kw_tok(s, p, "Promise"@) is Some || kw_tok(s, p, "sequence"@) is Some || kw_tok(s, p, "record"@) is Some {
        let a = if kw_tok(s, p, "Promise"@) is Some {
            opt_kw(s, p, "Promise"@)
        } else if kw_tok(s, p, "sequence"@) is Some {
            opt_kw(s, p, "sequence"@)
        } else {
            opt_kw(s, p, "record"@)
        };
        if p < a <= s.len() {
            if kw_tok(s, p, "record"@) is Some && kw_tok(s, p, "Promise"@) is None && kw_tok(s, p, "sequence"@) is None {
                record_end(s, a)
            } else {
                angle_end(s, a)
            }
        } else {
            None
        }
    } else {
        named_end(s, p)
    }
}

/// Where `<T>` from `a` ends.
pub open spec fn angle_end(s: Seq<char>, a: int) -> Option<int>
    decreases s.len() - a + 1, 0int,
{
    match char_tok(s, a, '<') {
        Some(b) => if a < b <= s.len() {
            match type_end(s, b) {
                Some(m) => char_tok(s, m, '>'),
                None => None,
            }
        } else {
            None
        },
        None => None,
    }
}

/// Where `<K, V>` from `a` ends.
pub open spec fn record_end(s: Seq<char>, a: int) -> Option<int>
    decreases s.len() - a + 1, 0int,
{
    match char_tok(s, a, '<') {
        Some(b) => if a < b <= s.len() {
            match type_end(s, b) {
                Some(m) => match char_tok(s, m, ',') {
                    Some(c) => if a < c <= s.len() {
                        match type_end(s, c) {
                            Some(m2) => char_tok(s, m2, '>'),
                            None => None,
                        }
                    } else {
                        None
                    },
                    None => None,
                },
                None => None,
            }
        } else {
            None
        },
        None => None,
    }
}

/// Where a type name with its marks ends.
pub open spec fn named_end(s: Seq<char>, p: int) -> Option<int> {
    match ident_tok(s, p) {
        Some((_, e)) => Some(opt_char(s, opt_char(s, e, '?'), '=')),
        None => None,
    }
}

/// The type that starts at `p` is `t`.
pub open spec fn type_ok(s: Seq<char>, p: int, t: WebIDLType) -> bool
    decreases s.len() - p + 1, 1int,
{
    if !(0 <= p <= s.len()) {
        false
    } else if kw_tok(s, p, "Promise"@) is Some {
        let a = opt_kw(s, p, "Promise"@);
        p < a <= s.len() && (t matches WebIDLType::Promise(x) && angle_ok(s, a, *x))
    } else if kw_tok(s, p, "sequence"@) is Some {
        let a = opt_kw(s, p, "sequence"@);
        p < a <= s.len() && (t matches WebIDLType::Sequence(x) && angle_ok(s, a, *x))
    } else if kw_tok(s, p, "record"@) is Some {
        let a = opt_kw(s, p, "record"@);
        p < a <= s.len() && (t matches WebIDLType::Record(k, v) && record_ok(s, a, *k, *v))
    } else {
        named_ok(s, p, t)
    }
}

/// The type between the angle brackets from `a` is `x`.
pub open spec fn angle_ok(s: Seq<char>, a: int, x: WebIDLType) -> bool
    decreases s.len() - a + 1, 0int,
{
    match char_tok(s, a, '<') {
        Some(b) => a < b <= s.len() && type_ok(s, b, x),
        None => false,
    }
}

/// The key and value types between the angle brackets from `a` are `k` and `v`.
pub open spec fn record_ok(s: Seq<char>, a: int, k: WebIDLType, v: WebIDLType) -> bool
    decreases s.len() - a + 1, 0int,
{
    match char_tok(s, a, '<') {
        Some(b) => a < b <= s.len() && type_ok(s, b, k) && match type_end(s, b) {
            Some(m) => match char_tok(s, m, ',') {
                Some(c) => a < c <= s.len() && type_ok(s, c, v),
                None => false,
            },
            None => false,
        },
        None => false,
    }
}

/// The type name with its marks at `p` gives `t`.
pub open spec fn named_ok(s: Seq<char>, p: int, t: WebIDLType) -> bool {
    match ident_tok(s, p) {
        Some((name, e)) => marked_type(
            t,
            name,
            char_tok(s, e, '?') is Some,
            char_tok(s, opt_char(s, e, '?'), '=') is Some,
        ),
        None => false,
    }
}

/// A type read after skipping whitespace and comments is the type read before.
pub proof fn lemma_type_after_ws(s: Seq<char>, p: int, t: WebIDLType)
    requires
        0 <= p <= s.len(),
    ensures
        type_end(s, ws_end(s, p)) == type_end(s, p),
        type_ok(s, ws_end(s, p), t) == type_ok(s, p, t),
{
    reveal_strlit("Promise");
    assert("Promise"@.len() == 7);
    reveal_strlit("sequence");
    assert("sequence"@.len() == 8);
    reveal_strlit("record");
    assert("record"@.len() == 6);
    lemma_ws_end(s, p);
    lemma_ws_end_idem(s, p);
    lemma_tokens_advance(s, p, ' ', "Promise"@);
    lemma_tokens_advance(s, p, ' ', "sequence"@);
    lemma_tokens_advance(s, p, ' ', "record"@);
    let q = ws_end(s, p);
    assert(kw_tok(s, q, "Promise"@) == kw_tok(s, p, "Promise"@));
    assert(kw_tok(s, q, "sequence"@) == kw_tok(s, p, "sequence"@));
    assert(kw_tok(s, q, "record"@) == kw_tok(s, p, "record"@));
    assert(ident_tok(s, q) == ident_tok(s, p));
    assert(named_end(s, q) == named_end(s, p));
    assert(named_ok(s, q, t) == named_ok(s, p, t));
}

/// The type a name stands for.
fn type_from_name(name: String) -> (r: WebIDLType)
    ensures
        named_type(r, name@),
{
    let n = name.as_str();
    if str_equal(n, "DOMString") {
        WebIDLType::DOMString
    } else if str_equal(n, "USVString") {
        WebIDLType::USVString
    } else if str_equal(n, "ByteString") {
        WebIDLType::ByteString
    } else if str_equal(n, "boolean") {
        WebIDLType::Boolean
    } else if str_equal(n, "byte") {
        WebIDLType::Byte
    } else if str_equal(n, "octet") {
        WebIDLType::Octet
    } else if str_equal(n, "short") {
        WebIDLType::Short
    } else if str_equal(n, "unsigned short") {
        WebIDLType::UnsignedShort
    } else if str_equal(n, "long") {
        WebIDLType::Long
    } else if str_equal(n, "unsigned long") {
        WebIDLType::UnsignedLong
    } else if str_equal(n, "long long") {
        WebIDLType::LongLong
    } else if str_equal(n, "unsigned long long") {
        WebIDLType::UnsignedLongLong
    } else if str_equal(n, "float") {
        WebIDLType::Float
    } else if str_equal(n, "unrestricted float") {
        WebIDLType::UnrestrictedFloat
    } else if str_equal(n, "double") {
        WebIDLType::Double
    } else if str_equal(n, "unrestricted double") {
        WebIDLType::UnrestrictedDouble
    } else if str_equal(n, "object") {
        WebIDLType::Object
    } else if str_equal(n, "ArrayBuffer") {
        WebIDLType::ArrayBuffer
    } else if str_equal(n, "ArrayBufferView") {
        WebIDLType::ArrayBufferView
    } else if str_equal(n, "DataView") {
        WebIDLType::DataView
    } else if str_equal(n, "Int8Array") {
        WebIDLType::Int8Array
    } else if str_equal(n, "Int16Array") {
        WebIDLType::Int16Array
    } else if str_equal(n, "Int32Array") {
        WebIDLType::Int32Array
    } else if str_equal(n, "Uint8Array") {
        WebIDLType::Uint8Array
    } else if str_equal(n, "Uint16Array") {
        WebIDLType::Uint16Array
    } else if str_equal(n, "Uint32Array") {
        WebIDLType::Uint32Array
    } else if str_equal(n, "Uint8ClampedArray") {
        WebIDLType::Uint8ClampedArray
    } else if str_equal(n, "Float32Array") {
        WebIDLType::Float32Array
    } else if str_equal(n, "Float64Array") {
        WebIDLType::Float64Array
    } else if str_equal(n, "any") {
        WebIDLType::Any
    } else if str_equal(n, "void") {
        WebIDLType::Void
    } else {
        WebIDLType::Interface(name)
    }
}

/// Where an argument's default value (`= literal`), if any, ends.
pub open spec fn default_end(s: Seq<char>, p: int) -> Option<int> {
    match char_tok(s, p, '=') {
        Some(x) => match literal_tok(s, x) {
            Some((_, y)) => Some(y),
            None => None,
        },
        None => Some(p),
    }
}

/// Where a variadic mark (`...`), if any, ends.
pub open spec fn dots_end(s: Seq<char>, p: int) -> Option<int> {
    match char_tok(s, p, '.') {
        Some(x) => match char_tok(s, x, '.') {
            Some(y) => char_tok(s, y, '.'),
            None => None,
        },
        None => Some(p),
    }
}

/// Where the argument that starts at `p` ends: a type, a name, then `?`,
/// a default value and `...`, each where present.
pub open spec fn arg_end(s: Seq<char>, p: int) -> Option<int> {
    match type_end(s, p) {
        Some(e1) => match ident_tok(s, e1) {
            Some((_, e2)) => match default_end(s, opt_char(s, e2, '?')) {
                Some(e4) => dots_end(s, e4),
                None => None,
            },
            None => None,
        },
        None => None,
    }
}

/// The argument that starts at `p` is `a`.
pub open spec fn arg_ok(s: Seq<char>, p: int, a: WebIDLArgument) -> bool {
    match type_end(s, p) {
        Some(e1) => type_ok(s, p, a.arg_type) && match ident_tok(s, e1) {
            Some((name, e2)) => {
                let e3 = opt_char(s, e2, '?');
                &&& a.name@ == name
                &&& a.optional == (char_tok(s, e2, '?') is Some)
                &&& match char_tok(s, e3, '=') {
                    Some(x) => match literal_tok(s, x) {
                        Some((lit, y)) => (a.default_value matches Some(d) && d@ == lit) && a.variadic == (char_tok(
                            s,
                            y,
                            '.',
                        ) is Some),
                        None => false,
                    },
                    None => a.default_value is None && a.variadic == (char_tok(s, e3, '.') is Some),
                }
                &&& a.documentation is None
            },
            None => false,
        },
        None => false,
    }
}

/// Where the arguments from `p` end: before the closing `)`. Each argument
/// may be followed by a comma.
pub open spec fn args_end(s: Seq<char>, p: int) -> Option<int>
    decreases s.len() - p,
{
    if !(0 <= p <= s.len()) {
        None
    } else if char_tok(s, p, ')') is Some {
        Some(p)
    } else {
        match arg_end(s, p) {
            Some(e) => {
                let e2 = opt_char(s, e, ',');
                if p < e2 <= s.len() {
                    args_end(s, e2)
                } else {
                    None
                }
            },
            None => None,
        }
    }
}

/// The arguments from `p` are `args`.
pub open spec fn args_ok(s: Seq<char>, p: int, args: Seq<WebIDLArgument>) -> bool
    decreases s.len() - p,
{
    if !(0 <= p <= s.len()) {
        false
    } else if char_tok(s, p, ')') is Some {
        args.len() == 0
    } else {
        match arg_end(s, p) {
            Some(e) => {
                let e2 = opt_char(s, e, ',');
                p < e2 <= s.len() && args.len() > 0 && arg_ok(s, p, args[0]) && args_ok(s, e2, args.drop_first())
            },
            None => false,
        }
    }
}

/// Where the method that starts at `p` ends: a return type, a name, the
/// arguments in parentheses, and a semicolon.
pub open spec fn method_end(s: Seq<char>, p: int) -> Option<int> {
    match type_end(s, p) {
        Some(e1) => match ident_tok(s, e1) {
            Some((_, e2)) => match char_tok(s, e2, '(') {
                Some(e3) => match args_end(s, e3) {
                    Some(e4) => match char_tok(s, e4, ')') {
                        Some(e5) => char_tok(s, e5, ';'),
                        None => None,
                    },
                    None => None,
                },
                None => None,
            },
            None => None,
        },
        None => None,
    }
}

/// The method that starts at `p` is `m`.
pub open spec fn method_ok(s: Seq<char>, p: int, m: WebIDLMethod) -> bool {
    match type_end(s, p) {
        Some(e1) => type_ok(s, p, m.return_type) && match ident_tok(s, e1) {
            Some((name, e2)) => {
                &&& m.name@ == name
                &&& match char_tok(s, e2, '(') {
                    Some(e3) => args_ok(s, e3, m.arguments@),
                    None => false,
                }
                &&& !m.static_method && !m.getter && !m.setter && !m.deleter
                &&& m.documentation is None
            },
            None => false,
        },
        None => false,
    }
}

/// Where the attribute that starts at `p` ends: `readonly` where present,
/// `attribute`, a type, a name and a semicolon.
pub open spec fn prop_end(s: Seq<char>, p: int) -> Option<int> {
    match kw_tok(s, opt_kw(s, p, "readonly"@), "attribute"@) {
        Some(e1) => match type_end(s, e1) {
            Some(e2) => match ident_tok(s, e2) {
                Some((_, e3)) => char_tok(s, e3, ';'),
                None => None,
            },
            None => None,
        },
        None => None,
    }
}

/// The attribute that starts at `p` is `a`.
pub open spec fn prop_ok(s: Seq<char>, p: int, a: WebIDLProperty) -> bool {
    match kw_tok(s, opt_kw(s, p, "readonly"@), "attribute"@) {
        Some(e1) => match type_end(s, e1) {
            Some(e2) => type_ok(s, e1, a.property_type) && match ident_tok(s, e2) {
                Some((name, _)) => {
                    &&& a.name@ == name
                    &&& a.readonly == (kw_tok(s, p, "readonly"@) is Some)
                    &&& !a.required && !a.inherited
                    &&& a.documentation is None
                },
                None => false,
            },
            None => false,
        },
        None => false,
    }
}

/// An attribute starts at `p`.
pub open spec fn prop_start(s: Seq<char>, p: int) -> bool {
    kw_tok(s, p, "readonly"@) is Some || kw_tok(s, p, "attribute"@) is Some
}

/// Where the members of an interface from `p` end: before the closing `}`.
pub open spec fn members_end(s: Seq<char>, p: int) -> Option<int>
    decreases s.len() - p,
{
    if !(0 <= p <= s.len()) {
        None
    } else if char_tok(s, p, '}') is Some {
        Some(p)
    } else {
        let next = if prop_start(s, p) {
            prop_end(s, p)
        } else {
            method_end(s, p)
        };
        match next {
            Some(e) => if p < e <= s.len() {
                members_end(s, e)
            } else {
                None
            },
            None => None,
        }
    }
}

/// The members of an interface from `p` are the methods `ms` and the
/// attributes `ps`, each in the order written.
pub open spec fn members_ok(s: Seq<char>, p: int, ms: Seq<WebIDLMethod>, ps: Seq<WebIDLProperty>) -> bool
    decreases s.len() - p,
{
    if !(0 <= p <= s.len()) {
        false
    } else if char_tok(s, p, '}') is Some {
        ms.len() == 0 && ps.len() == 0
    } else if prop_start(s, p) {
        match prop_end(s, p) {
            Some(e) => p < e <= s.len() && ps.len() > 0 && prop_ok(s, p, ps[0]) && members_ok(s, e, ms, ps.drop_first()),
            None => false,
        }
    } else {
        match method_end(s, p) {
            Some(e) => p < e <= s.len() && ms.len() > 0 && method_ok(s, p, ms[0]) && members_ok(s, e, ms.drop_first(), ps),
            None => false,
        }
    }
}

/// Where an inheritance clause (`: Name`), if any, ends.
pub open spec fn parent_end(s: Seq<char>, b: int) -> Option<int> {
    match char_tok(s, b, ':') {
        Some(c) => match ident_tok(s, c) {
            Some((_, d)) => Some(d),
            None => None,
        },
        None => Some(b),
    }
}

/// The inheritance clause from `b` names `parent`.
pub open spec fn parent_ok(s: Seq<char>, b: int, parent: Option<String>) -> bool {
    match char_tok(s, b, ':') {
        Some(c) => match ident_tok(s, c) {
            Some((name, _)) => parent matches Some(x) && x@ == name,
            None => false,
        },
        None => parent is None,
    }
}

/// Where the interface that starts at `p` ends.
pub open spec fn interface_end(s: Seq<char>, p: int) -> Option<int> {
    match kw_tok(s, p, "interface"@) {
        Some(a) => match ident_tok(s, a) {
            Some((_, b)) => match parent_end(s, b) {
                Some(d) => match char_tok(s, d, '{') {
                    Some(e) => match members_end(s, e) {
                        Some(f) => match char_tok(s, f, '}') {
                            Some(g) => char_tok(s, g, ';'),
                            None => None,
                        },
                        None => None,
                    },
                    None => None,
                },
                None => None,
            },
            None => None,
        },
        None => None,
    }
}

/// The interface that starts at `p` is `v`.
pub open spec fn interface_ok(s: Seq<char>, p: int, v: WebIDLInterface) -> bool {
    match kw_tok(s, p, "interface"@) {
        Some(a) => match ident_tok(s, a) {
            Some((name, b)) => {
                &&& v.name@ == name
                &&& parent_ok(s, b, v.parent)
                &&& match parent_end(s, b) {
                    Some(d) => match char_tok(s, d, '{') {
                        Some(e) => members_ok(s, e, v.methods@, v.properties@),
                        None => false,
                    },
                    None => false,
                }
                &&& !v.mixin && !v.partial
                &&& v.documentation is None
                &&& v.attributes@.len() == 0
            },
            None => false,
        },
        None => false,
    }
}

/// Where the dictionary member that starts at `p` ends: a type, a name,
/// `required` and a default value where present, and a semicolon.
pub open spec fn member_end(s: Seq<char>, p: int) -> Option<int> {
    match type_end(s, p) {
        Some(e1) => match ident_tok(s, e1) {
            Some((_, e2)) => match default_end(s, opt_kw(s, e2, "required"@)) {
                Some(e4) => char_tok(s, e4, ';'),
                None => None,
            },
            None => None,
        },
        None => None,
    }
}

/// The dictionary member that starts at `p` is `m`.
pub open spec fn member_ok(s: Seq<char>, p: int, m: WebIDLDictionaryMember) -> bool {
    match type_end(s, p) {
        Some(e1) => type_ok(s, p, m.member_type) && match ident_tok(s, e1) {
            Some((name, e2)) => {
                let e3 = opt_kw(s, e2, "required"@);
                &&& m.name@ == name
                &&& m.required == (kw_tok(s, e2, "required"@) is Some)
                &&& match char_tok(s, e3, '=') {
                    Some(x) => match literal_tok(s, x) {
                        Some((lit, _)) => m.default_value matches Some(d) && d@ == lit,
                        None => false,
                    },
                    None => m.default_value is None,
                }
                &&& m.documentation is None
            },
            None => false,
        },
        None => false,
    }
}

/// Where the members of a dictionary from `p` end: before the closing `}`.
pub open spec fn dict_members_end(s: Seq<char>, p: int) -> Option<int>
    decreases s.len() - p,
{
    if !(0 <= p <= s.len()) {
        None
    } else if char_tok(s, p, '}') is Some {
        Some(p)
    } else {
        match member_end(s, p) {
            Some(e) => if p < e <= s.len() {
                dict_members_end(s, e)
            } else {
                None
            },
            None => None,
        }
    }
}

/// The members of a dictionary from `p` are `ms`.
pub open spec fn dict_members_ok(s: Seq<char>, p: int, ms: Seq<WebIDLDictionaryMember>) -> bool
    decreases s.len() - p,
{
    if !(0 <= p <= s.len()) {
        false
    } else if char_tok(s, p, '}') is Some {
        ms.len() == 0
    } else {
        match member_end(s, p) {
            Some(e) => p < e <= s.len() && ms.len() > 0 && member_ok(s, p, ms[0]) && dict_members_ok(s, e, ms.drop_first()),
            None => false,
        }
    }
}

/// Where the dictionary that starts at `p` ends.
pub open spec fn dictionary_end(s: Seq<char>, p: int) -> Option<int> {
    match kw_tok(s, p, "dictionary"@) {
        Some(a) => match ident_tok(s, a) {
            Some((_, b)) => match parent_end(s, b) {
                Some(d) => match char_tok(s, d, '{') {
                    Some(e) => match dict_members_end(s, e) {
                        Some(f) => match char_tok(s, f, '}') {
                            Some(g) => char_tok(s, g, ';'),
                            None => None,
                        },
                        None => None,
                    },
                    None => None,
                },
                None => None,
            },
            None => None,
        },
        None => None,
    }
}

/// The dictionary that starts at `p` is `v`.
pub open spec fn dictionary_ok(s: Seq<char>, p: int, v: WebIDLDictionary) -> bool {
    match kw_tok(s, p, "dictionary"@) {
        Some(a) => match ident_tok(s, a) {
            Some((name, b)) => {
                &&& v.name@ == name
                &&& parent_ok(s, b, v.parent)
                &&& match parent_end(s, b) {
                    Some(d) => match char_tok(s, d, '{') {
                        Some(e) => dict_members_ok(s, e, v.members@),
                        None => false,
                    },
                    None => false,
                }
                &&& v.documentation is None
            },
            None => false,
        },
        None => false,
    }
}

/// An enum value: a quoted string (its text) or a bare name.
pub open spec fn value_tok(s: Seq<char>, p: int) -> Option<(Seq<char>, int)> {
    if char_tok(s, p, '"') is Some {
        quoted_tok(s, p)
    } else {
        ident_tok(s, p)
    }
}

/// Where the values of an enum from `p` end: before the closing `}`. Each
/// value may be followed by a comma.
pub open spec fn values_end(s: Seq<char>, p: int) -> Option<int>
    decreases s.len() - p,
{
    if !(0 <= p <= s.len()) {
        None
    } else if char_tok(s, p, '}') is Some {
        Some(p)
    } else {
        match value_tok(s, p) {
            Some((_, e)) => {
                let e2 = opt_char(s, e, ',');
                if p < e2 <= s.len() {
                    values_end(s, e2)
                } else {
                    None
                }
            },
            None => None,
        }
    }
}

/// The values of an enum from `p`, in order.
pub open spec fn values_of(s: Seq<char>, p: int) -> Seq<Seq<char>>
    decreases s.len() - p,
{
    if !(0 <= p <= s.len()) || char_tok(s, p, '}') is Some {
        Seq::empty()
    } else {
        match value_tok(s, p) {
            Some((v, e)) => {
                let e2 = opt_char(s, e, ',');
                if p < e2 <= s.len() {
                    seq![v] + values_of(s, e2)
                } else {
                    Seq::empty()
                }
            },
            None => Seq::empty(),
        }
    }
}

/// Where the enum that starts at `p` ends.
pub open spec fn enum_end(s: Seq<char>, p: int) -> Option<int> {
    match kw_tok(s, p, "enum"@) {
        Some(a) => match ident_tok(s, a) {
            Some((_, b)) => match char_tok(s, b, '{') {
                Some(c) => match values_end(s, c) {
                    Some(d) => match char_tok(s, d, '}') {
                        Some(e) => char_tok(s, e, ';'),
                        None => None,
                    },
                    None => None,
                },
                None => None,
            },
            None => None,
        },
        None => None,
    }
}

/// The enum that starts at `p` is `v`.
pub open spec fn enum_ok(s: Seq<char>, p: int, v: WebIDLEnum) -> bool {
    match kw_tok(s, p, "enum"@) {
        Some(a) => match ident_tok(s, a) {
            Some((name, b)) => {
                &&& v.name@ == name
                &&& match char_tok(s, b, '{') {
                    Some(c) => v.values@.map_values(|x: String| x@) == values_of(s, c),
                    None => false,
                }
                &&& v.documentation is None
            },
            None => false,
        },
        None => false,
    }
}

/// Where the callback that starts at `p` ends.
pub open spec fn callback_end(s: Seq<char>, p: int) -> Option<int> {
    match kw_tok(s, p, "callback"@) {
        Some(a) => match ident_tok(s, a) {
            Some((_, b)) => match char_tok(s, b, '=') {
                Some(c) => match type_end(s, c) {
                    Some(d) => match char_tok(s, d, '(') {
                        Some(e) => match args_end(s, e) {
                            Some(f) => match char_tok(s, f, ')') {
                                Some(g) => char_tok(s, g, ';'),
                                None => None,
                            },
                            None => None,
                        },
                        None => None,
                    },
                    None => None,
                },
                None => None,
            },
            None => None,
        },
        None => None,
    }
}

/// The callback that starts at `p` is `v`.
pub open spec fn callback_ok(s: Seq<char>, p: int, v: WebIDLCallback) -> bool {
    match kw_tok(s, p, "callback"@) {
        Some(a) => match ident_tok(s, a) {
            Some((name, b)) => {
                &&& v.name@ == name
                &&& match char_tok(s, b, '=') {
                    Some(c) => type_ok(s, c, v.return_type) && match type_end(s, c) {
                        Some(d) => match char_tok(s, d, '(') {
                            Some(e) => args_ok(s, e, v.arguments@),
                            None => false,
                        },
                        None => false,
                    },
                    None => false,
                }
                &&& v.documentation is None
            },
            None => false,
        },
        None => false,
    }
}

/// Whether the definitions from `p` parse: at each definition keyword
/// (after whitespace and comments) its definition, and any other character
/// passed over.
pub open spec fn defs_succeed(s: Seq<char>, p: int) -> bool
    decreases s.len() - p,
{
    let q = ws_end(s, p);
    if !(0 <= p <= q <= s.len()) {
        false
    } else if q == s.len() {
        true
    } else {
        let next = if kw_at(s, q, "interface"@) {
            interface_end(s, q)
        } else if kw_at(s, q, "dictionary"@) {
            dictionary_end(s, q)
        } else if kw_at(s, q, "enum"@) {
            enum_end(s, q)
        } else if kw_at(s, q, "callback"@) {
            callback_end(s, q)
        } else {
            Some(q + 1)
        };
        match next {
            Some(e) => q < e <= s.len() && defs_succeed(s, e),
            None => false,
        }
    }
}

/// The definitions from `p`, added to the tables `i`, `d`, `e`, `c` under
/// their names (a later one replacing an earlier one of the same name), give
/// `out`.
pub open spec fn defs_ok(
    s: Seq<char>,
    p: int,
    i: Entries<WebIDLInterface>,
    d: Entries<WebIDLDictionary>,
    e: Entries<WebIDLEnum>,
    c: Entries<WebIDLCallback>,
    out: WebIDLDefinition,
) -> bool
    decreases s.len() - p,
{
    let q = ws_end(s, p);
    if !(0 <= p <= q <= s.len()) {
        false
    } else if q == s.len() {
        &&& out.interfaces@ == i
        &&& out.dictionaries@ == d
        &&& out.enums@ == e
        &&& out.callbacks@ == c
        &&& out.globals@.len() == 0
    } else if kw_at(s, q, "interface"@) {
        match interface_end(s, q) {
            Some(x) => q < x <= s.len() && exists|v: WebIDLInterface|
                #[trigger] interface_ok(s, q, v) && defs_ok(s, x, table_insert(i, v.name@, v), d, e, c, out),
            None => false,
        }
    } else if kw_at(s, q, "dictionary"@) {
        match dictionary_end(s, q) {
            Some(x) => q < x <= s.len() && exists|v: WebIDLDictionary|
                #[trigger] dictionary_ok(s, q, v) && defs_ok(s, x, i, table_insert(d, v.name@, v), e, c, out),
            None => false,
        }
    } else if kw_at(s, q, "enum"@) {
        match enum_end(s, q) {
            Some(x) => q < x <= s.len() && exists|v: WebIDLEnum|
                #[trigger] enum_ok(s, q, v) && defs_ok(s, x, i, d, table_insert(e, v.name@, v), c, out),
            None => false,
        }
    } else if kw_at(s, q, "callback"@) {
        match callback_end(s, q) {
            Some(x) => q < x <= s.len() && exists|v: WebIDLCallback|
                #[trigger] callback_ok(s, q, v) && defs_ok(s, x, i, d, e, table_insert(c, v.name@, v), out),
            None => false,
        }
    } else {
        defs_ok(s, q + 1, i, d, e, c, out)
    }
}

/// The position after the whitespace and comments from `p`.
fn ws_scan(chars: &Vec<char>, p: usize) -> (r: usize)
    requires
        p <= chars@.len(),
    ensures
        r == ws_end(chars@, p as int),
        p <= r <= chars@.len(),
{
    let ghost s = chars@;
    proof {
        lemma_ws_end(s, p as int);
    }
    let mut pos = p;
    let mut done = false;
    while !done && pos < chars.len()
        invariant
            s == chars@,
            p <= pos <= s.len(),
            ws_end(s, pos as int) == ws_end(s, p as int),
            done ==> ws_end(s, pos as int) == pos,
        decreases s.len() - pos, if done { 0int } else { 1int },
    {
        let ch = chars[pos];
        if char_is_whitespace(ch) {
            pos = pos + 1;
        } else if ch == '/' && pos + 1 < chars.len() && chars[pos + 1] == '/' {
            let ghost c0 = pos as int;
            proof {
                lemma_line_comment_end(s, c0);
            }
            while pos < chars.len() && chars[pos] != '\n'
                invariant
                    s == chars@,
                    c0 <= pos <= s.len(),
                    line_comment_end(s, pos as int) == line_comment_end(s, c0),
                    pos > c0 || s[c0] == '/',
                decreases s.len() - pos,
            {
                pos = pos + 1;
            }
            assert(pos > c0);
        } else if ch == '/' && pos + 1 < chars.len() && chars[pos + 1] == '*' {
            let ghost c0 = pos as int;
            pos = pos + 2;
            let mut closed = false;
            while !closed && pos < chars.len() && pos + 1 < chars.len()
                invariant
                    s == chars@,
                    c0 + 2 <= pos <= s.len(),
                    !closed ==> block_comment_end(s, pos as int) == block_comment_end(s, c0 + 2),
                    closed ==> block_comment_end(s, c0 + 2) == pos,
                decreases s.len() - pos, if closed { 0int } else { 1int },
            {
                if chars[pos] == '*' && chars[pos + 1] == '/' {
                    pos = pos + 2;
                    closed = true;
                } else {
                    pos = pos + 1;
                }
            }
        } else {
            done = true;
        }
    }
    pos
}

/// WebIDL parser
pub struct WebIDLParser {
    /// Current position in the input
    position: usize,
    /// Input string
    input: String,
    /// The input's characters
    chars: Vec<char>,
    /// Current line number
    line: usize,
    /// Current column number
    column: usize,
}

impl WebIDLParser {
    #[verifier::type_invariant]
    spec fn well_formed(self) -> bool {
        &&& self.chars@ == self.input@
        &&& self.position <= self.chars@.len()
        &&& self.chars@.len() <= usize::MAX / 4
        &&& 1 <= self.line <= self.position + 1
        &&& 1 <= self.column <= 2 * self.position + 1
    }

    /// The text being parsed.
    pub closed spec fn text(&self) -> Seq<char> {
        self.chars@
    }

    /// The position reached, in characters.
    pub closed spec fn pos(&self) -> int {
        self.position as int
    }

    /// The line reached, counted from 1.
    pub closed spec fn line_number(&self) -> int {
        self.line as int
    }

    /// The column reached on its line, counted from 1.
    pub closed spec fn column_number(&self) -> int {
        self.column as int
    }

    /// Create a new WebIDL parser at the start of `input`, line 1, column 1.
    pub fn new(input: String) -> (r: Self)
        requires
            input@.len() <= usize::MAX / 4,
        ensures
            r.text() == input@,
            r.pos() == 0,
            r.line_number() == 1,
            r.column_number() == 1,
    {
        let chars = str_chars(input.as_str());
        Self { position: 0, input, chars, line: 1, column: 1 }
    }

    /// The position reached, in characters.
    pub fn position(&self) -> (r: usize)
        ensures
            r == self.pos(),
    {
        self.position
    }

    /// The line reached, counted from 1.
    pub fn line(&self) -> (r: usize)
        ensures
            r == self.line_number(),
            r >= 1,
    {
        proof {
            use_type_invariant(self);
        }
        self.line
    }

    /// The column reached on its line, counted from 1.
    pub fn column(&self) -> (r: usize)
        ensures
            r == self.column_number(),
            r >= 1,
    {
        proof {
            use_type_invariant(self);
        }
        self.column
    }

    /// Advance to next character, if any.
    fn advance(&mut self)
        ensures
            final(self).text() == old(self).text(),
            final(self).pos() == if old(self).pos() < old(self).text().len() {
                old(self).pos() + 1
            } else {
                old(self).pos()
            },
            final(self).line == old(self).line,
            old(self).pos() < old(self).text().len() ==> final(self).column == old(self).column + 1,
            final(self).input == old(self).input,
    {
        proof {
            use_type_invariant(&*self);
        }
        if self.position < self.chars.len() {
            self.position = self.position + 1;
            self.column = self.column + 1;
        }
    }

    /// Skip whitespace and comments, counting lines and columns.
    fn skip_whitespace_and_comments(&mut self)
        ensures
            final(self).text() == old(self).text(),
            final(self).pos() == ws_end(old(self).text(), old(self).pos()),
            old(self).pos() <= final(self).pos() <= final(self).text().len(),
            final(self).line_number() == old(self).line_number() + newlines(
                old(self).text().subrange(old(self).pos(), final(self).pos()),
            ),
    {
        proof {
            use_type_invariant(&*self);
            lemma_ws_end(self.chars@, self.position as int);
        }
        let ghost s = self.chars@;
        let ghost start = self.position as int;
        let ghost line0 = self.line as int;
        assert(s.subrange(start, start).len() == 0);
        let mut done = false;
        while !done && self.position < self.chars.len()
            invariant
                self.chars@ == s,
                s == old(self).text(),
                start <= self.position <= s.len(),
                start == old(self).pos(),
                line0 == old(self).line_number(),
                self.line == line0 + newlines(s.subrange(start, self.position as int)),
                ws_end(s, self.position as int) == ws_end(s, start),
                done ==> ws_end(s, self.position as int) == self.position,
            decreases s.len() - self.position, if done { 0int } else { 1int },
        {
            proof {
                use_type_invariant(&*self);
            }
            let ch = self.chars[self.position];
            if char_is_whitespace(ch) {
                proof {
                    lemma_newlines_step(s, start, self.position as int);
                }
                self.advance();
                if ch == '\n' {
                    self.line = self.line + 1;
                    self.column = 2;
                } else {
                    self.column = self.column + 1;
                }
            } else if ch == '/' && self.peek_next_char() == Some('/') {
                let ghost c0 = self.position as int;
                proof {
                    lemma_line_comment_end(s, c0);
                }
                while self.position < self.chars.len() && self.chars[self.position] != '\n'
                    invariant
                        self.chars@ == s,
                        c0 <= self.position <= s.len(),
                        0 <= start <= c0,
                        self.line == line0 + newlines(s.subrange(start, self.position as int)),
                        line_comment_end(s, self.position as int) == line_comment_end(s, c0),
                        self.position > c0 || s[c0] == '/',
                    decreases s.len() - self.position,
                {
                    proof {
                        lemma_newlines_step(s, start, self.position as int);
                    }
                    self.advance();
                }
                proof {
                    assert(self.position > c0);
                    assert(line_comment_end(s, self.position as int) == self.position);
                }
            } else if ch == '/' && self.peek_next_char() == Some('*') {
                let ghost c0 = self.position as int;
                proof {
                    lemma_newlines_step(s, start, c0);
                    lemma_newlines_step(s, start, c0 + 1);
                }
                self.advance();
                self.advance();
                let mut closed = false;
                while !closed && self.position + 1 < self.chars.len()
                    invariant
                        self.chars@ == s,
                        c0 + 2 <= self.position <= s.len(),
                        s.len() <= usize::MAX / 4,
                        !closed ==> block_comment_end(s, self.position as int) == block_comment_end(s, c0 + 2),
                        0 <= start <= c0,
                        self.line == line0 + newlines(s.subrange(start, self.position as int)),
                        closed ==> block_comment_end(s, c0 + 2) == self.position,
                    decreases s.len() - self.position, if closed { 0int } else { 1int },
                {
                    proof {
                        use_type_invariant(&*self);
                    }
                    let c = self.chars[self.position];
                    let next_c = self.chars[self.position + 1];
                    assert(self.position < s.len() - 1);
                    proof {
                        lemma_newlines_step(s, start, self.position as int);
                        lemma_newlines_step(s, start, self.position + 1);
                    }
                    if c == '*' && next_c == '/' {
                        self.advance();
                        self.advance();
                        closed = true;
                    } else {
                        self.advance();
                        if c == '\n' {
                            self.line = self.line + 1;
                            self.column = 2;
                        } else {
                            self.column = self.column + 1;
                        }
                    }
                }
            } else {
                done = true;
            }
        }
    }

    /// Whether the current character is `expected`.
    fn peek_char(&self, expected: char) -> (r: bool)
        ensures
            r == (0 <= self.pos() < self.text().len() && self.text()[self.pos()] == expected),
    {
        proof {
            use_type_invariant(self);
        }
        if self.position < self.chars.len() {
            self.chars[self.position] == expected
        } else {
            false
        }
    }

    /// The character after the current one, if any.
    fn peek_next_char(&self) -> (r: Option<char>)
        ensures
            r == if self.pos() + 1 < self.text().len() {
                Some(self.text()[self.pos() + 1])
            } else {
                None::<char>
            },
    {
        proof {
            use_type_invariant(self);
        }
        if self.position + 1 < self.chars.len() {
            Some(self.chars[self.position + 1])
        } else {
            None
        }
    }

    /// Whether the keyword stands at the current position.
    fn peek_keyword(&self, keyword: &str) -> (r: bool)
        ensures
            r == kw_at(self.text(), self.pos(), keyword@),
    {
        proof {
            use_type_invariant(self);
        }
        let kw = str_chars(keyword);
        if kw.len() > self.chars.len() - self.position {
            return false;
        }
        let mut i: usize = 0;
        while i < kw.len()
            invariant
                i <= kw@.len(),
                kw@ == keyword@,
                self.position + kw@.len() <= self.chars@.len(),
                self.chars@.len() <= usize::MAX / 4,
                forall|j: int| 0 <= j < i ==> self.chars@[self.position + j] == kw@[j],
            decreases kw@.len() - i,
        {
            if self.chars[self.position + i] != kw[i] {
                assert(self.chars@.subrange(self.position as int, self.position + kw@.len())[i as int] != kw@[i as int]);
                return false;
            }
            i = i + 1;
        }
        assert(self.chars@.subrange(self.position as int, self.position + kw@.len()) =~= kw@);
        true
    }

    /// Expect a specific character at the current position.
    fn expect_char(&mut self, expected: char) -> (r: Result<()>)
        ensures
            final(self).text() == old(self).text(),
            (0 <= old(self).pos() < old(self).text().len() && old(self).text()[old(self).pos()] == expected) ==> r is Ok
                && final(self).pos() == old(self).pos() + 1,
            r is Err ==> final(self).pos() == old(self).pos(),
            !(0 <= old(self).pos() < old(self).text().len() && old(self).text()[old(self).pos()] == expected) ==> (r matches Err(Error::Parsing(m)) && m@ == "Expected '"@ + seq![expected] + "'"@),
    {
        if self.peek_char(expected) {
            self.advance();
            Ok(())
        } else {
            let mut msg = str_to_string("Expected '");
            crate::text::push_char(&mut msg, expected);
            push_str(&mut msg, "'");
            Err(Error::parsing(msg))
        }
    }

    /// Expect a specific keyword at the current position.
    fn expect_keyword(&mut self, keyword: &str) -> (r: Result<()>)
        ensures
            final(self).text() == old(self).text(),
            kw_at(old(self).text(), old(self).pos(), keyword@) ==> r is Ok && final(self).pos() == old(self).pos()
                + keyword@.len(),
            r is Err ==> final(self).pos() == old(self).pos(),
            !kw_at(old(self).text(), old(self).pos(), keyword@) ==> (r matches Err(Error::Parsing(m)) && m@
                == "Expected keyword '"@ + keyword@ + "'"@),
    {
        if self.peek_keyword(keyword) {
            let n = str_chars(keyword).len();
            let ghost p0 = self.pos();
            let mut i: usize = 0;
            while i < n
                invariant
                    i <= n,
                    n == keyword@.len(),
                    kw_at(self.text(), p0, keyword@),
                    self.pos() == p0 + i,
                    self.text() == old(self).text(),
                decreases n - i,
            {
                self.advance();
                i = i + 1;
            }
            Ok(())
        } else {
            let mut msg = concat_str("Expected keyword '", keyword);
            push_str(&mut msg, "'");
            Err(Error::parsing(msg))
        }
    }

    /// Parse identifier: the run of alphanumeric characters and underscores
    /// after any whitespace and comments.
    fn parse_identifier(&mut self) -> (r: Result<String>)
        ensures
            final(self).text() == old(self).text(),
            old(self).pos() <= final(self).pos() <= final(self).text().len(),
            match ident_tok(old(self).text(), old(self).pos()) {
                Some((name, e)) => (r matches Ok(x) && x@ == name) && final(self).pos() == e,
                None => r matches Err(Error::Parsing(m)) && m@ == "Expected identifier"@,
            },
            r is Ok ==> old(self).pos() < final(self).pos(),
    {
        proof {
            use_type_invariant(&*self);
            lemma_tokens_advance(self.chars@, self.position as int, ' ', seq![]);
        }
        self.skip_whitespace_and_comments();
        proof {
            use_type_invariant(&*self);
        }
        let ghost s = self.chars@;
        let start = self.position;
        while self.position < self.chars.len() && (is_alphanumeric(self.chars[self.position])
            || self.chars[self.position] == '_')
            invariant
                self.chars@ == s,
                start <= self.position <= s.len(),
                ident_end(s, self.position as int) == ident_end(s, start as int),
            decreases s.len() - self.position,
        {
            self.advance();
        }
        proof {
            use_type_invariant(&*self);
        }
        if start == self.position {
            return Err(Error::parsing(str_to_string("Expected identifier")));
        }
        Ok(crate::text::substring(self.chars.as_slice(), start, self.position))
    }

    /// Parse literal: the run of alphanumeric characters, underscores, dots
    /// and dashes after any whitespace and comments.
    fn parse_literal(&mut self) -> (r: Result<String>)
        ensures
            final(self).text() == old(self).text(),
            old(self).pos() <= final(self).pos() <= final(self).text().len(),
            match literal_tok(old(self).text(), old(self).pos()) {
                Some((lit, e)) => (r matches Ok(x) && x@ == lit) && final(self).pos() == e,
                None => r matches Err(Error::Parsing(m)) && m@ == "Expected literal"@,
            },
    {
        self.skip_whitespace_and_comments();
        proof {
            use_type_invariant(&*self);
        }
        let ghost s = self.chars@;
        let start = self.position;
        while self.position < self.chars.len() && (is_alphanumeric(self.chars[self.position])
            || self.chars[self.position] == '_' || self.chars[self.position] == '.' || self.chars[self.position]
            == '-')
            invariant
                self.chars@ == s,
                start <= self.position <= s.len(),
                literal_end(s, self.position as int) == literal_end(s, start as int),
            decreases s.len() - self.position,
        {
            self.advance();
        }
        proof {
            use_type_invariant(&*self);
        }
        if start == self.position {
            return Err(Error::parsing(str_to_string("Expected literal")));
        }
        Ok(crate::text::substring(self.chars.as_slice(), start, self.position))
    }

    /// Parse a quoted string: its text between the double quotes.
    fn parse_quoted(&mut self) -> (r: Result<String>)
        ensures
            final(self).text() == old(self).text(),
            old(self).pos() <= final(self).pos() <= final(self).text().len(),
            match quoted_tok(old(self).text(), old(self).pos()) {
                Some((text, e)) => (r matches Ok(x) && x@ == text) && final(self).pos() == e,
                None => r matches Err(Error::Parsing(m)) && m@ == "Expected string"@,
            },
    {
        self.skip_whitespace_and_comments();
        proof {
            use_type_invariant(&*self);
        }
        let ghost s = self.chars@;
        if !self.peek_char('"') {
            return Err(Error::parsing(str_to_string("Expected string")));
        }
        self.advance();
        let start = self.position;
        while self.position < self.chars.len() && self.chars[self.position] != '"'
            invariant
                self.chars@ == s,
                start <= self.position <= s.len(),
                quote_end(s, self.position as int) == quote_end(s, start as int),
            decreases s.len() - self.position,
        {
            self.advance();
        }
        proof {
            use_type_invariant(&*self);
        }
        if self.position >= self.chars.len() {
            return Err(Error::parsing(str_to_string("Expected string")));
        }
        let text = crate::text::substring(self.chars.as_slice(), start, self.position);
        self.advance();
        Ok(text)
    }

    /// Whether the next token is `c`.
    fn next_is(&self, c: char) -> (r: bool)
        ensures
            r == (char_tok(self.text(), self.pos(), c) is Some),
    {
        proof {
            use_type_invariant(self);
        }
        let q = ws_scan(&self.chars, self.position);
        q < self.chars.len() && self.chars[q] == c
    }

    /// Whether the next token starts with the keyword.
    fn next_is_keyword(&self, keyword: &str) -> (r: bool)
        ensures
            r == (kw_tok(self.text(), self.pos(), keyword@) is Some),
    {
        proof {
            use_type_invariant(self);
        }
        let q = ws_scan(&self.chars, self.position);
        let kw = str_chars(keyword);
        if kw.len() > self.chars.len() - q {
            return false;
        }
        let mut i: usize = 0;
        while i < kw.len()
            invariant
                i <= kw@.len(),
                kw@ == keyword@,
                q + kw@.len() <= self.chars@.len(),
                q == ws_end(self.chars@, self.position as int),
                self.chars@.len() <= usize::MAX / 4,
                forall|j: int| 0 <= j < i ==> self.chars@[q + j] == kw@[j],
            decreases kw@.len() - i,
        {
            if self.chars[q + i] != kw[i] {
                assert(self.chars@.subrange(q as int, q + kw@.len())[i as int] != kw@[i as int]);
                return false;
            }
            i = i + 1;
        }
        assert(self.chars@.subrange(q as int, q + kw@.len()) =~= kw@);
        true
    }

    /// Expects the next token to be `c`.
    fn expect_token(&mut self, c: char) -> (r: Result<()>)
        ensures
            final(self).text() == old(self).text(),
            old(self).pos() <= final(self).pos() <= final(self).text().len(),
            match char_tok(old(self).text(), old(self).pos(), c) {
                Some(e) => r is Ok && final(self).pos() == e,
                None => r matches Err(Error::Parsing(m)) && m@ == "Expected '"@ + seq![c] + "'"@,
            },
            r is Ok ==> old(self).pos() < final(self).pos(),
    {
        proof {
            use_type_invariant(&*self);
            lemma_tokens_advance(self.chars@, self.position as int, c, seq![]);
        }
        self.skip_whitespace_and_comments();
        proof {
            use_type_invariant(&*self);
        }
        let r = self.expect_char(c);
        proof {
            use_type_invariant(&*self);
        }
        r
    }

    /// Expects the next token to be the keyword.
    fn expect_keyword_token(&mut self, keyword: &str) -> (r: Result<()>)
        ensures
            final(self).text() == old(self).text(),
            old(self).pos() <= final(self).pos() <= final(self).text().len(),
            match kw_tok(old(self).text(), old(self).pos(), keyword@) {
                Some(e) => r is Ok && final(self).pos() == e,
                None => r matches Err(Error::Parsing(m)) && m@ == "Expected keyword '"@ + keyword@ + "'"@,
            },
    {
        self.skip_whitespace_and_comments();
        proof {
            use_type_invariant(&*self);
        }
        let r = self.expect_keyword(keyword);
        proof {
            use_type_invariant(&*self);
        }
        r
    }

    /// Parse type definition: `Promise<T>`, `sequence<T>`, `record<K, V>`,
    /// or a type name, nullable after `?` and optional after `=`.
    fn parse_type(&mut self) -> (r: Result<WebIDLType>)
        ensures
            final(self).text() == old(self).text(),
            old(self).pos() <= final(self).pos() <= final(self).text().len(),
            match type_end(old(self).text(), old(self).pos()) {
                Some(e) => (r matches Ok(t) && type_ok(old(self).text(), old(self).pos(), t)) && final(self).pos() == e,
                None => r matches Err(Error::Parsing(_)),
            },
        decreases old(self).text().len() - old(self).pos() + 1, 2int,
    {
        proof {
            use_type_invariant(&*self);
        }
        let ghost s = self.text();
        let ghost p = self.pos();
        proof {
            reveal_strlit("Promise");
    assert("Promise"@.len() == 7);
            reveal_strlit("sequence");
    assert("sequence"@.len() == 8);
            reveal_strlit("record");
    assert("record"@.len() == 6);
            lemma_tokens_advance(s, p, ' ', "Promise"@);
            lemma_tokens_advance(s, p, ' ', "sequence"@);
            lemma_tokens_advance(s, p, ' ', "record"@);
        }
        if self.next_is_keyword("Promise") {
            self.expect_keyword_token("Promise")?;
            let inner = self.parse_angle_type()?;
            Ok(WebIDLType::Promise(Box::new(inner)))
        } else if self.next_is_keyword("sequence") {
            self.expect_keyword_token("sequence")?;
            let inner = self.parse_angle_type()?;
            Ok(WebIDLType::Sequence(Box::new(inner)))
        } else if self.next_is_keyword("record") {
            self.expect_keyword_token("record")?;
            let (k, v) = self.parse_record_types()?;
            Ok(WebIDLType::Record(Box::new(k), Box::new(v)))
        } else {
            self.parse_named_type()
        }
    }

    /// Parse `<T>`, for a type that started at `p`.
    fn parse_angle_type(&mut self) -> (r: Result<WebIDLType>)
        ensures
            final(self).text() == old(self).text(),
            old(self).pos() <= final(self).pos() <= final(self).text().len(),
            match angle_end(old(self).text(), old(self).pos()) {
                Some(e) => (r matches Ok(x) && angle_ok(old(self).text(), old(self).pos(), x)) && final(self).pos() == e,
                None => r matches Err(Error::Parsing(_)),
            },
        decreases old(self).text().len() - old(self).pos() + 1, 1int,
    {
        proof {
            use_type_invariant(&*self);
        }
        let ghost s = self.text();
        let ghost a = self.pos();
        proof {
            lemma_tokens_advance(s, a, '<', seq![]);
        }
        self.expect_token('<')?;
        let inner = self.parse_type()?;
        self.expect_token('>')?;
        Ok(inner)
    }

    /// Parse `<K, V>`, for a type that started at `p`.
    fn parse_record_types(&mut self) -> (r: Result<(WebIDLType, WebIDLType)>)
        ensures
            final(self).text() == old(self).text(),
            old(self).pos() <= final(self).pos() <= final(self).text().len(),
            match record_end(old(self).text(), old(self).pos()) {
                Some(e) => (r matches Ok(kv) && record_ok(old(self).text(), old(self).pos(), kv.0, kv.1))
                    && final(self).pos() == e,
                None => r matches Err(Error::Parsing(_)),
            },
        decreases old(self).text().len() - old(self).pos() + 1, 1int,
    {
        proof {
            use_type_invariant(&*self);
        }
        let ghost s = self.text();
        let ghost a = self.pos();
        proof {
            lemma_tokens_advance(s, a, '<', seq![]);
        }
        self.expect_token('<')?;
        let key_type = self.parse_type()?;
        let ghost m = self.pos();
        proof {
            lemma_tokens_advance(s, m, ',', seq![]);
        }
        self.expect_token(',')?;
        let value_type = self.parse_type()?;
        self.expect_token('>')?;
        Ok((key_type, value_type))
    }

    /// Parse a type name with its `?` and `=` marks.
    fn parse_named_type(&mut self) -> (r: Result<WebIDLType>)
        ensures
            final(self).text() == old(self).text(),
            old(self).pos() <= final(self).pos() <= final(self).text().len(),
            match named_end(old(self).text(), old(self).pos()) {
                Some(e) => (r matches Ok(t) && named_ok(old(self).text(), old(self).pos(), t)) && final(self).pos() == e,
                None => r matches Err(Error::Parsing(_)),
            },
    {
        proof {
            use_type_invariant(&*self);
        }
        let ghost s = self.text();
        let ghost p = self.pos();
        proof {
            lemma_ws_end(s, p);
        }
        let ident = self.parse_identifier()?;
        let ghost e = self.pos();
        proof {
            lemma_ws_end(s, e);
            lemma_ws_end_idem(s, e);
        }
        proof {
            lemma_tokens_advance(s, e, '?', seq![]);
        }
        let nullable = self.next_is('?');
        if nullable {
            self.expect_token('?')?;
        }
        let ghost e1 = self.pos();
        proof {
            lemma_ws_end(s, e1);
            lemma_ws_end_idem(s, e1);
        }
        proof {
            lemma_tokens_advance(s, e1, '=', seq![]);
        }
        let optional = self.next_is('=');
        if optional {
            self.expect_token('=')?;
        }
        let mut base_type = type_from_name(ident);
        if nullable {
            base_type = WebIDLType::Nullable(Box::new(base_type));
        }
        if optional {
            base_type = WebIDLType::Optional(Box::new(base_type));
        }
        Ok(base_type)
    }

    /// Parse argument definition
    fn parse_argument(&mut self) -> (r: Result<WebIDLArgument>)
        ensures
            final(self).text() == old(self).text(),
            old(self).pos() <= final(self).pos() <= final(self).text().len(),
            match arg_end(old(self).text(), old(self).pos()) {
                Some(e) => (r matches Ok(a) && arg_ok(old(self).text(), old(self).pos(), a)) && final(self).pos() == e,
                None => r matches Err(Error::Parsing(_)),
            },
            r is Ok ==> old(self).pos() < final(self).pos(),
    {
        let ghost s = self.text();
        let arg_type = self.parse_type()?;
        let name = self.parse_identifier()?;
        let ghost e2 = self.pos();
        let mut optional = false;
        let mut default_value: Option<String> = None;
        let mut variadic = false;
        if self.next_is('?') {
            self.expect_token('?')?;
            optional = true;
        }
        let ghost e3 = self.pos();
        assert(e3 == opt_char(s, e2, '?'));
        if self.next_is('=') {
            self.expect_token('=')?;
            default_value = Some(self.parse_literal()?);
        }
        if self.next_is('.') {
            self.expect_token('.')?;
            self.expect_token('.')?;
            self.expect_token('.')?;
            variadic = true;
        }
        Ok(WebIDLArgument { name, arg_type, optional, default_value, variadic, documentation: None })
    }

    /// Parse arguments up to (not including) the closing parenthesis, each
    /// followed by an optional comma.
    fn parse_arguments(&mut self) -> (r: Result<Vec<WebIDLArgument>>)
        ensures
            final(self).text() == old(self).text(),
            old(self).pos() <= final(self).pos() <= final(self).text().len(),
            match args_end(old(self).text(), old(self).pos()) {
                Some(e) => (r matches Ok(v) && args_ok(old(self).text(), old(self).pos(), v@)) && final(self).pos() == e,
                None => r matches Err(Error::Parsing(_)),
            },
    {
        proof {
            use_type_invariant(&*self);
        }
        let ghost s = self.text();
        let ghost p0 = self.pos();
        let mut arguments: Vec<WebIDLArgument> = Vec::new();
        while !self.next_is(')')
            invariant
                self.text() == s,
                s == old(self).text(),
                p0 == old(self).pos(),
                p0 <= self.pos() <= s.len(),
                args_end(s, p0) == args_end(s, self.pos()),
                forall|rest: Seq<WebIDLArgument>| #[trigger] args_ok(s, self.pos(), rest) ==> args_ok(
                    s,
                    p0,
                    arguments@ + rest,
                ),
            decreases s.len() - self.pos(),
        {
            let ghost p = self.pos();
            let argument = self.parse_argument()?;
            let ghost e = self.pos();
            if self.next_is(',') {
                self.expect_token(',')?;
            }
            proof {
                lemma_tokens_advance(s, e, ',', seq![]);
                let e2 = self.pos();
                assert(e2 == opt_char(s, e, ','));
                assert forall|rest: Seq<WebIDLArgument>| #[trigger] args_ok(s, e2, rest) implies args_ok(
                    s,
                    p0,
                    arguments@.push(argument) + rest,
                ) by {
                    let r2 = seq![argument] + rest;
                    assert(r2.drop_first() =~= rest);
                    assert(args_ok(s, p, r2));
                    assert(arguments@ + r2 =~= arguments@.push(argument) + rest);
                }
            }
            arguments.push(argument);
        }
        proof {
            assert(args_ok(s, self.pos(), Seq::empty()));
            assert(arguments@ + Seq::<WebIDLArgument>::empty() =~= arguments@);
        }
        Ok(arguments)
    }

    /// Parse method definition
    fn parse_method(&mut self) -> (r: Result<WebIDLMethod>)
        ensures
            final(self).text() == old(self).text(),
            old(self).pos() <= final(self).pos() <= final(self).text().len(),
            match method_end(old(self).text(), old(self).pos()) {
                Some(e) => (r matches Ok(m) && method_ok(old(self).text(), old(self).pos(), m)) && final(self).pos() == e,
                None => r matches Err(Error::Parsing(_)),
            },
            r is Ok ==> old(self).pos() < final(self).pos(),
    {
        let return_type = self.parse_type()?;
        let name = self.parse_identifier()?;
        self.expect_token('(')?;
        let arguments = self.parse_arguments()?;
        self.expect_token(')')?;
        self.expect_token(';')?;
        Ok(
            WebIDLMethod {
                name,
                return_type,
                arguments,
                static_method: false,
                getter: false,
                setter: false,
                deleter: false,
                documentation: None,
            },
        )
    }

    /// Parse property definition
    fn parse_property(&mut self) -> (r: Result<WebIDLProperty>)
        ensures
            final(self).text() == old(self).text(),
            old(self).pos() <= final(self).pos() <= final(self).text().len(),
            match prop_end(old(self).text(), old(self).pos()) {
                Some(e) => (r matches Ok(a) && prop_ok(old(self).text(), old(self).pos(), a)) && final(self).pos() == e,
                None => r matches Err(Error::Parsing(_)),
            },
            r is Ok ==> old(self).pos() < final(self).pos(),
    {
        let mut readonly = false;
        if self.next_is_keyword("readonly") {
            self.expect_keyword_token("readonly")?;
            readonly = true;
        }
        self.expect_keyword_token("attribute")?;
        let property_type = self.parse_type()?;
        let name = self.parse_identifier()?;
        self.expect_token(';')?;
        Ok(WebIDLProperty { name, property_type, readonly, required: false, inherited: false, documentation: None })
    }

    /// Parse the members of an interface up to (not including) its closing brace.
    #[verifier::spinoff_prover]
    #[verifier::rlimit(40)]
    fn parse_interface_members(&mut self) -> (r: Result<(Vec<WebIDLMethod>, Vec<WebIDLProperty>)>)
        ensures
            final(self).text() == old(self).text(),
            old(self).pos() <= final(self).pos() <= final(self).text().len(),
            match members_end(old(self).text(), old(self).pos()) {
                Some(e) => (r matches Ok(mp) && members_ok(old(self).text(), old(self).pos(), mp.0@, mp.1@))
                    && final(self).pos() == e,
                None => r matches Err(Error::Parsing(_)),
            },
    {
        proof {
            use_type_invariant(&*self);
        }
        let ghost s = self.text();
        let ghost p0 = self.pos();
        let mut methods: Vec<WebIDLMethod> = Vec::new();
        let mut properties: Vec<WebIDLProperty> = Vec::new();
        while !self.next_is('}')
            invariant
                self.text() == s,
                s == old(self).text(),
                p0 == old(self).pos(),
                p0 <= self.pos() <= s.len(),
                members_end(s, p0) == members_end(s, self.pos()),
                forall|ms: Seq<WebIDLMethod>, ps: Seq<WebIDLProperty>| #[trigger] members_ok(s, self.pos(), ms, ps)
                    ==> members_ok(s, p0, methods@ + ms, properties@ + ps),
            decreases s.len() - self.pos(),
        {
            let ghost p = self.pos();
            proof {
                lemma_tokens_advance(s, p, ';', seq![]);
            }
            if self.next_is_keyword("readonly") || self.next_is_keyword("attribute") {
                let property = self.parse_property()?;
                proof {
                    let e = self.pos();
                    assert forall|ms: Seq<WebIDLMethod>, ps: Seq<WebIDLProperty>| #[trigger] members_ok(s, e, ms, ps)
                        implies members_ok(s, p0, methods@ + ms, properties@.push(property) + ps) by {
                        let ps2 = seq![property] + ps;
                        assert(ps2.drop_first() =~= ps);
                        assert(members_ok(s, p, ms, ps2));
                        assert(properties@ + ps2 =~= properties@.push(property) + ps);
                    }
                }
                properties.push(property);
            } else {
                let method = self.parse_method()?;
                proof {
                    let e = self.pos();
                    assert forall|ms: Seq<WebIDLMethod>, ps: Seq<WebIDLProperty>| #[trigger] members_ok(s, e, ms, ps)
                        implies members_ok(s, p0, methods@.push(method) + ms, properties@ + ps) by {
                        let ms2 = seq![method] + ms;
                        assert(ms2.drop_first() =~= ms);
                        assert(members_ok(s, p, ms2, ps));
                        assert(methods@ + ms2 =~= methods@.push(method) + ms);
                    }
                }
                methods.push(method);
            }
        }
        proof {
            assert(members_ok(s, self.pos(), Seq::empty(), Seq::empty()));
            assert(methods@ + Seq::<WebIDLMethod>::empty() =~= methods@);
            assert(properties@ + Seq::<WebIDLProperty>::empty() =~= properties@);
        }
        Ok((methods, properties))
    }

    /// Parse an inheritance clause (`: Name`), if any.
    fn parse_parent(&mut self) -> (r: Result<Option<String>>)
        ensures
            final(self).text() == old(self).text(),
            old(self).pos() <= final(self).pos() <= final(self).text().len(),
            match parent_end(old(self).text(), old(self).pos()) {
                Some(e) => (r matches Ok(x) && parent_ok(old(self).text(), old(self).pos(), x)) && final(self).pos() == e,
                None => r matches Err(Error::Parsing(_)),
            },
    {
        proof {
            use_type_invariant(&*self);
        }
        if self.next_is(':') {
            self.expect_token(':')?;
            let name = self.parse_identifier()?;
            Ok(Some(name))
        } else {
            Ok(None)
        }
    }

    /// Parse interface definition
    fn parse_interface(&mut self) -> (r: Result<WebIDLInterface>)
        ensures
            final(self).text() == old(self).text(),
            old(self).pos() <= final(self).pos() <= final(self).text().len(),
            match interface_end(old(self).text(), old(self).pos()) {
                Some(e) => (r matches Ok(v) && interface_ok(old(self).text(), old(self).pos(), v)) && final(self).pos() == e,
                None => r matches Err(Error::Parsing(_)),
            },
            r is Ok ==> old(self).pos() < final(self).pos(),
    {
        self.expect_keyword_token("interface")?;
        let name = self.parse_identifier()?;
        let parent = self.parse_parent()?;
        self.expect_token('{')?;
        let (methods, properties) = self.parse_interface_members()?;
        self.expect_token('}')?;
        self.expect_token(';')?;
        let attributes: KeyedTable<String> = KeyedTable::new();
        Ok(
            WebIDLInterface {
                name,
                parent,
                methods,
                properties,
                mixin: false,
                partial: false,
                documentation: None,
                attributes,
            },
        )
    }

    /// Parse dictionary member
    fn parse_dictionary_member(&mut self) -> (r: Result<WebIDLDictionaryMember>)
        ensures
            final(self).text() == old(self).text(),
            old(self).pos() <= final(self).pos() <= final(self).text().len(),
            match member_end(old(self).text(), old(self).pos()) {
                Some(e) => (r matches Ok(m) && member_ok(old(self).text(), old(self).pos(), m)) && final(self).pos() == e,
                None => r matches Err(Error::Parsing(_)),
            },
            r is Ok ==> old(self).pos() < final(self).pos(),
    {
        let member_type = self.parse_type()?;
        let name = self.parse_identifier()?;
        let mut default_value: Option<String> = None;
        let mut required = false;
        if self.next_is_keyword("required") {
            self.expect_keyword_token("required")?;
            required = true;
        }
        if self.next_is('=') {
            self.expect_token('=')?;
            default_value = Some(self.parse_literal()?);
        }
        self.expect_token(';')?;
        Ok(WebIDLDictionaryMember { name, member_type, default_value, required, documentation: None })
    }

    /// Parse dictionary definition
    fn parse_dictionary(&mut self) -> (r: Result<WebIDLDictionary>)
        ensures
            final(self).text() == old(self).text(),
            old(self).pos() <= final(self).pos() <= final(self).text().len(),
            match dictionary_end(old(self).text(), old(self).pos()) {
                Some(e) => (r matches Ok(v) && dictionary_ok(old(self).text(), old(self).pos(), v)) && final(self).pos() == e,
                None => r matches Err(Error::Parsing(_)),
            },
            r is Ok ==> old(self).pos() < final(self).pos(),
    {
        self.expect_keyword_token("dictionary")?;
        let name = self.parse_identifier()?;
        let parent = self.parse_parent()?;
        self.expect_token('{')?;
        let members = self.parse_dictionary_members()?;
        self.expect_token('}')?;
        self.expect_token(';')?;
        Ok(WebIDLDictionary { name, parent, members, documentation: None })
    }

    /// Parse an enum value: a quoted string or a bare name.
    fn parse_enum_value(&mut self) -> (r: Result<String>)
        ensures
            final(self).text() == old(self).text(),
            old(self).pos() <= final(self).pos() <= final(self).text().len(),
            match value_tok(old(self).text(), old(self).pos()) {
                Some((v, e)) => (r matches Ok(x) && x@ == v) && final(self).pos() == e,
                None => r matches Err(Error::Parsing(_)),
            },
    {
        if self.next_is('"') {
            self.parse_quoted()
        } else {
            self.parse_identifier()
        }
    }

    /// Parse enum definition
    fn parse_enum(&mut self) -> (r: Result<WebIDLEnum>)
        ensures
            final(self).text() == old(self).text(),
            old(self).pos() <= final(self).pos() <= final(self).text().len(),
            match enum_end(old(self).text(), old(self).pos()) {
                Some(e) => (r matches Ok(v) && enum_ok(old(self).text(), old(self).pos(), v)) && final(self).pos() == e,
                None => r matches Err(Error::Parsing(_)),
            },
            r is Ok ==> old(self).pos() < final(self).pos(),
    {
        self.expect_keyword_token("enum")?;
        let name = self.parse_identifier()?;
        self.expect_token('{')?;
        let values = self.parse_enum_values()?;
        self.expect_token('}')?;
        self.expect_token(';')?;
        Ok(WebIDLEnum { name, values, documentation: None })
    }

    /// Parse callback definition
    fn parse_callback(&mut self) -> (r: Result<WebIDLCallback>)
        ensures
            final(self).text() == old(self).text(),
            old(self).pos() <= final(self).pos() <= final(self).text().len(),
            match callback_end(old(self).text(), old(self).pos()) {
                Some(e) => (r matches Ok(v) && callback_ok(old(self).text(), old(self).pos(), v)) && final(self).pos() == e,
                None => r matches Err(Error::Parsing(_)),
            },
            r is Ok ==> old(self).pos() < final(self).pos(),
    {
        self.expect_keyword_token("callback")?;
        let name = self.parse_identifier()?;
        self.expect_token('=')?;
        let return_type = self.parse_type()?;
        self.expect_token('(')?;
        let arguments = self.parse_arguments()?;
        self.expect_token(')')?;
        self.expect_token(';')?;
        Ok(WebIDLCallback { name, return_type, arguments, documentation: None })
    }

    /// Parse the members of a dictionary up to (not including) its closing brace.
    fn parse_dictionary_members(&mut self) -> (r: Result<Vec<WebIDLDictionaryMember>>)
        ensures
            final(self).text() == old(self).text(),
            old(self).pos() <= final(self).pos() <= final(self).text().len(),
            match dict_members_end(old(self).text(), old(self).pos()) {
                Some(e) => (r matches Ok(v) && dict_members_ok(old(self).text(), old(self).pos(), v@)) && final(self).pos() == e,
                None => r matches Err(Error::Parsing(_)),
            },
    {
        proof {
            use_type_invariant(&*self);
        }
        let ghost s = self.text();
        let ghost p0 = self.pos();
        let mut members: Vec<WebIDLDictionaryMember> = Vec::new();
        while !self.next_is('}')
            invariant
                self.text() == s,
                s == old(self).text(),
                p0 == old(self).pos(),
                p0 <= self.pos() <= s.len(),
                dict_members_end(s, p0) == dict_members_end(s, self.pos()),
                forall|rest: Seq<WebIDLDictionaryMember>| #[trigger] dict_members_ok(s, self.pos(), rest)
                    ==> dict_members_ok(s, p0, members@ + rest),
            decreases s.len() - self.pos(),
        {
            let ghost p = self.pos();
            let member = self.parse_dictionary_member()?;
            proof {
                let e = self.pos();
                assert forall|rest: Seq<WebIDLDictionaryMember>| #[trigger] dict_members_ok(s, e, rest)
                    implies dict_members_ok(s, p0, members@.push(member) + rest) by {
                    let r2 = seq![member] + rest;
                    assert(r2.drop_first() =~= rest);
                    assert(dict_members_ok(s, p, r2));
                    assert(members@ + r2 =~= members@.push(member) + rest);
                }
            }
            members.push(member);
        }
        proof {
            assert(dict_members_ok(s, self.pos(), Seq::empty()));
            assert(members@ + Seq::<WebIDLDictionaryMember>::empty() =~= members@);
        }
        Ok(members)
    }

    /// Parse the values of an enum up to (not including) its closing brace.
    fn parse_enum_values(&mut self) -> (r: Result<Vec<String>>)
        ensures
            final(self).text() == old(self).text(),
            old(self).pos() <= final(self).pos() <= final(self).text().len(),
            match values_end(old(self).text(), old(self).pos()) {
                Some(e) => (r matches Ok(v) && v@.map_values(|x: String| x@) == values_of(old(self).text(), old(self).pos()))
                    && final(self).pos() == e,
                None => r matches Err(Error::Parsing(_)),
            },
    {
        proof {
            use_type_invariant(&*self);
        }
        let ghost s = self.text();
        let ghost p0 = self.pos();
        let mut values: Vec<String> = Vec::new();
        while !self.next_is('}')
            invariant
                self.text() == s,
                s == old(self).text(),
                p0 == old(self).pos(),
                p0 <= self.pos() <= s.len(),
                values_end(s, p0) == values_end(s, self.pos()),
                values_of(s, p0) == values@.map_values(|x: String| x@) + values_of(s, self.pos()),
            decreases s.len() - self.pos(),
        {
            let ghost p = self.pos();
            proof {
                lemma_tokens_advance(s, p, '"', seq![]);
            }
            let value = self.parse_enum_value()?;
            let ghost e = self.pos();
            if self.next_is(',') {
                self.expect_token(',')?;
            }
            proof {
                lemma_tokens_advance(s, e, ',', seq![]);
                assert(values@.push(value).map_values(|x: String| x@) =~= values@.map_values(|x: String| x@).push(value@));
            }
            values.push(value);
        }
        proof {
            assert(values@.map_values(|x: String| x@) + Seq::<Seq<char>>::empty() =~= values@.map_values(|x: String| x@));
        }
        Ok(values)
    }


    /// Parses the interface at the current position into its table.
    fn parse_interface_into(
        &mut self,
        t: &mut KeyedTable<WebIDLInterface>,
        Ghost(i): Ghost<Entries<WebIDLInterface>>,
        Ghost(d): Ghost<Entries<WebIDLDictionary>>,
        Ghost(e): Ghost<Entries<WebIDLEnum>>,
        Ghost(c): Ghost<Entries<WebIDLCallback>>,
    ) -> (r: Result<()>)
        requires
            ws_end(old(self).text(), old(self).pos()) == old(self).pos(),
            old(self).pos() < old(self).text().len(),
            kw_at(old(self).text(), old(self).pos(), "interface"@),
        ensures
            final(self).text() == old(self).text(),
            old(self).pos() <= final(self).pos() <= final(self).text().len(),
            match interface_end(old(self).text(), old(self).pos()) {
                Some(x) => {
                    &&& r is Ok
                    &&& final(self).pos() == x
                    &&& defs_succeed(final(self).text(), x) == defs_succeed(old(self).text(), old(self).pos())
                    &&& forall|out: WebIDLDefinition|
                        #[trigger] defs_ok(final(self).text(), x, final(t)@, d, e, c, out) ==> defs_ok(
                            old(self).text(),
                            old(self).pos(),
                            old(t)@, d, e, c,
                            out,
                        )
                },
                None => (r matches Err(Error::Parsing(_))) && !defs_succeed(old(self).text(), old(self).pos()),
            },
            r is Ok ==> old(self).pos() < final(self).pos(),
    {
        let ghost s = self.text();
        let ghost q = self.pos();
        let ghost t0 = t@;
        let item = self.parse_interface()?;
        let ghost v = item;
        t.insert(copy_string(&item.name), item);
        proof {
            lemma_ws_end_idem(s, q);
            assert forall|out: WebIDLDefinition|
                #[trigger] defs_ok(s, self.pos(), t@, d, e, c, out) implies defs_ok(s, q, old(t)@, d, e, c, out) by {
                assert(interface_ok(s, q, v));
            }
        }
        Ok(())
    }

    /// Parses the dictionary at the current position into its table.
    fn parse_dictionary_into(
        &mut self,
        t: &mut KeyedTable<WebIDLDictionary>,
        Ghost(i): Ghost<Entries<WebIDLInterface>>,
        Ghost(d): Ghost<Entries<WebIDLDictionary>>,
        Ghost(e): Ghost<Entries<WebIDLEnum>>,
        Ghost(c): Ghost<Entries<WebIDLCallback>>,
    ) -> (r: Result<()>)
        requires
            ws_end(old(self).text(), old(self).pos()) == old(self).pos(),
            old(self).pos() < old(self).text().len(),
            kw_at(old(self).text(), old(self).pos(), "dictionary"@),
            !kw_at(old(self).text(), old(self).pos(), "interface"@),
        ensures
            final(self).text() == old(self).text(),
            old(self).pos() <= final(self).pos() <= final(self).text().len(),
            match dictionary_end(old(self).text(), old(self).pos()) {
                Some(x) => {
                    &&& r is Ok
                    &&& final(self).pos() == x
                    &&& defs_succeed(final(self).text(), x) == defs_succeed(old(self).text(), old(self).pos())
                    &&& forall|out: WebIDLDefinition|
                        #[trigger] defs_ok(final(self).text(), x, i, final(t)@, e, c, out) ==> defs_ok(
                            old(self).text(),
                            old(self).pos(),
                            i, old(t)@, e, c,
                            out,
                        )
                },
                None => (r matches Err(Error::Parsing(_))) && !defs_succeed(old(self).text(), old(self).pos()),
            },
            r is Ok ==> old(self).pos() < final(self).pos(),
    {
        let ghost s = self.text();
        let ghost q = self.pos();
        let ghost t0 = t@;
        let item = self.parse_dictionary()?;
        let ghost v = item;
        t.insert(copy_string(&item.name), item);
        proof {
            lemma_ws_end_idem(s, q);
            assert forall|out: WebIDLDefinition|
                #[trigger] defs_ok(s, self.pos(), i, t@, e, c, out) implies defs_ok(s, q, i, old(t)@, e, c, out) by {
                assert(dictionary_ok(s, q, v));
            }
        }
        Ok(())
    }

    /// Parses the enum at the current position into its table.
    fn parse_enum_into(
        &mut self,
        t: &mut KeyedTable<WebIDLEnum>,
        Ghost(i): Ghost<Entries<WebIDLInterface>>,
        Ghost(d): Ghost<Entries<WebIDLDictionary>>,
        Ghost(e): Ghost<Entries<WebIDLEnum>>,
        Ghost(c): Ghost<Entries<WebIDLCallback>>,
    ) -> (r: Result<()>)
        requires
            ws_end(old(self).text(), old(self).pos()) == old(self).pos(),
            old(self).pos() < old(self).text().len(),
            kw_at(old(self).text(), old(self).pos(), "enum"@),
            !kw_at(old(self).text(), old(self).pos(), "interface"@),
            !kw_at(old(self).text(), old(self).pos(), "dictionary"@),
        ensures
            final(self).text() == old(self).text(),
            old(self).pos() <= final(self).pos() <= final(self).text().len(),
            match enum_end(old(self).text(), old(self).pos()) {
                Some(x) => {
                    &&& r is Ok
                    &&& final(self).pos() == x
                    &&& defs_succeed(final(self).text(), x) == defs_succeed(old(self).text(), old(self).pos())
                    &&& forall|out: WebIDLDefinition|
                        #[trigger] defs_ok(final(self).text(), x, i, d, final(t)@, c, out) ==> defs_ok(
                            old(self).text(),
                            old(self).pos(),
                            i, d, old(t)@, c,
                            out,
                        )
                },
                None => (r matches Err(Error::Parsing(_))) && !defs_succeed(old(self).text(), old(self).pos()),
            },
            r is Ok ==> old(self).pos() < final(self).pos(),
    {
        let ghost s = self.text();
        let ghost q = self.pos();
        let ghost t0 = t@;
        let item = self.parse_enum()?;
        let ghost v = item;
        t.insert(copy_string(&item.name), item);
        proof {
            lemma_ws_end_idem(s, q);
            assert forall|out: WebIDLDefinition|
                #[trigger] defs_ok(s, self.pos(), i, d, t@, c, out) implies defs_ok(s, q, i, d, old(t)@, c, out) by {
                assert(enum_ok(s, q, v));
            }
        }
        Ok(())
    }

    /// Parses the callback at the current position into its table.
    fn parse_callback_into(
        &mut self,
        t: &mut KeyedTable<WebIDLCallback>,
        Ghost(i): Ghost<Entries<WebIDLInterface>>,
        Ghost(d): Ghost<Entries<WebIDLDictionary>>,
        Ghost(e): Ghost<Entries<WebIDLEnum>>,
        Ghost(c): Ghost<Entries<WebIDLCallback>>,
    ) -> (r: Result<()>)
        requires
            ws_end(old(self).text(), old(self).pos()) == old(self).pos(),
            old(self).pos() < old(self).text().len(),
            kw_at(old(self).text(), old(self).pos(), "callback"@),
            !kw_at(old(self).text(), old(self).pos(), "interface"@),
            !kw_at(old(self).text(), old(self).pos(), "dictionary"@),
            !kw_at(old(self).text(), old(self).pos(), "enum"@),
        ensures
            final(self).text() == old(self).text(),
            old(self).pos() <= final(self).pos() <= final(self).text().len(),
            match callback_end(old(self).text(), old(self).pos()) {
                Some(x) => {
                    &&& r is Ok
                    &&& final(self).pos() == x
                    &&& defs_succeed(final(self).text(), x) == defs_succeed(old(self).text(), old(self).pos())
                    &&& forall|out: WebIDLDefinition|
                        #[trigger] defs_ok(final(self).text(), x, i, d, e, final(t)@, out) ==> defs_ok(
                            old(self).text(),
                            old(self).pos(),
                            i, d, e, old(t)@,
                            out,
                        )
                },
                None => (r matches Err(Error::Parsing(_))) && !defs_succeed(old(self).text(), old(self).pos()),
            },
            r is Ok ==> old(self).pos() < final(self).pos(),
    {
        let ghost s = self.text();
        let ghost q = self.pos();
        let ghost t0 = t@;
        let item = self.parse_callback()?;
        let ghost v = item;
        t.insert(copy_string(&item.name), item);
        proof {
            lemma_ws_end_idem(s, q);
            assert forall|out: WebIDLDefinition|
                #[trigger] defs_ok(s, self.pos(), i, d, e, t@, out) implies defs_ok(s, q, i, d, e, old(t)@, out) by {
                assert(callback_ok(s, q, v));
            }
        }
        Ok(())
    }

    /// Parse WebIDL definition: interfaces, dictionaries, enums and
    /// callbacks, each kept under its name; any other character is passed over.
    pub fn parse(&mut self) -> (r: Result<WebIDLDefinition>)
        ensures
            final(self).text() == old(self).text(),
            r is Ok <==> defs_succeed(old(self).text(), old(self).pos()),
            r matches Ok(d) ==> defs_ok(
                old(self).text(),
                old(self).pos(),
                Seq::empty(),
                Seq::empty(),
                Seq::empty(),
                Seq::empty(),
                d,
            ),
            r matches Err(e) ==> e is Parsing,
    {
        proof {
            use_type_invariant(&*self);
        }
        let ghost s = self.text();
        let ghost p0 = self.pos();
        let mut interfaces: KeyedTable<WebIDLInterface> = KeyedTable::new();
        let mut dictionaries: KeyedTable<WebIDLDictionary> = KeyedTable::new();
        let mut enums: KeyedTable<WebIDLEnum> = KeyedTable::new();
        let mut callbacks: KeyedTable<WebIDLCallback> = KeyedTable::new();
        let globals: KeyedTable<WebIDLMethod> = KeyedTable::new();
        proof {
            lemma_ws_end(s, p0);
        }
        self.skip_whitespace_and_comments();
        proof {
            lemma_ws_end_idem(s, p0);
            assert forall|out: WebIDLDefinition|
                #[trigger] defs_ok(s, self.pos(), interfaces@, dictionaries@, enums@, callbacks@, out) implies defs_ok(
                    s,
                    p0,
                    Seq::empty(),
                    Seq::empty(),
                    Seq::empty(),
                    Seq::empty(),
                    out,
                ) by {
                assert(interfaces@ =~= Seq::<(Seq<char>, WebIDLInterface)>::empty());
                assert(dictionaries@ =~= Seq::<(Seq<char>, WebIDLDictionary)>::empty());
                assert(enums@ =~= Seq::<(Seq<char>, WebIDLEnum)>::empty());
                assert(callbacks@ =~= Seq::<(Seq<char>, WebIDLCallback)>::empty());
            }
        }
        while self.position < self.chars.len()
            invariant
                self.text() == s,
                s == old(self).text(),
                p0 == old(self).pos(),
                p0 <= self.pos() <= s.len(),
                ws_end(s, self.pos()) == self.pos(),
                defs_succeed(s, p0) == defs_succeed(s, self.pos()),
                globals@.len() == 0,
                forall|out: WebIDLDefinition|
                    #[trigger] defs_ok(s, self.pos(), interfaces@, dictionaries@, enums@, callbacks@, out) ==> defs_ok(
                        s,
                        p0,
                        Seq::empty(),
                        Seq::empty(),
                        Seq::empty(),
                        Seq::empty(),
                        out,
                    ),
            decreases s.len() - self.pos(),
        {
            let ghost q = self.pos();
            let ghost (i0, d0, e0, c0) = (interfaces@, dictionaries@, enums@, callbacks@);
            if self.peek_keyword("interface") {
                self.parse_interface_into(&mut interfaces, Ghost(i0), Ghost(d0), Ghost(e0), Ghost(c0))?;
            } else if self.peek_keyword("dictionary") {
                self.parse_dictionary_into(&mut dictionaries, Ghost(i0), Ghost(d0), Ghost(e0), Ghost(c0))?;
            } else if self.peek_keyword("enum") {
                self.parse_enum_into(&mut enums, Ghost(i0), Ghost(d0), Ghost(e0), Ghost(c0))?;
            } else if self.peek_keyword("callback") {
                self.parse_callback_into(&mut callbacks, Ghost(i0), Ghost(d0), Ghost(e0), Ghost(c0))?;
            } else {
                self.advance();
                proof {
                    assert(defs_succeed(s, q) == defs_succeed(s, q + 1));
                    assert forall|out: WebIDLDefinition|
                        #[trigger] defs_ok(s, q + 1, interfaces@, dictionaries@, enums@, callbacks@, out) implies defs_ok(
                            s,
                            q,
                            interfaces@,
                            dictionaries@,
                            enums@,
                            callbacks@,
                            out,
                        ) by {}
                }
            }
            let ghost x = self.pos();
            proof {
                lemma_ws_end(s, x);
            }
            self.skip_whitespace_and_comments();
            proof {
                lemma_ws_end_idem(s, x);
                let y = self.pos();
                assert(defs_succeed(s, y) == defs_succeed(s, x));
                assert forall|out: WebIDLDefinition|
                    #[trigger] defs_ok(s, y, interfaces@, dictionaries@, enums@, callbacks@, out) implies defs_ok(
                        s,
                        x,
                        interfaces@,
                        dictionaries@,
                        enums@,
                        callbacks@,
                        out,
                    ) by {}
            }
        }
        let definition = WebIDLDefinition { interfaces, dictionaries, enums, callbacks, globals };
        proof {
            assert(defs_ok(s, self.pos(), interfaces@, dictionaries@, enums@, callbacks@, definition));
        }
        Ok(definition)
    }
}

} // verus!
