//! Rust source text generated from WebIDL definitions: a struct and an impl
//! for each interface, a struct for each dictionary, an enum for each enum
//! and a function type for each callback, indented four spaces a level.

use vstd::prelude::*;
use crate::error::{Error, Result};
use crate::text::{push_str, push_char, str_to_string, join_strs, join_strings, decimal};
use crate::webidl::{WebIDLType, WebIDLDefinition, WebIDLInterface, WebIDLMethod, WebIDLProperty, WebIDLArgument,
    WebIDLDictionary, WebIDLDictionaryMember, WebIDLEnum, WebIDLCallback};

verus! {

/// The Rust type that stands for a basic WebIDL type, where there is one.
pub open spec fn basic_rust_type(t: WebIDLType) -> Option<Seq<char>> {
    match t {
        WebIDLType::DOMString => Some("String"@),
        WebIDLType::USVString => Some("String"@),
        WebIDLType::Boolean => Some("bool"@),
        WebIDLType::Byte => Some("i8"@),
        WebIDLType::Octet => Some("u8"@),
        WebIDLType::Short => Some("i16"@),
        WebIDLType::UnsignedShort => Some("u16"@),
        WebIDLType::Long => Some("i32"@),
        WebIDLType::UnsignedLong => Some("u32"@),
        WebIDLType::LongLong => Some("i64"@),
        WebIDLType::UnsignedLongLong => Some("u64"@),
        WebIDLType::Float => Some("f32"@),
        WebIDLType::Double => Some("f64"@),
        WebIDLType::Object => Some("Value"@),
        WebIDLType::Any => Some("Value"@),
        WebIDLType::Void => Some("()"@),
        _ => None,
    }
}

/// The Rust type written for a WebIDL type; `None` where some part of it is
/// a basic type with no Rust counterpart.
pub open spec fn rust_type(t: WebIDLType) -> Option<Seq<char>>
    decreases t, 0nat,
{
    match t {
        WebIDLType::Interface(name) => Some(name@),
        WebIDLType::Nullable(inner) => match rust_type(*inner) {
            Some(s) => Some("Option<"@ + s + ">"@),
            None => None,
        },
        WebIDLType::Optional(inner) => match rust_type(*inner) {
            Some(s) => Some("Option<"@ + s + ">"@),
            None => None,
        },
        WebIDLType::Sequence(inner) => match rust_type(*inner) {
            Some(s) => Some("Vec<"@ + s + ">"@),
            None => None,
        },
        WebIDLType::Promise(inner) => match rust_type(*inner) {
            Some(s) => Some("Promise<"@ + s + ">"@),
            None => None,
        },
        WebIDLType::Union(types) => {
            proof {
                assert(decreases_to!(t => types));
                assert(decreases_to!(types => types@));
            }
            match rust_type_list(types@, types@.len()) {
                Some(names) => Some("Union<"@ + join_strs(names, ", "@) + ">"@),
                None => None,
            }
        },
        WebIDLType::Record(k, v) => match (rust_type(*k), rust_type(*v)) {
            (Some(a), Some(b)) => Some("HashMap<"@ + a + ", "@ + b + ">"@),
            _ => None,
        },
        _ => basic_rust_type(t),
    }
}

/// The Rust types of the first `n` types of the list, or `None` where one
/// of them has none.
pub open spec fn rust_type_list(ts: Seq<WebIDLType>, n: nat) -> Option<Seq<Seq<char>>>
    decreases ts, n,
{
    if n == 0 || n > ts.len() {
        Some(Seq::empty())
    } else {
        match (rust_type_list(ts, (n - 1) as nat), rust_type(ts[n - 1])) {
            (Some(a), Some(b)) => Some(a.push(b)),
            _ => None,
        }
    }
}

/// Where a prefix of a list of types has a type without a Rust counterpart,
/// every longer prefix has one too.
proof fn lemma_rust_type_list_fails(ts: Seq<WebIDLType>, m: nat, k: nat)
    requires
        0 < m <= k <= ts.len(),
        rust_type_list(ts, m) is None,
    ensures
        rust_type_list(ts, k) is None,
    decreases k,
{
    if k > m {
        lemma_rust_type_list_fails(ts, m, (k - 1) as nat);
    }
}

/// The initial value written for a field or a return of a WebIDL type.
pub open spec fn default_value_text(t: WebIDLType) -> Seq<char> {
    match t {
        WebIDLType::Boolean => "false"@,
        WebIDLType::Byte | WebIDLType::Octet | WebIDLType::Short | WebIDLType::UnsignedShort | WebIDLType::Long
        | WebIDLType::UnsignedLong | WebIDLType::LongLong | WebIDLType::UnsignedLongLong => "0"@,
        WebIDLType::Float | WebIDLType::Double => "0.0"@,
        WebIDLType::DOMString | WebIDLType::USVString => "String::new()"@,
        WebIDLType::Object | WebIDLType::Any => "Value::Undefined"@,
        WebIDLType::Nullable(_) | WebIDLType::Optional(_) => "None"@,
        WebIDLType::Sequence(_) => "Vec::new()"@,
        WebIDLType::Interface(name) => name@ + "::new()"@,
        _ => "Default::default()"@,
    }
}

/// Four spaces for each level of indentation.
pub open spec fn indent_text(n: nat) -> Seq<char>
    decreases n,
{
    if n == 0 {
        Seq::empty()
    } else {
        indent_text((n - 1) as nat) + "    "@
    }
}

/// A line of generated code at indentation `n`; an empty line has no indentation.
pub open spec fn code_line(n: nat, text: Seq<char>) -> Seq<char> {
    if text.len() == 0 {
        seq!['\n']
    } else {
        indent_text(n) + text + seq!['\n']
    }
}

/// Whether every property has a Rust type.
pub open spec fn properties_typed(ps: Seq<WebIDLProperty>) -> bool {
    forall|i: int| 0 <= i < ps.len() ==> (#[trigger] rust_type(ps[i].property_type)) is Some
}

/// A field declaration for each property.
pub open spec fn field_lines(n: nat, ps: Seq<WebIDLProperty>) -> Seq<char>
    decreases ps.len(),
{
    if ps.len() == 0 {
        Seq::empty()
    } else {
        field_lines(n, ps.drop_last()) + code_line(
            n,
            "pub "@ + ps.last().name@ + ": "@ + rust_type(ps.last().property_type).unwrap() + ","@,
        )
    }
}

/// A field initialiser for each property.
pub open spec fn initialiser_lines(n: nat, ps: Seq<WebIDLProperty>) -> Seq<char>
    decreases ps.len(),
{
    if ps.len() == 0 {
        Seq::empty()
    } else {
        initialiser_lines(n, ps.drop_last()) + code_line(
            n,
            ps.last().name@ + ": "@ + default_value_text(ps.last().property_type) + ","@,
        )
    }
}

/// Whether every argument has a Rust type.
pub open spec fn arguments_typed(args: Seq<WebIDLArgument>) -> bool {
    forall|i: int| 0 <= i < args.len() ==> (#[trigger] rust_type(args[i].arg_type)) is Some
}

/// One argument as a parameter: its name, a colon and its Rust type.
pub open spec fn parameter_text(a: WebIDLArgument) -> Seq<char> {
    a.name@ + ": "@ + rust_type(a.arg_type).unwrap()
}

/// The parameters of a method after `&self`, each behind a comma.
pub open spec fn method_parameters(args: Seq<WebIDLArgument>) -> Seq<char>
    decreases args.len(),
{
    if args.len() == 0 {
        Seq::empty()
    } else {
        method_parameters(args.drop_last()) + ", "@ + parameter_text(args.last())
    }
}

/// Whether a method's return type and arguments all have Rust types.
pub open spec fn method_typed(m: WebIDLMethod) -> bool {
    rust_type(m.return_type) is Some && arguments_typed(m.arguments@)
}

/// A method with a body that returns the default value of its type.
pub open spec fn method_code(n: nat, m: WebIDLMethod) -> Seq<char> {
    code_line(
        n,
        "pub fn "@ + m.name@ + "(&self"@ + method_parameters(m.arguments@) + ") -> "@ + rust_type(
            m.return_type,
        ).unwrap() + " {"@,
    ) + code_line(
        n + 1,
        if m.return_type is Void {
            "// TODO: Implement method"@
        } else {
            default_value_text(m.return_type)
        },
    ) + code_line(n, "}"@) + code_line(n, ""@)
}

/// Whether every method has Rust types throughout.
pub open spec fn methods_typed(ms: Seq<WebIDLMethod>) -> bool {
    forall|i: int| 0 <= i < ms.len() ==> #[trigger] method_typed(ms[i])
}

/// The code of each method in turn.
pub open spec fn methods_code(n: nat, ms: Seq<WebIDLMethod>) -> Seq<char>
    decreases ms.len(),
{
    if ms.len() == 0 {
        Seq::empty()
    } else {
        methods_code(n, ms.drop_last()) + method_code(n, ms.last())
    }
}

/// Whether an interface's properties and methods all have Rust types.
pub open spec fn interface_typed(i: WebIDLInterface) -> bool {
    properties_typed(i.properties@) && methods_typed(i.methods@)
}

/// An interface as a struct of its properties and an impl with a
/// constructor and its methods.
pub open spec fn interface_code(n: nat, i: WebIDLInterface) -> Seq<char> {
    code_line(n, "#[derive(Debug, Clone)]"@) + code_line(n, "pub struct "@ + i.name@ + " {"@) + field_lines(
        n + 1,
        i.properties@,
    ) + code_line(n, "}"@) + code_line(n, ""@) + code_line(n, "impl "@ + i.name@ + " {"@) + code_line(
        n + 1,
        "pub fn new() -> Self {"@,
    ) + code_line(n + 2, "Self {"@) + initialiser_lines(n + 3, i.properties@) + code_line(n + 2, "}"@)
        + code_line(n + 1, "}"@) + code_line(n + 1, ""@) + methods_code(n + 1, i.methods@) + code_line(n, "}"@)
        + code_line(n, ""@)
}

/// Whether every dictionary member has a Rust type.
pub open spec fn members_typed(ms: Seq<WebIDLDictionaryMember>) -> bool {
    forall|i: int| 0 <= i < ms.len() ==> (#[trigger] rust_type(ms[i].member_type)) is Some
}

/// A field declaration for each dictionary member.
pub open spec fn member_lines(n: nat, ms: Seq<WebIDLDictionaryMember>) -> Seq<char>
    decreases ms.len(),
{
    if ms.len() == 0 {
        Seq::empty()
    } else {
        member_lines(n, ms.drop_last()) + code_line(
            n,
            "pub "@ + ms.last().name@ + ": "@ + rust_type(ms.last().member_type).unwrap() + ","@,
        )
    }
}

/// A dictionary as a struct of its members.
pub open spec fn dictionary_code(n: nat, d: WebIDLDictionary) -> Seq<char> {
    code_line(n, "#[derive(Debug, Clone)]"@) + code_line(n, "pub struct "@ + d.name@ + " {"@) + member_lines(
        n + 1,
        d.members@,
    ) + code_line(n, "}"@) + code_line(n, ""@)
}

/// A variant line for each enum value.
pub open spec fn variant_lines(n: nat, vs: Seq<String>) -> Seq<char>
    decreases vs.len(),
{
    if vs.len() == 0 {
        Seq::empty()
    } else {
        variant_lines(n, vs.drop_last()) + code_line(n, vs.last()@ + ","@)
    }
}

/// An enum with a variant for each value.
pub open spec fn enum_code(n: nat, e: WebIDLEnum) -> Seq<char> {
    code_line(n, "#[derive(Debug, Clone, PartialEq)]"@) + code_line(n, "pub enum "@ + e.name@ + " {"@)
        + variant_lines(n + 1, e.values@) + code_line(n, "}"@) + code_line(n, ""@)
}

/// Whether a callback's return type and arguments all have Rust types.
pub open spec fn callback_typed(c: WebIDLCallback) -> bool {
    rust_type(c.return_type) is Some && arguments_typed(c.arguments@)
}

/// A callback as a function type.
pub open spec fn callback_code(n: nat, c: WebIDLCallback) -> Seq<char> {
    code_line(
        n,
        "pub type "@ + c.name@ + " = fn("@ + join_strs(c.arguments@.map_values(|a: WebIDLArgument| parameter_text(a)), ", "@)
            + ") -> "@ + rust_type(c.return_type).unwrap() + ";"@,
    ) + code_line(n, ""@)
}

/// Whether every interface of a table has Rust types throughout.
pub open spec fn interfaces_typed(es: Seq<(Seq<char>, WebIDLInterface)>) -> bool {
    forall|i: int| 0 <= i < es.len() ==> #[trigger] interface_typed(es[i].1)
}

/// The code of each interface of a table, in table order.
pub open spec fn interfaces_code(n: nat, es: Seq<(Seq<char>, WebIDLInterface)>) -> Seq<char>
    decreases es.len(),
{
    if es.len() == 0 {
        Seq::empty()
    } else {
        interfaces_code(n, es.drop_last()) + interface_code(n, es.last().1)
    }
}

/// Whether every dictionary of a table has Rust types throughout.
pub open spec fn dictionaries_typed(es: Seq<(Seq<char>, WebIDLDictionary)>) -> bool {
    forall|i: int| 0 <= i < es.len() ==> members_typed(#[trigger] es[i].1.members@)
}

/// The code of each dictionary of a table, in table order.
pub open spec fn dictionaries_code(n: nat, es: Seq<(Seq<char>, WebIDLDictionary)>) -> Seq<char>
    decreases es.len(),
{
    if es.len() == 0 {
        Seq::empty()
    } else {
        dictionaries_code(n, es.drop_last()) + dictionary_code(n, es.last().1)
    }
}

/// The code of each enum of a table, in table order.
pub open spec fn enums_code(n: nat, es: Seq<(Seq<char>, WebIDLEnum)>) -> Seq<char>
    decreases es.len(),
{
    if es.len() == 0 {
        Seq::empty()
    } else {
        enums_code(n, es.drop_last()) + enum_code(n, es.last().1)
    }
}

/// Whether every callback of a table has Rust types throughout.
pub open spec fn callbacks_typed(es: Seq<(Seq<char>, WebIDLCallback)>) -> bool {
    forall|i: int| 0 <= i < es.len() ==> #[trigger] callback_typed(es[i].1)
}

/// The code of each callback of a table, in table order.
pub open spec fn callbacks_code(n: nat, es: Seq<(Seq<char>, WebIDLCallback)>) -> Seq<char>
    decreases es.len(),
{
    if es.len() == 0 {
        Seq::empty()
    } else {
        callbacks_code(n, es.drop_last()) + callback_code(n, es.last().1)
    }
}

/// Whether every type in a definition has a Rust counterpart.
pub open spec fn definition_typed(d: WebIDLDefinition) -> bool {
    &&& interfaces_typed(d.interfaces@)
    &&& dictionaries_typed(d.dictionaries@)
    &&& callbacks_typed(d.callbacks@)
}

/// The code for a whole definition: interfaces, dictionaries, enums, then callbacks.
pub open spec fn definition_code(n: nat, d: WebIDLDefinition) -> Seq<char> {
    interfaces_code(n, d.interfaces@) + dictionaries_code(n, d.dictionaries@) + enums_code(n, d.enums@)
        + callbacks_code(n, d.callbacks@)
}

/// The indentation a failed generation leaves: one level deeper where an
/// interface or a dictionary failed, since the failure comes inside its body.
pub open spec fn failed_indentation(n: nat, d: WebIDLDefinition) -> nat {
    if interfaces_typed(d.interfaces@) && dictionaries_typed(d.dictionaries@) {
        n
    } else {
        n + 1
    }
}

/// The name by which a WebIDL type is printed in messages.
pub open spec fn type_label_text(t: WebIDLType) -> Seq<char> {
    match t {
        WebIDLType::DOMString => "DOMString"@,
        WebIDLType::USVString => "USVString"@,
        WebIDLType::ByteString => "ByteString"@,
        WebIDLType::Boolean => "Boolean"@,
        WebIDLType::Byte => "Byte"@,
        WebIDLType::Octet => "Octet"@,
        WebIDLType::Short => "Short"@,
        WebIDLType::UnsignedShort => "UnsignedShort"@,
        WebIDLType::Long => "Long"@,
        WebIDLType::UnsignedLong => "UnsignedLong"@,
        WebIDLType::LongLong => "LongLong"@,
        WebIDLType::UnsignedLongLong => "UnsignedLongLong"@,
        WebIDLType::Float => "Float"@,
        WebIDLType::UnrestrictedFloat => "UnrestrictedFloat"@,
        WebIDLType::Double => "Double"@,
        WebIDLType::UnrestrictedDouble => "UnrestrictedDouble"@,
        WebIDLType::Object => "Object"@,
        WebIDLType::ArrayBuffer => "ArrayBuffer"@,
        WebIDLType::ArrayBufferView => "ArrayBufferView"@,
        WebIDLType::DataView => "DataView"@,
        WebIDLType::Int8Array => "Int8Array"@,
        WebIDLType::Int16Array => "Int16Array"@,
        WebIDLType::Int32Array => "Int32Array"@,
        WebIDLType::Uint8Array => "Uint8Array"@,
        WebIDLType::Uint16Array => "Uint16Array"@,
        WebIDLType::Uint32Array => "Uint32Array"@,
        WebIDLType::Uint8ClampedArray => "Uint8ClampedArray"@,
        WebIDLType::Float32Array => "Float32Array"@,
        WebIDLType::Float64Array => "Float64Array"@,
        WebIDLType::Promise(_) => "Promise"@,
        WebIDLType::Union(_) => "Union"@,
        WebIDLType::Sequence(_) => "Sequence"@,
        WebIDLType::Record(_, _) => "Record"@,
        WebIDLType::Interface(_) => "Interface"@,
        WebIDLType::Nullable(_) => "Nullable"@,
        WebIDLType::Optional(_) => "Optional"@,
        WebIDLType::Any => "Any"@,
        WebIDLType::Void => "Void"@,
    }
}

/// The name by which a WebIDL type is printed in messages.
fn type_label(t: &WebIDLType) -> (r: &'static str)
    ensures
        r@ == type_label_text(*t),
{
    match t {
        WebIDLType::DOMString => "DOMString",
        WebIDLType::USVString => "USVString",
        WebIDLType::ByteString => "ByteString",
        WebIDLType::Boolean => "Boolean",
        WebIDLType::Byte => "Byte",
        WebIDLType::Octet => "Octet",
        WebIDLType::Short => "Short",
        WebIDLType::UnsignedShort => "UnsignedShort",
        WebIDLType::Long => "Long",
        WebIDLType::UnsignedLong => "UnsignedLong",
        WebIDLType::LongLong => "LongLong",
        WebIDLType::UnsignedLongLong => "UnsignedLongLong",
        WebIDLType::Float => "Float",
        WebIDLType::UnrestrictedFloat => "UnrestrictedFloat",
        WebIDLType::Double => "Double",
        WebIDLType::UnrestrictedDouble => "UnrestrictedDouble",
        WebIDLType::Object => "Object",
        WebIDLType::ArrayBuffer => "ArrayBuffer",
        WebIDLType::ArrayBufferView => "ArrayBufferView",
        WebIDLType::DataView => "DataView",
        WebIDLType::Int8Array => "Int8Array",
        WebIDLType::Int16Array => "Int16Array",
        WebIDLType::Int32Array => "Int32Array",
        WebIDLType::Uint8Array => "Uint8Array",
        WebIDLType::Uint16Array => "Uint16Array",
        WebIDLType::Uint32Array => "Uint32Array",
        WebIDLType::Uint8ClampedArray => "Uint8ClampedArray",
        WebIDLType::Float32Array => "Float32Array",
        WebIDLType::Float64Array => "Float64Array",
        WebIDLType::Promise(_) => "Promise",
        WebIDLType::Union(_) => "Union",
        WebIDLType::Sequence(_) => "Sequence",
        WebIDLType::Record(_, _) => "Record",
        WebIDLType::Interface(_) => "Interface",
        WebIDLType::Nullable(_) => "Nullable",
        WebIDLType::Optional(_) => "Optional",
        WebIDLType::Any => "Any",
        WebIDLType::Void => "Void",
    }
}

/// Text wrapped as `open` + text + `>`.
fn wrapped(open: &str, inner: String) -> (r: String)
    ensures
        r@ == open@ + inner@ + ">"@,
{
    let mut s = str_to_string(open);
    push_str(&mut s, inner.as_str());
    push_str(&mut s, ">");
    s
}

/// WebIDL generator
pub struct WebIDLGenerator {
    /// Generated code
    code: String,
    /// Indentation level
    indent_level: usize,
}

impl WebIDLGenerator {
    /// The current indentation level.
    pub closed spec fn indentation(&self) -> nat {
        self.indent_level as nat
    }

    /// The code generated so far.
    pub closed spec fn written(&self) -> Seq<char> {
        self.code@
    }

    /// Create a new WebIDL generator
    pub fn new() -> (r: Self)
        ensures
            r.indentation() == 0,
            r.written().len() == 0,
    {
        Self { code: String::new(), indent_level: 0 }
    }

    /// The current indentation level.
    pub fn indent_level(&self) -> (r: usize)
        ensures
            r == self.indentation(),
    {
        self.indent_level
    }

    /// The code generated so far.
    pub fn code(&self) -> (r: &str)
        ensures
            r@ == self.written(),
    {
        self.code.as_str()
    }

    /// Map WebIDL type to Rust type
    pub fn map_type(&self, webidl_type: &WebIDLType) -> (r: Result<String>)
        ensures
            match rust_type(*webidl_type) {
                Some(s) => r matches Ok(x) && x@ == s,
                None => r matches Err(e) && e is Parsing,
            },
        decreases webidl_type,
    {
        match webidl_type {
            WebIDLType::Interface(name) => Ok(name.clone()),
            WebIDLType::Nullable(inner) => match self.map_type(inner) {
                Ok(inner_type) => Ok(wrapped("Option<", inner_type)),
                Err(e) => Err(e),
            },
            WebIDLType::Optional(inner) => match self.map_type(inner) {
                Ok(inner_type) => Ok(wrapped("Option<", inner_type)),
                Err(e) => Err(e),
            },
            WebIDLType::Sequence(inner) => match self.map_type(inner) {
                Ok(inner_type) => Ok(wrapped("Vec<", inner_type)),
                Err(e) => Err(e),
            },
            WebIDLType::Promise(inner) => match self.map_type(inner) {
                Ok(inner_type) => Ok(wrapped("Promise<", inner_type)),
                Err(e) => Err(e),
            },
            WebIDLType::Union(types) => {
                let mut names: Vec<String> = Vec::new();
                let mut i: usize = 0;
                while i < types.len()
                    invariant
                        *webidl_type == WebIDLType::Union(*types),
                        i <= types@.len(),
                        names@.len() == i,
                        rust_type_list(types@, i as nat) == Some(names@.map_values(|s: String| s@)),
                    decreases types.len() - i,
                {
                    proof {
                        let w = (*webidl_type)->Union_0;
                        assert(decreases_to!(*webidl_type => (*webidl_type)->Union_0));
                        assert(decreases_to!(w => w@));
                        assert(decreases_to!(w@ => w@[i as int]));
                        assert(w@[i as int] == types@[i as int]);
                    }
                    match self.map_type(&types[i]) {
                        Ok(name) => {
                            let ghost before = names@.map_values(|s: String| s@);
                            names.push(name);
                            assert(names@.map_values(|s: String| s@) =~= before.push(names@[i as int]@));
                        },
                        Err(e) => {
                            proof {
                                lemma_rust_type_list_fails(types@, (i + 1) as nat, types@.len());
                            }
                            return Err(e);
                        },
                    }
                    i = i + 1;
                }
                let joined = join_strings(&names, ", ");
                Ok(wrapped("Union<", joined))
            },
            WebIDLType::Record(key, value) => {
                let key_type = match self.map_type(key) {
                    Ok(t) => t,
                    Err(e) => return Err(e),
                };
                let value_type = match self.map_type(value) {
                    Ok(t) => t,
                    Err(e) => return Err(e),
                };
                let mut s = str_to_string("HashMap<");
                push_str(&mut s, key_type.as_str());
                push_str(&mut s, ", ");
                push_str(&mut s, value_type.as_str());
                push_str(&mut s, ">");
                Ok(s)
            },
            _ => {
                let mapped: Option<&str> = match webidl_type {
                    WebIDLType::DOMString => Some("String"),
                    WebIDLType::USVString => Some("String"),
                    WebIDLType::Boolean => Some("bool"),
                    WebIDLType::Byte => Some("i8"),
                    WebIDLType::Octet => Some("u8"),
                    WebIDLType::Short => Some("i16"),
                    WebIDLType::UnsignedShort => Some("u16"),
                    WebIDLType::Long => Some("i32"),
                    WebIDLType::UnsignedLong => Some("u32"),
                    WebIDLType::LongLong => Some("i64"),
                    WebIDLType::UnsignedLongLong => Some("u64"),
                    WebIDLType::Float => Some("f32"),
                    WebIDLType::Double => Some("f64"),
                    WebIDLType::Object => Some("Value"),
                    WebIDLType::Any => Some("Value"),
                    WebIDLType::Void => Some("()"),
                    _ => None,
                };
                match mapped {
                    Some(m) => Ok(str_to_string(m)),
                    None => {
                        let mut msg = str_to_string("Unknown type: ");
                        push_str(&mut msg, type_label(webidl_type));
                        Err(Error::parsing(msg))
                    },
                }
            },
        }
    }

    /// Get default value for type
    pub fn get_default_value(&self, webidl_type: &WebIDLType) -> (r: Result<String>)
        ensures
            r matches Ok(s) && s@ == default_value_text(*webidl_type),
    {
        let text: String = match webidl_type {
            WebIDLType::Boolean => str_to_string("false"),
            WebIDLType::Byte | WebIDLType::Octet | WebIDLType::Short | WebIDLType::UnsignedShort | WebIDLType::Long
            | WebIDLType::UnsignedLong | WebIDLType::LongLong | WebIDLType::UnsignedLongLong => str_to_string("0"),
            WebIDLType::Float | WebIDLType::Double => str_to_string("0.0"),
            WebIDLType::DOMString | WebIDLType::USVString => str_to_string("String::new()"),
            WebIDLType::Object | WebIDLType::Any => str_to_string("Value::Undefined"),
            WebIDLType::Nullable(_) | WebIDLType::Optional(_) => str_to_string("None"),
            WebIDLType::Sequence(_) => str_to_string("Vec::new()"),
            WebIDLType::Interface(name) => {
                let mut s = name.clone();
                push_str(&mut s, "::new()");
                s
            },
            _ => str_to_string("Default::default()"),
        };
        Ok(text)
    }

    /// Generate Rust code from WebIDL definition: interfaces, dictionaries,
    /// enums and callbacks, each kind in the order of its table.
    pub fn generate_rust_code(&mut self, definition: &WebIDLDefinition) -> (r: Result<String>)
        requires
            old(self).indentation() + 4 <= usize::MAX,
        ensures
            definition_typed(*definition) ==> (r matches Ok(s) && s@ == definition_code(
                old(self).indentation(),
                *definition,
            ) && final(self).indentation() == old(self).indentation()),
            !definition_typed(*definition) ==> (r matches Err(e) && e is Parsing && final(self).indentation()
                == failed_indentation(old(self).indentation(), *definition)),
    {
        let ghost n = self.indent_level as nat;
        self.code = String::new();
        let ghost ifs = definition.interfaces@;
        let mut i: usize = 0;
        while i < definition.interfaces.len()
            invariant
                self.indent_level == n,
                n == old(self).indent_level,
                n + 4 <= usize::MAX,
                i <= ifs.len(),
                ifs == definition.interfaces@,
                self.code@ == interfaces_code(n, ifs.take(i as int)),
                forall|j: int| 0 <= j < i ==> #[trigger] interface_typed(ifs[j].1),
            decreases ifs.len() - i,
        {
            let (_, interface) = definition.interfaces.entry_at(i);
            match self.generate_interface(interface) {
                Ok(()) => {},
                Err(e) => return Err(e),
            }
            assert(ifs.take(i + 1).drop_last() =~= ifs.take(i as int));
            i = i + 1;
        }
        assert(ifs.take(ifs.len() as int) =~= ifs);
        let ghost after_interfaces = self.code@;
        let ghost ds = definition.dictionaries@;
        let mut i: usize = 0;
        while i < definition.dictionaries.len()
            invariant
                self.indent_level == n,
                n == old(self).indent_level,
                n + 4 <= usize::MAX,
                i <= ds.len(),
                ds == definition.dictionaries@,
                ifs == definition.interfaces@,
                interfaces_typed(ifs),
                self.code@ == after_interfaces + dictionaries_code(n, ds.take(i as int)),
                forall|j: int| 0 <= j < i ==> members_typed(#[trigger] ds[j].1.members@),
            decreases ds.len() - i,
        {
            let (_, dictionary) = definition.dictionaries.entry_at(i);
            match self.generate_dictionary(dictionary) {
                Ok(()) => {},
                Err(e) => return Err(e),
            }
            assert(ds.take(i + 1).drop_last() =~= ds.take(i as int));
            i = i + 1;
        }
        assert(ds.take(ds.len() as int) =~= ds);
        let ghost after_dictionaries = self.code@;
        let ghost es = definition.enums@;
        let mut i: usize = 0;
        while i < definition.enums.len()
            invariant
                self.indent_level == n,
                n == old(self).indent_level,
                n + 4 <= usize::MAX,
                i <= es.len(),
                es == definition.enums@,
                self.code@ == after_dictionaries + enums_code(n, es.take(i as int)),
            decreases es.len() - i,
        {
            let (_, enum_def) = definition.enums.entry_at(i);
            self.generate_enum(enum_def);
            assert(es.take(i + 1).drop_last() =~= es.take(i as int));
            i = i + 1;
        }
        assert(es.take(es.len() as int) =~= es);
        let ghost after_enums = self.code@;
        let ghost cs = definition.callbacks@;
        let mut i: usize = 0;
        while i < definition.callbacks.len()
            invariant
                self.indent_level == n,
                n == old(self).indent_level,
                i <= cs.len(),
                cs == definition.callbacks@,
                ifs == definition.interfaces@,
                ds == definition.dictionaries@,
                interfaces_typed(ifs),
                dictionaries_typed(ds),
                self.code@ == after_enums + callbacks_code(n, cs.take(i as int)),
                forall|j: int| 0 <= j < i ==> #[trigger] callback_typed(cs[j].1),
            decreases cs.len() - i,
        {
            let (_, callback) = definition.callbacks.entry_at(i);
            match self.generate_callback(callback) {
                Ok(()) => {},
                Err(e) => return Err(e),
            }
            assert(cs.take(i + 1).drop_last() =~= cs.take(i as int));
            i = i + 1;
        }
        assert(cs.take(cs.len() as int) =~= cs);
        assert(self.code@ =~= definition_code(n, *definition));
        Ok(self.code.clone())
    }

    /// Generate interface code
    fn generate_interface(&mut self, interface: &WebIDLInterface) -> (r: Result<()>)
        requires
            old(self).indent_level + 4 <= usize::MAX,
        ensures
            interface_typed(*interface) ==> r is Ok && final(self).code@ == old(self).code@ + interface_code(
                old(self).indent_level as nat,
                *interface,
            ) && final(self).indent_level == old(self).indent_level,
            !interface_typed(*interface) ==> (r matches Err(e) && e is Parsing && final(self).indent_level
                == old(self).indent_level + 1),
    {
        let ghost n = self.indent_level as nat;
        let mut saved = String::new();
        std::mem::swap(&mut saved, &mut self.code);
        self.add_line("#[derive(Debug, Clone)]");
        let mut head = str_to_string("pub struct ");
        push_str(&mut head, interface.name.as_str());
        push_str(&mut head, " {");
        self.add_line(head.as_str());
        self.indent();
        match self.generate_fields(&interface.properties) {
            Ok(()) => {},
            Err(e) => return Err(e),
        }
        self.dedent();
        self.add_line("}");
        self.add_line("");
        let mut impl_head = str_to_string("impl ");
        push_str(&mut impl_head, interface.name.as_str());
        push_str(&mut impl_head, " {");
        self.add_line(impl_head.as_str());
        self.indent();
        self.add_line("pub fn new() -> Self {");
        self.indent();
        self.add_line("Self {");
        self.indent();
        self.generate_initialisers(&interface.properties);
        self.dedent();
        self.add_line("}");
        self.dedent();
        self.add_line("}");
        self.add_line("");
        match self.generate_methods(&interface.methods) {
            Ok(()) => {},
            Err(err) => return Err(err),
        }
        self.dedent();
        self.add_line("}");
        self.add_line("");
        assert(self.code@ == interface_code(n, *interface));
        push_str(&mut saved, self.code.as_str());
        self.code = saved;
        Ok(())
    }

    /// A field declaration for each property, at the current indentation.
    fn generate_fields(&mut self, properties: &Vec<WebIDLProperty>) -> (r: Result<()>)
        ensures
            final(self).indent_level == old(self).indent_level,
            properties_typed(properties@) ==> r is Ok && final(self).code@ == old(self).code@ + field_lines(
                old(self).indent_level as nat,
                properties@,
            ),
            !properties_typed(properties@) ==> (r matches Err(e) && e is Parsing),
    {
        let ghost n = self.indent_level as nat;
        let ghost start = self.code@;
        let ghost ps = properties@;
        let mut i: usize = 0;
        while i < properties.len()
            invariant
                self.indent_level == n,
                n == old(self).indent_level,
                start == old(self).code@,
                i <= ps.len(),
                ps == properties@,
                self.code@ == start + field_lines(n, ps.take(i as int)),
                forall|j: int| 0 <= j < i ==> (#[trigger] rust_type(ps[j].property_type)) is Some,
            decreases ps.len() - i,
        {
            let property = &properties[i];
            let rust_type_name = match self.map_type(&property.property_type) {
                Ok(t) => t,
                Err(e) => return Err(e),
            };
            let mut line = str_to_string("pub ");
            push_str(&mut line, property.name.as_str());
            push_str(&mut line, ": ");
            push_str(&mut line, rust_type_name.as_str());
            push_str(&mut line, ",");
            self.add_line(line.as_str());
            assert(ps.take(i + 1).drop_last() =~= ps.take(i as int));
            i = i + 1;
        }
        assert(ps.take(ps.len() as int) =~= ps);
        Ok(())
    }

    /// A field initialiser for each property, at the current indentation.
    fn generate_initialisers(&mut self, properties: &Vec<WebIDLProperty>)
        ensures
            final(self).indent_level == old(self).indent_level,
            final(self).code@ == old(self).code@ + initialiser_lines(old(self).indent_level as nat, properties@),
    {
        let ghost n = self.indent_level as nat;
        let ghost start = self.code@;
        let ghost ps = properties@;
        let mut i: usize = 0;
        while i < properties.len()
            invariant
                self.indent_level == n,
                n == old(self).indent_level,
                start == old(self).code@,
                i <= ps.len(),
                ps == properties@,
                self.code@ == start + initialiser_lines(n, ps.take(i as int)),
            decreases ps.len() - i,
        {
            let property = &properties[i];
            let default_value = match self.get_default_value(&property.property_type) {
                Ok(v) => v,
                Err(_) => String::new(),
            };
            let mut line = property.name.clone();
            push_str(&mut line, ": ");
            push_str(&mut line, default_value.as_str());
            push_str(&mut line, ",");
            self.add_line(line.as_str());
            assert(ps.take(i + 1).drop_last() =~= ps.take(i as int));
            i = i + 1;
        }
        assert(ps.take(ps.len() as int) =~= ps);
    }

    /// The code of each method, at the current indentation.
    fn generate_methods(&mut self, methods: &Vec<WebIDLMethod>) -> (r: Result<()>)
        requires
            old(self).indent_level + 1 <= usize::MAX,
        ensures
            final(self).indent_level == old(self).indent_level,
            methods_typed(methods@) ==> r is Ok && final(self).code@ == old(self).code@ + methods_code(
                old(self).indent_level as nat,
                methods@,
            ),
            !methods_typed(methods@) ==> (r matches Err(e) && e is Parsing),
    {
        let ghost n = self.indent_level as nat;
        let ghost start = self.code@;
        let ghost ms = methods@;
        let mut i: usize = 0;
        while i < methods.len()
            invariant
                self.indent_level == n,
                n == old(self).indent_level,
                n + 1 <= usize::MAX,
                start == old(self).code@,
                i <= ms.len(),
                ms == methods@,
                self.code@ == start + methods_code(n, ms.take(i as int)),
                forall|j: int| 0 <= j < i ==> #[trigger] method_typed(ms[j]),
            decreases ms.len() - i,
        {
            match self.generate_method(&methods[i]) {
                Ok(()) => {},
                Err(e) => return Err(e),
            }
            assert(ms.take(i + 1).drop_last() =~= ms.take(i as int));
            i = i + 1;
        }
        assert(ms.take(ms.len() as int) =~= ms);
        Ok(())
    }

    /// Generate method code
    fn generate_method(&mut self, method: &WebIDLMethod) -> (r: Result<()>)
        requires
            old(self).indent_level + 1 <= usize::MAX,
        ensures
            method_typed(*method) ==> r is Ok && final(self).code@ == old(self).code@ + method_code(
                old(self).indent_level as nat,
                *method,
            ) && final(self).indent_level == old(self).indent_level,
            !method_typed(*method) ==> (r matches Err(e) && e is Parsing && final(self).indent_level
                == old(self).indent_level),
    {
        let ghost n = self.indent_level as nat;
        let ghost start = self.code@;
        let ghost args = method.arguments@;
        let return_type = match self.map_type(&method.return_type) {
            Ok(t) => t,
            Err(e) => return Err(e),
        };
        let mut signature = str_to_string("pub fn ");
        push_str(&mut signature, method.name.as_str());
        push_str(&mut signature, "(&self");
        let mut i: usize = 0;
        while i < method.arguments.len()
            invariant
                self.indent_level == n,
                n == old(self).indent_level,
                self.code@ == start,
                i <= args.len(),
                args == method.arguments@,
                rust_type(method.return_type) == Some(return_type@),
                signature@ == "pub fn "@ + method.name@ + "(&self"@ + method_parameters(args.take(i as int)),
                forall|j: int| 0 <= j < i ==> (#[trigger] rust_type(args[j].arg_type)) is Some,
            decreases args.len() - i,
        {
            let arg = &method.arguments[i];
            let arg_type = match self.map_type(&arg.arg_type) {
                Ok(t) => t,
                Err(e) => return Err(e),
            };
            push_str(&mut signature, ", ");
            push_str(&mut signature, arg.name.as_str());
            push_str(&mut signature, ": ");
            push_str(&mut signature, arg_type.as_str());
            assert(args.take(i + 1).drop_last() =~= args.take(i as int));
            assert(signature@ =~= "pub fn "@ + method.name@ + "(&self"@ + method_parameters(args.take(i + 1)));
            i = i + 1;
        }
        assert(args.take(args.len() as int) =~= args);
        push_str(&mut signature, ") -> ");
        push_str(&mut signature, return_type.as_str());
        push_str(&mut signature, " {");
        self.add_line(signature.as_str());
        self.indent();
        match &method.return_type {
            WebIDLType::Void => {
                self.add_line("// TODO: Implement method");
            },
            _ => {
                let default_return = match self.get_default_value(&method.return_type) {
                    Ok(v) => v,
                    Err(e) => return Err(e),
                };
                self.add_line(default_return.as_str());
            },
        }
        self.dedent();
        self.add_line("}");
        self.add_line("");
        assert(self.code@ =~= start + method_code(n, *method));
        Ok(())
    }

    /// Generate dictionary code
    fn generate_dictionary(&mut self, dictionary: &WebIDLDictionary) -> (r: Result<()>)
        requires
            old(self).indent_level + 1 <= usize::MAX,
        ensures
            members_typed(dictionary.members@) ==> r is Ok && final(self).code@ == old(self).code@
                + dictionary_code(old(self).indent_level as nat, *dictionary) && final(self).indent_level
                == old(self).indent_level,
            !members_typed(dictionary.members@) ==> (r matches Err(e) && e is Parsing
                && final(self).indent_level == old(self).indent_level + 1),
    {
        let ghost n = self.indent_level as nat;
        let ghost start = self.code@;
        let ghost ms = dictionary.members@;
        self.add_line("#[derive(Debug, Clone)]");
        let mut head = str_to_string("pub struct ");
        push_str(&mut head, dictionary.name.as_str());
        push_str(&mut head, " {");
        self.add_line(head.as_str());
        self.indent();
        let ghost members_start = self.code@;
        let mut i: usize = 0;
        while i < dictionary.members.len()
            invariant
                self.indent_level == n + 1,
                n == old(self).indent_level,
                i <= ms.len(),
                ms == dictionary.members@,
                self.code@ == members_start + member_lines(n + 1, ms.take(i as int)),
                forall|j: int| 0 <= j < i ==> (#[trigger] rust_type(ms[j].member_type)) is Some,
            decreases ms.len() - i,
        {
            let member = &dictionary.members[i];
            let rust_type_name = match self.map_type(&member.member_type) {
                Ok(t) => t,
                Err(e) => return Err(e),
            };
            let mut line = str_to_string("pub ");
            push_str(&mut line, member.name.as_str());
            push_str(&mut line, ": ");
            push_str(&mut line, rust_type_name.as_str());
            push_str(&mut line, ",");
            self.add_line(line.as_str());
            assert(ms.take(i + 1).drop_last() =~= ms.take(i as int));
            i = i + 1;
        }
        assert(ms.take(ms.len() as int) =~= ms);
        self.dedent();
        self.add_line("}");
        self.add_line("");
        assert(self.code@ =~= start + dictionary_code(n, *dictionary));
        Ok(())
    }

    /// Generate enum code
    fn generate_enum(&mut self, enum_def: &WebIDLEnum)
        requires
            old(self).indent_level + 1 <= usize::MAX,
        ensures
            final(self).code@ == old(self).code@ + enum_code(old(self).indent_level as nat, *enum_def),
            final(self).indent_level == old(self).indent_level,
    {
        let ghost n = self.indent_level as nat;
        let ghost start = self.code@;
        let ghost vs = enum_def.values@;
        self.add_line("#[derive(Debug, Clone, PartialEq)]");
        let mut head = str_to_string("pub enum ");
        push_str(&mut head, enum_def.name.as_str());
        push_str(&mut head, " {");
        self.add_line(head.as_str());
        self.indent();
        let ghost values_start = self.code@;
        let mut i: usize = 0;
        while i < enum_def.values.len()
            invariant
                self.indent_level == n + 1,
                i <= vs.len(),
                vs == enum_def.values@,
                self.code@ == values_start + variant_lines(n + 1, vs.take(i as int)),
            decreases vs.len() - i,
        {
            let mut line = enum_def.values[i].clone();
            push_str(&mut line, ",");
            self.add_line(line.as_str());
            assert(vs.take(i + 1).drop_last() =~= vs.take(i as int));
            i = i + 1;
        }
        assert(vs.take(vs.len() as int) =~= vs);
        self.dedent();
        self.add_line("}");
        self.add_line("");
        assert(self.code@ =~= start + enum_code(n, *enum_def));
    }

    /// Generate callback code
    fn generate_callback(&mut self, callback: &WebIDLCallback) -> (r: Result<()>)
        ensures
            callback_typed(*callback) ==> r is Ok && final(self).code@ == old(self).code@ + callback_code(
                old(self).indent_level as nat,
                *callback,
            ) && final(self).indent_level == old(self).indent_level,
            !callback_typed(*callback) ==> (r matches Err(e) && e is Parsing && final(self).indent_level
                == old(self).indent_level),
    {
        let ghost n = self.indent_level as nat;
        let ghost start = self.code@;
        let ghost args = callback.arguments@;
        let return_type = match self.map_type(&callback.return_type) {
            Ok(t) => t,
            Err(e) => return Err(e),
        };
        let mut params: Vec<String> = Vec::new();
        let mut i: usize = 0;
        while i < callback.arguments.len()
            invariant
                self.indent_level == n,
                n == old(self).indent_level,
                self.code@ == start,
                i <= args.len(),
                args == callback.arguments@,
                params@.len() == i,
                params@.map_values(|s: String| s@) == args.take(i as int).map_values(
                    |a: WebIDLArgument| parameter_text(a),
                ),
                forall|j: int| 0 <= j < i ==> (#[trigger] rust_type(args[j].arg_type)) is Some,
            decreases args.len() - i,
        {
            let arg = &callback.arguments[i];
            let arg_type = match self.map_type(&arg.arg_type) {
                Ok(t) => t,
                Err(e) => return Err(e),
            };
            let mut param = arg.name.clone();
            push_str(&mut param, ": ");
            push_str(&mut param, arg_type.as_str());
            assert(param@ == parameter_text(args[i as int]));
            let ghost before = params@.map_values(|s: String| s@);
            params.push(param);
            assert(params@.map_values(|s: String| s@) =~= before.push(parameter_text(args[i as int])));
            assert(args.take(i + 1).map_values(|a: WebIDLArgument| parameter_text(a)) =~= args.take(
                i as int,
            ).map_values(|a: WebIDLArgument| parameter_text(a)).push(parameter_text(args[i as int])));
            i = i + 1;
        }
        assert(args.take(args.len() as int) =~= args);
        let joined = join_strings(&params, ", ");
        let mut signature = str_to_string("pub type ");
        push_str(&mut signature, callback.name.as_str());
        push_str(&mut signature, " = fn(");
        push_str(&mut signature, joined.as_str());
        push_str(&mut signature, ") -> ");
        push_str(&mut signature, return_type.as_str());
        push_str(&mut signature, ";");
        self.add_line(signature.as_str());
        self.add_line("");
        assert(self.code@ =~= start + callback_code(n, *callback));
        Ok(())
    }

    /// Add line to generated code
    fn add_line(&mut self, line: &str)
        ensures
            final(self).code@ == old(self).code@ + code_line(old(self).indent_level as nat, line@),
            final(self).indent_level == old(self).indent_level,
    {
        if !line.is_empty() {
            let mut i: usize = 0;
            while i < self.indent_level
                invariant
                    i <= self.indent_level,
                    self.indent_level == old(self).indent_level,
                    self.code@ == old(self).code@ + indent_text(i as nat),
                decreases self.indent_level - i,
            {
                push_str(&mut self.code, "    ");
                i = i + 1;
            }
            push_str(&mut self.code, line);
            push_char(&mut self.code, '\n');
        } else {
            push_char(&mut self.code, '\n');
        }
        assert(self.code@ =~= old(self).code@ + code_line(old(self).indent_level as nat, line@));
    }

    /// Increase indentation
    fn indent(&mut self)
        requires
            old(self).indent_level < usize::MAX,
        ensures
            final(self).indent_level == old(self).indent_level + 1,
            final(self).code == old(self).code,
    {
        self.indent_level = self.indent_level + 1;
    }

    /// Decrease indentation
    fn dedent(&mut self)
        ensures
            final(self).indent_level == (if old(self).indent_level > 0 {
                old(self).indent_level - 1
            } else {
                0
            }),
            final(self).code == old(self).code,
    {
        if self.indent_level > 0 {
            self.indent_level = self.indent_level - 1;
        }
    }
}

/// The signedness and width in bits of a WebIDL integer type: `byte` and
/// `octet` have 8 bits, `short` 16, `long` 32 and `long long` 64, signed
/// unless marked unsigned (`octet` is the unsigned byte).
pub open spec fn idl_integer(t: WebIDLType) -> Option<(bool, nat)> {
    match t {
        WebIDLType::Byte => Some((false, 8)),
        WebIDLType::Octet => Some((true, 8)),
        WebIDLType::Short => Some((false, 16)),
        WebIDLType::UnsignedShort => Some((true, 16)),
        WebIDLType::Long => Some((false, 32)),
        WebIDLType::UnsignedLong => Some((true, 32)),
        WebIDLType::LongLong => Some((false, 64)),
        WebIDLType::UnsignedLongLong => Some((true, 64)),
        _ => None,
    }
}

/// The width in bits of a WebIDL floating-point type: 32 for `float`, 64
/// for `double`.
pub open spec fn idl_float(t: WebIDLType) -> Option<nat> {
    match t {
        WebIDLType::Float => Some(32),
        WebIDLType::Double => Some(64),
        _ => None,
    }
}

/// The name of a Rust primitive number type: its kind letter (`u`, `i` or
/// `f`) followed by its width in decimal.
pub open spec fn rust_number_name(kind: char, bits: nat) -> Seq<char> {
    seq![kind] + decimal(bits)
}

/// WebIDL numbers become Rust numbers of the same kind and width: an
/// integer type becomes the unsigned (`u`) or signed (`i`) Rust integer of
/// its width, and a floating-point type the `f` type of its width.
pub proof fn lemma_numbers_keep_sign_and_width(t: WebIDLType)
    ensures
        idl_integer(t) matches Some((unsigned, bits)) ==> rust_type(t) == Some(
            rust_number_name(if unsigned { 'u' } else { 'i' }, bits),
        ),
        idl_float(t) matches Some(bits) ==> rust_type(t) == Some(rust_number_name('f', bits)),
{
    reveal_with_fuel(decimal, 3);
    reveal_strlit("i8");
    reveal_strlit("u8");
    reveal_strlit("i16");
    reveal_strlit("u16");
    reveal_strlit("i32");
    reveal_strlit("u32");
    reveal_strlit("i64");
    reveal_strlit("u64");
    reveal_strlit("f32");
    reveal_strlit("f64");
    assert(decimal(8) =~= seq!['8']);
    assert(decimal(16) =~= seq!['1', '6']);
    assert(decimal(32) =~= seq!['3', '2']);
    assert(decimal(64) =~= seq!['6', '4']);
    match t {
        WebIDLType::Byte => assert(rust_number_name('i', 8) =~= "i8"@),
        WebIDLType::Octet => assert(rust_number_name('u', 8) =~= "u8"@),
        WebIDLType::Short => assert(rust_number_name('i', 16) =~= "i16"@),
        WebIDLType::UnsignedShort => assert(rust_number_name('u', 16) =~= "u16"@),
        WebIDLType::Long => assert(rust_number_name('i', 32) =~= "i32"@),
        WebIDLType::UnsignedLong => assert(rust_number_name('u', 32) =~= "u32"@),
        WebIDLType::LongLong => assert(rust_number_name('i', 64) =~= "i64"@),
        WebIDLType::UnsignedLongLong => assert(rust_number_name('u', 64) =~= "u64"@),
        WebIDLType::Float => assert(rust_number_name('f', 32) =~= "f32"@),
        WebIDLType::Double => assert(rust_number_name('f', 64) =~= "f64"@),
        _ => {},
    }
}

/// Types that mean the same to Rust map alike: a nullable and an optional
/// type become the same Rust type, both text types the same string type,
/// and `object` and `any` the same value type; and wrapping a type in a
/// nullable, optional, sequence or promise type has a Rust type exactly
/// when the type itself has one, written around it.
pub proof fn lemma_alike_types_map_alike(t: WebIDLType)
    ensures
        rust_type(WebIDLType::Nullable(Box::new(t))) == rust_type(WebIDLType::Optional(Box::new(t))),
        rust_type(WebIDLType::DOMString) == rust_type(WebIDLType::USVString),
        rust_type(WebIDLType::Object) == rust_type(WebIDLType::Any),
        rust_type(WebIDLType::Object) != rust_type(WebIDLType::DOMString),
        rust_type(WebIDLType::Nullable(Box::new(t))) is Some <==> rust_type(t) is Some,
        rust_type(WebIDLType::Sequence(Box::new(t))) is Some <==> rust_type(t) is Some,
        rust_type(WebIDLType::Promise(Box::new(t))) is Some <==> rust_type(t) is Some,
        rust_type(t) matches Some(s) ==> {
            &&& rust_type(WebIDLType::Nullable(Box::new(t))) matches Some(n) && n.len() > s.len() + 1 && n.subrange(
                n.len() - s.len() - 1,
                n.len() - 1,
            ) == s
            &&& rust_type(WebIDLType::Sequence(Box::new(t))) matches Some(q) && q.len() > s.len() + 1 && q.subrange(
                q.len() - s.len() - 1,
                q.len() - 1,
            ) == s
        },
{
    reveal_strlit("String");
    reveal_strlit("Value");
    reveal_strlit("Option<");
    reveal_strlit("Vec<");
    reveal_strlit(">");
    assert("Value"@.len() != "String"@.len());
    if let Some(s) = rust_type(t) {
        let n = "Option<"@ + s + ">"@;
        assert(n.subrange(n.len() - s.len() - 1, n.len() - 1) =~= s);
        let q = "Vec<"@ + s + ">"@;
        assert(q.subrange(q.len() - s.len() - 1, q.len() - 1) =~= s);
    }
}

} // verus!
