//! The Java types that a snippet's `run` method may take and return, and the
//! names under which they appear in generated Java and Rust code.
use vstd::prelude::*;
use crate::text::str_eq;

verus! {

/// Wire-encoding kind shared by [`PrimitiveType`] and [`BoxedType`]: it fixes
/// the byte layout, the `DataOutputStream` method and the decoding.
#[derive(Clone, Copy, PartialEq, Eq, Debug, Structural)]
pub enum ScalarEnc {
    Byte,
    Short,
    Int,
    Long,
    Float,
    Double,
    Boolean,
    Char,
    Str,
}

/// Java primitive types (`byte`, `int`, `double`, ...); `String` is not one.
#[derive(Clone, Copy, PartialEq, Eq, Debug, Structural)]
pub enum PrimitiveType {
    Byte,
    Short,
    Int,
    Long,
    Float,
    Double,
    Boolean,
    Char,
}

/// Java reference (boxed) types (`Integer`, `String`, ...), used inside `<>`
/// and for `String` at any level.
#[derive(Clone, Copy, PartialEq, Eq, Debug, Structural)]
pub enum BoxedType {
    Byte,
    Short,
    Integer,
    Long,
    Float,
    Double,
    Boolean,
    Character,
    String,
}

/// The recursive Java type system of snippet parameters and return values.
#[derive(PartialEq, Eq, Debug)]
pub enum JavaType {
    /// A Java primitive type (`int`, `double`, ...).
    Primitive(PrimitiveType),
    /// A Java reference type (`Integer`, `String`, ...).
    Boxed(BoxedType),
    /// Java `T[]`.
    Array(Box<JavaType>),
    /// Java `List<T>`: same wire format and Rust type as an array.
    List(Box<JavaType>),
    /// Java `Optional<T>`.
    Optional(Box<JavaType>),
}

// ── ScalarEnc ────────────────────────────────────────────────────────────────

/// The `DataOutputStream` method that writes a scalar of this encoding
/// (`String` has none: it is written by hand).
pub open spec fn dos_method_name(e: ScalarEnc) -> Seq<char> {
    match e {
        ScalarEnc::Byte => "writeByte"@,
        ScalarEnc::Short => "writeShort"@,
        ScalarEnc::Int => "writeInt"@,
        ScalarEnc::Long => "writeLong"@,
        ScalarEnc::Float => "writeFloat"@,
        ScalarEnc::Double => "writeDouble"@,
        ScalarEnc::Boolean => "writeBoolean"@,
        ScalarEnc::Char => "writeChar"@,
        ScalarEnc::Str => Seq::empty(),
    }
}

impl ScalarEnc {
    /// The `DataOutputStream` write method for this encoding, if it has one.
    pub fn dos_write_method(self) -> (r: Option<&'static str>)
        ensures
            r is None <==> self == ScalarEnc::Str,
            r matches Some(m) ==> m@ == dos_method_name(self),
    {
        match self {
            ScalarEnc::Byte => Some("writeByte"),
            ScalarEnc::Short => Some("writeShort"),
            ScalarEnc::Int => Some("writeInt"),
            ScalarEnc::Long => Some("writeLong"),
            ScalarEnc::Float => Some("writeFloat"),
            ScalarEnc::Double => Some("writeDouble"),
            ScalarEnc::Boolean => Some("writeBoolean"),
            ScalarEnc::Char => Some("writeChar"),
            ScalarEnc::Str => None,
        }
    }
}

// ── PrimitiveType ────────────────────────────────────────────────────────────

/// The primitive type that the Java name `s` denotes, if any.
pub open spec fn primitive_from_name(s: Seq<char>) -> Option<PrimitiveType> {
    if s == "byte"@ {
        Some(PrimitiveType::Byte)
    } else if s == "short"@ {
        Some(PrimitiveType::Short)
    } else if s == "int"@ {
        Some(PrimitiveType::Int)
    } else if s == "long"@ {
        Some(PrimitiveType::Long)
    } else if s == "float"@ {
        Some(PrimitiveType::Float)
    } else if s == "double"@ {
        Some(PrimitiveType::Double)
    } else if s == "boolean"@ {
        Some(PrimitiveType::Boolean)
    } else if s == "char"@ {
        Some(PrimitiveType::Char)
    } else {
        None
    }
}

/// The Java spelling of a primitive type.
pub open spec fn primitive_java_name(p: PrimitiveType) -> Seq<char> {
    match p {
        PrimitiveType::Byte => "byte"@,
        PrimitiveType::Short => "short"@,
        PrimitiveType::Int => "int"@,
        PrimitiveType::Long => "long"@,
        PrimitiveType::Float => "float"@,
        PrimitiveType::Double => "double"@,
        PrimitiveType::Boolean => "boolean"@,
        PrimitiveType::Char => "char"@,
    }
}

/// The wire encoding of a primitive type.
pub open spec fn primitive_enc(p: PrimitiveType) -> ScalarEnc {
    match p {
        PrimitiveType::Byte => ScalarEnc::Byte,
        PrimitiveType::Short => ScalarEnc::Short,
        PrimitiveType::Int => ScalarEnc::Int,
        PrimitiveType::Long => ScalarEnc::Long,
        PrimitiveType::Float => ScalarEnc::Float,
        PrimitiveType::Double => ScalarEnc::Double,
        PrimitiveType::Boolean => ScalarEnc::Boolean,
        PrimitiveType::Char => ScalarEnc::Char,
    }
}

/// The Rust type that a primitive Java type maps to.
pub open spec fn primitive_rust_name(p: PrimitiveType) -> Seq<char> {
    match p {
        PrimitiveType::Byte => "i8"@,
        PrimitiveType::Short => "i16"@,
        PrimitiveType::Int => "i32"@,
        PrimitiveType::Long => "i64"@,
        PrimitiveType::Float => "f32"@,
        PrimitiveType::Double => "f64"@,
        PrimitiveType::Boolean => "bool"@,
        PrimitiveType::Char => "char"@,
    }
}

impl PrimitiveType {
    /// Parse a primitive type name (`"int"`, `"double"`, ...).
    pub fn from_name(s: &str) -> (r: Option<PrimitiveType>)
        ensures
            r == primitive_from_name(s@),
    {
        if str_eq(s, "byte") {
            Some(PrimitiveType::Byte)
        } else if str_eq(s, "short") {
            Some(PrimitiveType::Short)
        } else if str_eq(s, "int") {
            Some(PrimitiveType::Int)
        } else if str_eq(s, "long") {
            Some(PrimitiveType::Long)
        } else if str_eq(s, "float") {
            Some(PrimitiveType::Float)
        } else if str_eq(s, "double") {
            Some(PrimitiveType::Double)
        } else if str_eq(s, "boolean") {
            Some(PrimitiveType::Boolean)
        } else if str_eq(s, "char") {
            Some(PrimitiveType::Char)
        } else {
            None
        }
    }

    /// The Java spelling of this type.
    pub fn java_name(self) -> (r: &'static str)
        ensures
            r@ == primitive_java_name(self),
    {
        match self {
            PrimitiveType::Byte => "byte",
            PrimitiveType::Short => "short",
            PrimitiveType::Int => "int",
            PrimitiveType::Long => "long",
            PrimitiveType::Float => "float",
            PrimitiveType::Double => "double",
            PrimitiveType::Boolean => "boolean",
            PrimitiveType::Char => "char",
        }
    }

    /// The wire encoding of this type.
    pub fn enc(self) -> (r: ScalarEnc)
        ensures
            r == primitive_enc(self),
    {
        match self {
            PrimitiveType::Byte => ScalarEnc::Byte,
            PrimitiveType::Short => ScalarEnc::Short,
            PrimitiveType::Int => ScalarEnc::Int,
            PrimitiveType::Long => ScalarEnc::Long,
            PrimitiveType::Float => ScalarEnc::Float,
            PrimitiveType::Double => ScalarEnc::Double,
            PrimitiveType::Boolean => ScalarEnc::Boolean,
            PrimitiveType::Char => ScalarEnc::Char,
        }
    }

    /// The `DataOutputStream` method that writes a value of this type.
    pub fn dos_write_method(self) -> (r: &'static str)
        ensures
            r@ == dos_method_name(primitive_enc(self)),
    {
        match self.enc().dos_write_method() {
            Some(m) => m,
            None => "",
        }
    }

    /// The Rust type this Java type maps to.
    pub fn rust_type_name(self) -> (r: &'static str)
        ensures
            r@ == primitive_rust_name(self),
    {
        match self {
            PrimitiveType::Byte => "i8",
            PrimitiveType::Short => "i16",
            PrimitiveType::Int => "i32",
            PrimitiveType::Long => "i64",
            PrimitiveType::Float => "f32",
            PrimitiveType::Double => "f64",
            PrimitiveType::Boolean => "bool",
            PrimitiveType::Char => "char",
        }
    }
}

// ── BoxedType ────────────────────────────────────────────────────────────────

/// The boxed type that the name `s` denotes inside `<>`, if any: boxed and
/// primitive names are both accepted.
pub open spec fn boxed_from_name(s: Seq<char>) -> Option<BoxedType> {
    if s == "Byte"@ || s == "byte"@ {
        Some(BoxedType::Byte)
    } else if s == "Short"@ || s == "short"@ {
        Some(BoxedType::Short)
    } else if s == "Integer"@ || s == "int"@ {
        Some(BoxedType::Integer)
    } else if s == "Long"@ || s == "long"@ {
        Some(BoxedType::Long)
    } else if s == "Float"@ || s == "float"@ {
        Some(BoxedType::Float)
    } else if s == "Double"@ || s == "double"@ {
        Some(BoxedType::Double)
    } else if s == "Boolean"@ || s == "boolean"@ {
        Some(BoxedType::Boolean)
    } else if s == "Character"@ || s == "char"@ {
        Some(BoxedType::Character)
    } else if s == "String"@ {
        Some(BoxedType::String)
    } else {
        None
    }
}

/// The Java spelling of a boxed type.
pub open spec fn boxed_java_name(b: BoxedType) -> Seq<char> {
    match b {
        BoxedType::Byte => "Byte"@,
        BoxedType::Short => "Short"@,
        BoxedType::Integer => "Integer"@,
        BoxedType::Long => "Long"@,
        BoxedType::Float => "Float"@,
        BoxedType::Double => "Double"@,
        BoxedType::Boolean => "Boolean"@,
        BoxedType::Character => "Character"@,
        BoxedType::String => "String"@,
    }
}

/// The wire encoding of a boxed type.
pub open spec fn boxed_enc(b: BoxedType) -> ScalarEnc {
    match b {
        BoxedType::Byte => ScalarEnc::Byte,
        BoxedType::Short => ScalarEnc::Short,
        BoxedType::Integer => ScalarEnc::Int,
        BoxedType::Long => ScalarEnc::Long,
        BoxedType::Float => ScalarEnc::Float,
        BoxedType::Double => ScalarEnc::Double,
        BoxedType::Boolean => ScalarEnc::Boolean,
        BoxedType::Character => ScalarEnc::Char,
        BoxedType::String => ScalarEnc::Str,
    }
}

/// The Rust type a boxed Java type maps to (as a return value).
pub open spec fn boxed_rust_name(b: BoxedType) -> Seq<char> {
    match b {
        BoxedType::Byte => "i8"@,
        BoxedType::Short => "i16"@,
        BoxedType::Integer => "i32"@,
        BoxedType::Long => "i64"@,
        BoxedType::Float => "f32"@,
        BoxedType::Double => "f64"@,
        BoxedType::Boolean => "bool"@,
        BoxedType::Character => "char"@,
        BoxedType::String => "::std::string::String"@,
    }
}

impl BoxedType {
    /// Parse a boxed or primitive type name (both are accepted inside `<>`).
    pub fn from_name(s: &str) -> (r: Option<BoxedType>)
        ensures
            r == boxed_from_name(s@),
    {
        if str_eq(s, "Byte") || str_eq(s, "byte") {
            Some(BoxedType::Byte)
        } else if str_eq(s, "Short") || str_eq(s, "short") {
            Some(BoxedType::Short)
        } else if str_eq(s, "Integer") || str_eq(s, "int") {
            Some(BoxedType::Integer)
        } else if str_eq(s, "Long") || str_eq(s, "long") {
            Some(BoxedType::Long)
        } else if str_eq(s, "Float") || str_eq(s, "float") {
            Some(BoxedType::Float)
        } else if str_eq(s, "Double") || str_eq(s, "double") {
            Some(BoxedType::Double)
        } else if str_eq(s, "Boolean") || str_eq(s, "boolean") {
            Some(BoxedType::Boolean)
        } else if str_eq(s, "Character") || str_eq(s, "char") {
            Some(BoxedType::Character)
        } else if str_eq(s, "String") {
            Some(BoxedType::String)
        } else {
            None
        }
    }

    /// The Java spelling of this type.
    pub fn java_name(self) -> (r: &'static str)
        ensures
            r@ == boxed_java_name(self),
    {
        match self {
            BoxedType::Byte => "Byte",
            BoxedType::Short => "Short",
            BoxedType::Integer => "Integer",
            BoxedType::Long => "Long",
            BoxedType::Float => "Float",
            BoxedType::Double => "Double",
            BoxedType::Boolean => "Boolean",
            BoxedType::Character => "Character",
            BoxedType::String => "String",
        }
    }

    /// The wire encoding of this type.
    pub fn enc(self) -> (r: ScalarEnc)
        ensures
            r == boxed_enc(self),
    {
        match self {
            BoxedType::Byte => ScalarEnc::Byte,
            BoxedType::Short => ScalarEnc::Short,
            BoxedType::Integer => ScalarEnc::Int,
            BoxedType::Long => ScalarEnc::Long,
            BoxedType::Float => ScalarEnc::Float,
            BoxedType::Double => ScalarEnc::Double,
            BoxedType::Boolean => ScalarEnc::Boolean,
            BoxedType::Character => ScalarEnc::Char,
            BoxedType::String => ScalarEnc::Str,
        }
    }

    /// The `DataOutputStream` write method, if the type has one.
    pub fn dos_write_method(self) -> (r: Option<&'static str>)
        ensures
            r is None <==> self == BoxedType::String,
            r matches Some(m) ==> m@ == dos_method_name(boxed_enc(self)),
    {
        self.enc().dos_write_method()
    }

    /// The Rust type this Java type maps to (as a return value).
    pub fn rust_type_name(self) -> (r: &'static str)
        ensures
            r@ == boxed_rust_name(self),
    {
        match self {
            BoxedType::Byte => "i8",
            BoxedType::Short => "i16",
            BoxedType::Integer => "i32",
            BoxedType::Long => "i64",
            BoxedType::Float => "f32",
            BoxedType::Double => "f64",
            BoxedType::Boolean => "bool",
            BoxedType::Character => "char",
            BoxedType::String => "::std::string::String",
        }
    }
}

// ── JavaType ─────────────────────────────────────────────────────────────────

/// The Java type name used in generated code: `int`, `Integer[]`,
/// `java.util.List<Integer>`, `java.util.Optional<String>`, ...
pub open spec fn java_type_name(t: JavaType) -> Seq<char>
    decreases t,
{
    match t {
        JavaType::Primitive(p) => primitive_java_name(p),
        JavaType::Boxed(b) => boxed_java_name(b),
        JavaType::Array(inner) => java_type_name(*inner) + "[]"@,
        JavaType::List(inner) => "java.util.List<"@ + java_type_name(*inner) + ">"@,
        JavaType::Optional(inner) => "java.util.Optional<"@ + java_type_name(*inner) + ">"@,
    }
}

/// How many `[]`, `List<>` and `Optional<>` levels wrap the scalar at the
/// bottom of `t`.
pub open spec fn type_height(t: JavaType) -> nat
    decreases t,
{
    match t {
        JavaType::Primitive(_) => 0,
        JavaType::Boxed(_) => 0,
        JavaType::Array(inner) => 1 + type_height(*inner),
        JavaType::List(inner) => 1 + type_height(*inner),
        JavaType::Optional(inner) => 1 + type_height(*inner),
    }
}

/// Whether every parameter type is shallow enough that numbering the
/// temporaries of its nested levels stays within `usize`.
pub open spec fn params_fit(ps: Seq<(JavaType, String)>) -> bool {
    forall|k: int| 0 <= k < ps.len() ==> type_height(#[trigger] ps[k].0) < usize::MAX
}

/// The Rust type a value of `t` is returned as.
pub open spec fn rust_return_type_name(t: JavaType) -> Seq<char>
    decreases t,
{
    match t {
        JavaType::Primitive(p) => primitive_rust_name(p),
        JavaType::Boxed(b) => boxed_rust_name(b),
        JavaType::Array(inner) => "::std::vec::Vec<"@ + rust_return_type_name(*inner) + ">"@,
        JavaType::List(inner) => "::std::vec::Vec<"@ + rust_return_type_name(*inner) + ">"@,
        JavaType::Optional(inner) => "::std::option::Option<"@ + rust_return_type_name(*inner)
            + ">"@,
    }
}

/// The Rust type a parameter of Java type `t` is passed as: a `String` leaf
/// is borrowed as `&str`, and an array or a list as a slice `&[T]` of its
/// element's parameter type.
pub open spec fn rust_param_type_name(t: JavaType) -> Seq<char>
    decreases t,
{
    match t {
        JavaType::Primitive(p) => primitive_rust_name(p),
        JavaType::Boxed(b) => if b == BoxedType::String {
            "&str"@
        } else {
            boxed_rust_name(b)
        },
        JavaType::Array(inner) => "&["@ + rust_param_type_name(*inner) + "]"@,
        JavaType::List(inner) => "&["@ + rust_param_type_name(*inner) + "]"@,
        JavaType::Optional(inner) => "::std::option::Option<"@ + rust_param_type_name(*inner)
            + ">"@,
    }
}

impl Clone for JavaType {
    fn clone(&self) -> (r: JavaType)
        ensures
            r == *self,
    {
        self.duplicate()
    }
}

impl JavaType {
    /// A copy of this type, equal to it.
    pub fn duplicate(&self) -> (r: JavaType)
        ensures
            r == *self,
        decreases self,
    {
        match self {
            JavaType::Primitive(p) => JavaType::Primitive(*p),
            JavaType::Boxed(b) => JavaType::Boxed(*b),
            JavaType::Array(inner) => JavaType::Array(Box::new(inner.duplicate())),
            JavaType::List(inner) => JavaType::List(Box::new(inner.duplicate())),
            JavaType::Optional(inner) => JavaType::Optional(Box::new(inner.duplicate())),
        }
    }

    /// The Java type name used in generated code.
    pub fn java_type_name(&self) -> (r: String)
        ensures
            r@ == java_type_name(*self),
        decreases self,
    {
        match self {
            JavaType::Primitive(p) => p.java_name().to_owned(),
            JavaType::Boxed(b) => b.java_name().to_owned(),
            JavaType::Array(inner) => {
                let mut s = inner.java_type_name();
                s.append("[]");
                s
            },
            JavaType::List(inner) => {
                let mut s = "java.util.List<".to_owned();
                s.append(inner.java_type_name().as_str());
                s.append(">");
                s
            },
            JavaType::Optional(inner) => {
                let mut s = "java.util.Optional<".to_owned();
                s.append(inner.java_type_name().as_str());
                s.append(">");
                s
            },
        }
    }

    /// The Rust type a value of this Java type is returned as.
    pub fn rust_return_type_name(&self) -> (r: String)
        ensures
            r@ == rust_return_type_name(*self),
        decreases self,
    {
        match self {
            JavaType::Primitive(p) => p.rust_type_name().to_owned(),
            JavaType::Boxed(b) => b.rust_type_name().to_owned(),
            JavaType::Array(inner) | JavaType::List(inner) => {
                let mut s = "::std::vec::Vec<".to_owned();
                s.append(inner.rust_return_type_name().as_str());
                s.append(">");
                s
            },
            JavaType::Optional(inner) => {
                let mut s = "::std::option::Option<".to_owned();
                s.append(inner.rust_return_type_name().as_str());
                s.append(">");
                s
            },
        }
    }

    /// The Rust type a parameter of this Java type is passed as.
    pub fn rust_param_type_name(&self) -> (r: String)
        ensures
            r@ == rust_param_type_name(*self),
        decreases self,
    {
        match self {
            JavaType::Primitive(p) => p.rust_type_name().to_owned(),
            JavaType::Boxed(BoxedType::String) => "&str".to_owned(),
            JavaType::Boxed(b) => b.rust_type_name().to_owned(),
            JavaType::Array(inner) | JavaType::List(inner) => {
                let mut s = "&[".to_owned();
                s.append(inner.rust_param_type_name().as_str());
                s.append("]");
                s
            },
            JavaType::Optional(inner) => {
                let mut s = "::std::option::Option<".to_owned();
                s.append(inner.rust_param_type_name().as_str());
                s.append(">");
                s
            },
        }
    }
}

} // verus!
