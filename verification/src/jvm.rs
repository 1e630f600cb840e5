//! What the Java and Rust library calls that the generated code makes do, as
//! the Java SE documentation (`DataInputStream`, `DataOutputStream`,
//! `List.add`) and the Rust reference (the primitive types) describe them;
//! and the laws that the generated code, read with these meanings, carries
//! each value across unchanged.
use vstd::prelude::*;
use crate::types::{
    ScalarEnc, PrimitiveType, BoxedType, JavaType, primitive_enc, dos_method_name,
    primitive_rust_name, boxed_rust_name, java_type_name, rust_return_type_name,
    rust_param_type_name,
};
use crate::value::{JValue, has_type, has_scalar_type};
use crate::wire::{
    u16_at, u32_at, u64_at, be2, be4, be8, encode_element, read_element, Read,
    lemma_read_encoded_element,
};
use crate::codegen::{
    read_method_name, scalar_read_text, dis_read_text, level_suffix, ser_element_text,
    result_tail, run_call, new_outer_array_text,
};
use crate::wire::encode_output;
use crate::text::decimal;

verus! {

// ── DataInputStream ──────────────────────────────────────────────────────────

/// What `DataInputStream.<method>()` returns when the stream holds `b[p..]`,
/// and where it leaves the stream: `readByte` one signed byte, `readShort`
/// two big-endian bytes as a signed short, `readInt` four as a signed int,
/// `readLong` eight as a signed long, `readFloat` four and `readDouble`
/// eight as the bits of an IEEE 754 number, `readUnsignedByte` one byte as
/// an int from 0 to 255, `readBoolean` one byte (true unless zero),
/// `readChar` two as a UTF-16 code unit. `None` where too few
/// bytes remain, for a code unit that is no Unicode scalar value, or for any
/// other method.
pub open spec fn dis_read_call(method: Seq<char>, b: Seq<u8>, p: int) -> Option<(JValue, int)> {
    if p < 0 {
        None
    } else if method == "readByte"@ {
        if p + 1 <= b.len() { Some((JValue::Byte(b[p] as i8), p + 1)) } else { None }
    } else if method == "readShort"@ {
        if p + 2 <= b.len() { Some((JValue::Short(u16_at(b, p) as i16), p + 2)) } else { None }
    } else if method == "readInt"@ {
        if p + 4 <= b.len() { Some((JValue::Int(u32_at(b, p) as i32), p + 4)) } else { None }
    } else if method == "readLong"@ {
        if p + 8 <= b.len() { Some((JValue::Long(u64_at(b, p) as i64), p + 8)) } else { None }
    } else if method == "readFloat"@ {
        if p + 4 <= b.len() { Some((JValue::Float(u32_at(b, p)), p + 4)) } else { None }
    } else if method == "readDouble"@ {
        if p + 8 <= b.len() { Some((JValue::Double(u64_at(b, p)), p + 8)) } else { None }
    } else if method == "readUnsignedByte"@ {
        if p + 1 <= b.len() { Some((JValue::Int(b[p] as i32), p + 1)) } else { None }
    } else if method == "readBoolean"@ {
        if p + 1 <= b.len() { Some((JValue::Boolean(b[p] != 0), p + 1)) } else { None }
    } else if method == "readChar"@ {
        if p + 2 <= b.len() && !(0xd800 <= u16_at(b, p) <= 0xdfff) {
            Some((JValue::Char((u16_at(b, p) as u32) as char), p + 2))
        } else {
            None
        }
    } else {
        None
    }
}

/// The Java type of a scalar value: the type of the variable that holds it.
pub open spec fn java_scalar_type(v: JValue) -> Seq<char> {
    match v {
        JValue::Byte(_) => "byte"@,
        JValue::Short(_) => "short"@,
        JValue::Int(_) => "int"@,
        JValue::Long(_) => "long"@,
        JValue::Float(_) => "float"@,
        JValue::Double(_) => "double"@,
        JValue::Boolean(_) => "boolean"@,
        JValue::Char(_) => "char"@,
        _ => Seq::empty(),
    }
}

/// The primitive Java type whose values have the encoding `e` (not `String`).
pub open spec fn primitive_of(e: ScalarEnc) -> PrimitiveType {
    match e {
        ScalarEnc::Byte => PrimitiveType::Byte,
        ScalarEnc::Short => PrimitiveType::Short,
        ScalarEnc::Int => PrimitiveType::Int,
        ScalarEnc::Long => PrimitiveType::Long,
        ScalarEnc::Float => PrimitiveType::Float,
        ScalarEnc::Double => PrimitiveType::Double,
        ScalarEnc::Boolean => PrimitiveType::Boolean,
        _ => PrimitiveType::Char,
    }
}

/// Reading a parameter of a scalar type other than `String`: the statement
/// that `main` reads it with declares a variable of the value's own Java
/// type and calls the `DataInputStream` method that takes exactly the bytes
/// that Rust wrote for the value, whatever follows them, and returns the
/// value. So `run` receives each argument the caller passed, and the next
/// parameter is read from where this one ends.
#[verifier::rlimit(50)]
pub proof fn lemma_scalar_parameter_read(e: ScalarEnc, v: JValue, rest: Seq<u8>, name: Seq<char>)
    requires
        e != ScalarEnc::Str,
        has_scalar_type(v, e),
    ensures
        dis_read_text(JavaType::Primitive(primitive_of(e)), name, 0) == scalar_read_text(e, name),
        scalar_read_text(e, name) == java_scalar_type(v) + " "@ + name + " = _dis."@
            + read_method_name(e) + "();"@,
        dis_read_call(read_method_name(e), encode_element(v) + rest, 0) == Some(
            (v, encode_element(v).len() as int),
        ),
{
    reveal_strlit("readByte");
    reveal_strlit("readShort");
    reveal_strlit("readInt");
    reveal_strlit("readLong");
    reveal_strlit("readFloat");
    reveal_strlit("readDouble");
    reveal_strlit("readUnsignedByte");
    reveal_strlit("readBoolean");
    reveal_strlit("readChar");
    assert("readLong"@[4] != "readByte"@[4]);
    assert("readFloat"@[4] != "readShort"@[4]);
    assert("readChar"@[4] != "readByte"@[4]);
    assert("readChar"@[4] != "readLong"@[4]);
    let b = encode_element(v) + rest;
    let t = JavaType::Primitive(primitive_of(e));
    assert(primitive_enc(primitive_of(e)) == e);
    assert(has_type(v, t));
    assert(b.subrange(0, encode_element(v).len() as int) =~= encode_element(v));
    lemma_read_encoded_element(t, v, b, 0);
    let m = read_method_name(e);
    match e {
        ScalarEnc::Byte => {
            assert(m == "readByte"@);
        },
        ScalarEnc::Short => {
            assert(m == "readShort"@ && m != "readByte"@);
        },
        ScalarEnc::Int => {
            assert(m == "readInt"@ && m != "readByte"@ && m != "readShort"@);
        },
        ScalarEnc::Long => {
            assert(m == "readLong"@ && m != "readByte"@ && m != "readShort"@ && m != "readInt"@);
        },
        ScalarEnc::Float => {
            assert(m == "readFloat"@ && m != "readByte"@ && m != "readShort"@ && m != "readInt"@
                && m != "readLong"@);
        },
        ScalarEnc::Double => {
            assert(m == "readDouble"@);
            assert(m.len() == 10);
            assert(m != "readByte"@ && m != "readShort"@ && m != "readInt"@);
            assert(m != "readLong"@ && m != "readFloat"@);
        },
        ScalarEnc::Boolean => {
            assert(m == "readBoolean"@);
            assert(m.len() == 11);
            assert(m != "readByte"@ && m != "readShort"@ && m != "readInt"@);
            assert(m != "readLong"@ && m != "readFloat"@ && m != "readDouble"@);
            assert(m != "readUnsignedByte"@);
        },
        _ => {
            assert(m == "readChar"@ && m != "readByte"@ && m != "readShort"@ && m != "readInt"@
                && m != "readLong"@ && m != "readFloat"@ && m != "readDouble"@ && m
                != "readBoolean"@ && m != "readUnsignedByte"@);
        },
    }
}

// ── DataOutputStream ─────────────────────────────────────────────────────────

/// Whether the bits `x` are a float NaN.
pub open spec fn float_nan(x: u32) -> bool {
    (x & 0x7f80_0000u32) == 0x7f80_0000u32 && (x & 0x007f_ffffu32) != 0
}

/// Whether the bits `x` are a double NaN.
pub open spec fn double_nan(x: u64) -> bool {
    (x & 0x7ff0_0000_0000_0000u64) == 0x7ff0_0000_0000_0000u64 && (x & 0x000f_ffff_ffff_ffffu64)
        != 0
}

/// What `DataOutputStream.<method>(x)` writes when given the value `x` of its
/// own parameter type: `writeByte` one byte, `writeShort` and `writeChar`
/// two big-endian bytes, `writeInt` four, `writeLong` eight, `writeFloat`
/// and `writeDouble` the bits of `floatToIntBits` / `doubleToLongBits` (each
/// NaN written as the canonical one), `writeBoolean` one byte, 1 or 0. `None`
/// where the method does not take `x`'s type as it is.
pub open spec fn dos_write_call(method: Seq<char>, x: JValue) -> Option<Seq<u8>> {
    match x {
        JValue::Byte(v) => if method == "writeByte"@ { Some(seq![v as u8]) } else { None },
        JValue::Short(v) => if method == "writeShort"@ { Some(be2(v as u16)) } else { None },
        JValue::Int(v) => if method == "writeInt"@ { Some(be4(v as u32)) } else { None },
        JValue::Long(v) => if method == "writeLong"@ { Some(be8(v as u64)) } else { None },
        JValue::Float(v) => if method == "writeFloat"@ {
            Some(be4(if float_nan(v) { 0x7fc0_0000u32 } else { v }))
        } else {
            None
        },
        JValue::Double(v) => if method == "writeDouble"@ {
            Some(be8(if double_nan(v) { 0x7ff8_0000_0000_0000u64 } else { v }))
        } else {
            None
        },
        JValue::Boolean(v) => if method == "writeBoolean"@ {
            Some(seq![if v { 1u8 } else { 0u8 }])
        } else {
            None
        },
        JValue::Char(c) => if method == "writeChar"@ { Some(be2((c as u32) as u16)) } else { None },
        _ => None,
    }
}

/// Whether `v` is a float or double NaN other than the canonical one (Java
/// writes every NaN as the canonical one).
pub open spec fn other_nan(v: JValue) -> bool {
    match v {
        JValue::Float(x) => float_nan(x) && x != 0x7fc0_0000u32,
        JValue::Double(x) => double_nan(x) && x != 0x7ff8_0000_0000_0000u64,
        _ => false,
    }
}

/// Writing a result of a scalar type other than `String`: the
/// `DataOutputStream` method that `main` calls on `run`'s result of that type
/// (and on each such element of a container) takes the value as it is and
/// writes exactly the bytes that the Rust decoder reads back as that value (a
/// `long` as the eight big-endian bytes of its two's complement, a `double`
/// as its eight bits): what `main` writes for a result `v` is
/// `encode_output` of `v`.
pub proof fn lemma_scalar_result_write(
    e: ScalarEnc,
    v: JValue,
    args: Seq<char>,
    var: Seq<char>,
    dos: Seq<char>,
)
    requires
        e != ScalarEnc::Str,
        has_scalar_type(v, e),
        !other_nan(v),
    ensures
        dos_write_call(dos_method_name(e), v) == Some(encode_element(v)),
        encode_output(JavaType::Primitive(primitive_of(e)), v) == encode_element(v),
        result_tail(JavaType::Primitive(primitive_of(e)), args)
            == "\t\tjava.io.DataOutputStream _dos = new java.io.DataOutputStream(System.out);\n\t\t_dos."@
            + dos_method_name(e) + "("@ + run_call(args) + ");\n\t\t_dos.flush();\n\t}"@,
        ser_element_text(JavaType::Primitive(primitive_of(e)), var, dos, 0) == dos + "."@
            + dos_method_name(e) + "("@ + var + ");"@,
        read_element(JavaType::Primitive(primitive_of(e)), encode_element(v), 0) == Read::Done(
            v,
            encode_element(v).len() as int,
        ),
{
    let t = JavaType::Primitive(primitive_of(e));
    assert(primitive_enc(primitive_of(e)) == e);
    assert(has_type(v, t));
    assert(encode_element(v).subrange(0, encode_element(v).len() as int) =~= encode_element(v));
    lemma_read_encoded_element(t, v, encode_element(v), 0);
}

// ── Rust types ───────────────────────────────────────────────────────────────

/// Whether the Rust type named `name` holds the value `v`: the Rust
/// primitive type of the same width and signedness as the Java value (`i8`
/// for a byte, `i16` a short, `i32` an int, `i64` a long, `f32` a float,
/// `f64` a double, `bool`, `char`), or `String` for a string.
pub open spec fn rust_type_holds(name: Seq<char>, v: JValue) -> bool {
    match v {
        JValue::Byte(_) => name == "i8"@,
        JValue::Short(_) => name == "i16"@,
        JValue::Int(_) => name == "i32"@,
        JValue::Long(_) => name == "i64"@,
        JValue::Float(_) => name == "f32"@,
        JValue::Double(_) => name == "f64"@,
        JValue::Boolean(_) => name == "bool"@,
        JValue::Char(_) => name == "char"@,
        JValue::Str(_) => name == "::std::string::String"@,
        _ => false,
    }
}

/// The Rust type named for a primitive or boxed Java type holds every value
/// of that type: the one the decoder produces for it, and the one a caller
/// passes for it (a `String` parameter is borrowed as `&str`).
pub proof fn lemma_rust_names_hold_values(t: JavaType, v: JValue)
    requires
        t is Primitive || t is Boxed,
        has_type(v, t),
    ensures
        t matches JavaType::Primitive(p) ==> rust_type_holds(primitive_rust_name(p), v),
        t matches JavaType::Boxed(b) ==> rust_type_holds(boxed_rust_name(b), v),
        rust_type_holds(rust_return_type_name(t), v),
        t != JavaType::Boxed(BoxedType::String) ==> rust_type_holds(rust_param_type_name(t), v),
        t == JavaType::Boxed(BoxedType::String) ==> rust_param_type_name(t) == "&str"@,
{
}

// ── List.add ─────────────────────────────────────────────────────────────────

/// Whether `call` is `list.add((ty) elem)`: `List.add` with one argument,
/// which by the Java documentation appends the argument (here the variable
/// `elem`, cast to `ty`) at the end of the list.
pub open spec fn appends_to_list(call: Seq<char>, list: Seq<char>, ty: Seq<char>, elem: Seq<char>) -> bool {
    call == list + ".add(("@ + ty + ") "@ + elem + ")"@
}

/// The reader of a `List` parameter keeps the order of its items: it first
/// reads the count and makes an empty `ArrayList`, then runs a counter from
/// 0 up to the count, and in each turn reads one element and appends it at
/// the end of the list.
pub proof fn lemma_list_reader_keeps_order(inner: JavaType, name: Seq<char>, depth: nat)
    ensures
        ({
            let s = level_suffix(name, depth);
            let count = "_count_"@ + s;
            let i = "_i_"@ + s;
            let elem = "_elem_"@ + s;
            let ty = java_type_name(inner);
            exists|call: Seq<char>|
                {
                    &&& dis_read_text(JavaType::List(Box::new(inner)), name, depth) == "int "@
                        + count + " = _dis.readInt();\n\t\tjava.util.List<"@ + ty + "> "@ + name
                        + " = new java.util.ArrayList<>();\n\t\tfor (int "@ + i + " = 0; "@ + i
                        + " < "@ + count + "; "@ + i + "++) {\n\t\t\t"@ + dis_read_text(
                        inner,
                        elem,
                        depth + 1,
                    ) + "\n\t\t\t"@ + call + ";\n\t\t}"@
                    &&& appends_to_list(call, name, ty, elem)
                }
        }),
{
    reveal_strlit(");\n\t\t}");
    reveal_strlit(")");
    reveal_strlit(";\n\t\t}");
    let s = level_suffix(name, depth);
    let count = "_count_"@ + s;
    let i = "_i_"@ + s;
    let elem = "_elem_"@ + s;
    let ty = java_type_name(inner);
    let p = "int "@ + count + " = _dis.readInt();\n\t\tjava.util.List<"@ + ty + "> "@ + name
        + " = new java.util.ArrayList<>();\n\t\tfor (int "@ + i + " = 0; "@ + i + " < "@ + count
        + "; "@ + i + "++) {\n\t\t\t"@ + dis_read_text(inner, elem, depth + 1) + "\n\t\t\t"@;
    let call = name + ".add(("@ + ty + ") "@ + elem + ")"@;
    let q = p + name + ".add(("@ + ty + ") "@ + elem;
    assert(dis_read_text(JavaType::List(Box::new(inner)), name, depth) == q + ");\n\t\t}"@);
    assert(");\n\t\t}"@ =~= ")"@ + ";\n\t\t}"@);
    assert(p + call =~= q + ")"@);
    assert(q + ");\n\t\t}"@ =~= (q + ")"@) + ";\n\t\t}"@);
    assert(appends_to_list(call, name, ty, elem));
}

/// Whether `stmt` is `array[index] = elem`: by the Java language, element
/// `index` of the array becomes the value of `elem`.
pub open spec fn stores_at(stmt: Seq<char>, array: Seq<char>, index: Seq<char>, elem: Seq<char>) -> bool {
    stmt == array + "["@ + index + "] = "@ + elem
}

/// The reader of an array parameter keeps the order of its items: it first
/// reads the count and allocates an array of that many elements, then runs
/// a counter from 0 up to the count, and in each turn reads one element and
/// stores it at the counter's index.
pub proof fn lemma_array_reader_keeps_order(inner: JavaType, name: Seq<char>, depth: nat)
    ensures
        ({
            let s = level_suffix(name, depth);
            let count = "_count_"@ + s;
            let i = "_i_"@ + s;
            let elem = "_elem_"@ + s;
            exists|stmt: Seq<char>|
                {
                    &&& dis_read_text(JavaType::Array(Box::new(inner)), name, depth) == "int "@
                        + count + " = _dis.readInt();\n\t\t"@ + java_type_name(inner) + "[] "@
                        + name + " = "@ + new_outer_array_text(inner, count)
                        + ";\n\t\tfor (int "@ + i + " = 0; "@ + i + " < "@ + count + "; "@ + i
                        + "++) {\n\t\t\t"@ + dis_read_text(inner, elem, depth + 1) + "\n\t\t\t"@
                        + stmt + ";\n\t\t}"@
                    &&& stores_at(stmt, name, i, elem)
                }
        }),
{
    let s = level_suffix(name, depth);
    let count = "_count_"@ + s;
    let i = "_i_"@ + s;
    let elem = "_elem_"@ + s;
    let p = "int "@ + count + " = _dis.readInt();\n\t\t"@ + java_type_name(inner) + "[] "@ + name
        + " = "@ + new_outer_array_text(inner, count) + ";\n\t\tfor (int "@ + i + " = 0; "@ + i
        + " < "@ + count + "; "@ + i + "++) {\n\t\t\t"@ + dis_read_text(inner, elem, depth + 1)
        + "\n\t\t\t"@;
    let stmt = name + "["@ + i + "] = "@ + elem;
    assert(dis_read_text(JavaType::Array(Box::new(inner)), name, depth) =~= p + stmt
        + ";\n\t\t}"@);
    assert(stores_at(stmt, name, i, elem));
}

/// The reader of an `Optional` parameter: it reads the tag byte, which is 0
/// for an absent value and 1 for a present one in what Rust writes; when the
/// tag is not 0 it reads the inner value and the parameter becomes
/// `Optional.of` it, else `Optional.empty()`.
pub proof fn lemma_optional_reader(
    inner: JavaType,
    name: Seq<char>,
    depth: nat,
    x: JValue,
    rest: Seq<u8>,
)
    ensures
        ({
            let s = level_suffix(name, depth);
            let tag = "_tag_"@ + s;
            let iv = "_inner_"@ + s;
            exists|head: Seq<char>|
                dis_read_text(JavaType::Optional(Box::new(inner)), name, depth) == "int "@ + tag
                    + " = _dis.readUnsignedByte();"@ + head + tag + " != 0) {\n\t\t\t"@
                    + dis_read_text(inner, iv, depth + 1) + "\n\t\t\t"@ + name
                    + " = java.util.Optional.of("@ + iv + ")"@ + ";\n\t\t} else {\n\t\t\t"@
                    + name + " = java.util.Optional.empty()"@ + ";\n\t\t}"@
        }),
        dis_read_call(
            "readUnsignedByte"@,
            encode_element(JValue::Opt(None)) + rest,
            0,
        ) == Some((JValue::Int(0), 1int)),
        dis_read_call(
            "readUnsignedByte"@,
            encode_element(JValue::Opt(Some(Box::new(x)))) + rest,
            0,
        ) == Some((JValue::Int(1), 1int)),
{
    reveal_strlit(" = _dis.readUnsignedByte();\n\t\tjava.util.Optional<");
    reveal_strlit(" = _dis.readUnsignedByte();");
    reveal_strlit("\n\t\tjava.util.Optional<");
    reveal_strlit(");\n\t\t} else {\n\t\t\t");
    reveal_strlit(")");
    reveal_strlit(";\n\t\t} else {\n\t\t\t");
    reveal_strlit(" = java.util.Optional.empty();\n\t\t}");
    reveal_strlit(" = java.util.Optional.empty()");
    reveal_strlit(";\n\t\t}");
    reveal_strlit("readByte");
    reveal_strlit("readShort");
    reveal_strlit("readInt");
    reveal_strlit("readLong");
    reveal_strlit("readFloat");
    reveal_strlit("readDouble");
    reveal_strlit("readUnsignedByte");
    let s = level_suffix(name, depth);
    let tag = "_tag_"@ + s;
    let iv = "_inner_"@ + s;
    let ty = java_type_name(inner);
    let head = "\n\t\tjava.util.Optional<"@ + ty + "> "@ + name + ";\n\t\tif ("@;
    assert(" = _dis.readUnsignedByte();\n\t\tjava.util.Optional<"@ =~= " = _dis.readUnsignedByte();"@
        + "\n\t\tjava.util.Optional<"@);
    assert(");\n\t\t} else {\n\t\t\t"@ =~= ")"@ + ";\n\t\t} else {\n\t\t\t"@);
    assert(" = java.util.Optional.empty();\n\t\t}"@ =~= " = java.util.Optional.empty()"@
        + ";\n\t\t}"@);
    let a = "int "@ + tag;
    let r = dis_read_text(inner, iv, depth + 1);
    let body = dis_read_text(JavaType::Optional(Box::new(inner)), name, depth);
    assert(body == a + " = _dis.readUnsignedByte();\n\t\tjava.util.Optional<"@ + ty + "> "@ + name
        + ";\n\t\tif ("@ + tag + " != 0) {\n\t\t\t"@ + r + "\n\t\t\t"@ + name
        + " = java.util.Optional.of("@ + iv + ");\n\t\t} else {\n\t\t\t"@ + name
        + " = java.util.Optional.empty();\n\t\t}"@);
    assert(body =~= a + " = _dis.readUnsignedByte();"@ + head + tag + " != 0) {\n\t\t\t"@ + r
        + "\n\t\t\t"@ + name + " = java.util.Optional.of("@ + iv + ")"@
        + ";\n\t\t} else {\n\t\t\t"@ + name + " = java.util.Optional.empty()"@
        + ";\n\t\t}"@);
    let m = "readUnsignedByte"@;
    assert(m.len() == 16);
    assert(m != "readByte"@ && m != "readShort"@ && m != "readInt"@ && m != "readLong"@);
    assert(m != "readFloat"@ && m != "readDouble"@);
    let b0 = encode_element(JValue::Opt(None)) + rest;
    let b1 = encode_element(JValue::Opt(Some(Box::new(x)))) + rest;
    assert(b0[0] == 0u8);
    assert(b1[0] == 1u8);
}

/// The writer of a list or array result: it writes the number of items with
/// `writeInt`, four big-endian bytes as Rust reads a length, then visits the
/// items in their order (`for (T e : items)` goes through a list or an array
/// from the first item to the last) and writes each one.
pub proof fn lemma_container_writer_keeps_order(
    t: JavaType,
    var: Seq<char>,
    dos: Seq<char>,
    depth: nat,
    n: i32,
)
    requires
        t is Array || t is List,
    ensures
        ({
            let inner = match t {
                JavaType::Array(i) => *i,
                JavaType::List(i) => *i,
                _ => t,
            };
            let e = "_e"@ + decimal(depth as int);
            let count = if t is List {
                "("@ + var + ").size()"@
            } else {
                "("@ + var + ").length"@
            };
            ser_element_text(t, var, dos, depth) == dos + ".writeInt("@ + count
                + ");\n\t\t\tfor ("@ + java_type_name(inner) + " "@ + e + " : ("@ + var
                + ")) {\n\t\t\t\t"@ + ser_element_text(inner, e, dos, depth + 1) + "\n\t\t\t}"@
        }),
        dos_write_call("writeInt"@, JValue::Int(n)) == Some(be4(n as u32)),
{
    reveal_strlit(".writeInt((");
    reveal_strlit(".writeInt(");
    reveal_strlit("(");
    reveal_strlit(").size());\n\t\t\tfor (");
    reveal_strlit(").size()");
    reveal_strlit(").length);\n\t\t\tfor (");
    reveal_strlit(").length");
    reveal_strlit(");\n\t\t\tfor (");
    assert(".writeInt(("@ =~= ".writeInt("@ + "("@);
    assert(").size());\n\t\t\tfor ("@ =~= ").size()"@ + ");\n\t\t\tfor ("@);
    assert(").length);\n\t\t\tfor ("@ =~= ").length"@ + ");\n\t\t\tfor ("@);
    let e = "_e"@ + decimal(depth as int);
    match t {
        JavaType::Array(inner) => {
            assert(ser_element_text(t, var, dos, depth) == dos + ".writeInt(("@ + var
                + ").length);\n\t\t\tfor ("@ + java_type_name(*inner) + " "@ + e + " : ("@ + var
                + ")) {\n\t\t\t\t"@ + ser_element_text(*inner, e, dos, depth + 1) + "\n\t\t\t}"@);
            assert(ser_element_text(t, var, dos, depth) =~= dos + ".writeInt("@ + ("("@ + var
                + ").length"@) + ");\n\t\t\tfor ("@ + java_type_name(*inner) + " "@ + e + " : ("@
                + var + ")) {\n\t\t\t\t"@ + ser_element_text(*inner, e, dos, depth + 1)
                + "\n\t\t\t}"@);
        },
        JavaType::List(inner) => {
            assert(ser_element_text(t, var, dos, depth) == dos + ".writeInt(("@ + var
                + ").size());\n\t\t\tfor ("@ + java_type_name(*inner) + " "@ + e + " : ("@ + var
                + ")) {\n\t\t\t\t"@ + ser_element_text(*inner, e, dos, depth + 1) + "\n\t\t\t}"@);
            assert(ser_element_text(t, var, dos, depth) =~= dos + ".writeInt("@ + ("("@ + var
                + ").size()"@) + ");\n\t\t\tfor ("@ + java_type_name(*inner) + " "@ + e + " : ("@
                + var + ")) {\n\t\t\t\t"@ + ser_element_text(*inner, e, dos, depth + 1)
                + "\n\t\t\t}"@);
        },
        _ => {},
    }
}

} // verus!
