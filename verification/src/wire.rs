//! The binary wire format between Rust and the generated Java program.
//!
//! Java writes `run()`'s result to stdout with `DataOutputStream`, and Rust
//! writes the arguments of `run(..)` to the program's stdin in the same
//! element format, which Java reads back with `DataInputStream`:
//!
//! - a top-level `String` result: its raw UTF-8 bytes;
//! - a `String` inside a container, or as an argument: a 4-byte big-endian
//!   length, then its UTF-8 bytes;
//! - scalars: fixed-width big-endian bytes (`boolean` as one byte 0/1, `char`
//!   as one UTF-16 code unit);
//! - arrays and lists: a 4-byte big-endian count, then each element;
//! - `Optional`: a tag byte (0 absent, 1 present), then the element if present.
use vstd::prelude::*;
use vstd::utf8::{encode_utf8, decode_utf8, valid_utf8};
use crate::types::{ScalarEnc, BoxedType, JavaType, primitive_enc, boxed_enc};
use crate::value::{JValue, has_type, has_scalar_type, java_max_len, in_bmp};

verus! {

// ── Big-endian integers ──────────────────────────────────────────────────────

/// `x` as two big-endian bytes.
pub open spec fn be2(x: u16) -> Seq<u8> {
    seq![(x >> 8u16) as u8, (x & 0xffu16) as u8]
}

/// `x` as four big-endian bytes.
pub open spec fn be4(x: u32) -> Seq<u8> {
    seq![
        (x >> 24u32) as u8,
        ((x >> 16u32) & 0xffu32) as u8,
        ((x >> 8u32) & 0xffu32) as u8,
        (x & 0xffu32) as u8,
    ]
}

/// `x` as eight big-endian bytes.
pub open spec fn be8(x: u64) -> Seq<u8> {
    seq![
        (x >> 56u64) as u8,
        ((x >> 48u64) & 0xffu64) as u8,
        ((x >> 40u64) & 0xffu64) as u8,
        ((x >> 32u64) & 0xffu64) as u8,
        ((x >> 24u64) & 0xffu64) as u8,
        ((x >> 16u64) & 0xffu64) as u8,
        ((x >> 8u64) & 0xffu64) as u8,
        (x & 0xffu64) as u8,
    ]
}

/// The big-endian `u16` at `b[p..p + 2]`.
pub open spec fn u16_at(b: Seq<u8>, p: int) -> u16 {
    ((b[p] as u16) << 8u16) | (b[p + 1] as u16)
}

/// The big-endian `u32` at `b[p..p + 4]`.
pub open spec fn u32_at(b: Seq<u8>, p: int) -> u32 {
    ((b[p] as u32) << 24u32) | ((b[p + 1] as u32) << 16u32) | ((b[p + 2] as u32) << 8u32) | (b[p
        + 3] as u32)
}

/// The big-endian `u64` at `b[p..p + 8]`.
pub open spec fn u64_at(b: Seq<u8>, p: int) -> u64 {
    ((b[p] as u64) << 56u64) | ((b[p + 1] as u64) << 48u64) | ((b[p + 2] as u64) << 40u64) | ((b[p
        + 3] as u64) << 32u64) | ((b[p + 4] as u64) << 24u64) | ((b[p + 5] as u64) << 16u64) | ((b[p
        + 6] as u64) << 8u64) | (b[p + 7] as u64)
}

proof fn lemma_be2(x: u16, b: Seq<u8>, p: int)
    requires
        0 <= p,
        p + 2 <= b.len(),
        b.subrange(p, p + 2) == be2(x),
    ensures
        u16_at(b, p) == x,
{
    assert(b[p] == be2(x)[0] && b[p + 1] == be2(x)[1]);
    let b0 = b[p];
    let b1 = b[p + 1];
    assert(b0 == (x >> 8u16) as u8 && b1 == (x & 0xffu16) as u8 ==> ((b0 as u16) << 8u16) | (b1
        as u16) == x) by (bit_vector);
}

proof fn lemma_be4(x: u32, b: Seq<u8>, p: int)
    requires
        0 <= p,
        p + 4 <= b.len(),
        b.subrange(p, p + 4) == be4(x),
    ensures
        u32_at(b, p) == x,
{
    assert(b[p] == be4(x)[0] && b[p + 1] == be4(x)[1] && b[p + 2] == be4(x)[2] && b[p + 3] == be4(
        x,
    )[3]);
    let b0 = b[p];
    let b1 = b[p + 1];
    let b2 = b[p + 2];
    let b3 = b[p + 3];
    assert(b0 == (x >> 24u32) as u8 && b1 == ((x >> 16u32) & 0xffu32) as u8 && b2 == ((x >> 8u32)
        & 0xffu32) as u8 && b3 == (x & 0xffu32) as u8 ==> ((b0 as u32) << 24u32) | ((b1 as u32)
        << 16u32) | ((b2 as u32) << 8u32) | (b3 as u32) == x) by (bit_vector);
}

proof fn lemma_be8(x: u64, b: Seq<u8>, p: int)
    requires
        0 <= p,
        p + 8 <= b.len(),
        b.subrange(p, p + 8) == be8(x),
    ensures
        u64_at(b, p) == x,
{
    let e = be8(x);
    assert(b[p] == e[0] && b[p + 1] == e[1] && b[p + 2] == e[2] && b[p + 3] == e[3] && b[p + 4]
        == e[4] && b[p + 5] == e[5] && b[p + 6] == e[6] && b[p + 7] == e[7]);
    let b0 = b[p];
    let b1 = b[p + 1];
    let b2 = b[p + 2];
    let b3 = b[p + 3];
    let b4 = b[p + 4];
    let b5 = b[p + 5];
    let b6 = b[p + 6];
    let b7 = b[p + 7];
    assert(b0 == (x >> 56u64) as u8 && b1 == ((x >> 48u64) & 0xffu64) as u8 && b2 == ((x >> 40u64)
        & 0xffu64) as u8 && b3 == ((x >> 32u64) & 0xffu64) as u8 && b4 == ((x >> 24u64) & 0xffu64)
        as u8 && b5 == ((x >> 16u64) & 0xffu64) as u8 && b6 == ((x >> 8u64) & 0xffu64) as u8 && b7
        == (x & 0xffu64) as u8 ==> ((b0 as u64) << 56u64) | ((b1 as u64) << 48u64) | ((b2 as u64)
        << 40u64) | ((b3 as u64) << 32u64) | ((b4 as u64) << 24u64) | ((b5 as u64) << 16u64) | ((b6
        as u64) << 8u64) | (b7 as u64) == x) by (bit_vector);
}

// ── Encoding ─────────────────────────────────────────────────────────────────

/// The element encoding of a value: how it is written inside a container by
/// Java, and how Rust writes an argument to stdin.
pub open spec fn encode_element(v: JValue) -> Seq<u8>
    decreases v, 0int,
{
    match v {
        JValue::Byte(x) => seq![x as u8],
        JValue::Short(x) => be2(x as u16),
        JValue::Int(x) => be4(x as u32),
        JValue::Long(x) => be8(x as u64),
        JValue::Float(x) => be4(x),
        JValue::Double(x) => be8(x),
        JValue::Boolean(x) => seq![if x { 1u8 } else { 0u8 }],
        JValue::Char(c) => be2((c as u32) as u16),
        JValue::Str(s) => be4(encode_utf8(s).len() as u32) + encode_utf8(s),
        JValue::List(vs) => be4(vs.len() as u32) + encode_from(vs, 0),
        JValue::Opt(None) => seq![0u8],
        JValue::Opt(Some(x)) => seq![1u8] + encode_element(*x),
    }
}

/// The concatenated element encodings of `vs[i..]`.
pub open spec fn encode_from(vs: Seq<JValue>, i: int) -> Seq<u8>
    decreases vs, vs.len() - i,
{
    if 0 <= i < vs.len() {
        encode_element(vs[i]) + encode_from(vs, i + 1)
    } else {
        Seq::empty()
    }
}

/// What the generated Java program writes to stdout for a result `v` of
/// type `t`: a top-level `String` is written as raw UTF-8, anything else in
/// the element encoding.
pub open spec fn encode_output(t: JavaType, v: JValue) -> Seq<u8> {
    match v {
        JValue::Str(s) => if t == JavaType::Boxed(BoxedType::String) {
            encode_utf8(s)
        } else {
            encode_element(v)
        },
        _ => encode_element(v),
    }
}

// ── Decoding ─────────────────────────────────────────────────────────────────

/// Why well-framed bytes can still not be decoded.
pub enum FailKind {
    /// A string's bytes are not valid UTF-8.
    Utf8,
    /// A Java `char` is a lone surrogate, not a Unicode scalar value.
    Char,
}

/// The outcome of reading one item from a byte sequence.
pub enum Read<T> {
    /// The item, and the position just after it.
    Done(T, int),
    /// The bytes are framed correctly but hold an invalid string or char.
    Fail(FailKind),
    /// The bytes end too early or hold a negative length: the reader in
    /// `inline_java` indexes past the end of the output here and panics.
    Short,
}

/// Read one scalar of encoding `e` at position `p`.
pub open spec fn read_scalar(e: ScalarEnc, b: Seq<u8>, p: int) -> Read<JValue> {
    match e {
        ScalarEnc::Byte => if p + 1 <= b.len() {
            Read::Done(JValue::Byte(b[p] as i8), p + 1)
        } else {
            Read::Short
        },
        ScalarEnc::Short => if p + 2 <= b.len() {
            Read::Done(JValue::Short(u16_at(b, p) as i16), p + 2)
        } else {
            Read::Short
        },
        ScalarEnc::Int => if p + 4 <= b.len() {
            Read::Done(JValue::Int(u32_at(b, p) as i32), p + 4)
        } else {
            Read::Short
        },
        ScalarEnc::Long => if p + 8 <= b.len() {
            Read::Done(JValue::Long(u64_at(b, p) as i64), p + 8)
        } else {
            Read::Short
        },
        ScalarEnc::Float => if p + 4 <= b.len() {
            Read::Done(JValue::Float(u32_at(b, p)), p + 4)
        } else {
            Read::Short
        },
        ScalarEnc::Double => if p + 8 <= b.len() {
            Read::Done(JValue::Double(u64_at(b, p)), p + 8)
        } else {
            Read::Short
        },
        ScalarEnc::Boolean => if p + 1 <= b.len() {
            Read::Done(JValue::Boolean(b[p] != 0), p + 1)
        } else {
            Read::Short
        },
        ScalarEnc::Char => if p + 2 <= b.len() {
            let u = u16_at(b, p);
            if 0xd800 <= u <= 0xdfff {
                Read::Fail(FailKind::Char)
            } else {
                Read::Done(JValue::Char((u as u32) as char), p + 2)
            }
        } else {
            Read::Short
        },
        ScalarEnc::Str => if p + 4 <= b.len() {
            let n = u32_at(b, p) as int;
            if n > java_max_len() || p + 4 + n > b.len() {
                Read::Short
            } else {
                let s = b.subrange(p + 4, p + 4 + n);
                if valid_utf8(s) {
                    Read::Done(JValue::Str(decode_utf8(s)), p + 4 + n)
                } else {
                    Read::Fail(FailKind::Utf8)
                }
            }
        } else {
            Read::Short
        },
    }
}

/// Read one element of type `t` at position `p`.
pub open spec fn read_element(t: JavaType, b: Seq<u8>, p: int) -> Read<JValue>
    decreases t, 0int,
{
    match t {
        JavaType::Primitive(pt) => read_scalar(primitive_enc(pt), b, p),
        JavaType::Boxed(bt) => read_scalar(boxed_enc(bt), b, p),
        JavaType::Array(inner) => if p + 4 <= b.len() {
            let n = u32_at(b, p) as int;
            if n > java_max_len() {
                Read::Short
            } else {
                match read_elements(*inner, b, p + 4, n) {
                    Read::Done(vs, q) => Read::Done(JValue::List(vs), q),
                    Read::Fail(k) => Read::Fail(k),
                    Read::Short => Read::Short,
                }
            }
        } else {
            Read::Short
        },
        JavaType::List(inner) => if p + 4 <= b.len() {
            let n = u32_at(b, p) as int;
            if n > java_max_len() {
                Read::Short
            } else {
                match read_elements(*inner, b, p + 4, n) {
                    Read::Done(vs, q) => Read::Done(JValue::List(vs), q),
                    Read::Fail(k) => Read::Fail(k),
                    Read::Short => Read::Short,
                }
            }
        } else {
            Read::Short
        },
        JavaType::Optional(inner) => if p + 1 <= b.len() {
            if b[p] == 0 {
                Read::Done(JValue::Opt(None), p + 1)
            } else {
                match read_element(*inner, b, p + 1) {
                    Read::Done(x, q) => Read::Done(JValue::Opt(Some(Box::new(x))), q),
                    Read::Fail(k) => Read::Fail(k),
                    Read::Short => Read::Short,
                }
            }
        } else {
            Read::Short
        },
    }
}

/// Read `n` elements of type `t`, one after the other, starting at `p`.
pub open spec fn read_elements(t: JavaType, b: Seq<u8>, p: int, n: int) -> Read<Seq<JValue>>
    decreases t, n,
{
    if n <= 0 {
        Read::Done(Seq::empty(), p)
    } else {
        match read_element(t, b, p) {
            Read::Done(v, q) => prepend(seq![v], read_elements(t, b, q, n - 1)),
            Read::Fail(k) => Read::Fail(k),
            Read::Short => Read::Short,
        }
    }
}

/// `r` with `acc` put in front of the items it read.
pub open spec fn prepend(acc: Seq<JValue>, r: Read<Seq<JValue>>) -> Read<Seq<JValue>> {
    match r {
        Read::Done(vs, q) => Read::Done(acc + vs, q),
        Read::Fail(k) => Read::Fail(k),
        Read::Short => Read::Short,
    }
}

/// Decode the whole stdout of the generated Java program as a result of type
/// `t`: a top-level `String` is the raw UTF-8 text, anything else is read as
/// one element from the start (bytes after it are ignored).
pub open spec fn decode_output(t: JavaType, b: Seq<u8>) -> Read<JValue> {
    if t == JavaType::Boxed(BoxedType::String) {
        if valid_utf8(b) {
            Read::Done(JValue::Str(decode_utf8(b)), b.len() as int)
        } else {
            Read::Fail(FailKind::Utf8)
        }
    } else {
        read_element(t, b, 0)
    }
}

// ── Round trip ───────────────────────────────────────────────────────────────

proof fn lemma_encode_from_split(vs: Seq<JValue>, i: int)
    requires
        0 <= i < vs.len(),
    ensures
        encode_from(vs, i) == encode_element(vs[i]) + encode_from(vs, i + 1),
{
}

/// A buffer that holds `x + y` at `p` holds `x` at `p` and `y` right after it.
proof fn lemma_holds_split(b: Seq<u8>, p: int, x: Seq<u8>, y: Seq<u8>)
    requires
        0 <= p,
        p + x.len() + y.len() <= b.len(),
        b.subrange(p, p + x.len() + y.len()) == x + y,
    ensures
        b.subrange(p, p + x.len()) == x,
        b.subrange(p + x.len(), p + x.len() + y.len()) == y,
{
    assert forall|k: int| 0 <= k < x.len() implies #[trigger] b.subrange(p, p + x.len())[k]
        == x[k] by {
        assert(b.subrange(p, p + x.len() + y.len())[k] == (x + y)[k]);
    }
    assert forall|k: int| 0 <= k < y.len() implies #[trigger] b.subrange(
        p + x.len(),
        p + x.len() + y.len(),
    )[k] == y[k] by {
        assert(b.subrange(p, p + x.len() + y.len())[x.len() + k] == (x + y)[x.len() + k]);
        assert(b.subrange(p, p + x.len() + y.len())[x.len() + k] == b[p + x.len() + k]);
        assert(b.subrange(p + x.len(), p + x.len() + y.len())[k] == b[p + x.len() + k]);
    }
    assert(b.subrange(p, p + x.len()) =~= x);
    assert(b.subrange(p + x.len(), p + x.len() + y.len()) =~= y);
}

/// A buffer that holds `x` at `p` has `x[k]` at `p + k`.
proof fn lemma_holds_at(b: Seq<u8>, p: int, x: Seq<u8>, k: int)
    requires
        0 <= p,
        p + x.len() <= b.len(),
        b.subrange(p, p + x.len()) == x,
        0 <= k < x.len(),
    ensures
        b[p + k] == x[k],
{
    assert(b.subrange(p, p + x.len())[k] == b[p + k]);
}

/// Reading an element back from a buffer holding its encoding at `p`, whatever
/// follows it, gives back the element and the position just after it.
pub proof fn lemma_read_encoded_element(t: JavaType, v: JValue, b: Seq<u8>, p: int)
    requires
        has_type(v, t),
        0 <= p,
        p + encode_element(v).len() <= b.len(),
        b.subrange(p, p + encode_element(v).len()) == encode_element(v),
    ensures
        read_element(t, b, p) == Read::Done(v, p + encode_element(v).len()),
    decreases t, 1int, 0int,
{
    let e = encode_element(v);
    match t {
        JavaType::Primitive(pt) => {
            lemma_read_encoded_scalar(primitive_enc(pt), v, b, p);
        },
        JavaType::Boxed(bt) => {
            lemma_read_encoded_scalar(boxed_enc(bt), v, b, p);
        },
        JavaType::Array(inner) => {
            lemma_read_encoded_list(*inner, v, b, p);
        },
        JavaType::List(inner) => {
            lemma_read_encoded_list(*inner, v, b, p);
        },
        JavaType::Optional(inner) => {
            lemma_holds_at(b, p, e, 0);
            match v {
                JValue::Opt(Some(x)) => {
                    let ex = encode_element(*x);
                    lemma_holds_split(b, p, seq![1u8], ex);
                    lemma_read_encoded_element(*inner, *x, b, p + 1);
                },
                _ => {},
            }
        },
    }
}

proof fn lemma_read_encoded_scalar(enc: ScalarEnc, v: JValue, b: Seq<u8>, p: int)
    requires
        has_scalar_type(v, enc),
        0 <= p,
        p + encode_element(v).len() <= b.len(),
        b.subrange(p, p + encode_element(v).len()) == encode_element(v),
    ensures
        read_scalar(enc, b, p) == Read::Done(v, p + encode_element(v).len()),
{
    let e = encode_element(v);
    match v {
        JValue::Byte(x) => {
            lemma_holds_at(b, p, e, 0);
            assert((x as u8) as i8 == x) by (bit_vector);
        },
        JValue::Short(x) => {
            lemma_be2(x as u16, b, p);
            assert((x as u16) as i16 == x) by (bit_vector);
        },
        JValue::Int(x) => {
            lemma_be4(x as u32, b, p);
            assert((x as u32) as i32 == x) by (bit_vector);
        },
        JValue::Long(x) => {
            lemma_be8(x as u64, b, p);
            assert((x as u64) as i64 == x) by (bit_vector);
        },
        JValue::Float(x) => {
            lemma_be4(x, b, p);
        },
        JValue::Double(x) => {
            lemma_be8(x, b, p);
        },
        JValue::Boolean(x) => {
            lemma_holds_at(b, p, e, 0);
        },
        JValue::Char(c) => {
            let u = (c as u32) as u16;
            lemma_be2(u, b, p);
            let cu = c as u32;
            assert(cu <= 0xffff ==> (cu as u16) as u32 == cu) by (bit_vector);
            vstd::utf8::char_is_scalar(c);
            vstd::utf8::char_u32_cast(c, c as u32);
        },
        JValue::Str(s) => {
            let bytes = encode_utf8(s);
            let n = bytes.len();
            lemma_holds_split(b, p, be4(n as u32), bytes);
            lemma_be4(n as u32, b, p);
            assert((n as u32) as int == n);
            vstd::utf8::encode_utf8_valid_utf8(s);
            vstd::utf8::encode_utf8_decode_utf8(s);
        },
        _ => {},
    }
}

proof fn lemma_read_encoded_list(inner: JavaType, v: JValue, b: Seq<u8>, p: int)
    requires
        match v {
            JValue::List(vs) => vs.len() <= java_max_len() && forall|i: int|
                0 <= i < vs.len() ==> has_type(#[trigger] vs[i], inner),
            _ => false,
        },
        0 <= p,
        p + encode_element(v).len() <= b.len(),
        b.subrange(p, p + encode_element(v).len()) == encode_element(v),
    ensures
        read_element(JavaType::List(Box::new(inner)), b, p) == Read::Done(
            v,
            p + encode_element(v).len(),
        ),
        read_element(JavaType::Array(Box::new(inner)), b, p) == Read::Done(
            v,
            p + encode_element(v).len(),
        ),
    decreases inner, 3int, 0int,
{
    if let JValue::List(vs) = v {
        let n = vs.len();
        let body = encode_from(vs, 0);
        lemma_holds_split(b, p, be4(n as u32), body);
        lemma_be4(n as u32, b, p);
        assert((n as u32) as int == n);
        lemma_read_encoded_elements(inner, vs, 0, b, p + 4);
        assert(vs.subrange(0, n as int) =~= vs);
    }
}

/// Reading `vs[i..]` back from their concatenated encodings at `p`.
proof fn lemma_read_encoded_elements(inner: JavaType, vs: Seq<JValue>, i: int, b: Seq<u8>, p: int)
    requires
        0 <= i <= vs.len(),
        forall|j: int| 0 <= j < vs.len() ==> has_type(#[trigger] vs[j], inner),
        0 <= p,
        p + encode_from(vs, i).len() <= b.len(),
        b.subrange(p, p + encode_from(vs, i).len()) == encode_from(vs, i),
    ensures
        read_elements(inner, b, p, vs.len() - i) == Read::Done(
            vs.subrange(i, vs.len() as int),
            p + encode_from(vs, i).len(),
        ),
    decreases inner, 2int, vs.len() - i,
{
    if i < vs.len() {
        let ev = encode_element(vs[i]);
        let rest = encode_from(vs, i + 1);
        lemma_encode_from_split(vs, i);
        lemma_holds_split(b, p, ev, rest);
        lemma_read_encoded_element(inner, vs[i], b, p);
        lemma_read_encoded_elements(inner, vs, i + 1, b, p + ev.len());
        assert(seq![vs[i]] + vs.subrange(i + 1, vs.len() as int) =~= vs.subrange(
            i,
            vs.len() as int,
        ));
    } else {
        assert(vs.subrange(i, vs.len() as int) =~= Seq::<JValue>::empty());
    }
}

/// `encode_from(vs, 0)` ends with `encode_from(vs, i)`.
proof fn lemma_encode_from_suffix(vs: Seq<JValue>, i: int)
    requires
        0 <= i <= vs.len(),
    ensures
        encode_from(vs, i).len() <= encode_from(vs, 0).len(),
        encode_from(vs, 0).subrange(
            encode_from(vs, 0).len() - encode_from(vs, i).len(),
            encode_from(vs, 0).len() as int,
        ) == encode_from(vs, i),
    decreases i,
{
    let all = encode_from(vs, 0);
    if i == 0 {
        assert(all.subrange(0, all.len() as int) =~= all);
    } else {
        lemma_encode_from_suffix(vs, i - 1);
        lemma_encode_from_split(vs, i - 1);
        let prev = encode_from(vs, i - 1);
        let cur = encode_from(vs, i);
        let start = all.len() - prev.len();
        assert(all.subrange(all.len() - cur.len(), all.len() as int) =~= cur) by {
            assert forall|k: int| 0 <= k < cur.len() implies #[trigger] all.subrange(
                all.len() - cur.len(),
                all.len() as int,
            )[k] == cur[k] by {
                let off = prev.len() - cur.len();
                assert(all.subrange(start, all.len() as int)[off + k] == prev[off + k]);
            }
        }
    }
}

/// Where argument `i` starts in the stdin bytes of `vs`.
pub open spec fn arg_offset(vs: Seq<JValue>, i: int) -> int {
    encode_from(vs, 0).len() - encode_from(vs, i).len()
}

/// The arguments written to stdin are read back in order: reading argument
/// `i` with its type at its offset gives it back, and ends where argument
/// `i + 1` starts.
pub proof fn lemma_args_read_back(types: Seq<JavaType>, vals: Seq<JValue>, i: int)
    requires
        types.len() == vals.len(),
        forall|k: int| 0 <= k < vals.len() ==> has_type(#[trigger] vals[k], types[k]),
        0 <= i < vals.len(),
    ensures
        read_element(types[i], encode_from(vals, 0), arg_offset(vals, i)) == Read::Done(
            vals[i],
            arg_offset(vals, i + 1),
        ),
{
    let all = encode_from(vals, 0);
    let cur = encode_from(vals, i);
    lemma_encode_from_suffix(vals, i);
    lemma_encode_from_split(vals, i);
    let ev = encode_element(vals[i]);
    let rest = encode_from(vals, i + 1);
    let p = arg_offset(vals, i);
    lemma_holds_split(all, p, ev, rest);
    lemma_read_encoded_element(types[i], vals[i], all, p);
}

/// The wire format is faithful: decoding what the generated Java program
/// writes for a result `v` of type `t` gives back `v`.
pub proof fn lemma_decode_output_inverts_encode(t: JavaType, v: JValue)
    requires
        has_type(v, t),
    ensures
        decode_output(t, encode_output(t, v)) matches Read::Done(w, _) && w == v,
{
    let b = encode_output(t, v);
    if t == JavaType::Boxed(BoxedType::String) {
        if let JValue::Str(s) = v {
            vstd::utf8::encode_utf8_valid_utf8(s);
            vstd::utf8::encode_utf8_decode_utf8(s);
        }
    } else {
        assert(b == encode_element(v));
        assert(b.subrange(0, b.len() as int) =~= b);
        lemma_read_encoded_element(t, v, b, 0);
    }
}

// ── Decoded values are well typed ────────────────────────────────────────────

proof fn lemma_scalar_well_typed(e: ScalarEnc, b: Seq<u8>, p: int)
    requires
        0 <= p,
    ensures
        read_scalar(e, b, p) matches Read::Done(v, _) ==> has_scalar_type(v, e),
{
    if e == ScalarEnc::Char && p + 2 <= b.len() {
        let u = u16_at(b, p);
        if !(0xd800 <= u <= 0xdfff) {
            let c = (u as u32) as char;
            vstd::utf8::char_u32_cast(c, u as u32);
        }
    }
    if e == ScalarEnc::Str && p + 4 <= b.len() {
        let n = u32_at(b, p) as int;
        if n <= java_max_len() && p + 4 + n <= b.len() {
            let s = b.subrange(p + 4, p + 4 + n);
            if valid_utf8(s) {
                vstd::utf8::decode_utf8_encode_utf8(s);
            }
        }
    }
}

proof fn lemma_read_well_typed(t: JavaType, b: Seq<u8>, p: int)
    requires
        0 <= p,
    ensures
        read_element(t, b, p) matches Read::Done(v, _) ==> has_type(v, t),
    decreases t, 1int, 0int,
{
    match t {
        JavaType::Primitive(pt) => lemma_scalar_well_typed(primitive_enc(pt), b, p),
        JavaType::Boxed(bt) => lemma_scalar_well_typed(boxed_enc(bt), b, p),
        JavaType::Array(inner) => {
            if p + 4 <= b.len() {
                lemma_items_well_typed(*inner, b, p + 4, u32_at(b, p) as int);
            }
        },
        JavaType::List(inner) => {
            if p + 4 <= b.len() {
                lemma_items_well_typed(*inner, b, p + 4, u32_at(b, p) as int);
            }
        },
        JavaType::Optional(inner) => {
            if p + 1 <= b.len() && b[p] != 0 {
                lemma_read_well_typed(*inner, b, p + 1);
            }
        },
    }
}

proof fn lemma_items_well_typed(t: JavaType, b: Seq<u8>, p: int, n: int)
    requires
        0 <= p,
    ensures
        read_elements(t, b, p, n) matches Read::Done(vs, _) ==> vs.len() == (if n < 0 {
            0
        } else {
            n
        }) && forall|i: int| 0 <= i < vs.len() ==> has_type(#[trigger] vs[i], t),
    decreases t, 2int, n,
{
    if n > 0 {
        lemma_read_well_typed(t, b, p);
        if let Read::Done(v, q) = read_element(t, b, p) {
            lemma_read_done_position(t, b, p);
            lemma_items_well_typed(t, b, q, n - 1);
            if let Read::Done(rest, _) = read_elements(t, b, q, n - 1) {
                let all = seq![v] + rest;
                assert forall|i: int| 0 <= i < all.len() implies has_type(#[trigger] all[i], t) by {
                    if i > 0 {
                        assert(all[i] == rest[i - 1]);
                    }
                }
            }
        }
    }
}

/// Reading an element that starts at `p` ends at or after `p`.
pub proof fn lemma_read_done_position(t: JavaType, b: Seq<u8>, p: int)
    requires
        0 <= p,
    ensures
        read_element(t, b, p) matches Read::Done(_, q) ==> p <= q,
    decreases t, 1int, 0int,
{
    match t {
        JavaType::Array(inner) => {
            if p + 4 <= b.len() {
                lemma_items_done_position(*inner, b, p + 4, u32_at(b, p) as int);
            }
        },
        JavaType::List(inner) => {
            if p + 4 <= b.len() {
                lemma_items_done_position(*inner, b, p + 4, u32_at(b, p) as int);
            }
        },
        JavaType::Optional(inner) => {
            if p + 1 <= b.len() && b[p] != 0 {
                lemma_read_done_position(*inner, b, p + 1);
            }
        },
        _ => {},
    }
}

proof fn lemma_items_done_position(t: JavaType, b: Seq<u8>, p: int, n: int)
    requires
        0 <= p,
    ensures
        read_elements(t, b, p, n) matches Read::Done(_, q) ==> p <= q,
    decreases t, 2int, n,
{
    if n > 0 {
        lemma_read_done_position(t, b, p);
        if let Read::Done(_, q) = read_element(t, b, p) {
            lemma_items_done_position(t, b, q, n - 1);
        }
    }
}

/// What the runtime decodes is a value of the declared type (for a
/// top-level `String`, one no longer than Java allows): the Rust result has
/// the shape that the declared Java type maps to.
pub proof fn lemma_decoded_value_has_type(t: JavaType, b: Seq<u8>)
    ensures
        decode_output(t, b) matches Read::Done(v, _) ==> (t == JavaType::Boxed(BoxedType::String)
            && b.len() > java_max_len()) || has_type(v, t),
{
    if t == JavaType::Boxed(BoxedType::String) {
        if valid_utf8(b) {
            vstd::utf8::decode_utf8_encode_utf8(b);
        }
    } else {
        lemma_read_well_typed(t, b, 0);
    }
}

} // verus!
