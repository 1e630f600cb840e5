//! Executable encoding of arguments and decoding of results, following the
//! wire format of [`crate::wire`].
use vstd::prelude::*;
use vstd::utf8::{encode_utf8, decode_utf8, valid_utf8, is_scalar};
use crate::types::{ScalarEnc, BoxedType, JavaType, primitive_enc, boxed_enc};
use crate::value::{JavaValue, JValue, value_view, in_bmp, java_max_len, has_type};
use crate::wire::{
    be2, be4, be8, u16_at, u32_at, u64_at, encode_element, encode_from, read_scalar,
    read_element, read_elements, prepend, decode_output, FailKind, Read,
};
use crate::error::JavaError;

verus! {

// ── Shapes ───────────────────────────────────────────────────────────────────

/// Whether `v` has the shape of scalar encoding `e` and, for a `char`, fits
/// in one UTF-16 code unit.
pub open spec fn scalar_accepts(e: ScalarEnc, v: JValue) -> bool {
    match (e, v) {
        (ScalarEnc::Byte, JValue::Byte(_)) => true,
        (ScalarEnc::Short, JValue::Short(_)) => true,
        (ScalarEnc::Int, JValue::Int(_)) => true,
        (ScalarEnc::Long, JValue::Long(_)) => true,
        (ScalarEnc::Float, JValue::Float(_)) => true,
        (ScalarEnc::Double, JValue::Double(_)) => true,
        (ScalarEnc::Boolean, JValue::Boolean(_)) => true,
        (ScalarEnc::Char, JValue::Char(c)) => in_bmp(c),
        (ScalarEnc::Str, JValue::Str(_)) => true,
        _ => false,
    }
}

/// Whether `v` can be passed as an argument of Java type `t`: it has the
/// shape of the Rust parameter type, and every `char` in it fits in one
/// UTF-16 code unit (a wider `char` cannot be passed).
pub open spec fn accepts(t: JavaType, v: JValue) -> bool
    decreases t,
{
    match t {
        JavaType::Primitive(p) => scalar_accepts(primitive_enc(p), v),
        JavaType::Boxed(b) => scalar_accepts(boxed_enc(b), v),
        JavaType::Array(inner) => match v {
            JValue::List(vs) => forall|i: int| 0 <= i < vs.len() ==> accepts(*inner, #[trigger] vs[i]),
            _ => false,
        },
        JavaType::List(inner) => match v {
            JValue::List(vs) => forall|i: int| 0 <= i < vs.len() ==> accepts(*inner, #[trigger] vs[i]),
            _ => false,
        },
        JavaType::Optional(inner) => match v {
            JValue::Opt(None) => true,
            JValue::Opt(Some(x)) => accepts(*inner, *x),
            _ => false,
        },
    }
}

// ── Big-endian helpers ───────────────────────────────────────────────────────

fn push_be2(out: &mut Vec<u8>, x: u16)
    ensures
        final(out)@ == old(out)@ + be2(x),
{
    out.push((x >> 8u16) as u8);
    out.push((x & 0xffu16) as u8);
    assert(final(out)@ =~= old(out)@ + be2(x));
}

fn push_be4(out: &mut Vec<u8>, x: u32)
    ensures
        final(out)@ == old(out)@ + be4(x),
{
    out.push((x >> 24u32) as u8);
    out.push(((x >> 16u32) & 0xffu32) as u8);
    out.push(((x >> 8u32) & 0xffu32) as u8);
    out.push((x & 0xffu32) as u8);
    assert(final(out)@ =~= old(out)@ + be4(x));
}

fn push_be8(out: &mut Vec<u8>, x: u64)
    ensures
        final(out)@ == old(out)@ + be8(x),
{
    out.push((x >> 56u64) as u8);
    out.push(((x >> 48u64) & 0xffu64) as u8);
    out.push(((x >> 40u64) & 0xffu64) as u8);
    out.push(((x >> 32u64) & 0xffu64) as u8);
    out.push(((x >> 24u64) & 0xffu64) as u8);
    out.push(((x >> 16u64) & 0xffu64) as u8);
    out.push(((x >> 8u64) & 0xffu64) as u8);
    out.push((x & 0xffu64) as u8);
    assert(final(out)@ =~= old(out)@ + be8(x));
}

fn read_u16(b: &[u8], p: usize) -> (r: u16)
    requires
        p + 2 <= b@.len(),
    ensures
        r == u16_at(b@, p as int),
{
    ((b[p] as u16) << 8u16) | (b[p + 1] as u16)
}

fn read_u32(b: &[u8], p: usize) -> (r: u32)
    requires
        p + 4 <= b@.len(),
    ensures
        r == u32_at(b@, p as int),
{
    ((b[p] as u32) << 24u32) | ((b[p + 1] as u32) << 16u32) | ((b[p + 2] as u32) << 8u32) | (b[p
        + 3] as u32)
}

fn read_u64(b: &[u8], p: usize) -> (r: u64)
    requires
        p + 8 <= b@.len(),
    ensures
        r == u64_at(b@, p as int),
{
    ((b[p] as u64) << 56u64) | ((b[p + 1] as u64) << 48u64) | ((b[p + 2] as u64) << 40u64) | ((b[p
        + 3] as u64) << 32u64) | ((b[p + 4] as u64) << 24u64) | ((b[p + 5] as u64) << 16u64) | ((b[p
        + 6] as u64) << 8u64) | (b[p + 7] as u64)
}

// ── Encoding (Rust → Java) ───────────────────────────────────────────────────

/// Append the element encoding of one scalar argument.
pub fn scalar_enc_ser(enc: ScalarEnc, v: &JavaValue, out: &mut Vec<u8>)
    requires
        scalar_accepts(enc, v@),
    ensures
        final(out)@ == old(out)@ + encode_element(v@),
{
    match v {
        JavaValue::Byte(x) => {
            out.push(*x as u8);
            assert(final(out)@ =~= old(out)@ + encode_element(v@));
        },
        JavaValue::Short(x) => push_be2(out, *x as u16),
        JavaValue::Int(x) => push_be4(out, *x as u32),
        JavaValue::Long(x) => push_be8(out, *x as u64),
        JavaValue::Float(x) => push_be4(out, *x),
        JavaValue::Double(x) => push_be8(out, *x),
        JavaValue::Boolean(x) => {
            out.push(if *x { 1u8 } else { 0u8 });
            assert(final(out)@ =~= old(out)@ + encode_element(v@));
        },
        JavaValue::Char(c) => {
            let code = *c as u32;
            push_be2(out, code as u16);
        },
        JavaValue::Str(s) => {
            let bytes = s.as_str().as_bytes();
            push_be4(out, bytes.len() as u32);
            let mut i: usize = 0;
            let ghost mid = out@;
            while i < bytes.len()
                invariant
                    i <= bytes@.len(),
                    bytes@ == encode_utf8(s@),
                    out@ == mid + bytes@.subrange(0, i as int),
                decreases bytes@.len() - i,
            {
                out.push(bytes[i]);
                i = i + 1;
                assert(out@ =~= mid + bytes@.subrange(0, i as int));
            }
            assert(bytes@.subrange(0, bytes@.len() as int) =~= bytes@);
            assert(final(out)@ =~= old(out)@ + encode_element(v@));
        },
        _ => {},
    }
}

impl JavaType {
    /// Append the encoding of argument `v` of this type to `out`: what is
    /// written to the Java program's stdin for it.
    pub fn rust_ser(&self, v: &JavaValue, out: &mut Vec<u8>)
        requires
            accepts(*self, v@),
        ensures
            final(out)@ == old(out)@ + encode_element(v@),
        decreases self, 1int,
    {
        match self {
            JavaType::Primitive(p) => scalar_enc_ser(p.enc(), v, out),
            JavaType::Boxed(b) => scalar_enc_ser(b.enc(), v, out),
            JavaType::Array(inner) | JavaType::List(inner) => {
                if let JavaValue::List(vs) = v {
                    proof {
                        let items = Seq::new(vs@.len(), |k: int| vs@[k]@);
                        assert(v@ == JValue::List(items)) by {
                            assert(v@->List_0 =~= items);
                        }
                        assert forall|k: int| 0 <= k < vs@.len() implies accepts(
                            **inner,
                            #[trigger] vs@[k]@,
                        ) by {
                            assert(items[k] == vs@[k]@);
                        }
                    }
                    ser_items(inner, vs, out);
                }
            },
            JavaType::Optional(inner) => {
                if let JavaValue::Opt(o) = v {
                    match o {
                        None => {
                            out.push(0u8);
                            assert(final(out)@ =~= old(out)@ + encode_element(v@));
                        },
                        Some(x) => {
                            out.push(1u8);
                            let ghost mid = out@;
                            inner.rust_ser(&**x, out);
                            assert(final(out)@ =~= old(out)@ + encode_element(v@));
                        },
                    }
                }
            },
        }
    }
}

/// Append the encoding of a list argument whose items have type `inner`: a
/// 4-byte big-endian count, then each item.
fn ser_items(inner: &JavaType, vs: &Vec<JavaValue>, out: &mut Vec<u8>)
    requires
        forall|k: int| 0 <= k < vs@.len() ==> accepts(*inner, #[trigger] vs@[k]@),
    ensures
        final(out)@ == old(out)@ + be4(vs@.len() as u32) + encode_from(
            Seq::new(vs@.len(), |k: int| vs@[k]@),
            0,
        ),
    decreases inner, 2int,
{
    let ghost items = Seq::new(vs@.len(), |k: int| vs@[k]@);
    push_be4(out, vs.len() as u32);
    let ghost target = out@ + encode_from(items, 0);
    let mut i: usize = 0;
    while i < vs.len()
        invariant
            i <= vs@.len(),
            items == Seq::new(vs@.len(), |k: int| vs@[k]@),
            forall|k: int| 0 <= k < vs@.len() ==> accepts(*inner, #[trigger] vs@[k]@),
            out@ + encode_from(items, i as int) == target,
        decreases vs@.len() - i,
    {
        let ghost before = out@;
        assert(encode_from(items, i as int) == encode_element(items[i as int]) + encode_from(
            items,
            i + 1,
        ));
        inner.rust_ser(&vs[i], out);
        assert(out@ + encode_from(items, i + 1) =~= before + encode_from(items, i as int));
        i = i + 1;
    }
    assert(encode_from(items, i as int) =~= Seq::<u8>::empty());
    assert(out@ =~= target);
}

// ── Decoding (Java → Rust) ───────────────────────────────────────────────────

/// The outcome of reading one value from the Java program's output.
pub enum Decoded {
    /// The value, and the position just after it.
    Value(JavaValue, usize),
    /// The bytes are framed correctly but hold an invalid string or char.
    Failed(JavaError),
    /// The output ends too early (or holds a negative length).
    Truncated,
}

/// The outcome of reading several values one after the other.
pub enum DecodedItems {
    Values(Vec<JavaValue>, usize),
    Failed(JavaError),
    Truncated,
}

/// Whether error `e` is the one that failure `k` is reported as.
pub open spec fn error_is(e: JavaError, k: FailKind) -> bool {
    match k {
        FailKind::Utf8 => e is InvalidUtf8,
        FailKind::Char => e is InvalidChar,
    }
}

/// Whether an executable decoding outcome is the modelled one.
pub open spec fn decoded_matches(r: Decoded, s: Read<JValue>) -> bool {
    match (r, s) {
        (Decoded::Value(v, q), Read::Done(w, p)) => v@ == w && q as int == p,
        (Decoded::Failed(e), Read::Fail(k)) => error_is(e, k),
        (Decoded::Truncated, Read::Short) => true,
        _ => false,
    }
}

/// Whether an executable outcome of decoding several values is the modelled
/// one.
pub open spec fn items_match(r: DecodedItems, s: Read<Seq<JValue>>) -> bool {
    match (r, s) {
        (DecodedItems::Values(vs, q), Read::Done(ws, p)) => Seq::new(vs@.len(), |k: int| vs@[k]@)
            == ws && q as int == p,
        (DecodedItems::Failed(e), Read::Fail(k)) => error_is(e, k),
        (DecodedItems::Truncated, Read::Short) => true,
        _ => false,
    }
}

/// Read one scalar of encoding `enc` at position `p` of `b`.
pub fn scalar_enc_read_element(enc: ScalarEnc, b: &[u8], p: usize) -> (r: Decoded)
    requires
        p <= b@.len(),
    ensures
        decoded_matches(r, read_scalar(enc, b@, p as int)),
        r matches Decoded::Value(_, q) ==> q <= b@.len(),
{
    let avail = b.len() - p;
    match enc {
        ScalarEnc::Byte => if avail >= 1 {
            Decoded::Value(JavaValue::Byte(b[p] as i8), p + 1)
        } else {
            Decoded::Truncated
        },
        ScalarEnc::Short => if avail >= 2 {
            Decoded::Value(JavaValue::Short(read_u16(b, p) as i16), p + 2)
        } else {
            Decoded::Truncated
        },
        ScalarEnc::Int => if avail >= 4 {
            Decoded::Value(JavaValue::Int(read_u32(b, p) as i32), p + 4)
        } else {
            Decoded::Truncated
        },
        ScalarEnc::Long => if avail >= 8 {
            Decoded::Value(JavaValue::Long(read_u64(b, p) as i64), p + 8)
        } else {
            Decoded::Truncated
        },
        ScalarEnc::Float => if avail >= 4 {
            Decoded::Value(JavaValue::Float(read_u32(b, p)), p + 4)
        } else {
            Decoded::Truncated
        },
        ScalarEnc::Double => if avail >= 8 {
            Decoded::Value(JavaValue::Double(read_u64(b, p)), p + 8)
        } else {
            Decoded::Truncated
        },
        ScalarEnc::Boolean => if avail >= 1 {
            Decoded::Value(JavaValue::Boolean(b[p] != 0), p + 1)
        } else {
            Decoded::Truncated
        },
        ScalarEnc::Char => if avail >= 2 {
            let u = read_u16(b, p);
            match core::char::from_u32(u as u32) {
                Some(c) => {
                    proof {
                        vstd::utf8::char_u32_cast(c, u as u32);
                    }
                    Decoded::Value(JavaValue::Char(c), p + 2)
                },
                None => Decoded::Failed(JavaError::InvalidChar),
            }
        } else {
            Decoded::Truncated
        },
        ScalarEnc::Str => if avail >= 4 {
            let n = read_u32(b, p);
            if n > 0x7fff_ffffu32 || n as usize > avail - 4 {
                Decoded::Truncated
            } else {
                let start = p + 4;
                let end = start + n as usize;
                let bytes = vstd::slice::slice_to_vec(vstd::slice::slice_subrange(b, start, end));
                match String::from_utf8(bytes) {
                    Ok(s) => Decoded::Value(JavaValue::Str(s), end),
                    Err(e) => Decoded::Failed(JavaError::InvalidUtf8(e)),
                }
            }
        } else {
            Decoded::Truncated
        },
    }
}

impl JavaType {
    /// Read one value of this type at position `p` of `b`: how the generated
    /// Rust code reads an element of a container from the Java output.
    pub fn rust_read_element(&self, b: &[u8], p: usize) -> (r: Decoded)
        requires
            p <= b@.len(),
        ensures
            decoded_matches(r, read_element(*self, b@, p as int)),
            r matches Decoded::Value(_, q) ==> q <= b@.len(),
        decreases self, 1int,
    {
        match self {
            JavaType::Primitive(pt) => scalar_enc_read_element(pt.enc(), b, p),
            JavaType::Boxed(bt) => scalar_enc_read_element(bt.enc(), b, p),
            JavaType::Array(inner) | JavaType::List(inner) => {
                if b.len() - p < 4 {
                    return Decoded::Truncated;
                }
                let n = read_u32(b, p);
                if n > 0x7fff_ffffu32 {
                    return Decoded::Truncated;
                }
                match read_items(inner, b, p + 4, n) {
                    DecodedItems::Values(vs, q) => {
                        let r = JavaValue::List(vs);
                        proof {
                            assert(r@->List_0 =~= Seq::new(vs@.len(), |k: int| vs@[k]@));
                        }
                        Decoded::Value(r, q)
                    },
                    DecodedItems::Failed(e) => Decoded::Failed(e),
                    DecodedItems::Truncated => Decoded::Truncated,
                }
            },
            JavaType::Optional(inner) => {
                if b.len() - p < 1 {
                    return Decoded::Truncated;
                }
                if b[p] == 0 {
                    Decoded::Value(JavaValue::Opt(None), p + 1)
                } else {
                    match inner.rust_read_element(b, p + 1) {
                        Decoded::Value(x, q) => Decoded::Value(JavaValue::Opt(Some(Box::new(x))), q),
                        Decoded::Failed(e) => Decoded::Failed(e),
                        Decoded::Truncated => Decoded::Truncated,
                    }
                }
            },
        }
    }
}

proof fn lemma_prepend_push(acc: Seq<JValue>, v: JValue, r: Read<Seq<JValue>>)
    ensures
        prepend(acc, prepend(seq![v], r)) == prepend(acc.push(v), r),
{
    if let Read::Done(xs, q) = r {
        assert(acc + (seq![v] + xs) =~= acc.push(v) + xs);
    }
}

/// Read `n` values of type `inner`, one after the other, starting at `p`.
fn read_items(inner: &JavaType, b: &[u8], p: usize, n: u32) -> (r: DecodedItems)
    requires
        p <= b@.len(),
    ensures
        items_match(r, read_elements(*inner, b@, p as int, n as int)),
        r matches DecodedItems::Values(_, q) ==> q <= b@.len(),
    decreases inner, 2int,
{
    let mut vs: Vec<JavaValue> = Vec::new();
    let mut q = p;
    let mut i: u32 = 0;
    while i < n
        invariant
            i <= n,
            q <= b@.len(),
            read_elements(*inner, b@, p as int, n as int) == prepend(
                Seq::new(vs@.len(), |k: int| vs@[k]@),
                read_elements(*inner, b@, q as int, (n - i) as int),
            ),
        decreases n - i,
    {
        let ghost acc = Seq::new(vs@.len(), |k: int| vs@[k]@);
        match inner.rust_read_element(b, q) {
            Decoded::Value(v, q2) => {
                proof {
                    lemma_prepend_push(acc, v@, read_elements(*inner, b@, q2 as int, (n - i - 1) as int));
                }
                vs.push(v);
                proof {
                    assert(Seq::new(vs@.len(), |k: int| vs@[k]@) =~= acc.push(v@));
                }
                q = q2;
            },
            Decoded::Failed(e) => {
                return DecodedItems::Failed(e);
            },
            Decoded::Truncated => {
                return DecodedItems::Truncated;
            },
        }
        i = i + 1;
    }
    proof {
        let acc = Seq::new(vs@.len(), |k: int| vs@[k]@);
        assert(acc + Seq::<JValue>::empty() =~= acc);
    }
    DecodedItems::Values(vs, q)
}

/// Decode a top-level scalar result from the start of the Java output.
pub fn scalar_enc_top_deser(enc: ScalarEnc, raw: &[u8]) -> (r: Decoded)
    ensures
        decoded_matches(r, read_scalar(enc, raw@, 0)),
{
    scalar_enc_read_element(enc, raw, 0)
}

impl JavaType {
    /// Whether the Java output `raw` holds a whole result of this type; where
    /// it does not, decoding it would read past its end.
    pub fn output_is_complete(&self, raw: &Vec<u8>) -> (r: bool)
        ensures
            r == !(decode_output(*self, raw@) is Short),
    {
        match self {
            JavaType::Boxed(BoxedType::String) => true,
            _ => match self.rust_read_element(raw.as_slice(), 0) {
                Decoded::Truncated => false,
                _ => true,
            },
        }
    }

    /// Decode the whole stdout of the generated Java program as a result of
    /// this type.
    pub fn rust_deser(&self, raw: Vec<u8>) -> (r: Result<JavaValue, JavaError>)
        requires
            !(decode_output(*self, raw@) is Short),
        ensures
            match decode_output(*self, raw@) {
                Read::Done(v, _) => r matches Ok(x) && x@ == v,
                Read::Fail(k) => r matches Err(e) && error_is(e, k),
                Read::Short => false,
            },
    {
        match self {
            JavaType::Boxed(BoxedType::String) => match String::from_utf8(raw) {
                Ok(s) => Ok(JavaValue::Str(s)),
                Err(e) => Err(JavaError::InvalidUtf8(e)),
            },
            _ => {
                let r = match self {
                    JavaType::Primitive(pt) => scalar_enc_top_deser(pt.enc(), raw.as_slice()),
                    JavaType::Boxed(bt) => scalar_enc_top_deser(bt.enc(), raw.as_slice()),
                    _ => self.rust_read_element(raw.as_slice(), 0),
                };
                match r {
                    Decoded::Value(v, _) => Ok(v),
                    Decoded::Failed(e) => Err(e),
                    Decoded::Truncated => vstd::pervasive::unreached(),
                }
            },
        }
    }
}

// ── Arguments ────────────────────────────────────────────────────────────────

/// Whether scalar `v` has the shape of encoding `enc` (and a `char` fits in
/// one UTF-16 code unit).
pub fn scalar_enc_accepts(enc: ScalarEnc, v: &JavaValue) -> (r: bool)
    ensures
        r == scalar_accepts(enc, v@),
{
    match (enc, v) {
        (ScalarEnc::Byte, JavaValue::Byte(_)) => true,
        (ScalarEnc::Short, JavaValue::Short(_)) => true,
        (ScalarEnc::Int, JavaValue::Int(_)) => true,
        (ScalarEnc::Long, JavaValue::Long(_)) => true,
        (ScalarEnc::Float, JavaValue::Float(_)) => true,
        (ScalarEnc::Double, JavaValue::Double(_)) => true,
        (ScalarEnc::Boolean, JavaValue::Boolean(_)) => true,
        (ScalarEnc::Char, JavaValue::Char(c)) => (*c as u32) <= 0xffff,
        (ScalarEnc::Str, JavaValue::Str(_)) => true,
        _ => false,
    }
}

impl JavaType {
    /// Whether `v` can be passed as an argument of this type.
    pub fn accepts(&self, v: &JavaValue) -> (r: bool)
        ensures
            r == accepts(*self, v@),
        decreases self, 1int,
    {
        match self {
            JavaType::Primitive(p) => scalar_enc_accepts(p.enc(), v),
            JavaType::Boxed(b) => scalar_enc_accepts(b.enc(), v),
            JavaType::Array(inner) | JavaType::List(inner) => match v {
                JavaValue::List(vs) => {
                    let r = accepts_items(inner, vs);
                    proof {
                        let items = Seq::new(vs@.len(), |k: int| vs@[k]@);
                        assert(v@->List_0 =~= items);
                        if r {
                            assert forall|k: int| 0 <= k < items.len() implies accepts(
                                **inner,
                                #[trigger] items[k],
                            ) by {
                                assert(items[k] == vs@[k]@);
                            }
                        } else {
                            let k = choose|k: int| 0 <= k < vs@.len() && !accepts(**inner, #[trigger] vs@[k]@);
                            assert(items[k] == vs@[k]@);
                        }
                    }
                    r
                },
                _ => false,
            },
            JavaType::Optional(inner) => match v {
                JavaValue::Opt(None) => true,
                JavaValue::Opt(Some(x)) => inner.accepts(&**x),
                _ => false,
            },
        }
    }
}

/// Whether every item of `vs` can be passed as an argument of type `inner`.
fn accepts_items(inner: &JavaType, vs: &Vec<JavaValue>) -> (r: bool)
    ensures
        r == forall|k: int| 0 <= k < vs@.len() ==> accepts(*inner, #[trigger] vs@[k]@),
    decreases inner, 2int,
{
    let mut i: usize = 0;
    while i < vs.len()
        invariant
            i <= vs@.len(),
            forall|k: int| 0 <= k < i ==> accepts(*inner, #[trigger] vs@[k]@),
        decreases vs@.len() - i,
    {
        if !inner.accepts(&vs[i]) {
            return false;
        }
        i = i + 1;
    }
    true
}

/// Whether `args` can be passed to a `run` method with parameters `params`.
pub open spec fn args_accepted(params: Seq<(JavaType, String)>, args: Seq<JValue>) -> bool {
    &&& args.len() == params.len()
    &&& forall|i: int| 0 <= i < args.len() ==> accepts(params[i].0, #[trigger] args[i])
}

/// Whether `args` can be passed to `run` with parameters `params`.
pub fn check_args(params: &Vec<(JavaType, String)>, args: &Vec<JavaValue>) -> (r: bool)
    ensures
        r == args_accepted(params@, Seq::new(args@.len(), |k: int| args@[k]@)),
{
    if params.len() != args.len() {
        return false;
    }
    let ghost vals = Seq::new(args@.len(), |k: int| args@[k]@);
    let mut i: usize = 0;
    while i < args.len()
        invariant
            i <= args@.len(),
            args@.len() == params@.len(),
            vals == Seq::new(args@.len(), |k: int| args@[k]@),
            forall|k: int| 0 <= k < i ==> accepts(params@[k].0, #[trigger] vals[k]),
        decreases args@.len() - i,
    {
        if !params[i].0.accepts(&args[i]) {
            assert(vals[i as int] == args@[i as int]@);
            return false;
        }
        i = i + 1;
    }
    true
}

/// The bytes written to the Java program's stdin for the arguments `args` of
/// `run(..)`: each argument's element encoding, in order.
pub fn encode_args(params: &Vec<(JavaType, String)>, args: &Vec<JavaValue>) -> (stdin: Vec<u8>)
    requires
        args_accepted(params@, Seq::new(args@.len(), |k: int| args@[k]@)),
    ensures
        stdin@ == encode_from(Seq::new(args@.len(), |k: int| args@[k]@), 0),
{
    let ghost vals = Seq::new(args@.len(), |k: int| args@[k]@);
    let mut stdin: Vec<u8> = Vec::new();
    let mut i: usize = 0;
    while i < args.len()
        invariant
            i <= args@.len(),
            args@.len() == params@.len(),
            vals == Seq::new(args@.len(), |k: int| args@[k]@),
            forall|k: int| 0 <= k < args@.len() ==> accepts(params@[k].0, #[trigger] vals[k]),
            stdin@ + encode_from(vals, i as int) == encode_from(vals, 0),
        decreases args@.len() - i,
    {
        let ghost before = stdin@;
        assert(encode_from(vals, i as int) == encode_element(vals[i as int]) + encode_from(
            vals,
            i + 1,
        ));
        assert(accepts(params@[i as int].0, vals[i as int]));
        params[i].0.rust_ser(&args[i], &mut stdin);
        assert(stdin@ + encode_from(vals, i + 1) =~= before + encode_from(vals, i as int));
        i = i + 1;
    }
    assert(encode_from(vals, i as int) =~= Seq::<u8>::empty());
    assert(stdin@ =~= encode_from(vals, 0));
    stdin
}

/// A value of a Java type can be passed as an argument of that type; in
/// particular, what one snippet returns can be handed to another.
pub proof fn lemma_typed_values_are_accepted(t: JavaType, v: JValue)
    requires
        has_type(v, t),
    ensures
        accepts(t, v),
    decreases t,
{
    match t {
        JavaType::Array(inner) => {
            if let JValue::List(vs) = v {
                assert forall|i: int| 0 <= i < vs.len() implies accepts(*inner, #[trigger] vs[i]) by {
                    lemma_typed_values_are_accepted(*inner, vs[i]);
                }
            }
        },
        JavaType::List(inner) => {
            if let JValue::List(vs) = v {
                assert forall|i: int| 0 <= i < vs.len() implies accepts(*inner, #[trigger] vs[i]) by {
                    lemma_typed_values_are_accepted(*inner, vs[i]);
                }
            }
        },
        JavaType::Optional(inner) => {
            if let JValue::Opt(Some(x)) = v {
                lemma_typed_values_are_accepted(*inner, *x);
            }
        },
        _ => {},
    }
}

} // verus!
