//! Compile-time evaluation: turning the Java program's output into the Rust
//! literal that is spliced at the call site (`42`, `"hi"`, `[1, 2]`,
//! `::std::option::Option::Some(..)`, ...).
use vstd::prelude::*;
use vstd::utf8::{decode_utf8, valid_utf8, is_scalar};
use crate::types::{ScalarEnc, BoxedType, JavaType, primitive_enc, boxed_enc};
use crate::wire::{
    u16_at, u32_at, u64_at, Read, read_scalar, read_element, read_elements, decode_output,
    encode_output, lemma_decode_output_inverts_encode, lemma_read_done_position,
};
use crate::value::{JValue, has_type, java_max_len};
use crate::text::{decimal, hex_padded, comma_join, decimal_string, decimal_string_unsigned, hex_string, join_comma};
use crate::std_text::{char_debug_literal, str_debug_literal, debug_char, debug_str};

verus! {

/// The outcome of turning part of the Java output into literal text.
pub enum CtRead<T> {
    /// The literal(s), and the position just after the bytes they came from.
    Lit(T, int),
    /// A diagnostic.
    Diag(Seq<char>),
    /// The bytes make the expansion panic (a slice or an allocation out of
    /// range); the result is a failed expansion rather than a diagnostic.
    Abort,
}

/// The literal of one scalar of encoding `e` read at `b[p..]`.
pub open spec fn scalar_ct_lit(e: ScalarEnc, b: Seq<u8>, p: int) -> CtRead<Seq<char>> {
    let avail = b.len() - p;
    match e {
        ScalarEnc::Byte => if avail < 1 {
            CtRead::Diag("ct_java: truncated byte element"@)
        } else {
            CtRead::Lit(decimal((b[p] as i8) as int), p + 1)
        },
        ScalarEnc::Short => if avail < 2 {
            CtRead::Diag("ct_java: truncated short element"@)
        } else {
            CtRead::Lit(decimal((u16_at(b, p) as i16) as int), p + 2)
        },
        ScalarEnc::Int => if avail < 4 {
            CtRead::Abort
        } else {
            CtRead::Lit(decimal((u32_at(b, p) as i32) as int), p + 4)
        },
        ScalarEnc::Long => if avail < 8 {
            CtRead::Abort
        } else {
            CtRead::Lit(decimal((u64_at(b, p) as i64) as int), p + 8)
        },
        ScalarEnc::Float => if avail < 4 {
            CtRead::Abort
        } else {
            CtRead::Lit(
                "f32::from_bits(0x"@ + hex_padded(u32_at(b, p) as nat, 8) + "_u32)"@,
                p + 4,
            )
        },
        ScalarEnc::Double => if avail < 8 {
            CtRead::Abort
        } else {
            CtRead::Lit(
                "f64::from_bits(0x"@ + hex_padded(u64_at(b, p) as nat, 16) + "_u64)"@,
                p + 8,
            )
        },
        ScalarEnc::Boolean => if avail < 1 {
            CtRead::Diag("ct_java: truncated boolean element"@)
        } else {
            CtRead::Lit(
                if b[p] != 0 {
                    "true"@
                } else {
                    "false"@
                },
                p + 1,
            )
        },
        ScalarEnc::Char => if avail < 2 {
            CtRead::Diag("ct_java: truncated char element"@)
        } else {
            let u = u16_at(b, p) as u32;
            if is_scalar(u) {
                CtRead::Lit(char_debug_literal(u as char), p + 2)
            } else {
                CtRead::Diag("ct_java: Java char is not a valid Unicode scalar value"@)
            }
        },
        ScalarEnc::Str => if avail < 4 {
            CtRead::Diag("ct_java: truncated String length prefix"@)
        } else {
            let len = (u32_at(b, p) as i32) as usize;
            if len > usize::MAX - 4 {
                CtRead::Abort
            } else if avail < 4 + len {
                CtRead::Diag(
                    "ct_java: truncated String element (expected "@ + decimal(len as int)
                        + " bytes)"@,
                )
            } else {
                let s = b.subrange(p + 4, p + 4 + len);
                if valid_utf8(s) {
                    CtRead::Lit(str_debug_literal(decode_utf8(s)), p + 4 + len)
                } else {
                    CtRead::Diag("ct_java: String element is not valid UTF-8"@)
                }
            }
        },
    }
}

/// The literal of one value of type `t` read at `b[p..]`.
pub open spec fn ct_read(t: JavaType, b: Seq<u8>, p: int) -> CtRead<Seq<char>>
    decreases t, 0int,
{
    match t {
        JavaType::Primitive(pt) => scalar_ct_lit(primitive_enc(pt), b, p),
        JavaType::Boxed(bt) => scalar_ct_lit(boxed_enc(bt), b, p),
        JavaType::Array(inner) => ct_read_list(*inner, b, p),
        JavaType::List(inner) => ct_read_list(*inner, b, p),
        JavaType::Optional(inner) => if b.len() - p < 1 {
            CtRead::Diag("ct_java: optional output is empty"@)
        } else if b[p] == 0 {
            CtRead::Lit("::std::option::Option::None"@, p + 1)
        } else {
            match ct_read(*inner, b, p + 1) {
                CtRead::Lit(l, q) => CtRead::Lit(
                    "::std::option::Option::Some("@ + l + ")"@,
                    q,
                ),
                CtRead::Diag(m) => CtRead::Diag(m),
                CtRead::Abort => CtRead::Abort,
            }
        },
    }
}

/// The array literal of a list whose items have type `inner`, read at `b[p..]`.
pub open spec fn ct_read_list(inner: JavaType, b: Seq<u8>, p: int) -> CtRead<Seq<char>>
    decreases inner, 2int,
{
    if b.len() - p < 4 {
        CtRead::Diag("ct_java: array/list output too short (missing length)"@)
    } else {
        let n = u32_at(b, p) as i32;
        if n < 0 {
            CtRead::Abort
        } else {
            match ct_read_items(inner, b, p + 4, n as int) {
                CtRead::Lit(ls, q) => CtRead::Lit("["@ + comma_join(ls) + "]"@, q),
                CtRead::Diag(m) => CtRead::Diag(m),
                CtRead::Abort => CtRead::Abort,
            }
        }
    }
}

/// The literals of `n` values of type `t`, read one after the other at `b[p..]`.
pub open spec fn ct_read_items(t: JavaType, b: Seq<u8>, p: int, n: int) -> CtRead<Seq<Seq<char>>>
    decreases t, 1int, n,
{
    if n <= 0 {
        CtRead::Lit(Seq::empty(), p)
    } else {
        match ct_read(t, b, p) {
            CtRead::Lit(l, q) => match ct_read_items(t, b, q, n - 1) {
                CtRead::Lit(ls, r) => CtRead::Lit(seq![l] + ls, r),
                CtRead::Diag(m) => CtRead::Diag(m),
                CtRead::Abort => CtRead::Abort,
            },
            CtRead::Diag(m) => CtRead::Diag(m),
            CtRead::Abort => CtRead::Abort,
        }
    }
}

/// The literal spliced at a `ct_java!` call site for Java output `b` of a
/// result of type `t`.
pub open spec fn ct_java_literal(t: JavaType, b: Seq<u8>) -> CtRead<Seq<char>> {
    match t {
        JavaType::Boxed(BoxedType::String) => if valid_utf8(b) {
            CtRead::Lit(str_debug_literal(decode_utf8(b)), b.len() as int)
        } else {
            CtRead::Diag("ct_java: Java String is not valid UTF-8"@)
        },
        _ => ct_read(t, b, 0),
    }
}

// ── Executable ───────────────────────────────────────────────────────────────

/// The outcome of turning part of the Java output into literal text.
pub enum CtStep {
    Lit(String, usize),
    Diag(String),
    Abort,
}

/// The outcome of turning several values into literal texts.
pub enum CtItems {
    Lits(Vec<String>, usize),
    Diag(String),
    Abort,
}

/// Whether an executable literal outcome is the modelled one.
pub open spec fn ct_step_matches(r: CtStep, s: CtRead<Seq<char>>) -> bool {
    match (r, s) {
        (CtStep::Lit(l, q), CtRead::Lit(m, p)) => l@ == m && q as int == p,
        (CtStep::Diag(d), CtRead::Diag(m)) => d@ == m,
        (CtStep::Abort, CtRead::Abort) => true,
        _ => false,
    }
}

/// Whether an executable outcome for several literals is the modelled one.
pub open spec fn ct_items_match(r: CtItems, s: CtRead<Seq<Seq<char>>>) -> bool {
    match (r, s) {
        (CtItems::Lits(ls, q), CtRead::Lit(ms, p)) => Seq::new(ls@.len(), |k: int| ls@[k]@) == ms
            && q as int == p,
        (CtItems::Diag(d), CtRead::Diag(m)) => d@ == m,
        (CtItems::Abort, CtRead::Abort) => true,
        _ => false,
    }
}

fn be_u16(b: &[u8], p: usize) -> (r: u16)
    requires
        p + 2 <= b@.len(),
    ensures
        r == u16_at(b@, p as int),
{
    ((b[p] as u16) << 8u16) | (b[p + 1] as u16)
}

fn be_u32(b: &[u8], p: usize) -> (r: u32)
    requires
        p + 4 <= b@.len(),
    ensures
        r == u32_at(b@, p as int),
{
    ((b[p] as u32) << 24u32) | ((b[p + 1] as u32) << 16u32) | ((b[p + 2] as u32) << 8u32) | (b[p
        + 3] as u32)
}

fn be_u64(b: &[u8], p: usize) -> (r: u64)
    requires
        p + 8 <= b@.len(),
    ensures
        r == u64_at(b@, p as int),
{
    ((b[p] as u64) << 56u64) | ((b[p + 1] as u64) << 48u64) | ((b[p + 2] as u64) << 40u64) | ((b[p
        + 3] as u64) << 32u64) | ((b[p + 4] as u64) << 24u64) | ((b[p + 5] as u64) << 16u64) | ((b[p
        + 6] as u64) << 8u64) | (b[p + 7] as u64)
}

/// Turn one scalar of encoding `enc`, read at `b[p..]`, into a Rust literal.
pub fn scalar_enc_ct_lit(enc: ScalarEnc, b: &[u8], p: usize) -> (r: CtStep)
    requires
        p <= b@.len(),
    ensures
        ct_step_matches(r, scalar_ct_lit(enc, b@, p as int)),
        r matches CtStep::Lit(_, q) ==> q <= b@.len(),
{
    let avail = b.len() - p;
    match enc {
        ScalarEnc::Byte => if avail < 1 {
            CtStep::Diag("ct_java: truncated byte element".to_owned())
        } else {
            CtStep::Lit(decimal_string((b[p] as i8) as i64), p + 1)
        },
        ScalarEnc::Short => if avail < 2 {
            CtStep::Diag("ct_java: truncated short element".to_owned())
        } else {
            CtStep::Lit(decimal_string((be_u16(b, p) as i16) as i64), p + 2)
        },
        ScalarEnc::Int => if avail < 4 {
            CtStep::Abort
        } else {
            CtStep::Lit(decimal_string((be_u32(b, p) as i32) as i64), p + 4)
        },
        ScalarEnc::Long => if avail < 8 {
            CtStep::Abort
        } else {
            CtStep::Lit(decimal_string(be_u64(b, p) as i64), p + 8)
        },
        ScalarEnc::Float => if avail < 4 {
            CtStep::Abort
        } else {
            let mut s = "f32::from_bits(0x".to_owned();
            s.append(hex_string(be_u32(b, p) as u64, 8).as_str());
            s.append("_u32)");
            CtStep::Lit(s, p + 4)
        },
        ScalarEnc::Double => if avail < 8 {
            CtStep::Abort
        } else {
            let mut s = "f64::from_bits(0x".to_owned();
            s.append(hex_string(be_u64(b, p), 16).as_str());
            s.append("_u64)");
            CtStep::Lit(s, p + 8)
        },
        ScalarEnc::Boolean => if avail < 1 {
            CtStep::Diag("ct_java: truncated boolean element".to_owned())
        } else {
            CtStep::Lit(
                if b[p] != 0 {
                    "true".to_owned()
                } else {
                    "false".to_owned()
                },
                p + 1,
            )
        },
        ScalarEnc::Char => if avail < 2 {
            CtStep::Diag("ct_java: truncated char element".to_owned())
        } else {
            let u = be_u16(b, p) as u32;
            match core::char::from_u32(u) {
                Some(c) => {
                    proof {
                        vstd::utf8::char_u32_cast(c, u);
                    }
                    CtStep::Lit(debug_char(c), p + 2)
                },
                None => CtStep::Diag(
                    "ct_java: Java char is not a valid Unicode scalar value".to_owned(),
                ),
            }
        },
        ScalarEnc::Str => if avail < 4 {
            CtStep::Diag("ct_java: truncated String length prefix".to_owned())
        } else {
            let len = (be_u32(b, p) as i32) as usize;
            if len > usize::MAX - 4 {
                CtStep::Abort
            } else if avail < 4 + len {
                let mut m = "ct_java: truncated String element (expected ".to_owned();
                m.append(decimal_string_unsigned(len as u64).as_str());
                m.append(" bytes)");
                CtStep::Diag(m)
            } else {
                let bytes = vstd::slice::slice_to_vec(
                    vstd::slice::slice_subrange(b, p + 4, p + 4 + len),
                );
                match String::from_utf8(bytes) {
                    Ok(s) => CtStep::Lit(debug_str(s.as_str()), p + 4 + len),
                    Err(_) => CtStep::Diag("ct_java: String element is not valid UTF-8".to_owned()),
                }
            }
        },
    }
}

/// Turn one value of type `ty`, read at `b[p..]`, into a Rust literal.
pub fn ct_java_tokens_recursive(ty: &JavaType, b: &[u8], p: usize) -> (r: CtStep)
    requires
        p <= b@.len(),
    ensures
        ct_step_matches(r, ct_read(*ty, b@, p as int)),
        r matches CtStep::Lit(_, q) ==> q <= b@.len(),
    decreases ty, 0int,
{
    match ty {
        JavaType::Primitive(pt) => scalar_enc_ct_lit(pt.enc(), b, p),
        JavaType::Boxed(bt) => scalar_enc_ct_lit(bt.enc(), b, p),
        JavaType::Array(inner) | JavaType::List(inner) => ct_list(inner, b, p),
        JavaType::Optional(inner) => {
            if b.len() - p < 1 {
                CtStep::Diag("ct_java: optional output is empty".to_owned())
            } else if b[p] == 0 {
                CtStep::Lit("::std::option::Option::None".to_owned(), p + 1)
            } else {
                match ct_java_tokens_recursive(inner, b, p + 1) {
                    CtStep::Lit(l, q) => {
                        let mut s = "::std::option::Option::Some(".to_owned();
                        s.append(l.as_str());
                        s.append(")");
                        CtStep::Lit(s, q)
                    },
                    CtStep::Diag(m) => CtStep::Diag(m),
                    CtStep::Abort => CtStep::Abort,
                }
            }
        },
    }
}

fn ct_list(inner: &JavaType, b: &[u8], p: usize) -> (r: CtStep)
    requires
        p <= b@.len(),
    ensures
        ct_step_matches(r, ct_read_list(*inner, b@, p as int)),
        r matches CtStep::Lit(_, q) ==> q <= b@.len(),
    decreases inner, 2int,
{
    if b.len() - p < 4 {
        return CtStep::Diag("ct_java: array/list output too short (missing length)".to_owned());
    }
    let n = be_u32(b, p) as i32;
    if n < 0 {
        return CtStep::Abort;
    }
    match ct_items(inner, b, p + 4, n as u32) {
        CtItems::Lits(ls, q) => {
            let mut s = "[".to_owned();
            s.append(join_comma(&ls).as_str());
            s.append("]");
            CtStep::Lit(s, q)
        },
        CtItems::Diag(m) => CtStep::Diag(m),
        CtItems::Abort => CtStep::Abort,
    }
}

fn ct_items(inner: &JavaType, b: &[u8], p: usize, n: u32) -> (r: CtItems)
    requires
        p <= b@.len(),
    ensures
        ct_items_match(r, ct_read_items(*inner, b@, p as int, n as int)),
        r matches CtItems::Lits(_, q) ==> q <= b@.len(),
    decreases inner, 1int, n,
{
    let mut ls: Vec<String> = Vec::new();
    let mut q = p;
    let mut i: u32 = 0;
    while i < n
        invariant
            i <= n,
            q <= b@.len(),
            ct_read_items(*inner, b@, p as int, n as int) == ct_prepend(
                Seq::new(ls@.len(), |k: int| ls@[k]@),
                ct_read_items(*inner, b@, q as int, (n - i) as int),
            ),
        decreases n - i,
    {
        let ghost acc = Seq::new(ls@.len(), |k: int| ls@[k]@);
        match ct_java_tokens_recursive(inner, b, q) {
            CtStep::Lit(l, q2) => {
                proof {
                    let rest = ct_read_items(*inner, b@, q2 as int, (n - i - 1) as int);
                    if let CtRead::Lit(xs, _) = rest {
                        assert(acc + (seq![l@] + xs) =~= acc.push(l@) + xs);
                    }
                }
                ls.push(l);
                proof {
                    assert(Seq::new(ls@.len(), |k: int| ls@[k]@) =~= acc.push(ls@[ls@.len() - 1]@));
                }
                q = q2;
            },
            CtStep::Diag(m) => {
                return CtItems::Diag(m);
            },
            CtStep::Abort => {
                return CtItems::Abort;
            },
        }
        i = i + 1;
    }
    proof {
        let acc = Seq::new(ls@.len(), |k: int| ls@[k]@);
        assert(acc + Seq::<Seq<char>>::empty() =~= acc);
    }
    CtItems::Lits(ls, q)
}

/// `r` with `acc` put in front of the literals it holds.
pub open spec fn ct_prepend(acc: Seq<Seq<char>>, r: CtRead<Seq<Seq<char>>>) -> CtRead<
    Seq<Seq<char>>,
> {
    match r {
        CtRead::Lit(ls, q) => CtRead::Lit(acc + ls, q),
        CtRead::Diag(m) => CtRead::Diag(m),
        CtRead::Abort => CtRead::Abort,
    }
}

impl JavaType {
    /// Whether turning the Java output `bytes` into a literal of this type
    /// makes the expansion panic.
    pub fn ct_output_aborts(&self, bytes: &Vec<u8>) -> (r: bool)
        ensures
            r == (ct_java_literal(*self, bytes@) is Abort),
    {
        match self {
            JavaType::Boxed(BoxedType::String) => false,
            _ => match ct_java_tokens_recursive(self, bytes.as_slice(), 0) {
                CtStep::Abort => true,
                _ => false,
            },
        }
    }

    /// The Rust literal that a `ct_java!` call site becomes, for the Java
    /// program's output `bytes`; `Err` holds the diagnostic.
    pub fn ct_java_tokens(&self, bytes: Vec<u8>) -> (r: Result<String, String>)
        requires
            !(ct_java_literal(*self, bytes@) is Abort),
        ensures
            match ct_java_literal(*self, bytes@) {
                CtRead::Lit(l, _) => r matches Ok(s) && s@ == l,
                CtRead::Diag(m) => r matches Err(d) && d@ == m,
                CtRead::Abort => false,
            },
    {
        match self {
            JavaType::Boxed(BoxedType::String) => match String::from_utf8(bytes) {
                Ok(s) => Ok(debug_str(s.as_str())),
                Err(_) => Err("ct_java: Java String is not valid UTF-8".to_owned()),
            },
            _ => match ct_java_tokens_recursive(self, bytes.as_slice(), 0) {
                CtStep::Lit(l, _) => Ok(l),
                CtStep::Diag(m) => Err(m),
                CtStep::Abort => vstd::pervasive::unreached(),
            },
        }
    }
}

// ── Agreement with the runtime decoding ──────────────────────────────────────

/// The Rust literal of a value, as `ct_java!` splices it: integers in
/// decimal, floats by their bit patterns, chars and strings as Rust
/// literals, lists as arrays, optionals as `Option` paths.
pub open spec fn rust_literal(v: JValue) -> Seq<char>
    decreases v,
{
    match v {
        JValue::Byte(x) => decimal(x as int),
        JValue::Short(x) => decimal(x as int),
        JValue::Int(x) => decimal(x as int),
        JValue::Long(x) => decimal(x as int),
        JValue::Float(x) => "f32::from_bits(0x"@ + hex_padded(x as nat, 8) + "_u32)"@,
        JValue::Double(x) => "f64::from_bits(0x"@ + hex_padded(x as nat, 16) + "_u64)"@,
        JValue::Boolean(x) => if x {
            "true"@
        } else {
            "false"@
        },
        JValue::Char(c) => char_debug_literal(c),
        JValue::Str(s) => str_debug_literal(s),
        JValue::List(vs) => "["@ + comma_join(rust_literals(vs)) + "]"@,
        JValue::Opt(None) => "::std::option::Option::None"@,
        JValue::Opt(Some(x)) => "::std::option::Option::Some("@ + rust_literal(*x) + ")"@,
    }
}

/// The literals of the values `vs`, in order.
pub open spec fn rust_literals(vs: Seq<JValue>) -> Seq<Seq<char>>
    decreases vs,
{
    if vs.len() == 0 {
        Seq::empty()
    } else {
        seq![rust_literal(vs[0])] + rust_literals(vs.drop_first())
    }
}

proof fn lemma_scalar_agrees(e: ScalarEnc, b: Seq<u8>, p: int)
    requires
        0 <= p,
    ensures
        read_scalar(e, b, p) matches Read::Done(v, q) ==> scalar_ct_lit(e, b, p) == CtRead::Lit(
            rust_literal(v),
            q,
        ),
{
    if e == ScalarEnc::Str && p + 4 <= b.len() {
        let x = u32_at(b, p);
        assert(x <= 0x7fff_ffff ==> ((x as i32) as usize) as int == x as int) by (bit_vector);
    }
}

proof fn lemma_ct_read_agrees(t: JavaType, b: Seq<u8>, p: int)
    requires
        0 <= p,
    ensures
        read_element(t, b, p) matches Read::Done(v, q) ==> ct_read(t, b, p) == CtRead::Lit(
            rust_literal(v),
            q,
        ),
    decreases t, 1int, 0int,
{
    match t {
        JavaType::Primitive(pt) => lemma_scalar_agrees(primitive_enc(pt), b, p),
        JavaType::Boxed(bt) => lemma_scalar_agrees(boxed_enc(bt), b, p),
        JavaType::Array(inner) => lemma_list_agrees(*inner, b, p),
        JavaType::List(inner) => lemma_list_agrees(*inner, b, p),
        JavaType::Optional(inner) => {
            if p + 1 <= b.len() && b[p] != 0 {
                lemma_ct_read_agrees(*inner, b, p + 1);
            }
        },
    }
}

proof fn lemma_list_agrees(inner: JavaType, b: Seq<u8>, p: int)
    requires
        0 <= p,
    ensures
        read_element(JavaType::List(Box::new(inner)), b, p) matches Read::Done(v, q)
            ==> ct_read_list(inner, b, p) == CtRead::Lit(rust_literal(v), q),
        read_element(JavaType::Array(Box::new(inner)), b, p) matches Read::Done(v, q)
            ==> ct_read_list(inner, b, p) == CtRead::Lit(rust_literal(v), q),
    decreases inner, 3int, 0int,
{
    if p + 4 <= b.len() {
        let x = u32_at(b, p);
        let n = x as int;
        if n <= java_max_len() {
            assert(x <= 0x7fff_ffff ==> (x as i32) as int == x as int) by (bit_vector);
            lemma_items_agree(inner, b, p + 4, n);
        }
    }
}

proof fn lemma_items_agree(t: JavaType, b: Seq<u8>, p: int, n: int)
    requires
        0 <= p,
    ensures
        read_elements(t, b, p, n) matches Read::Done(vs, q) ==> ct_read_items(t, b, p, n)
            == CtRead::Lit(rust_literals(vs), q),
    decreases t, 2int, n,
{
    if n <= 0 {
        assert(rust_literals(Seq::<JValue>::empty()) =~= Seq::<Seq<char>>::empty());
    } else {
        lemma_ct_read_agrees(t, b, p);
        if let Read::Done(v, q) = read_element(t, b, p) {
            lemma_read_done_position(t, b, p);
            lemma_items_agree(t, b, q, n - 1);
            if let Read::Done(rest, r) = read_elements(t, b, q, n - 1) {
                assert((seq![v] + rest).drop_first() =~= rest);
            }
        }
    }
}

/// `ct_java!` and `java!` agree: for any output of the generated Java
/// program that the runtime decodes to a value, the literal that `ct_java!`
/// splices is that value's Rust literal.
pub proof fn lemma_ct_java_agrees_with_runtime(t: JavaType, b: Seq<u8>)
    ensures
        decode_output(t, b) matches Read::Done(v, _) ==> ct_java_literal(t, b) matches CtRead::Lit(
            l,
            _,
        ) && l == rust_literal(v),
{
    if t != JavaType::Boxed(BoxedType::String) {
        lemma_ct_read_agrees(t, b, 0);
    }
}

/// `ct_java!` splices the value that `run()` returns as a Rust literal: for
/// the output the generated program writes for a result `v` of type `t`, the
/// spliced literal is `v`'s literal.
pub proof fn lemma_ct_java_literal_of_result(t: JavaType, v: JValue)
    requires
        has_type(v, t),
    ensures
        ct_java_literal(t, encode_output(t, v)) matches CtRead::Lit(l, _) && l == rust_literal(v),
{
    lemma_decode_output_inverts_encode(t, v);
    lemma_ct_java_agrees_with_runtime(t, encode_output(t, v));
}

/// How many bytes the encoding of a scalar of encoding `e` at `b[p..]` takes:
/// one for a byte or a boolean, two for a short or a char, four for an int or
/// a float, eight for a long or a double, and for a string four and the
/// length that those four bytes give.
pub open spec fn scalar_width(e: ScalarEnc, b: Seq<u8>, p: int) -> int {
    match e {
        ScalarEnc::Byte | ScalarEnc::Boolean => 1,
        ScalarEnc::Short | ScalarEnc::Char => 2,
        ScalarEnc::Int | ScalarEnc::Float => 4,
        ScalarEnc::Long | ScalarEnc::Double => 8,
        ScalarEnc::Str => 4 + ((u32_at(b, p) as i32) as usize) as int,
    }
}

/// A scalar's literal takes exactly the bytes of its encoding, and the bytes
/// after them do not change it.
pub proof fn lemma_scalar_literal_width(e: ScalarEnc, b: Seq<u8>, p: int, extra: Seq<u8>)
    requires
        0 <= p <= b.len(),
    ensures
        scalar_ct_lit(e, b, p) matches CtRead::Lit(l, q) ==> {
            &&& q == p + scalar_width(e, b, p)
            &&& q <= b.len()
            &&& scalar_ct_lit(e, b + extra, p) == CtRead::Lit(l, q)
        },
{
    let c = b + extra;
    if let CtRead::Lit(l, q) = scalar_ct_lit(e, b, p) {
        assert(forall|k: int| 0 <= k < b.len() ==> #[trigger] c[k] == b[k]);
        match e {
            ScalarEnc::Byte | ScalarEnc::Boolean => {
                assert(c[p] == b[p]);
            },
            ScalarEnc::Short | ScalarEnc::Char => {
                assert(c[p] == b[p] && c[p + 1] == b[p + 1]);
                assert(u16_at(c, p) == u16_at(b, p));
            },
            ScalarEnc::Int | ScalarEnc::Float => {
                assert(c[p] == b[p] && c[p + 1] == b[p + 1] && c[p + 2] == b[p + 2] && c[p + 3]
                    == b[p + 3]);
                assert(u32_at(c, p) == u32_at(b, p));
            },
            ScalarEnc::Long | ScalarEnc::Double => {
                assert(c[p] == b[p] && c[p + 1] == b[p + 1] && c[p + 2] == b[p + 2] && c[p + 3]
                    == b[p + 3] && c[p + 4] == b[p + 4] && c[p + 5] == b[p + 5] && c[p + 6] == b[p
                    + 6] && c[p + 7] == b[p + 7]);
                assert(u64_at(c, p) == u64_at(b, p));
            },
            ScalarEnc::Str => {
                assert(c[p] == b[p] && c[p + 1] == b[p + 1] && c[p + 2] == b[p + 2] && c[p + 3]
                    == b[p + 3]);
                assert(u32_at(c, p) == u32_at(b, p));
                let len = (u32_at(b, p) as i32) as usize;
                assert(c.subrange(p + 4, p + 4 + len) =~= b.subrange(p + 4, p + 4 + len));
            },
        }
    }
}

} // verus!
