//! Parsing the Java body of a macro invocation: the type and parameters of
//! `run`, the `import`/`package` directives, and the leading options.
use vstd::prelude::*;
use crate::tokens::{Token, TokenKind, TokV, KindV, Delimiter, token_view, tokens_view, is_ident, is_punct, is_empty_brackets};
use crate::types::{
    JavaType, PrimitiveType, BoxedType, primitive_from_name, boxed_from_name, type_height, params_fit,
    primitive_java_name, boxed_java_name, java_type_name,
};
use crate::external::{string_literal_value, string_lit_value};

verus! {

// ── Types ────────────────────────────────────────────────────────────────────

/// Whether `ts` starts with the qualifier `java.util.`.
pub open spec fn has_java_util_prefix(ts: Seq<TokV>) -> bool {
    &&& ts.len() >= 4
    &&& is_ident(ts[0], "java"@)
    &&& is_punct(ts[1], '.')
    &&& is_ident(ts[2], "util"@)
    &&& is_punct(ts[3], '.')
}

/// The number of consecutive empty `[]` groups in `ts` from index `i` on.
pub open spec fn count_brackets(ts: Seq<TokV>, i: int) -> nat
    decreases ts.len() - i,
{
    if 0 <= i < ts.len() && is_empty_brackets(ts[i]) {
        1 + count_brackets(ts, i + 1)
    } else {
        0
    }
}

/// `t` wrapped in `k` array levels.
pub open spec fn wrap_arrays(t: JavaType, k: nat) -> JavaType
    decreases k,
{
    if k == 0 {
        t
    } else {
        JavaType::Array(Box::new(wrap_arrays(t, (k - 1) as nat)))
    }
}

/// A parse result: a type and the number of tokens it took, or a message.
pub type TypeParse = Result<(JavaType, int), Seq<char>>;

/// Parse a Java type at the start of `ts`.
///
/// Recognises a primitive name or `String`, each followed by any number of
/// `[]`; `List<T>` and `Optional<T>` (optionally qualified by `java.util.`),
/// whose argument `T` is parsed by [`parsed_java_type_inner`].
pub open spec fn parsed_java_type(ts: Seq<TokV>) -> TypeParse
    decreases ts.len(),
{
    if ts.len() == 0 {
        Err("inline_java: unexpected end of tokens while parsing Java type"@)
    } else {
        let offset: int = if has_java_util_prefix(ts) {
            4
        } else {
            0
        };
        let rest = ts.skip(offset);
        if rest.len() > 0 && rest[0].kind is Ident {
            let name = rest[0].text;
            if name == "List"@ || name == "Optional"@ {
                if !(rest.len() > 1 && is_punct(rest[1], '<')) {
                    Err("inline_java: expected `<` after `"@ + name + "`"@)
                } else {
                    match parsed_java_type_inner(rest.skip(2)) {
                        Err(e) => Err(e),
                        Ok((inner, c)) => {
                            let close = 2 + c;
                            if !(0 <= close < rest.len() && is_punct(rest[close], '>')) {
                                Err("inline_java: expected `>` to close `"@ + name + "<...>`"@)
                            } else if name == "List"@ {
                                Ok((JavaType::List(Box::new(inner)), offset + close + 1))
                            } else {
                                Ok((JavaType::Optional(Box::new(inner)), offset + close + 1))
                            }
                        },
                    }
                }
            } else if primitive_from_name(name) is None && name != "String"@ {
                Err(
                    "inline_java: `"@ + name
                        + "` is not a supported Java type; scalar types: byte short int long float double boolean char String"@,
                )
            } else {
                let base = match primitive_from_name(name) {
                    Some(p) => JavaType::Primitive(p),
                    None => JavaType::Boxed(BoxedType::String),
                };
                let k = count_brackets(rest, 1);
                Ok((wrap_arrays(base, k), offset + 1 + k))
            }
        } else {
            Err("inline_java: expected a Java type name"@)
        }
    }
}

/// Parse a type argument (inside `<>`) at the start of `ts`: like
/// [`parsed_java_type`], but scalar names are boxed (`Integer`, or a primitive
/// name mapped to its boxed type).
pub open spec fn parsed_java_type_inner(ts: Seq<TokV>) -> TypeParse
    decreases ts.len(),
{
    if ts.len() == 0 {
        Err("inline_java: unexpected end of tokens while parsing Java type argument"@)
    } else {
        let offset: int = if has_java_util_prefix(ts) {
            4
        } else {
            0
        };
        let rest = ts.skip(offset);
        if rest.len() > 0 && rest[0].kind is Ident {
            let name = rest[0].text;
            if name == "List"@ || name == "Optional"@ {
                if !(rest.len() > 1 && is_punct(rest[1], '<')) {
                    Err("inline_java: expected `<` after `"@ + name + "`"@)
                } else {
                    match parsed_java_type_inner(rest.skip(2)) {
                        Err(e) => Err(e),
                        Ok((inner, c)) => {
                            let close = 2 + c;
                            if !(0 <= close < rest.len() && is_punct(rest[close], '>')) {
                                Err("inline_java: expected `>` to close `"@ + name + "<...>`"@)
                            } else if name == "List"@ {
                                Ok((JavaType::List(Box::new(inner)), offset + close + 1))
                            } else {
                                Ok((JavaType::Optional(Box::new(inner)), offset + close + 1))
                            }
                        },
                    }
                }
            } else {
                match boxed_from_name(name) {
                    None => Err(
                        "inline_java: `"@ + name
                            + "` is not a supported Java type argument; supported: Byte Short Integer Long Float Double Boolean Character String (or primitive names)"@,
                    ),
                    Some(b) => {
                        let k = count_brackets(rest, 1);
                        Ok((wrap_arrays(JavaType::Boxed(b), k), offset + 1 + k))
                    },
                }
            }
        } else {
            Err("inline_java: expected a Java type name inside `<>`"@)
        }
    }
}

/// Whether an executable parse result is the modelled one.
pub open spec fn type_parse_matches(r: Result<(JavaType, usize), String>, s: TypeParse) -> bool {
    match (r, s) {
        (Ok((t, n)), Ok((u, m))) => t == u && n as int == m,
        (Err(e), Err(m)) => e@ == m,
        _ => false,
    }
}

proof fn lemma_tokens_view_subrange(ts: Seq<Token>, a: int, b: int)
    requires
        0 <= a <= b <= ts.len(),
    ensures
        tokens_view(ts.subrange(a, b)) == tokens_view(ts).subrange(a, b),
{
    assert(tokens_view(ts.subrange(a, b)) =~= tokens_view(ts).subrange(a, b));
}

proof fn lemma_count_brackets_bound(ts: Seq<TokV>, i: int)
    requires
        0 <= i <= ts.len(),
    ensures
        count_brackets(ts, i) <= ts.len() - i,
    decreases ts.len() - i,
{
    if i < ts.len() && is_empty_brackets(ts[i]) {
        lemma_count_brackets_bound(ts, i + 1);
    }
}

proof fn lemma_wrap_height(t: JavaType, k: nat)
    ensures
        type_height(wrap_arrays(t, k)) == type_height(t) + k,
    decreases k,
{
    if k > 0 {
        lemma_wrap_height(t, (k - 1) as nat);
    }
}

/// A parsed type is nested less deeply than the number of tokens it took,
/// and it took no more tokens than there are.
proof fn lemma_parsed_height(ts: Seq<TokV>)
    ensures
        parsed_java_type(ts) matches Ok((t, c)) ==> type_height(t) < c <= ts.len(),
        parsed_java_type_inner(ts) matches Ok((t, c)) ==> type_height(t) < c <= ts.len(),
    decreases ts.len(),
{
    if ts.len() > 0 {
        let offset: int = if has_java_util_prefix(ts) {
            4
        } else {
            0
        };
        let rest = ts.skip(offset);
        if rest.len() > 1 {
            lemma_parsed_height(rest.skip(2));
        }
        if rest.len() >= 1 {
            lemma_count_brackets_bound(rest, 1);
            let k = count_brackets(rest, 1);
            let base = match primitive_from_name(rest[0].text) {
                Some(p) => JavaType::Primitive(p),
                None => JavaType::Boxed(BoxedType::String),
            };
            lemma_wrap_height(base, k);
            match boxed_from_name(rest[0].text) {
                Some(b) => lemma_wrap_height(JavaType::Boxed(b), k),
                None => {},
            }
        }
    }
}

fn has_java_util_prefix_exec(tts: &[Token]) -> (r: bool)
    ensures
        r == has_java_util_prefix(tokens_view(tts@)),
{
    tts.len() >= 4 && tts[0].is_ident("java") && tts[1].is_punct('.') && tts[2].is_ident("util")
        && tts[3].is_punct('.')
}

/// Count the empty `[]` groups right after the type name at `rest[0]`, and
/// wrap `base` in as many array levels.
fn wrap_trailing_brackets(rest: &[Token], base: JavaType) -> (r: (JavaType, usize))
    requires
        rest@.len() >= 1,
    ensures
        r.0 == wrap_arrays(base, count_brackets(tokens_view(rest@), 1)),
        r.1 as int == count_brackets(tokens_view(rest@), 1),
        r.1 + 1 <= rest@.len(),
{
    let ghost rv = tokens_view(rest@);
    let mut j: usize = 1;
    while j < rest.len() && rest[j].is_empty_brackets()
        invariant
            1 <= j <= rest@.len(),
            rv == tokens_view(rest@),
            count_brackets(rv, 1) == (j - 1) + count_brackets(rv, j as int),
        decreases rest@.len() - j,
    {
        j = j + 1;
    }
    let k = j - 1;
    let mut ty = base;
    let mut i: usize = 0;
    while i < k
        invariant
            i <= k,
            ty == wrap_arrays(base, i as nat),
        decreases k - i,
    {
        ty = JavaType::Array(Box::new(ty));
        i = i + 1;
    }
    (ty, k)
}

fn name_error(prefix: &str, name: &str, suffix: &str) -> (r: String)
    ensures
        r@ == prefix@ + name@ + suffix@,
{
    let mut s = prefix.to_owned();
    s.append(name);
    s.append(suffix);
    s
}

/// Parse a Java type at the start of `tts`; returns the type and the number
/// of tokens it took.
pub fn parse_java_type(tts: &[Token]) -> (r: Result<(JavaType, usize), String>)
    ensures
        r matches Ok((t, n)) ==> type_height(t) < n,
        type_parse_matches(r, parsed_java_type(tokens_view(tts@))),
        r matches Ok((_, n)) ==> n <= tts@.len(),
    decreases tts@.len(),
{
    let ghost tv = tokens_view(tts@);
    proof {
        lemma_parsed_height(tv);
    }
    if tts.len() == 0 {
        return Err("inline_java: unexpected end of tokens while parsing Java type".to_owned());
    }
    let offset: usize = if has_java_util_prefix_exec(tts) { 4 } else { 0 };
    let rest = vstd::slice::slice_subrange(tts, offset, tts.len());
    proof {
        lemma_tokens_view_subrange(tts@, offset as int, tts@.len() as int);
        assert(tv.skip(offset as int) =~= tv.subrange(offset as int, tv.len() as int));
    }
    let ghost rv = tokens_view(rest@);
    if rest.len() > 0 {
        if let TokenKind::Ident = rest[0].kind {
            let name = rest[0].text.as_str();
            if crate::text::str_eq(name, "List") || crate::text::str_eq(name, "Optional") {
                if !(rest.len() > 1 && rest[1].is_punct('<')) {
                    return Err(name_error("inline_java: expected `<` after `", name, "`"));
                }
                let after = vstd::slice::slice_subrange(rest, 2, rest.len());
                proof {
                    lemma_tokens_view_subrange(rest@, 2, rest@.len() as int);
                    assert(rv.skip(2) =~= rv.subrange(2, rv.len() as int));
                }
                match parse_java_type_inner(after) {
                    Err(e) => Err(e),
                    Ok((inner, c)) => {
                        let close = 2 + c;
                        if !(close < rest.len() && rest[close].is_punct('>')) {
                            Err(name_error("inline_java: expected `>` to close `", name, "<...>`"))
                        } else if crate::text::str_eq(name, "List") {
                            Ok((JavaType::List(Box::new(inner)), offset + close + 1))
                        } else {
                            Ok((JavaType::Optional(Box::new(inner)), offset + close + 1))
                        }
                    },
                }
            } else {
                let base = match PrimitiveType::from_name(name) {
                    Some(p) => JavaType::Primitive(p),
                    None => {
                        if !crate::text::str_eq(name, "String") {
                            return Err(
                                name_error(
                                    "inline_java: `",
                                    name,
                                    "` is not a supported Java type; scalar types: byte short int long float double boolean char String",
                                ),
                            );
                        }
                        JavaType::Boxed(BoxedType::String)
                    },
                };
                let (ty, k) = wrap_trailing_brackets(rest, base);
                Ok((ty, offset + 1 + k))
            }
        } else {
            Err("inline_java: expected a Java type name".to_owned())
        }
    } else {
        Err("inline_java: expected a Java type name".to_owned())
    }
}

/// Parse a type argument (inside `<>`) at the start of `tts`.
pub fn parse_java_type_inner(tts: &[Token]) -> (r: Result<(JavaType, usize), String>)
    ensures
        r matches Ok((t, n)) ==> type_height(t) < n,
        type_parse_matches(r, parsed_java_type_inner(tokens_view(tts@))),
        r matches Ok((_, n)) ==> n <= tts@.len(),
    decreases tts@.len(),
{
    let ghost tv = tokens_view(tts@);
    proof {
        lemma_parsed_height(tv);
    }
    if tts.len() == 0 {
        return Err(
            "inline_java: unexpected end of tokens while parsing Java type argument".to_owned(),
        );
    }
    let offset: usize = if has_java_util_prefix_exec(tts) { 4 } else { 0 };
    let rest = vstd::slice::slice_subrange(tts, offset, tts.len());
    proof {
        lemma_tokens_view_subrange(tts@, offset as int, tts@.len() as int);
        assert(tv.skip(offset as int) =~= tv.subrange(offset as int, tv.len() as int));
    }
    let ghost rv = tokens_view(rest@);
    if rest.len() > 0 {
        if let TokenKind::Ident = rest[0].kind {
            let name = rest[0].text.as_str();
            if crate::text::str_eq(name, "List") || crate::text::str_eq(name, "Optional") {
                if !(rest.len() > 1 && rest[1].is_punct('<')) {
                    return Err(name_error("inline_java: expected `<` after `", name, "`"));
                }
                let after = vstd::slice::slice_subrange(rest, 2, rest.len());
                proof {
                    lemma_tokens_view_subrange(rest@, 2, rest@.len() as int);
                    assert(rv.skip(2) =~= rv.subrange(2, rv.len() as int));
                }
                match parse_java_type_inner(after) {
                    Err(e) => Err(e),
                    Ok((inner, c)) => {
                        let close = 2 + c;
                        if !(close < rest.len() && rest[close].is_punct('>')) {
                            Err(name_error("inline_java: expected `>` to close `", name, "<...>`"))
                        } else if crate::text::str_eq(name, "List") {
                            Ok((JavaType::List(Box::new(inner)), offset + close + 1))
                        } else {
                            Ok((JavaType::Optional(Box::new(inner)), offset + close + 1))
                        }
                    },
                }
            } else {
                match BoxedType::from_name(name) {
                    None => Err(
                        name_error(
                            "inline_java: `",
                            name,
                            "` is not a supported Java type argument; supported: Byte Short Integer Long Float Double Boolean Character String (or primitive names)",
                        ),
                    ),
                    Some(b) => {
                        let (ty, k) = wrap_trailing_brackets(rest, JavaType::Boxed(b));
                        Ok((ty, offset + 1 + k))
                    },
                }
            }
        } else {
            Err("inline_java: expected a Java type name inside `<>`".to_owned())
        }
    } else {
        Err("inline_java: expected a Java type name inside `<>`".to_owned())
    }
}

// ── Type names read back ─────────────────────────────────────────────────────

/// An identifier token with text `s`.
pub open spec fn ident_tok(s: Seq<char>) -> TokV {
    TokV { kind: KindV::Ident, text: s, span: None }
}

/// A punctuation token `c`.
pub open spec fn punct_tok(c: char) -> TokV {
    TokV { kind: KindV::Punct(c), text: seq![c], span: None }
}

/// An empty `[]` group.
pub open spec fn brackets_tok() -> TokV {
    TokV { kind: KindV::Group(Delimiter::Bracket, Seq::empty()), text: "[]"@, span: None }
}

/// The tokens of the Java name of `t`, as [`java_type_name`] writes it.
pub open spec fn name_tokens(t: JavaType) -> Seq<TokV>
    decreases t,
{
    match t {
        JavaType::Primitive(p) => seq![ident_tok(primitive_java_name(p))],
        JavaType::Boxed(b) => seq![ident_tok(boxed_java_name(b))],
        JavaType::Array(inner) => name_tokens(*inner).push(brackets_tok()),
        JavaType::List(inner) => seq![
            ident_tok("java"@),
            punct_tok('.'),
            ident_tok("util"@),
            punct_tok('.'),
            ident_tok("List"@),
            punct_tok('<'),
        ] + name_tokens(*inner) + seq![punct_tok('>')],
        JavaType::Optional(inner) => seq![
            ident_tok("java"@),
            punct_tok('.'),
            ident_tok("util"@),
            punct_tok('.'),
            ident_tok("Optional"@),
            punct_tok('<'),
        ] + name_tokens(*inner) + seq![punct_tok('>')],
    }
}

/// The texts of `ts`, concatenated.
pub open spec fn token_texts(ts: Seq<TokV>) -> Seq<char>
    decreases ts.len(),
{
    if ts.len() == 0 {
        Seq::empty()
    } else {
        token_texts(ts.drop_last()) + ts.last().text
    }
}

/// The type under all the array levels of `t`.
pub open spec fn array_element_base(t: JavaType) -> JavaType
    decreases t,
{
    match t {
        JavaType::Array(inner) => array_element_base(*inner),
        _ => t,
    }
}

/// The number of array levels of `t`.
pub open spec fn array_depth(t: JavaType) -> nat
    decreases t,
{
    match t {
        JavaType::Array(inner) => 1 + array_depth(*inner),
        _ => 0,
    }
}

/// Whether `t` can be written inside `<>`: a boxed type with any number of
/// array levels, or a `List` or `Optional` of such a type.
pub open spec fn is_argument_type(t: JavaType) -> bool
    decreases t,
{
    match t {
        JavaType::List(inner) => is_argument_type(*inner),
        JavaType::Optional(inner) => is_argument_type(*inner),
        _ => array_element_base(t) is Boxed,
    }
}

/// Whether `t` can be declared as the type of `run` or of one of its
/// parameters: a primitive type or `String` with any number of array levels,
/// or a `List` or `Optional` of a type written inside `<>`.
pub open spec fn is_declarable_type(t: JavaType) -> bool {
    match t {
        JavaType::List(inner) => is_argument_type(*inner),
        JavaType::Optional(inner) => is_argument_type(*inner),
        _ => match array_element_base(t) {
            JavaType::Primitive(_) => true,
            JavaType::Boxed(b) => b == BoxedType::String,
            _ => false,
        },
    }
}

/// Whether `rest` does not start with an empty `[]` group.
pub open spec fn no_brackets_first(rest: Seq<TokV>) -> bool {
    !(rest.len() > 0 && is_empty_brackets(rest[0]))
}

proof fn lemma_reveal_names()
    ensures
        "byte"@ =~= seq!['b', 'y', 't', 'e'],
        "short"@ =~= seq!['s', 'h', 'o', 'r', 't'],
        "int"@ =~= seq!['i', 'n', 't'],
        "long"@ =~= seq!['l', 'o', 'n', 'g'],
        "float"@ =~= seq!['f', 'l', 'o', 'a', 't'],
        "double"@ =~= seq!['d', 'o', 'u', 'b', 'l', 'e'],
        "boolean"@ =~= seq!['b', 'o', 'o', 'l', 'e', 'a', 'n'],
        "char"@ =~= seq!['c', 'h', 'a', 'r'],
        "Byte"@ =~= seq!['B', 'y', 't', 'e'],
        "Short"@ =~= seq!['S', 'h', 'o', 'r', 't'],
        "Integer"@ =~= seq!['I', 'n', 't', 'e', 'g', 'e', 'r'],
        "Long"@ =~= seq!['L', 'o', 'n', 'g'],
        "Float"@ =~= seq!['F', 'l', 'o', 'a', 't'],
        "Double"@ =~= seq!['D', 'o', 'u', 'b', 'l', 'e'],
        "Boolean"@ =~= seq!['B', 'o', 'o', 'l', 'e', 'a', 'n'],
        "Character"@ =~= seq!['C', 'h', 'a', 'r', 'a', 'c', 't', 'e', 'r'],
        "String"@ =~= seq!['S', 't', 'r', 'i', 'n', 'g'],
        "List"@ =~= seq!['L', 'i', 's', 't'],
        "Optional"@ =~= seq!['O', 'p', 't', 'i', 'o', 'n', 'a', 'l'],
        "java"@ =~= seq!['j', 'a', 'v', 'a'],
{
    reveal_strlit("byte");
    reveal_strlit("short");
    reveal_strlit("int");
    reveal_strlit("long");
    reveal_strlit("float");
    reveal_strlit("double");
    reveal_strlit("boolean");
    reveal_strlit("char");
    reveal_strlit("Byte");
    reveal_strlit("Short");
    reveal_strlit("Integer");
    reveal_strlit("Long");
    reveal_strlit("Float");
    reveal_strlit("Double");
    reveal_strlit("Boolean");
    reveal_strlit("Character");
    reveal_strlit("String");
    reveal_strlit("List");
    reveal_strlit("Optional");
    reveal_strlit("java");
}

/// The name of a scalar type is read back as that type, and names no
/// container.
proof fn lemma_scalar_names(t: JavaType)
    requires
        t is Primitive || t is Boxed,
    ensures
        name_tokens(t)[0].text != "java"@,
        name_tokens(t)[0].text != "List"@,
        name_tokens(t)[0].text != "Optional"@,
        t matches JavaType::Primitive(p) ==> primitive_from_name(name_tokens(t)[0].text) == Some(p)
            && boxed_from_name(name_tokens(t)[0].text) is Some,
        t matches JavaType::Boxed(b) ==> boxed_from_name(name_tokens(t)[0].text) == Some(b),
        t == JavaType::Boxed(BoxedType::String) ==> primitive_from_name(name_tokens(t)[0].text)
            is None,
{
    lemma_reveal_names();
}

/// The tokens of an array type: its base's name, then one `[]` per level.
proof fn lemma_array_tokens(t: JavaType)
    requires
        array_element_base(t) is Primitive || array_element_base(t) is Boxed,
    ensures
        name_tokens(t) == seq![name_tokens(array_element_base(t))[0]] + Seq::new(
            array_depth(t),
            |i: int| brackets_tok(),
        ),
        t == wrap_arrays(array_element_base(t), array_depth(t)),
    decreases t,
{
    match t {
        JavaType::Array(inner) => {
            lemma_array_tokens(*inner);
            assert(name_tokens(t) =~= seq![name_tokens(array_element_base(t))[0]] + Seq::new(
                array_depth(t),
                |i: int| brackets_tok(),
            ));
        },
        _ => {
            assert(name_tokens(t) =~= seq![name_tokens(t)[0]] + Seq::new(0, |i: int| brackets_tok()));
        },
    }
}

proof fn lemma_count_trailing_brackets(x: TokV, k: nat, rest: Seq<TokV>, i: int)
    requires
        1 <= i <= k + 1,
        no_brackets_first(rest),
    ensures
        count_brackets(seq![x] + Seq::new(k, |j: int| brackets_tok()) + rest, i) == k + 1 - i,
    decreases k + 1 - i,
{
    let ts = seq![x] + Seq::new(k, |j: int| brackets_tok()) + rest;
    if i <= k {
        assert(ts[i] == brackets_tok());
        lemma_count_trailing_brackets(x, k, rest, i + 1);
    } else {
        if rest.len() > 0 {
            assert(ts[i] == rest[0]);
        }
    }
}

/// A scalar type with array levels is read back from its tokens.
proof fn lemma_parse_array_name(t: JavaType, rest: Seq<TokV>, inner: bool)
    requires
        array_element_base(t) is Primitive || array_element_base(t) is Boxed,
        inner ==> array_element_base(t) is Boxed,
        !inner ==> (array_element_base(t) is Primitive || array_element_base(t) == JavaType::Boxed(
            BoxedType::String,
        )),
        no_brackets_first(rest),
    ensures
        inner ==> parsed_java_type_inner(name_tokens(t) + rest) == Ok::<(JavaType, int), Seq<char>>(
            (t, name_tokens(t).len() as int),
        ),
        !inner ==> parsed_java_type(name_tokens(t) + rest) == Ok::<(JavaType, int), Seq<char>>(
            (t, name_tokens(t).len() as int),
        ),
{
    let base = array_element_base(t);
    let k = array_depth(t);
    lemma_array_tokens(t);
    lemma_scalar_names(base);
    let x = name_tokens(base)[0];
    let ts = name_tokens(t) + rest;
    assert(ts == seq![x] + Seq::new(k, |j: int| brackets_tok()) + rest);
    assert(ts[0] == x);
    assert(!has_java_util_prefix(ts));
    assert(ts.skip(0) =~= ts);
    lemma_count_trailing_brackets(x, k, rest, 1);
}

/// A type written inside `<>` is read back from its tokens, whatever
/// follows (other than another `[]`).
proof fn lemma_parse_argument_name(t: JavaType, rest: Seq<TokV>)
    requires
        is_argument_type(t),
        no_brackets_first(rest),
    ensures
        parsed_java_type_inner(name_tokens(t) + rest) == Ok::<(JavaType, int), Seq<char>>(
            (t, name_tokens(t).len() as int),
        ),
    decreases t, 1int,
{
    match t {
        JavaType::List(inner) => lemma_parse_container_name(t, *inner, rest, true),
        JavaType::Optional(inner) => lemma_parse_container_name(t, *inner, rest, true),
        _ => lemma_parse_array_name(t, rest, true),
    }
}

/// A `List` or `Optional` of an argument type is read back from its tokens.
proof fn lemma_parse_container_name(t: JavaType, inner: JavaType, rest: Seq<TokV>, in_args: bool)
    requires
        t == JavaType::List(Box::new(inner)) || t == JavaType::Optional(Box::new(inner)),
        is_argument_type(inner),
        no_brackets_first(rest),
    ensures
        in_args ==> parsed_java_type_inner(name_tokens(t) + rest) == Ok::<(JavaType, int), Seq<char>>(
            (t, name_tokens(t).len() as int),
        ),
        !in_args ==> parsed_java_type(name_tokens(t) + rest) == Ok::<(JavaType, int), Seq<char>>(
            (t, name_tokens(t).len() as int),
        ),
    decreases inner, 2int,
{
    lemma_reveal_names();
    let kw = if t is List {
        "List"@
    } else {
        "Optional"@
    };
    let head = seq![
        ident_tok("java"@),
        punct_tok('.'),
        ident_tok("util"@),
        punct_tok('.'),
        ident_tok(kw),
        punct_tok('<'),
    ];
    let it = name_tokens(inner);
    let close = seq![punct_tok('>')];
    assert(name_tokens(t) == head + it + close);
    let ts = name_tokens(t) + rest;
    assert(ts =~= head + (it + (close + rest)));
    assert(has_java_util_prefix(ts));
    let r = ts.skip(4);
    assert(r =~= seq![ident_tok(kw), punct_tok('<')] + (it + (close + rest)));
    assert(r.skip(2) =~= it + (close + rest));
    lemma_parse_argument_name(inner, close + rest);
    assert(r[2 + it.len() as int] == punct_tok('>'));
}

/// The parser reads back the type names that code generation writes: for a
/// type that `run` may return or take, parsing the tokens of its Java name
/// gives the type back and takes exactly those tokens, whatever follows
/// (other than another `[]`); and those tokens spell [`java_type_name`].
pub proof fn lemma_type_names_read_back(t: JavaType, rest: Seq<TokV>)
    requires
        is_declarable_type(t),
        no_brackets_first(rest),
    ensures
        parsed_java_type(name_tokens(t) + rest) == Ok::<(JavaType, int), Seq<char>>(
            (t, name_tokens(t).len() as int),
        ),
        token_texts(name_tokens(t)) == java_type_name(t),
{
    match t {
        JavaType::List(inner) => lemma_parse_container_name(t, *inner, rest, false),
        JavaType::Optional(inner) => lemma_parse_container_name(t, *inner, rest, false),
        _ => lemma_parse_array_name(t, rest, false),
    }
    lemma_name_texts(t);
}

proof fn lemma_token_texts_concat(a: Seq<TokV>, b: Seq<TokV>)
    ensures
        token_texts(a + b) == token_texts(a) + token_texts(b),
    decreases b.len(),
{
    if b.len() == 0 {
        assert(a + b =~= a);
        assert(token_texts(a) + token_texts(b) =~= token_texts(a));
    } else {
        lemma_token_texts_concat(a, b.drop_last());
        assert((a + b).drop_last() =~= a + b.drop_last());
        assert(token_texts(a) + token_texts(b.drop_last()) + b.last().text =~= token_texts(a) + (
        token_texts(b.drop_last()) + b.last().text));
    }
}

/// The tokens of a type's name spell its Java name.
proof fn lemma_name_texts(t: JavaType)
    ensures
        token_texts(name_tokens(t)) == java_type_name(t),
    decreases t,
{
    match t {
        JavaType::Primitive(_) | JavaType::Boxed(_) => {
            assert(name_tokens(t).drop_last() =~= Seq::<TokV>::empty());
            assert(token_texts(Seq::<TokV>::empty()) + name_tokens(t)[0].text =~= name_tokens(t)[0].text);
        },
        JavaType::Array(inner) => {
            lemma_name_texts(*inner);
            assert(name_tokens(t).drop_last() =~= name_tokens(*inner));
        },
        JavaType::List(inner) | JavaType::Optional(inner) => {
            lemma_name_texts(*inner);
            reveal_strlit("java.util.List<");
            reveal_strlit("java.util.Optional<");
            reveal_strlit("java");
            reveal_strlit("util");
            reveal_strlit("List");
            reveal_strlit("Optional");
            reveal_strlit(">");
            let kw = if t is List {
                "List"@
            } else {
                "Optional"@
            };
            let head = seq![
                ident_tok("java"@),
                punct_tok('.'),
                ident_tok("util"@),
                punct_tok('.'),
                ident_tok(kw),
                punct_tok('<'),
            ];
            let it = name_tokens(*inner);
            let close = seq![punct_tok('>')];
            lemma_token_texts_concat(head + it, close);
            lemma_token_texts_concat(head, it);
            reveal_with_fuel(token_texts, 7);
            assert(close.drop_last() =~= Seq::<TokV>::empty());
            assert(head.drop_last().drop_last().drop_last().drop_last().drop_last().drop_last()
                =~= Seq::<TokV>::empty());
            let prefix = if t is List {
                "java.util.List<"@
            } else {
                "java.util.Optional<"@
            };
            assert(token_texts(head) =~= prefix);
            assert(token_texts(close) =~= ">"@);
        },
    }
}

// ── `run` ────────────────────────────────────────────────────────────────────

/// Whether `t` is a visibility modifier.
pub open spec fn is_visibility(t: TokV) -> bool {
    is_ident(t, "public"@) || is_ident(t, "private"@) || is_ident(t, "protected"@)
}

/// The first `[visibility] static <T> run` declaration in `ts` whose `static`
/// stands at index `i` or later (and before `ts.len() - 2`): its return type,
/// the index of its first token, and the index of `run`.
pub open spec fn find_run(ts: Seq<TokV>, i: int) -> Option<(JavaType, int, int)>
    decreases ts.len() - i,
{
    if i < 0 || i >= ts.len() - 2 {
        None
    } else if !is_ident(ts[i], "static"@) {
        find_run(ts, i + 1)
    } else {
        let start = if i > 0 && is_visibility(ts[i - 1]) {
            i - 1
        } else {
            i
        };
        match parsed_java_type(ts.skip(i + 1)) {
            Ok((jt, c)) => {
                let run = i + 1 + c;
                if run < ts.len() && is_ident(ts[run], "run"@) {
                    Some((jt, start, run))
                } else {
                    find_run(ts, i + 1)
                }
            },
            Err(_) => find_run(ts, i + 1),
        }
    }
}

/// Find the first `[visibility] static <T> run` declaration in `tts`.
/// Returns its return type, the index of its first token (the visibility
/// modifier if present, else `static`) and the index of `run`.
pub fn parse_run_return_type(tts: &[Token]) -> (r: Result<(JavaType, usize, usize), String>)
    ensures
        match find_run(tokens_view(tts@), 0) {
            Some((jt, s, k)) => r matches Ok((u, a, b)) && u == jt && a as int == s && b as int
                == k,
            None => r matches Err(e) && e@
                == "inline_java: could not find `static <type> run()` in Java body"@,
        },
        r matches Ok((_, a, b)) ==> a <= b < tts@.len(),
        r matches Ok((t, _, b)) ==> type_height(t) < b,
{
    let ghost tv = tokens_view(tts@);
    let bound: usize = if tts.len() >= 2 { tts.len() - 2 } else { 0 };
    let mut i: usize = 0;
    while i < bound
        invariant
            tv == tokens_view(tts@),
            bound as int == (if tts@.len() >= 2 { tts@.len() - 2 } else { 0 }),
            i <= bound,
            find_run(tv, 0) == find_run(tv, i as int),
        decreases bound - i,
    {
        if tts[i].is_ident("static") {
            let start = if i > 0 && (tts[i - 1].is_ident("public") || tts[i - 1].is_ident(
                "private",
            ) || tts[i - 1].is_ident("protected")) {
                i - 1
            } else {
                i
            };
            let after = vstd::slice::slice_subrange(tts, i + 1, tts.len());
            proof {
                lemma_tokens_view_subrange(tts@, i + 1, tts@.len() as int);
                assert(tv.skip(i + 1) =~= tv.subrange(i + 1, tv.len() as int));
            }
            match parse_java_type(after) {
                Ok((jt, c)) => {
                    let run = i + 1 + c;
                    if run < tts.len() && tts[run].is_ident("run") {
                        return Ok((jt, start, run));
                    }
                },
                Err(_) => {},
            }
        }
        i = i + 1;
    }
    Err("inline_java: could not find `static <type> run()` in Java body".to_owned())
}

/// The state of splitting a parameter list on top-level commas after its
/// first `k` tokens: the finished segments (as index ranges), where the
/// current segment starts, and the angle-bracket depth.
pub struct SegScan {
    pub ranges: Seq<(int, int)>,
    pub start: int,
    pub depth: int,
}

/// The splitter's state after the first `k` tokens of `ts`.
pub open spec fn seg_scan(ts: Seq<TokV>, k: int) -> SegScan
    decreases k,
{
    if k <= 0 {
        SegScan { ranges: Seq::empty(), start: 0, depth: 0 }
    } else {
        let st = seg_scan(ts, k - 1);
        let t = ts[k - 1];
        if is_punct(t, '<') {
            SegScan { depth: st.depth + 1, ..st }
        } else if is_punct(t, '>') {
            SegScan { depth: st.depth - 1, ..st }
        } else if is_punct(t, ',') && st.depth == 0 {
            SegScan { ranges: st.ranges.push((st.start, k - 1)), start: k, ..st }
        } else {
            st
        }
    }
}

/// The segments of a parameter list, as index ranges: split on commas
/// outside angle brackets, with a trailing empty segment left out.
pub open spec fn segments(ts: Seq<TokV>) -> Seq<(int, int)> {
    let st = seg_scan(ts, ts.len() as int);
    if st.start < ts.len() {
        st.ranges.push((st.start, ts.len() as int))
    } else {
        st.ranges
    }
}

/// The parameters declared by segments `segs[j..]` of `ts`, in order.
pub open spec fn params_of(ts: Seq<TokV>, segs: Seq<(int, int)>, j: int) -> Result<
    Seq<(JavaType, Seq<char>)>,
    Seq<char>,
>
    decreases segs.len() - j,
{
    if j < 0 || j >= segs.len() {
        Ok(Seq::empty())
    } else {
        let seg = ts.subrange(segs[j].0, segs[j].1);
        if seg.len() == 0 {
            params_of(ts, segs, j + 1)
        } else if !(seg.last().kind is Ident) {
            Err(
                "inline_java: unexpected token in run() parameter list: expected a parameter name"@,
            )
        } else {
            let name = seg.last().text;
            let type_ts = seg.drop_last();
            if type_ts.len() == 0 {
                Err("inline_java: missing type for parameter `"@ + name + "`"@)
            } else {
                match parsed_java_type(type_ts) {
                    Err(e) => Err("inline_java: error parsing type of parameter `"@ + name + "`: "@
                        + e),
                    Ok((jt, c)) => if c != type_ts.len() {
                        Err("inline_java: unexpected tokens after type of parameter `"@ + name
                            + "`"@)
                    } else {
                        match params_of(ts, segs, j + 1) {
                            Ok(rest) => Ok(seq![(jt, name)] + rest),
                            Err(e) => Err(e),
                        }
                    },
                }
            }
        }
    }
}

/// The parameters declared by the parenthesised group at the start of `ts`
/// (none if `ts` does not start with one).
pub open spec fn run_params(ts: Seq<TokV>) -> Result<Seq<(JavaType, Seq<char>)>, Seq<char>> {
    if ts.len() > 0 {
        match ts[0].kind {
            KindV::Group(d, inner) => if d == Delimiter::Parenthesis {
                if inner.len() == 0 {
                    Ok(Seq::empty())
                } else {
                    params_of(inner, segments(inner), 0)
                }
            } else {
                Ok(Seq::empty())
            },
            _ => Ok(Seq::empty()),
        }
    } else {
        Ok(Seq::empty())
    }
}

/// The model of a parameter list.
pub open spec fn params_view(ps: Seq<(JavaType, String)>) -> Seq<(JavaType, Seq<char>)> {
    Seq::new(ps.len(), |i: int| (ps[i].0, ps[i].1@))
}

/// Split the parameter tokens `inner` into segments.
fn split_segments(inner: &[Token]) -> (r: Vec<(usize, usize)>)
    ensures
        r@.len() == segments(tokens_view(inner@)).len(),
        forall|j: int|
            0 <= j < r@.len() ==> {
                &&& (#[trigger] r@[j]).0 as int == segments(tokens_view(inner@))[j].0
                &&& r@[j].1 as int == segments(tokens_view(inner@))[j].1
                &&& r@[j].0 <= r@[j].1 <= inner@.len()
            },
{
    let ghost tv = tokens_view(inner@);
    let mut ranges: Vec<(usize, usize)> = Vec::new();
    let mut start: usize = 0;
    let mut depth: i128 = 0;
    let mut k: usize = 0;
    while k < inner.len()
        invariant
            tv == tokens_view(inner@),
            k <= inner@.len(),
            start <= k,
            -(k as int) <= depth <= k as int,
            ranges@.len() == seg_scan(tv, k as int).ranges.len(),
            start as int == seg_scan(tv, k as int).start,
            depth as int == seg_scan(tv, k as int).depth,
            forall|j: int|
                0 <= j < ranges@.len() ==> {
                    &&& (#[trigger] ranges@[j]).0 as int == seg_scan(tv, k as int).ranges[j].0
                    &&& ranges@[j].1 as int == seg_scan(tv, k as int).ranges[j].1
                    &&& ranges@[j].0 <= ranges@[j].1 <= k
                },
        decreases inner@.len() - k,
    {
        let t = &inner[k];
        if t.is_punct('<') {
            depth = depth + 1;
        } else if t.is_punct('>') {
            depth = depth - 1;
        } else if t.is_punct(',') && depth == 0 {
            ranges.push((start, k));
            start = k + 1;
        }
        k = k + 1;
    }
    if start < inner.len() {
        ranges.push((start, inner.len()));
    }
    ranges
}

fn with_name(prefix: &str, name: &str, suffix: &str) -> (r: String)
    ensures
        r@ == prefix@ + name@ + suffix@,
{
    let mut s = prefix.to_owned();
    s.append(name);
    s.append(suffix);
    s
}

/// Parse the parameter list in the parenthesised group at the start of
/// `tts` (the token right after `run`).
pub fn parse_run_params(tts: &[Token]) -> (r: Result<Vec<(JavaType, String)>, String>)
    ensures
        match run_params(tokens_view(tts@)) {
            Ok(ps) => r matches Ok(v) && params_view(v@) == ps,
            Err(m) => r matches Err(e) && e@ == m,
        },
        r matches Ok(v) ==> params_fit(v@),
{
    if tts.len() == 0 {
        return Ok(Vec::new());
    }
    let inner: &Vec<Token> = match &tts[0].kind {
        TokenKind::Group(Delimiter::Parenthesis, inner) => inner,
        _ => {
            return Ok(Vec::new());
        },
    };
    let ghost iv = tokens_view(inner@);
    proof {
        assert(tokens_view(tts@)[0] == token_view(tts@[0]));
        assert(iv =~= tokens_view(tts@)[0].kind->Group_1);
    }
    if inner.len() == 0 {
        return Ok(Vec::new());
    }
    let segs = split_segments(inner.as_slice());
    let ghost ss = segments(iv);
    assert(run_params(tokens_view(tts@)) == params_of(iv, ss, 0));
    let mut params: Vec<(JavaType, String)> = Vec::new();
    let mut j: usize = 0;
    while j < segs.len()
        invariant
            iv == tokens_view(inner@),
            ss == segments(iv),
            run_params(tokens_view(tts@)) == params_of(iv, ss, 0),
            segs@.len() == ss.len(),
            forall|m: int|
                0 <= m < segs@.len() ==> {
                    &&& (#[trigger] segs@[m]).0 as int == ss[m].0
                    &&& segs@[m].1 as int == ss[m].1
                    &&& segs@[m].0 <= segs@[m].1 <= inner@.len()
                },
            j <= segs@.len(),
            params_fit(params@),
            params_of(iv, ss, 0) == match params_of(iv, ss, j as int) {
                Ok(rest) => Ok(params_view(params@) + rest),
                Err(e) => Err(e),
            },
        decreases segs@.len() - j,
    {
        let (a, b) = segs[j];
        let seg = vstd::slice::slice_subrange(inner.as_slice(), a, b);
        let ghost sv = tokens_view(seg@);
        proof {
            lemma_tokens_view_subrange(inner@, a as int, b as int);
            assert(sv == iv.subrange(ss[j as int].0, ss[j as int].1));
        }
        if seg.len() == 0 {
            j = j + 1;
            continue;
        }
        let last = &seg[seg.len() - 1];
        proof {
            assert(sv.last() == token_view(*last));
        }
        if let TokenKind::Ident = last.kind {
        } else {
            let e = "inline_java: unexpected token in run() parameter list: expected a parameter name".to_owned();
            assert(params_of(iv, ss, j as int) == Err::<Seq<(JavaType, Seq<char>)>, Seq<char>>(e@));
            return Err(e);
        }
        let name = last.text.as_str();
        let type_tts = vstd::slice::slice_subrange(seg, 0, seg.len() - 1);
        proof {
            lemma_tokens_view_subrange(seg@, 0, seg@.len() - 1);
            assert(tokens_view(type_tts@) =~= sv.drop_last());
        }
        if type_tts.len() == 0 {
            let e = with_name("inline_java: missing type for parameter `", name, "`");
            assert(params_of(iv, ss, j as int) == Err::<Seq<(JavaType, Seq<char>)>, Seq<char>>(e@));
            return Err(e);
        }
        match parse_java_type(type_tts) {
            Err(e) => {
                let mut m = with_name("inline_java: error parsing type of parameter `", name, "`: ");
                m.append(e.as_str());
                assert(params_of(iv, ss, j as int) == Err::<Seq<(JavaType, Seq<char>)>, Seq<char>>(m@));
                return Err(m);
            },
            Ok((jt, c)) => {
                if c != type_tts.len() {
                    let e = with_name("inline_java: unexpected tokens after type of parameter `", name, "`");
                    assert(params_of(iv, ss, j as int) == Err::<Seq<(JavaType, Seq<char>)>, Seq<char>>(e@));
                    return Err(e);
                }
                let ghost before = params_view(params@);
                params.push((jt, name.to_owned()));
                proof {
                    assert(params_view(params@) =~= before + seq![(jt, name@)]);
                    match params_of(iv, ss, j + 1) {
                        Ok(rest) => {
                            assert(before + (seq![(jt, name@)] + rest) =~= params_view(params@)
                                + rest);
                        },
                        Err(_) => {},
                    }
                }
            },
        }
        j = j + 1;
    }
    proof {
        assert(params_view(params@) + Seq::<(JavaType, Seq<char>)>::empty() =~= params_view(
            params@,
        ));
    }
    Ok(params)
}

// ── The whole body ───────────────────────────────────────────────────────────

/// The state of separating `import`/`package` directives from the body: the
/// index of the first directive, the index of the last directive's `;`, and,
/// while inside a directive, where it started.
pub struct ImportScan {
    pub first: Option<int>,
    pub last_end: Option<int>,
    pub body_start: int,
}

/// Scan `import`/`package` directives from index `i`; `dir` is where the
/// directive being read started, if one is.
pub open spec fn scan_imports(
    ts: Seq<TokV>,
    i: int,
    first: Option<int>,
    last_end: Option<int>,
    dir: Option<int>,
) -> ImportScan
    decreases ts.len() - i,
{
    match dir {
        Some(d) => if i >= ts.len() {
            // A directive without `;`: the rest is body.
            ImportScan { first, last_end, body_start: d }
        } else if is_punct(ts[i], ';') {
            scan_imports(ts, i + 1, first, Some(i), None)
        } else {
            scan_imports(ts, i + 1, first, last_end, dir)
        },
        None => if i >= ts.len() {
            ImportScan { first, last_end, body_start: ts.len() as int }
        } else if is_ident(ts[i], "import"@) || is_ident(ts[i], "package"@) {
            scan_imports(
                ts,
                i + 1,
                if first is Some {
                    first
                } else {
                    Some(i)
                },
                last_end,
                Some(i),
            )
        } else {
            ImportScan { first, last_end, body_start: i }
        },
    }
}

/// The texts of `ts` joined by single spaces.
pub open spec fn join_texts(ts: Seq<TokV>) -> Seq<char>
    decreases ts.len(),
{
    if ts.len() == 0 {
        Seq::empty()
    } else if ts.len() == 1 {
        ts[0].text
    } else {
        join_texts(ts.drop_last()) + " "@ + ts.last().text
    }
}

/// The source text of tokens `ts[lo..hi]`: the slice of `source` that their
/// spans cover where both end spans are known and fit, else their texts
/// joined by spaces.
pub open spec fn slice_text(source: Seq<char>, ts: Seq<TokV>, lo: int, hi: int) -> Seq<char> {
    if lo >= hi {
        Seq::empty()
    } else {
        match (ts[lo].span, ts[hi - 1].span) {
            (Some((a, _)), Some((_, b))) => if a <= b <= source.len() {
                source.subrange(a as int, b as int)
            } else {
                join_texts(ts.subrange(lo, hi))
            },
            _ => join_texts(ts.subrange(lo, hi)),
        }
    }
}

/// The model of a parsed Java body.
pub struct ParsedV {
    pub imports: Seq<char>,
    pub outer: Seq<char>,
    pub body: Seq<char>,
    pub params: Seq<(JavaType, Seq<char>)>,
    pub java_type: JavaType,
}

/// Parse a Java body: the `import`/`package` section verbatim, the
/// declarations written before `run` (emitted outside the generated class),
/// `run` and everything after it (placed inside the class), the parameters
/// of `run`, and its return type.
pub open spec fn parsed_java_source(source: Seq<char>, ts: Seq<TokV>) -> Result<ParsedV, Seq<char>> {
    let sc = scan_imports(ts, 0, None, None, None);
    let bs = sc.body_start;
    match find_run(ts.skip(bs), 0) {
        None => Err("inline_java: could not find `static <type> run()` in Java body"@),
        Some((jt, rs, rr)) => {
            let run_abs = bs + rs;
            let run_tok = bs + rr;
            match run_params(ts.skip(run_tok + 1)) {
                Err(e) => Err(e),
                Ok(params) => Ok(
                    ParsedV {
                        imports: match (sc.first, sc.last_end) {
                            (Some(f), Some(l)) => slice_text(source, ts, f, l + 1),
                            _ => Seq::empty(),
                        },
                        outer: slice_text(source, ts, bs, run_abs),
                        body: if run_abs < ts.len() {
                            slice_text(source, ts, run_abs, ts.len() as int)
                        } else {
                            Seq::empty()
                        },
                        params,
                        java_type: jt,
                    },
                ),
            }
        },
    }
}

/// A parsed Java body.
pub struct ParsedJava {
    /// The `import`/`package` section, verbatim.
    pub imports: String,
    /// Declarations written before `run()`, emitted as top-level Java types.
    pub outer: String,
    /// `run()` and everything after it, placed inside the generated class.
    pub body: String,
    /// The parameters of `run(...)`, in order.
    pub params: Vec<(JavaType, String)>,
    /// The return type of `run`.
    pub java_type: JavaType,
}

impl ParsedJava {
    /// The model of the parsed body.
    pub open spec fn view(&self) -> ParsedV {
        ParsedV {
            imports: self.imports@,
            outer: self.outer@,
            body: self.body@,
            params: params_view(self.params@),
            java_type: self.java_type,
        }
    }
}

/// The source text of `tts[lo..hi]`.
fn slice_text_exec(source: &str, tts: &[Token], lo: usize, hi: usize) -> (r: String)
    requires
        lo <= hi <= tts@.len(),
    ensures
        r@ == slice_text(source@, tokens_view(tts@), lo as int, hi as int),
{
    let ghost tv = tokens_view(tts@);
    if lo >= hi {
        return String::new();
    }
    proof {
        assert(tv[lo as int] == token_view(tts@[lo as int]));
        assert(tv[hi - 1] == token_view(tts@[hi - 1]));
    }
    match (tts[lo].span, tts[hi - 1].span) {
        (Some((a, _)), Some((_, b))) => {
            if a <= b && b <= source.unicode_len() {
                return source.substring_char(a, b).to_owned();
            }
        },
        _ => {},
    }
    let mut s = String::new();
    let mut i: usize = lo;
    while i < hi
        invariant
            lo <= i <= hi,
            hi <= tts@.len(),
            tv == tokens_view(tts@),
            s@ == join_texts(tv.subrange(lo as int, i as int)),
        decreases hi - i,
    {
        proof {
            assert(tv.subrange(lo as int, i + 1).drop_last() =~= tv.subrange(lo as int, i as int));
            assert(tv[i as int] == token_view(tts@[i as int]));
        }
        if i > lo {
            s.append(" ");
        } else {
            assert(s@ =~= Seq::<char>::empty());
        }
        s.append(tts[i].text.as_str());
        i = i + 1;
    }
    s
}

/// Parse a Java body (the tokens after the options), slicing verbatim text
/// out of `source` where the token spans allow it.
pub fn parse_java_source(source: &str, tts: &[Token]) -> (r: Result<ParsedJava, String>)
    ensures
        match parsed_java_source(source@, tokens_view(tts@)) {
            Ok(p) => r matches Ok(q) && q.view() == p,
            Err(m) => r matches Err(e) && e@ == m,
        },
        r matches Ok(q) ==> type_height(q.java_type) < usize::MAX && params_fit(q.params@),
{
    let ghost tv = tokens_view(tts@);
    // Separate the import/package section from the body.
    let mut first: Option<usize> = None;
    let mut last_end: Option<usize> = None;
    let mut dir: Option<usize> = None;
    let mut i: usize = 0;
    let mut body_start: usize = 0;
    loop
        invariant
            tv == tokens_view(tts@),
            i <= tts@.len(),
            first matches Some(f) ==> f < i,
            last_end matches Some(l) ==> (l < i && (first matches Some(f) && f <= l)),
            dir matches Some(d) ==> (d < i && (first matches Some(f) && f <= d)),
            scan_imports(tv, 0, None, None, None) == scan_imports(
                tv,
                i as int,
                match first {
                    Some(f) => Some(f as int),
                    None => None,
                },
                match last_end {
                    Some(l) => Some(l as int),
                    None => None,
                },
                match dir {
                    Some(d) => Some(d as int),
                    None => None,
                },
            ),
        ensures
            body_start <= tts@.len(),
            scan_imports(tv, 0, None, None, None) == (ImportScan {
                first: match first {
                    Some(f) => Some(f as int),
                    None => None,
                },
                last_end: match last_end {
                    Some(l) => Some(l as int),
                    None => None,
                },
                body_start: body_start as int,
            }),
            first matches Some(f) ==> f < tts@.len(),
            last_end matches Some(l) ==> (l < tts@.len() && (first matches Some(f) && f <= l)),
        decreases tts@.len() - i,
    {
        match dir {
            Some(d) => {
                if i >= tts.len() {
                    body_start = d;
                    break;
                } else if tts[i].is_punct(';') {
                    last_end = Some(i);
                    dir = None;
                }
            },
            None => {
                if i >= tts.len() {
                    body_start = tts.len();
                    break;
                } else if tts[i].is_ident("import") || tts[i].is_ident("package") {
                    if first.is_none() {
                        first = Some(i);
                    }
                    dir = Some(i);
                } else {
                    body_start = i;
                    break;
                }
            },
        }
        i = i + 1;
    }
    let bs = body_start;
    let body_tts = vstd::slice::slice_subrange(tts, bs, tts.len());
    proof {
        lemma_tokens_view_subrange(tts@, bs as int, tts@.len() as int);
        assert(tv.skip(bs as int) =~= tv.subrange(bs as int, tv.len() as int));
    }
    let (jt, rs, rr) = match parse_run_return_type(body_tts) {
        Ok(x) => x,
        Err(e) => {
            return Err(e);
        },
    };
    let run_abs = bs + rs;
    let run_tok = bs + rr;
    let after_run = vstd::slice::slice_subrange(tts, run_tok + 1, tts.len());
    proof {
        lemma_tokens_view_subrange(tts@, run_tok + 1, tts@.len() as int);
        assert(tv.skip(run_tok + 1) =~= tv.subrange(run_tok + 1, tv.len() as int));
    }
    let params = match parse_run_params(after_run) {
        Ok(ps) => ps,
        Err(e) => {
            return Err(e);
        },
    };
    let imports = match (first, last_end) {
        (Some(f), Some(l)) => slice_text_exec(source, tts, f, l + 1),
        _ => String::new(),
    };
    let outer = slice_text_exec(source, tts, bs, run_abs);
    let body = if run_abs < tts.len() {
        slice_text_exec(source, tts, run_abs, tts.len())
    } else {
        String::new()
    };
    Ok(ParsedJava { imports, outer, body, params, java_type: jt })
}

// ── Options ──────────────────────────────────────────────────────────────────

/// The `key = "value"` option at index `c` of `ts`, if there is one: its key
/// and the literal's value.
pub open spec fn opt_at(ts: Seq<TokV>, c: int) -> Option<(Seq<char>, Seq<char>)> {
    if 0 <= c && c + 2 < ts.len() && ts[c].kind is Ident && is_punct(ts[c + 1], '=')
        && ts[c + 2].kind is Literal {
        match string_literal_value(ts[c + 2].text) {
            Some(v) => Some((ts[c].text, v)),
            None => None,
        }
    } else {
        None
    }
}

/// Consume `javac = ".."` / `java = ".."` options from index `c` on (each
/// optionally followed by a comma); a later option overrides an earlier one
/// with the same key. Returns the two values and the index where the Java
/// body starts.
pub open spec fn scan_opts(
    ts: Seq<TokV>,
    c: int,
    javac: Option<Seq<char>>,
    java: Option<Seq<char>>,
) -> (Option<Seq<char>>, Option<Seq<char>>, int)
    decreases ts.len() - c,
{
    match opt_at(ts, c) {
        None => (javac, java, c),
        Some((k, v)) => if k == "javac"@ || k == "java"@ {
            let c3 = c + 3;
            let c4 = if c3 < ts.len() && is_punct(ts[c3], ',') {
                c3 + 1
            } else {
                c3
            };
            if k == "javac"@ {
                scan_opts(ts, c4, Some(v), java)
            } else {
                scan_opts(ts, c4, javac, Some(v))
            }
        } else {
            (javac, java, c)
        },
    }
}

/// The `javac`/`java` options of a macro invocation.
pub struct JavaOpts {
    /// Extra arguments for `javac`, shell-split where used.
    pub javac_args: Option<String>,
    /// Extra arguments for `java`, shell-split where used.
    pub java_args: Option<String>,
}

/// The model of an optional string.
pub open spec fn opt_view(o: Option<String>) -> Option<Seq<char>> {
    match o {
        Some(s) => Some(s@),
        None => None,
    }
}

/// Try to read `javac|java = "value"` at the start of `tts`; returns the key,
/// the unquoted value and the number of tokens taken.
pub fn try_parse_opt(tts: &[Token]) -> (r: Option<(String, String, usize)>)
    ensures
        match opt_at(tokens_view(tts@), 0) {
            Some((k, v)) => r matches Some((a, b, n)) && a@ == k && b@ == v && n == 3,
            None => r is None,
        },
{
    let ghost tv = tokens_view(tts@);
    if tts.len() < 3 {
        return None;
    }
    proof {
        assert(tv[0] == token_view(tts@[0]));
        assert(tv[1] == token_view(tts@[1]));
        assert(tv[2] == token_view(tts@[2]));
    }
    match tts[0].kind {
        TokenKind::Ident => {},
        _ => {
            return None;
        },
    }
    if !tts[1].is_punct('=') {
        return None;
    }
    match tts[2].kind {
        TokenKind::Literal => {},
        _ => {
            return None;
        },
    }
    match string_lit_value(tts[2].text.as_str()) {
        Some(value) => Some((tts[0].text.clone(), value, 3)),
        None => None,
    }
}

/// Consume the leading `javac = ".."` / `java = ".."` options (comma
/// separated, trailing comma optional) and return them with the remaining
/// tokens, the Java body. Other leading tokens are left in place.
pub fn extract_opts(tts: Vec<Token>) -> (r: (JavaOpts, Vec<Token>))
    ensures
        ({
            let (javac, java, c) = scan_opts(tokens_view(tts@), 0, None, None);
            &&& opt_view(r.0.javac_args) == javac
            &&& opt_view(r.0.java_args) == java
            &&& 0 <= c <= tts@.len()
            &&& tokens_view(r.1@) == tokens_view(tts@).skip(c)
        }),
{
    let mut tts = tts;
    let ghost tv = tokens_view(tts@);
    let mut opts = JavaOpts { javac_args: None, java_args: None };
    let mut cursor: usize = 0;
    loop
        invariant
            tv == tokens_view(tts@),
            cursor <= tts@.len(),
            scan_opts(tv, 0, None, None) == scan_opts(
                tv,
                cursor as int,
                opt_view(opts.javac_args),
                opt_view(opts.java_args),
            ),
        ensures
            cursor <= tts@.len(),
            scan_opts(tv, 0, None, None) == (
                opt_view(opts.javac_args),
                opt_view(opts.java_args),
                cursor as int,
            ),
        decreases tts@.len() - cursor,
    {
        let rest = vstd::slice::slice_subrange(tts.as_slice(), cursor, tts.len());
        proof {
            lemma_tokens_view_subrange(tts@, cursor as int, tts@.len() as int);
            let rv = tokens_view(rest@);
            assert(opt_at(rv, 0) == opt_at(tv, cursor as int)) by {
                if rv.len() >= 3 {
                    assert(rv[0] == tv[cursor as int]);
                    assert(rv[1] == tv[cursor + 1]);
                    assert(rv[2] == tv[cursor + 2]);
                }
            }
        }
        match try_parse_opt(rest) {
            None => {
                break;
            },
            Some((key, val, consumed)) => {
                let is_javac = crate::text::str_eq(key.as_str(), "javac");
                let is_java = crate::text::str_eq(key.as_str(), "java");
                if is_javac {
                    opts.javac_args = Some(val);
                } else if is_java {
                    opts.java_args = Some(val);
                } else {
                    break;
                }
                cursor = cursor + consumed;
                if cursor < tts.len() && tts[cursor].is_punct(',') {
                    proof {
                        assert(tv[cursor as int] == token_view(tts@[cursor as int]));
                    }
                    cursor = cursor + 1;
                } else {
                    proof {
                        if cursor < tts@.len() {
                            assert(tv[cursor as int] == token_view(tts@[cursor as int]));
                        }
                    }
                }
            },
        }
    }
    let ghost whole = tts@;
    let body = tts.split_off(cursor);
    proof {
        lemma_tokens_view_subrange(whole, cursor as int, whole.len() as int);
        assert(tv.skip(cursor as int) =~= tv.subrange(cursor as int, tv.len() as int));
    }
    (opts, body)
}

} // verus!
