//! Specifications for the few standard-library operations (on text, and
//! hashing) that vstd leaves unspecified and that this crate relies on.
use vstd::prelude::*;
use vstd::utf8::{valid_utf8, decode_utf8, is_scalar};

verus! {

/// `String::push` appends one `char` to the end of the string, as its
/// documentation says ("Appends the given char to the end of this String").
pub assume_specification[ std::string::String::push ](s: &mut std::string::String, ch: char)
    ensures
        final(s)@ == old(s)@.push(ch),
;

/// `std::string::FromUtf8Error`, the error of a failed UTF-8 conversion; its
/// contents are not inspected.
#[verifier::external_type_specification]
#[verifier::external_body]
pub struct ExFromUtf8Error(std::string::FromUtf8Error);

/// `FromUtf8Error::clone` (derived in std); nothing is claimed of the copy.
pub assume_specification[ <std::string::FromUtf8Error as core::clone::Clone>::clone ](
    e: &std::string::FromUtf8Error,
) -> std::string::FromUtf8Error;

/// `String::from_utf8` succeeds exactly on valid UTF-8 (its documentation:
/// "Returns Err if the slice is not UTF-8"), and then holds the decoded text.
pub assume_specification[ std::string::String::from_utf8 ](vec: Vec<u8>) -> (r: Result<
    std::string::String,
    std::string::FromUtf8Error,
>)
    ensures
        r is Ok <==> valid_utf8(vec@),
        r matches Ok(s) ==> s@ == decode_utf8(vec@),
;

/// `char::from_u32` yields a `char` exactly for Unicode scalar values (its
/// documentation: "not all u32s are valid chars"; surrogates and values above
/// `0x10FFFF` give `None`), and that `char` has the given code.
pub assume_specification[ core::char::from_u32 ](i: u32) -> (r: Option<char>)
    ensures
        r is Some <==> is_scalar(i),
        r matches Some(c) ==> c as u32 == i,
;

/// What `format!("{:?}", c)` writes for a `char`: a Rust char literal.
pub uninterp spec fn char_debug_literal(c: char) -> Seq<char>;

/// What `format!("{:?}", s)` writes for a string: a Rust string literal.
pub uninterp spec fn str_debug_literal(s: Seq<char>) -> Seq<char>;

/// What `String::from_utf8_lossy` gives for `bytes`.
pub uninterp spec fn utf8_lossy(bytes: Seq<u8>) -> Seq<char>;

/// `char`'s `Debug` formatting (`format!("{c:?}")`); its result is named by
/// `char_debug_literal` and nothing more is claimed of it.
#[verifier::external_body]
pub(crate) fn debug_char(c: char) -> (s: std::string::String)
    ensures
        s@ == char_debug_literal(c),
{
    format!("{c:?}")
}

/// `str`'s `Debug` formatting (`format!("{s:?}")`); its result is named by
/// `str_debug_literal` and nothing more is claimed of it.
#[verifier::external_body]
pub(crate) fn debug_str(s: &str) -> (r: std::string::String)
    ensures
        r@ == str_debug_literal(s@),
{
    format!("{s:?}")
}

/// `String::from_utf8_lossy`: its documentation says that valid UTF-8 is
/// returned as the same text (invalid sequences become U+FFFD, which is not
/// claimed here).
#[verifier::external_body]
pub(crate) fn lossy_string(bytes: &[u8]) -> (s: std::string::String)
    ensures
        s@ == utf8_lossy(bytes@),
        valid_utf8(bytes@) ==> s@ == decode_utf8(bytes@),
{
    std::string::String::from_utf8_lossy(bytes).into_owned()
}

/// What `FromUtf8Error`'s `Display` writes (`format!("{e}")`); nothing is
/// claimed of it.
#[verifier::external_body]
pub(crate) fn utf8_error_text(e: &std::string::FromUtf8Error) -> std::string::String {
    format!("{e}")
}

/// The 64-bit hash that `std`'s `DefaultHasher` (as made by
/// `BuildHasherDefault`, with its fixed keys) gives for the tuple of the
/// snippet's import section, outer declarations, body and two options.
pub uninterp spec fn source_hash(
    imports: Seq<char>,
    outer: Seq<char>,
    body: Seq<char>,
    javac: Option<Seq<char>>,
    java: Option<Seq<char>>,
) -> u64;

/// `BuildHasher::hash_one` of `BuildHasherDefault<DefaultHasher>` over the
/// tuple `(imports, outer, body, javac, java)`; the contract only names the
/// result. `DefaultHasher` is built with fixed keys, so the result depends on
/// the arguments alone.
#[verifier::external_body]
pub(crate) fn hash_source(
    imports: &str,
    outer: &str,
    body: &str,
    javac: &Option<std::string::String>,
    java: &Option<std::string::String>,
) -> (h: u64)
    ensures
        h == source_hash(
            imports@,
            outer@,
            body@,
            crate::parse::opt_view(*javac),
            crate::parse::opt_view(*java),
        ),
{
    std::hash::BuildHasher::hash_one(
        &std::hash::BuildHasherDefault::<std::collections::hash_map::DefaultHasher>::default(),
        (imports, outer, body, javac, java),
    )
}

/// The 64-bit hash that `std`'s `DefaultHasher` (as made by
/// `BuildHasherDefault`, with its fixed keys) gives for the tuple of a
/// program's source, its expanded `javac` arguments, the working directory
/// (hashed as a `Path`), its raw `java` option and the Java version.
pub uninterp spec fn cache_hash(
    java_class: Seq<char>,
    javac_args: Seq<Seq<char>>,
    cwd: Option<Seq<char>>,
    java_raw: Seq<char>,
    version: Seq<char>,
) -> u64;

/// `BuildHasher::hash_one` of `BuildHasherDefault<DefaultHasher>` over the
/// tuple `(java_class, javac_args, cwd, java_raw, version)`, with `cwd` taken
/// as a `Path`, so that it hashes as the working directory's path does; the
/// contract only names the result, which depends on the arguments alone.
#[verifier::external_body]
pub(crate) fn hash_cache_key(
    java_class: &str,
    javac_args: &Vec<std::string::String>,
    cwd: &Option<std::string::String>,
    java_raw: &str,
    version: &str,
) -> (h: u64)
    ensures
        h == cache_hash(
            java_class@,
            javac_args.deep_view(),
            crate::parse::opt_view(*cwd),
            java_raw@,
            version@,
        ),
{
    std::hash::BuildHasher::hash_one(
        &std::hash::BuildHasherDefault::<std::collections::hash_map::DefaultHasher>::default(),
        (java_class, javac_args, cwd.as_deref().map(std::path::Path::new), java_raw, version),
    )
}

} // verus!
