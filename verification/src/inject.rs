//! Variable injection: in a snippet's body each `'name` (a Rust lifetime, as
//! Rust's lexer reads the macro input) stands for the Rust variable `name`.
//! The body refers to it as the Java `String` field `_RUST_name`, whose value
//! the program reads from stdin before the arguments of `run`.
use vstd::prelude::*;
use crate::text::{chars_of, string_of, str_eq};
use crate::external::{env_lookup, lookup_env};
use crate::types::{ScalarEnc, JavaType, BoxedType};
use crate::value::{JavaValue, JValue, has_type, java_max_len};
use crate::wire::{encode_from, encode_element, read_element, arg_offset, Read, lemma_args_read_back};
use vstd::utf8::encode_utf8;
use crate::codec::scalar_enc_ser;

verus! {

// ── Reading the body as Rust's lexer does ────────────────────────────────────

/// Where a scan of the body stands: in code, inside a string literal (or
/// just after a `\` in one), inside a character literal (or just after a `\`
/// in one), or inside a comment.
#[derive(PartialEq, Eq, Structural, Clone, Copy)]
pub enum LexMode {
    Code,
    Str,
    StrEscape,
    CharLit,
    CharEscape,
    LineComment,
    BlockComment,
}

/// A character that can start an identifier.
pub open spec fn is_ident_start(c: char) -> bool {
    ('a' <= c && c <= 'z') || ('A' <= c && c <= 'Z') || c == '_'
}

/// A character that can continue an identifier.
pub open spec fn is_ident_continue(c: char) -> bool {
    is_ident_start(c) || ('0' <= c && c <= '9')
}

/// The length of the run of identifier characters of `s` from index `i`.
pub open spec fn ident_len(s: Seq<char>, i: int) -> nat
    decreases s.len() - i,
{
    if 0 <= i < s.len() && is_ident_continue(s[i]) {
        1 + ident_len(s, i + 1)
    } else {
        0
    }
}

/// What one step of the scan does: the text it writes, the variable it
/// finds (if any), how many characters it takes beyond the first, and the
/// mode it leaves the scan in.
pub struct LexStep {
    pub emit: Seq<char>,
    pub found: Seq<Seq<char>>,
    pub extra: nat,
    pub next: LexMode,
}

/// A step that copies the one character `c`.
pub open spec fn copy_one(c: char, next: LexMode) -> LexStep {
    LexStep { emit: seq![c], found: Seq::empty(), extra: 0, next }
}

/// The step of the scan at `s[i]` in mode `m`. In code, `"` opens a string,
/// `//` and `/*` open comments, `'` followed by a `\` or by one character
/// and another `'` opens a character literal, and `'` followed by an
/// identifier is an injected variable: it is written `_RUST_` and its name.
/// (Where the body is rebuilt from its tokens, which are joined by single
/// spaces, the `'` and the identifier stand a space apart; Rust's lexer
/// accepts that nowhere else.) Everything else is copied as it stands.
pub open spec fn lex_step(s: Seq<char>, i: int, m: LexMode) -> LexStep {
    let c = s[i];
    match m {
        LexMode::Code => if c == '"' {
            copy_one(c, LexMode::Str)
        } else if c == '/' && i + 1 < s.len() && s[i + 1] == '/' {
            LexStep { emit: seq!['/', '/'], found: Seq::empty(), extra: 1, next: LexMode::LineComment }
        } else if c == '/' && i + 1 < s.len() && s[i + 1] == '*' {
            LexStep { emit: seq!['/', '*'], found: Seq::empty(), extra: 1, next: LexMode::BlockComment }
        } else if c == '\'' && i + 1 < s.len() && s[i + 1] == '\\' {
            LexStep { emit: seq!['\'', '\\'], found: Seq::empty(), extra: 1, next: LexMode::CharEscape }
        } else if c == '\'' && i + 2 < s.len() && s[i + 2] == '\'' {
            LexStep { emit: s.subrange(i, i + 3), found: Seq::empty(), extra: 2, next: LexMode::Code }
        } else if c == '\'' && i + 1 < s.len() && is_ident_start(s[i + 1]) {
            let name = s.subrange(i + 1, i + 1 + ident_len(s, i + 1));
            LexStep {
                emit: "_RUST_"@ + name,
                found: seq![name],
                extra: ident_len(s, i + 1),
                next: LexMode::Code,
            }
        } else if c == '\'' && i + 2 < s.len() && s[i + 1] == ' ' && is_ident_start(s[i + 2]) {
            let name = s.subrange(i + 2, i + 2 + ident_len(s, i + 2));
            LexStep {
                emit: "_RUST_"@ + name,
                found: seq![name],
                extra: 1 + ident_len(s, i + 2),
                next: LexMode::Code,
            }
        } else {
            copy_one(c, LexMode::Code)
        },
        LexMode::Str => if c == '\\' {
            copy_one(c, LexMode::StrEscape)
        } else if c == '"' {
            copy_one(c, LexMode::Code)
        } else {
            copy_one(c, LexMode::Str)
        },
        LexMode::StrEscape => copy_one(c, LexMode::Str),
        LexMode::CharLit => if c == '\'' {
            copy_one(c, LexMode::Code)
        } else {
            copy_one(c, LexMode::CharLit)
        },
        LexMode::CharEscape => copy_one(c, LexMode::CharLit),
        LexMode::LineComment => if c == '\n' {
            copy_one(c, LexMode::Code)
        } else {
            copy_one(c, LexMode::LineComment)
        },
        LexMode::BlockComment => if c == '*' && i + 1 < s.len() && s[i + 1] == '/' {
            LexStep { emit: seq!['*', '/'], found: Seq::empty(), extra: 1, next: LexMode::Code }
        } else {
            copy_one(c, LexMode::BlockComment)
        },
    }
}

/// The scan of `s` from index `i` in mode `m`: the rewritten text and the
/// injected variables found, in order of occurrence.
pub open spec fn inject_scan(s: Seq<char>, i: int, m: LexMode) -> (Seq<char>, Seq<Seq<char>>)
    decreases s.len() - i,
{
    if 0 <= i < s.len() {
        let st = lex_step(s, i, m);
        let j = i + 1 + st.extra;
        if j <= s.len() {
            let rest = inject_scan(s, j, st.next);
            (st.emit + rest.0, st.found + rest.1)
        } else {
            (st.emit, st.found)
        }
    } else {
        (Seq::empty(), Seq::empty())
    }
}

/// `ns` without repetitions, each name where it first occurs.
pub open spec fn distinct_in_order(ns: Seq<Seq<char>>) -> Seq<Seq<char>>
    decreases ns.len(),
{
    if ns.len() == 0 {
        Seq::empty()
    } else {
        let d = distinct_in_order(ns.drop_last());
        if d.contains(ns.last()) {
            d
        } else {
            d.push(ns.last())
        }
    }
}

/// The body `body` with each injected variable written as its field.
pub open spec fn injected_body(body: Seq<char>) -> Seq<char> {
    inject_scan(body, 0, LexMode::Code).0
}

/// The variables injected into `body`, each once, in order of first use.
pub open spec fn injected_names(body: Seq<char>) -> Seq<Seq<char>> {
    distinct_in_order(inject_scan(body, 0, LexMode::Code).1)
}

proof fn lemma_ident_len_bound(s: Seq<char>, i: int)
    requires
        0 <= i <= s.len(),
    ensures
        i + ident_len(s, i) <= s.len(),
    decreases s.len() - i,
{
    if i < s.len() && is_ident_continue(s[i]) {
        lemma_ident_len_bound(s, i + 1);
    }
}

fn ident_first_char(c: char) -> (r: bool)
    ensures
        r == is_ident_start(c),
{
    ('a' <= c && c <= 'z') || ('A' <= c && c <= 'Z') || c == '_'
}

fn ident_char(c: char) -> (r: bool)
    ensures
        r == is_ident_continue(c),
{
    ('a' <= c && c <= 'z') || ('A' <= c && c <= 'Z') || c == '_' || ('0' <= c && c <= '9')
}

/// The end of the run of identifier characters of `cs` from `start`.
fn ident_end(cs: &Vec<char>, start: usize) -> (j: usize)
    requires
        start <= cs@.len(),
    ensures
        start <= j <= cs@.len(),
        j - start == ident_len(cs@, start as int),
{
    let mut j = start;
    while j < cs.len() && ident_char(cs[j])
        invariant
            start <= j <= cs@.len(),
            ident_len(cs@, start as int) == (j - start) + ident_len(cs@, j as int),
        decreases cs@.len() - j,
    {
        j = j + 1;
    }
    j
}

/// The step of the scan at `cs[i]` in mode `m`: the text written, the
/// variable found, the characters taken beyond the first, and the next mode.
fn step_at(cs: &Vec<char>, i: usize, m: LexMode) -> (r: (String, Option<String>, usize, LexMode))
    requires
        i < cs@.len(),
    ensures
        ({
            let st = lex_step(cs@, i as int, m);
            &&& r.0@ == st.emit
            &&& match r.1 {
                Some(n) => st.found == seq![n@],
                None => st.found == Seq::<Seq<char>>::empty(),
            }
            &&& r.2 == st.extra
            &&& r.3 == st.next
            &&& i + 1 + r.2 <= cs@.len()
        }),
{
    let c = cs[i];
    let n = cs.len();
    let mut one = String::new();
    one.push(c);
    assert(one@ =~= seq![c]);
    match m {
        LexMode::Code => {
            if c == '"' {
                (one, None, 0, LexMode::Str)
            } else if c == '/' && i + 1 < n && cs[i + 1] == '/' {
                one.push('/');
                assert(one@ =~= seq!['/', '/']);
                (one, None, 1, LexMode::LineComment)
            } else if c == '/' && i + 1 < n && cs[i + 1] == '*' {
                one.push('*');
                assert(one@ =~= seq!['/', '*']);
                (one, None, 1, LexMode::BlockComment)
            } else if c == '\'' && i + 1 < n && cs[i + 1] == '\\' {
                one.push('\\');
                assert(one@ =~= seq!['\'', '\\']);
                (one, None, 1, LexMode::CharEscape)
            } else if c == '\'' && n - i > 2 && cs[i + 2] == '\'' {
                let lit = string_of(cs, i, i + 3);
                (lit, None, 2, LexMode::Code)
            } else if c == '\'' && i + 1 < n && ident_first_char(cs[i + 1]) {
                let end = ident_end(cs, i + 1);
                proof {
                    lemma_ident_len_bound(cs@, i + 1);
                }
                let name = string_of(cs, i + 1, end);
                let mut text = "_RUST_".to_owned();
                text.append(name.as_str());
                (text, Some(name), end - (i + 1), LexMode::Code)
            } else if c == '\'' && n - i > 2 && cs[i + 1] == ' ' && ident_first_char(cs[i + 2]) {
                let end = ident_end(cs, i + 2);
                proof {
                    lemma_ident_len_bound(cs@, i + 2);
                }
                let name = string_of(cs, i + 2, end);
                let mut text = "_RUST_".to_owned();
                text.append(name.as_str());
                (text, Some(name), end - (i + 1), LexMode::Code)
            } else {
                (one, None, 0, LexMode::Code)
            }
        },
        LexMode::Str => {
            if c == '\\' {
                (one, None, 0, LexMode::StrEscape)
            } else if c == '"' {
                (one, None, 0, LexMode::Code)
            } else {
                (one, None, 0, LexMode::Str)
            }
        },
        LexMode::StrEscape => (one, None, 0, LexMode::Str),
        LexMode::CharLit => {
            if c == '\'' {
                (one, None, 0, LexMode::Code)
            } else {
                (one, None, 0, LexMode::CharLit)
            }
        },
        LexMode::CharEscape => (one, None, 0, LexMode::CharLit),
        LexMode::LineComment => {
            if c == '\n' {
                (one, None, 0, LexMode::Code)
            } else {
                (one, None, 0, LexMode::LineComment)
            }
        },
        LexMode::BlockComment => {
            if c == '*' && i + 1 < n && cs[i + 1] == '/' {
                one.push('/');
                assert(one@ =~= seq!['*', '/']);
                (one, None, 1, LexMode::Code)
            } else {
                (one, None, 0, LexMode::BlockComment)
            }
        },
    }
}

/// Rewrite the body `body`: each injected variable `'name` becomes the field
/// `_RUST_name`. Also returns the names found, in order of occurrence.
pub fn inject_variables(body: &str) -> (r: (String, Vec<String>))
    ensures
        r.0@ == inject_scan(body@, 0, LexMode::Code).0,
        r.1.deep_view() == inject_scan(body@, 0, LexMode::Code).1,
{
    let cs = chars_of(body);
    let mut out = String::new();
    let mut names: Vec<String> = Vec::new();
    let mut i: usize = 0;
    let mut m = LexMode::Code;
    while i < cs.len()
        invariant
            i <= cs@.len(),
            cs@ == body@,
            inject_scan(cs@, 0, LexMode::Code).0 == out@ + inject_scan(cs@, i as int, m).0,
            inject_scan(cs@, 0, LexMode::Code).1 == names.deep_view() + inject_scan(
                cs@,
                i as int,
                m,
            ).1,
        decreases cs@.len() - i,
    {
        let ghost st = lex_step(cs@, i as int, m);
        let ghost rest = inject_scan(cs@, i + 1 + st.extra, st.next);
        let ghost before_out = out@;
        let ghost before_names = names.deep_view();
        let (emit, found, extra, next) = step_at(&cs, i, m);
        assert(inject_scan(cs@, i as int, m) == (st.emit + rest.0, st.found + rest.1));
        out.append(emit.as_str());
        match found {
            Some(n) => {
                names.push(n);
                assert(names.deep_view() =~= before_names + st.found);
            },
            None => {
                assert(names.deep_view() =~= before_names + st.found);
            },
        }
        assert(out@ + rest.0 =~= before_out + (st.emit + rest.0));
        assert(names.deep_view() + rest.1 =~= before_names + (st.found + rest.1));
        i = i + 1 + extra;
        m = next;
    }
    assert(out@ + inject_scan(cs@, i as int, m).0 =~= out@);
    assert(names.deep_view() + inject_scan(cs@, i as int, m).1 =~= names.deep_view());
    (out, names)
}

/// Whether `name` is one of `names`.
fn contains_name(names: &Vec<String>, name: &str) -> (r: bool)
    ensures
        r == names.deep_view().contains(name@),
{
    let ghost dv = names.deep_view();
    let mut k: usize = 0;
    while k < names.len()
        invariant
            k <= names@.len(),
            dv == names.deep_view(),
            forall|j: int| 0 <= j < k ==> dv[j] != name@,
        decreases names@.len() - k,
    {
        if str_eq(names[k].as_str(), name) {
            assert(dv[k as int] == name@);
            return true;
        }
        k = k + 1;
    }
    false
}

/// `names` without repetitions, each where it first occurs.
pub fn distinct_names(names: &Vec<String>) -> (r: Vec<String>)
    ensures
        r.deep_view() == distinct_in_order(names.deep_view()),
{
    let ghost ns = names.deep_view();
    let mut out: Vec<String> = Vec::new();
    let mut i: usize = 0;
    while i < names.len()
        invariant
            i <= names@.len(),
            ns == names.deep_view(),
            out.deep_view() == distinct_in_order(ns.take(i as int)),
        decreases names@.len() - i,
    {
        assert(ns.take(i + 1).drop_last() =~= ns.take(i as int));
        assert(ns.take(i + 1).last() == names@[i as int]@);
        if !contains_name(&out, names[i].as_str()) {
            let ghost before = out.deep_view();
            out.push(names[i].clone());
            assert(out.deep_view() =~= before.push(names@[i as int]@));
        }
        i = i + 1;
    }
    assert(ns.take(i as int) =~= ns);
    out
}

// ── The values of the injected variables ─────────────────────────────────────

/// The values bound to `names` in `bindings` (the first binding of each), if
/// every name is bound.
pub open spec fn bound_values(names: Seq<Seq<char>>, bindings: Seq<(Seq<char>, Seq<char>)>) -> Option<
    Seq<Seq<char>>,
>
    decreases names.len(),
{
    if names.len() == 0 {
        Some(Seq::empty())
    } else {
        match (bound_values(names.drop_last(), bindings), env_lookup(bindings, names.last())) {
            (Some(vs), Some(v)) => Some(vs.push(v)),
            _ => None,
        }
    }
}

/// The values of the injected variables `names`, looked up in `bindings`
/// (pairs of a variable's name and its value); `None` if one is unbound.
pub fn bind_injected(names: &Vec<String>, bindings: &Vec<(String, String)>) -> (r: Option<
    Vec<String>,
>)
    ensures
        match bound_values(names.deep_view(), bindings.deep_view()) {
            Some(vs) => r matches Some(v) && v.deep_view() == vs,
            None => r is None,
        },
{
    let ghost ns = names.deep_view();
    let mut out: Vec<String> = Vec::new();
    let mut i: usize = 0;
    while i < names.len()
        invariant
            i <= names@.len(),
            ns == names.deep_view(),
            bound_values(ns.take(i as int), bindings.deep_view()) == Some(out.deep_view()),
        decreases names@.len() - i,
    {
        assert(ns.take(i + 1).drop_last() =~= ns.take(i as int));
        assert(ns.take(i + 1).last() == names@[i as int]@);
        match lookup_env(bindings, names[i].as_str()) {
            Some(v) => {
                let ghost before = out.deep_view();
                out.push(v);
                assert(out.deep_view() =~= before.push(v@));
            },
            None => {
                proof {
                    lemma_unbound_stays_unbound(ns, bindings.deep_view(), i + 1);
                }
                return None;
            },
        }
        i = i + 1;
    }
    assert(ns.take(i as int) =~= ns);
    Some(out)
}

proof fn lemma_unbound_stays_unbound(
    ns: Seq<Seq<char>>,
    bindings: Seq<(Seq<char>, Seq<char>)>,
    k: int,
)
    requires
        1 <= k <= ns.len(),
        bound_values(ns.take(k), bindings) is None,
    ensures
        bound_values(ns, bindings) is None,
    decreases ns.len() - k,
{
    if k < ns.len() {
        assert(ns.take(k + 1).drop_last() =~= ns.take(k));
        lemma_unbound_stays_unbound(ns, bindings, k + 1);
    } else {
        assert(ns.take(k) =~= ns);
    }
}

/// The injected values `vs` as the Java strings they are sent as.
pub open spec fn injected_strings(vs: Seq<Seq<char>>) -> Seq<JValue> {
    Seq::new(vs.len(), |k: int| JValue::Str(vs[k]))
}

/// The bytes that go to the program's stdin, before the arguments of `run`,
/// for the values `values` of its injected variables: each as a Java
/// `String`, that is its UTF-8 length (4 bytes, big-endian) and its bytes.
pub fn encode_injected(values: &Vec<String>) -> (stdin: Vec<u8>)
    ensures
        stdin@ == encode_from(injected_strings(values.deep_view()), 0),
{
    let ghost vals = injected_strings(values.deep_view());
    let mut stdin: Vec<u8> = Vec::new();
    let mut i: usize = 0;
    while i < values.len()
        invariant
            i <= values@.len(),
            vals == injected_strings(values.deep_view()),
            stdin@ + encode_from(vals, i as int) == encode_from(vals, 0),
        decreases values@.len() - i,
    {
        let ghost before = stdin@;
        assert(encode_from(vals, i as int) == encode_element(vals[i as int])
            + encode_from(vals, i + 1));
        let v = JavaValue::Str(values[i].clone());
        assert(v@ == vals[i as int]);
        scalar_enc_ser(ScalarEnc::Str, &v, &mut stdin);
        assert(stdin@ + encode_from(vals, i + 1) =~= before + encode_from(vals, i as int));
        i = i + 1;
    }
    assert(encode_from(vals, i as int) =~= Seq::<u8>::empty());
    assert(stdin@ =~= encode_from(vals, 0));
    stdin
}

// ── Laws ─────────────────────────────────────────────────────────────────────

proof fn lemma_scan_without_quotes(s: Seq<char>, i: int, m: LexMode)
    requires
        0 <= i <= s.len(),
        forall|k: int| 0 <= k < s.len() ==> #[trigger] s[k] != '\'',
    ensures
        inject_scan(s, i, m) == (s.subrange(i, s.len() as int), Seq::<Seq<char>>::empty()),
    decreases s.len() - i,
{
    if i < s.len() {
        let st = lex_step(s, i, m);
        assert(s[i] != '\'');
        let j = i + 1 + st.extra;
        assert(st.found == Seq::<Seq<char>>::empty());
        assert(j <= s.len());
        assert(st.emit =~= s.subrange(i, j));
        lemma_scan_without_quotes(s, j, st.next);
        assert(s.subrange(i, s.len() as int) =~= st.emit + s.subrange(j, s.len() as int));
        assert(st.found + Seq::<Seq<char>>::empty() =~= Seq::<Seq<char>>::empty());
    } else {
        assert(s.subrange(i, s.len() as int) =~= Seq::<char>::empty());
    }
}

/// A body without a `'` injects nothing and is left as it stands.
pub proof fn lemma_body_without_quotes_is_unchanged(body: Seq<char>)
    requires
        !body.contains('\''),
    ensures
        injected_body(body) == body,
        injected_names(body) == Seq::<Seq<char>>::empty(),
{
    assert forall|k: int| 0 <= k < body.len() implies #[trigger] body[k] != '\'' by {
        if body[k] == '\'' {
            assert(body.contains('\''));
        }
    }
    lemma_scan_without_quotes(body, 0, LexMode::Code);
    assert(body.subrange(0, body.len() as int) =~= body);
}

proof fn lemma_distinct_in_order(ns: Seq<Seq<char>>)
    ensures
        distinct_in_order(ns).no_duplicates(),
        forall|x: Seq<char>| #[trigger] distinct_in_order(ns).contains(x) <==> ns.contains(x),
    decreases ns.len(),
{
    if ns.len() > 0 {
        let init = ns.drop_last();
        let d = distinct_in_order(init);
        lemma_distinct_in_order(init);
        assert forall|x: Seq<char>| ns.contains(x) <==> init.contains(x) || x == ns.last() by {
            if ns.contains(x) {
                let k = choose|k: int| 0 <= k < ns.len() && ns[k] == x;
                if k < ns.len() - 1 {
                    assert(init[k] == x);
                }
            }
            if init.contains(x) {
                let k = choose|k: int| 0 <= k < init.len() && init[k] == x;
                assert(ns[k] == x);
            }
            if x == ns.last() {
                assert(ns[ns.len() - 1] == x);
            }
        }
        if !d.contains(ns.last()) {
            let e = d.push(ns.last());
            assert forall|x: Seq<char>| e.contains(x) <==> d.contains(x) || x == ns.last() by {
                if e.contains(x) {
                    let k = choose|k: int| 0 <= k < e.len() && e[k] == x;
                    if k < d.len() {
                        assert(d[k] == x);
                    }
                }
                if d.contains(x) {
                    let k = choose|k: int| 0 <= k < d.len() && d[k] == x;
                    assert(e[k] == x);
                }
                if x == ns.last() {
                    assert(e[d.len() as int] == x);
                }
            }
            assert forall|a: int, b: int| 0 <= a < e.len() && 0 <= b < e.len() && a != b implies e[a]
                != e[b] by {
                if a < d.len() && b < d.len() {
                    assert(e[a] == d[a] && e[b] == d[b]);
                } else if a < d.len() {
                    assert(e[a] == d[a]);
                    assert(d.contains(d[a]));
                } else if b < d.len() {
                    assert(e[b] == d[b]);
                    assert(d.contains(d[b]));
                }
            }
        }
    }
}

/// Each variable that a body injects is declared once: the injected names
/// have no repetition, and they are exactly the names used in the body.
pub proof fn lemma_each_injected_variable_declared_once(body: Seq<char>)
    ensures
        injected_names(body).no_duplicates(),
        forall|x: Seq<char>| #[trigger] injected_names(body).contains(x) <==> inject_scan(
            body,
            0,
            LexMode::Code,
        ).1.contains(x),
{
    lemma_distinct_in_order(inject_scan(body, 0, LexMode::Code).1);
}

proof fn lemma_encode_from_concat(a: Seq<JValue>, b: Seq<JValue>, i: int)
    requires
        0 <= i <= a.len(),
    ensures
        encode_from(a + b, i) == encode_from(a, i) + encode_from(b, 0),
    decreases a.len() - i,
{
    if i < a.len() {
        lemma_encode_from_concat(a, b, i + 1);
        assert((a + b)[i] == a[i]);
        assert(encode_from(a + b, i) == encode_element(a[i]) + encode_from(a + b, i + 1));
        assert(encode_element(a[i]) + (encode_from(a, i + 1) + encode_from(b, 0)) =~= (
        encode_element(a[i]) + encode_from(a, i + 1)) + encode_from(b, 0));
    } else {
        lemma_encode_from_shift(a, b, 0);
        assert(Seq::<u8>::empty() + encode_from(b, 0) =~= encode_from(b, 0));
    }
}

proof fn lemma_encode_from_shift(a: Seq<JValue>, b: Seq<JValue>, k: int)
    requires
        0 <= k <= b.len(),
    ensures
        encode_from(a + b, a.len() + k) == encode_from(b, k),
    decreases b.len() - k,
{
    if k < b.len() {
        lemma_encode_from_shift(a, b, k + 1);
        assert((a + b)[a.len() + k] == b[k]);
    }
}

/// What a run's stdin holds, the values of the injected variables and then
/// the arguments, is read back in the order in which the generated `main`
/// reads it: each injected value as a Java `String`, then each argument with
/// its type.
pub proof fn lemma_injected_then_args_read_back(
    vs: Seq<Seq<char>>,
    types: Seq<JavaType>,
    vals: Seq<JValue>,
    i: int,
)
    requires
        forall|k: int| 0 <= k < vs.len() ==> encode_utf8(#[trigger] vs[k]).len() <= java_max_len(),
        types.len() == vals.len(),
        forall|k: int| 0 <= k < vals.len() ==> has_type(#[trigger] vals[k], types[k]),
        0 <= i < vs.len() + vals.len(),
    ensures
        ({
            let all = injected_strings(vs) + vals;
            let tys = Seq::new(vs.len(), |k: int| JavaType::Boxed(BoxedType::String)) + types;
            &&& encode_from(injected_strings(vs), 0) + encode_from(vals, 0) == encode_from(all, 0)
            &&& read_element(tys[i], encode_from(all, 0), arg_offset(all, i)) == Read::Done(
                all[i],
                arg_offset(all, i + 1),
            )
        }),
{
    let strs = injected_strings(vs);
    let all = strs + vals;
    let tys = Seq::new(vs.len(), |k: int| JavaType::Boxed(BoxedType::String)) + types;
    lemma_encode_from_concat(strs, vals, 0);
    assert forall|k: int| 0 <= k < all.len() implies has_type(#[trigger] all[k], tys[k]) by {
        if k < vs.len() {
            assert(all[k] == JValue::Str(vs[k]));
            assert(tys[k] == JavaType::Boxed(BoxedType::String));
        } else {
            assert(all[k] == vals[k - vs.len()]);
            assert(tys[k] == types[k - vs.len()]);
        }
    }
    lemma_args_read_back(tys, all, i);
}

} // verus!
