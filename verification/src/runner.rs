//! Running a generated program: the argument lists of `javac` and `java`, the
//! cache-directory name, the Java version probe, and the order of the steps
//! (check the cache, lock, compile, mark, launch) with what each outcome
//! means. The caller performs the steps; this module decides them.
use vstd::prelude::*;
use crate::args::{split_args, split_args_spec};
use crate::external::{shell_expand, shell_expansion};
use crate::text::{
    str_eq, hex_padded, hex_string, decimal, decimal_digits, digit_char, decimal_string_unsigned,
    trim, trim_ws, find_from, is_hex_char, lemma_hex16_shape,
    find_in, chars_of, string_of, lemma_find_from,
};
use crate::std_text::{
    lossy_string, utf8_lossy, debug_str, str_debug_literal, cache_hash, hash_cache_key,
};
use crate::parse::opt_view;
use crate::error::JavaError;

verus! {

// ── Option strings ───────────────────────────────────────────────────────────

/// The arguments that the option string `raw` stands for in environment
/// `env`: none for an empty string, else its shell expansion split on
/// unquoted blanks.
pub open spec fn expanded_args(raw: Seq<char>, env: Seq<(Seq<char>, Seq<char>)>) -> Seq<Seq<char>> {
    if raw.len() == 0 {
        Seq::empty()
    } else {
        split_args_spec(shell_expansion(raw, env))
    }
}

/// Shell-expand `raw` (environment variables and `~`, looked up in `env`),
/// then split it into arguments, respecting quotes. An empty `raw` gives no
/// arguments, and one with no `$` and no leading `~` is split as it stands.
pub fn expand_java_args(raw: &str, env: &Vec<(String, String)>) -> (r: Vec<String>)
    ensures
        r.deep_view() == expanded_args(raw@, env.deep_view()),
        !raw@.contains('$') && !(raw@.len() > 0 && raw@[0] == '~') ==> r.deep_view()
            == split_args_spec(raw@),
{
    if raw.is_empty() {
        assert(raw@ =~= Seq::<char>::empty());
        assert(split_args_spec(raw@) =~= Seq::<Seq<char>>::empty());
        return Vec::new();
    }
    let expanded = shell_expand(raw, env);
    split_args(expanded.as_str())
}

// ── Class path ───────────────────────────────────────────────────────────────

/// Whether `a` is a class-path flag whose value is the next argument.
pub open spec fn is_space_cp_flag(a: Seq<char>) -> bool {
    a == "-cp"@ || a == "-classpath"@ || a == "--class-path"@
}

/// Whether `a` is `--class-path=<value>`.
pub open spec fn is_joined_cp_flag(a: Seq<char>) -> bool {
    a.len() >= "--class-path="@.len() && a.take("--class-path="@.len() as int) == "--class-path="@
}

/// The index of the argument that holds the class path that a new entry is
/// appended to: scanning from `i`, the value after the first class-path flag
/// that has one, or the first `--class-path=` argument, whichever comes
/// first.
pub open spec fn cp_slot(args: Seq<Seq<char>>, i: int) -> Option<int>
    decreases args.len() - i,
{
    if i < 0 || i >= args.len() {
        None
    } else if is_space_cp_flag(args[i]) && i + 1 < args.len() {
        Some(i + 1)
    } else if is_joined_cp_flag(args[i]) {
        Some(i)
    } else {
        cp_slot(args, i + 1)
    }
}

/// `args` with `extra_cp` added to their class path: appended, after `sep`,
/// to an existing class-path value, or given as a new `-cp extra_cp`.
pub open spec fn with_classpath(args: Seq<Seq<char>>, extra_cp: Seq<char>, sep: char) -> Seq<
    Seq<char>,
> {
    match cp_slot(args, 0) {
        Some(j) => args.update(j, args[j].push(sep) + extra_cp),
        None => args.push("-cp"@).push(extra_cp),
    }
}

proof fn lemma_cp_slot_range(args: Seq<Seq<char>>, i: int)
    ensures
        cp_slot(args, i) matches Some(j) ==> i <= j < args.len(),
    decreases args.len() - i,
{
    if !(i < 0 || i >= args.len()) && !(is_space_cp_flag(args[i]) && i + 1 < args.len())
        && !is_joined_cp_flag(args[i]) {
        lemma_cp_slot_range(args, i + 1);
    }
}

/// Whether `s` starts with `prefix`.
fn starts_with(s: &str, prefix: &str) -> (r: bool)
    ensures
        r == (s@.len() >= prefix@.len() && s@.take(prefix@.len() as int) == prefix@),
{
    let cs = chars_of(s);
    let ps = chars_of(prefix);
    if ps.len() > cs.len() {
        return false;
    }
    let mut k: usize = 0;
    while k < ps.len()
        invariant
            cs@ == s@,
            ps@ == prefix@,
            k <= ps@.len() <= cs@.len(),
            forall|m: int| 0 <= m < k ==> cs@[m] == ps@[m],
        decreases ps@.len() - k,
    {
        if cs[k] != ps[k] {
            assert(s@.take(prefix@.len() as int)[k as int] != prefix@[k as int]);
            return false;
        }
        k = k + 1;
    }
    assert(s@.take(prefix@.len() as int) =~= prefix@);
    true
}

/// Add `extra_cp` to the class path given in `args`: append it, after the
/// separator `sep`, to the value of the first `-cp`, `-classpath` or
/// `--class-path` flag (or `--class-path=` argument), or add `-cp extra_cp`
/// if there is none. `sep` is the platform's class-path separator (`:` on
/// Unix, `;` on Windows).
pub fn inject_classpath(args: &mut Vec<String>, extra_cp: &str, sep: char)
    ensures
        final(args).deep_view() == with_classpath(old(args).deep_view(), extra_cp@, sep),
{
    let ghost dv = args.deep_view();
    proof {
        lemma_cp_slot_range(dv, 0);
    }
    let mut i: usize = 0;
    while i < args.len()
        invariant
            dv == args.deep_view(),
            dv == old(args).deep_view(),
            i <= args@.len(),
            cp_slot(dv, 0) == cp_slot(dv, i as int),
        decreases args@.len() - i,
    {
        let a = args[i].as_str();
        let space_flag = str_eq(a, "-cp") || str_eq(a, "-classpath") || str_eq(a, "--class-path");
        assert(a@ == dv[i as int]);
        if space_flag && i + 1 < args.len() {
            let mut v = args[i + 1].clone();
            v.push(sep);
            v.append(extra_cp);
            args.set(i + 1, v);
            assert(args.deep_view() =~= with_classpath(dv, extra_cp@, sep));
            return;
        }
        if starts_with(a, "--class-path=") {
            let mut v = args[i].clone();
            v.push(sep);
            v.append(extra_cp);
            args.set(i, v);
            assert(args.deep_view() =~= with_classpath(dv, extra_cp@, sep));
            return;
        }
        i = i + 1;
    }
    args.push("-cp".to_owned());
    args.push(extra_cp.to_owned());
    assert(args.deep_view() =~= with_classpath(dv, extra_cp@, sep));
}

// ── Java version ─────────────────────────────────────────────────────────────

/// Whether `c` is an ASCII digit.
pub open spec fn is_digit(c: char) -> bool {
    '0' <= c <= '9'
}

/// The value of the decimal digits `d`.
pub open spec fn digits_value(d: Seq<char>) -> nat
    decreases d.len(),
{
    if d.len() == 0 {
        0
    } else {
        digits_value(d.drop_last()) * 10 + ((d.last() as int) - ('0' as int)) as nat
    }
}

/// `s` without a leading `+`.
pub open spec fn unsigned_digits(s: Seq<char>) -> Seq<char> {
    if s.len() > 0 && s[0] == '+' {
        s.drop_first()
    } else {
        s
    }
}

/// Whether every character of `d` is an ASCII digit.
pub open spec fn all_digits(d: Seq<char>) -> bool {
    forall|k: int| 0 <= k < d.len() ==> is_digit(#[trigger] d[k])
}

/// What `str::parse::<u32>` accepts: an optional `+`, then one or more ASCII
/// digits whose value fits in `u32`.
pub open spec fn parsed_u32(s: Seq<char>) -> Option<u32> {
    let d = unsigned_digits(s);
    if d.len() > 0 && all_digits(d) && digits_value(d) <= u32::MAX {
        Some(digits_value(d) as u32)
    } else {
        None
    }
}

proof fn lemma_digits_prefix(d: Seq<char>, k: int)
    requires
        0 <= k <= d.len(),
        all_digits(d),
    ensures
        digits_value(d.take(k)) <= digits_value(d),
    decreases d.len() - k,
{
    if k < d.len() {
        lemma_digits_prefix(d, k + 1);
        assert(d.take(k + 1).drop_last() =~= d.take(k));
    } else {
        assert(d.take(k) =~= d);
    }
}

/// Parse a `u32` as `str::parse` does.
fn parse_u32(s: &Vec<char>) -> (r: Option<u32>)
    ensures
        r == parsed_u32(s@),
{
    let start: usize = if s.len() > 0 && s[0] == '+' { 1 } else { 0 };
    let ghost d = unsigned_digits(s@);
    assert(d =~= s@.skip(start as int));
    if start >= s.len() {
        return None;
    }
    let mut acc: u64 = 0;
    let mut i = start;
    while i < s.len()
        invariant
            start <= i <= s@.len(),
            d == unsigned_digits(s@),
            d =~= s@.skip(start as int),
            d.len() > 0,
            forall|m: int| 0 <= m < i - start ==> is_digit(#[trigger] d[m]),
            acc == digits_value(d.take(i - start)),
            acc <= u32::MAX,
        decreases s@.len() - i,
    {
        let c = s[i];
        if !('0' <= c && c <= '9') {
            assert(!is_digit(d[i - start]));
            assert(!all_digits(d));
            return None;
        }
        let digit = (c as u32 - '0' as u32) as u64;
        assert(d.take(i - start + 1).drop_last() =~= d.take(i - start));
        assert(d.take(i - start + 1).last() == c);
        let next = acc * 10 + digit;
        if next > u32::MAX as u64 {
            proof {
                // Every later digit only makes the value larger.
                if all_digits(d) {
                    lemma_digits_prefix(d, i - start + 1);
                }
            }
            return None;
        }
        acc = next;
        i = i + 1;
    }
    assert(d.take(i - start) =~= d);
    assert(all_digits(d));
    Some(acc as u32)
}

/// The text that `javac -version` printed: its stdout, unless that is blank,
/// else its stderr.
pub open spec fn version_output(stdout: Seq<char>, stderr: Seq<char>) -> Seq<char> {
    if trim_ws(stdout).len() == 0 {
        stderr
    } else {
        stdout
    }
}

/// The version number in the output `raw` of `javac -version`: the output
/// trimmed, without a leading `javac `.
pub open spec fn version_text(raw: Seq<char>) -> Seq<char> {
    let t = trim_ws(raw);
    if t.len() >= "javac "@.len() && t.take("javac "@.len() as int) == "javac "@ {
        t.skip("javac "@.len() as int)
    } else {
        t
    }
}

/// The text of `v` before its first `.`, or all of `v` if it has none.
pub open spec fn first_component(v: Seq<char>) -> Seq<char> {
    match find_from(v, seq!['.'], 0) {
        Some(j) => v.take(j),
        None => v,
    }
}

/// The text of `v` after its first `.`, if it has one.
pub open spec fn after_first_dot(v: Seq<char>) -> Option<Seq<char>> {
    match find_from(v, seq!['.'], 0) {
        Some(j) => Some(v.skip(j + 1)),
        None => None,
    }
}

/// The major version in the output `raw` of `javac -version`, written back in
/// decimal: the number before the first `.` of the version text, except in
/// the `1.N` scheme of JDK 8 and older (`javac 1.8.0_292`), where it is the
/// number `N` after it.
pub open spec fn major_version(raw: Seq<char>) -> Option<Seq<char>> {
    let v = version_text(raw);
    match parsed_u32(first_component(v)) {
        Some(n) => {
            let legacy = if n == 1 {
                match after_first_dot(v) {
                    Some(rest) => parsed_u32(first_component(rest)),
                    None => None,
                }
            } else {
                None
            };
            match legacy {
                Some(m) => Some(decimal(m as int)),
                None => Some(decimal(n as int)),
            }
        },
        None => None,
    }
}

/// `v` split at its first `.`: the text before it (all of `v` if there is
/// none) and the text after it.
fn split_first_dot(v: &Vec<char>) -> (r: (Vec<char>, Option<Vec<char>>))
    ensures
        r.0@ == first_component(v@),
        match r.1 {
            Some(rest) => after_first_dot(v@) == Some(rest@),
            None => after_first_dot(v@) is None,
        },
{
    let dot: Vec<char> = vec!['.'];
    assert(dot@ =~= seq!['.']);
    proof {
        lemma_find_from(v@, dot@, 0);
    }
    match find_in(v, &dot, 0) {
        Some(j) => {
            let n = v.len();
            assert(j + dot@.len() <= n && dot@.len() == 1);
            let before = chars_of(string_of(v, 0, j).as_str());
            let after = chars_of(string_of(v, j + 1, n).as_str());
            assert(v@.subrange(j + 1, v@.len() as int) =~= v@.skip(j + 1));
            (before, Some(after))
        },
        None => {
            let before = chars_of(string_of(v, 0, v.len()).as_str());
            assert(v@.subrange(0, v@.len() as int) =~= v@);
            (before, None)
        },
    }
}

proof fn lemma_digit_char_value(k: int)
    requires
        0 <= k < 10,
    ensures
        is_digit(digit_char(k)),
        (digit_char(k) as int) - ('0' as int) == k,
        digit_char(k) != '+',
{
    let ds = seq!['0', '1', '2', '3', '4', '5', '6', '7', '8', '9', 'a', 'b', 'c', 'd', 'e', 'f'];
    assert(digit_char(k) == ds[k]);
    if k == 0 {
    } else if k == 1 {
    } else if k == 2 {
    } else if k == 3 {
    } else if k == 4 {
    } else if k == 5 {
    } else if k == 6 {
    } else if k == 7 {
    } else if k == 8 {
    } else {
    }
}

proof fn lemma_decimal_digits_value(n: nat)
    ensures
        decimal_digits(n).len() > 0,
        all_digits(decimal_digits(n)),
        digits_value(decimal_digits(n)) == n,
        decimal_digits(n)[0] != '+',
    decreases n,
{
    if n < 10 {
        lemma_digit_char_value(n as int);
        assert(decimal_digits(n).drop_last() =~= Seq::<char>::empty());
        assert(digits_value(Seq::<char>::empty()) == 0);
        assert(digits_value(decimal_digits(n)) == n);
    } else {
        lemma_decimal_digits_value(n / 10);
        lemma_digit_char_value((n % 10) as int);
        let d = decimal_digits(n / 10);
        assert(decimal_digits(n).drop_last() =~= d);
        assert(decimal_digits(n).last() == digit_char((n % 10) as int));
        assert(n == (n / 10) * 10 + n % 10);
        assert(digits_value(decimal_digits(n)) == digits_value(d) * 10 + (n % 10));
        assert(all_digits(decimal_digits(n))) by {
            assert forall|k: int| 0 <= k < decimal_digits(n).len() implies is_digit(
                #[trigger] decimal_digits(n)[k],
            ) by {
                if k < d.len() {
                    assert(decimal_digits(n)[k] == d[k]);
                }
            }
        }
    }
}

/// A number written in decimal parses back to itself.
proof fn lemma_decimal_parses(n: u32)
    ensures
        parsed_u32(decimal(n as int)) == Some(n),
{
    lemma_decimal_digits_value(n as nat);
    assert(unsigned_digits(decimal(n as int)) == decimal(n as int));
}

/// The Java version probe yields a plain decimal number: when it succeeds,
/// its result parses as a `u32` and is written in canonical decimal.
pub proof fn lemma_version_is_plain_number(stdout: Seq<u8>, stderr: Seq<u8>)
    ensures
        version_probe(stdout, stderr) matches Ok(v) ==> (parsed_u32(v) matches Some(n) && decimal(
            n as int,
        ) == v),
{
    let v = version_text(version_output(utf8_lossy(stdout), utf8_lossy(stderr)));
    if let Some(n) = parsed_u32(first_component(v)) {
        lemma_decimal_parses(n);
        if let Some(rest) = after_first_dot(v) {
            if let Some(m) = parsed_u32(first_component(rest)) {
                lemma_decimal_parses(m);
            }
        }
    }
}

/// The result of probing the Java version, given the bytes that
/// `javac -version` wrote to stdout and stderr: the major version, or an I/O
/// error quoting the output.
pub open spec fn version_probe(stdout: Seq<u8>, stderr: Seq<u8>) -> Result<Seq<char>, Seq<char>> {
    let raw = version_output(utf8_lossy(stdout), utf8_lossy(stderr));
    match major_version(raw) {
        Some(v) => Ok(v),
        None => Err(
            "could not parse major version from `javac -version` output: "@ + str_debug_literal(
                raw,
            ),
        ),
    }
}

/// Detect the installed Java major version from what `javac -version`
/// printed (stdout on most JDKs, stderr on some older ones).
pub fn detect_java_version(stdout: &[u8], stderr: &[u8]) -> (r: Result<String, JavaError>)
    ensures
        match version_probe(stdout@, stderr@) {
            Ok(v) => r matches Ok(s) && s@ == v,
            Err(m) => r matches Err(JavaError::Io(d)) && d@ == m,
        },
{
    let out = lossy_string(stdout);
    let err = lossy_string(stderr);
    let raw = if trim(out.as_str()).as_str().unicode_len() == 0 { err } else { out };
    let t = chars_of(trim(raw.as_str()).as_str());
    let prefix = chars_of("javac ");
    let v: Vec<char> = if t.len() >= prefix.len() && starts_with(
        string_of(&t, 0, t.len()).as_str(),
        "javac ",
    ) {
        assert(t@.subrange(0, t@.len() as int) =~= t@);
        chars_of(string_of(&t, prefix.len(), t.len()).as_str())
    } else {
        assert(t@.subrange(0, t@.len() as int) =~= t@);
        t
    };
    assert(v@ == version_text(raw@));
    let (first, rest) = split_first_dot(&v);
    match parse_u32(&first) {
        Some(n) => {
            let mut major = n;
            if n == 1 {
                if let Some(r) = rest {
                    let (second, _) = split_first_dot(&r);
                    if let Some(m) = parse_u32(&second) {
                        major = m;
                    }
                }
            }
            Ok(decimal_string_unsigned(major as u64))
        },
        None => {
            let mut m = "could not parse major version from `javac -version` output: ".to_owned();
            m.append(debug_str(raw.as_str()).as_str());
            Err(JavaError::Io(m))
        },
    }
}

// ── Cache directory ──────────────────────────────────────────────────────────

/// The directory under which compiled programs are cached, chosen in this
/// order: the `INLINE_JAVA_CACHE_DIR` override when it is set and not empty;
/// else `inline_java` under the platform's cache directory, when there is one;
/// else `inline_java` under the system's temporary directory. `sep` is the
/// platform's path separator.
pub open spec fn cache_root_spec(
    env_override: Option<Seq<char>>,
    platform_cache: Option<Seq<char>>,
    temp_dir: Seq<char>,
    sep: char,
) -> Seq<char> {
    match env_override {
        Some(v) if v.len() > 0 => v,
        _ => match platform_cache {
            Some(p) => p + seq![sep] + "inline_java"@,
            None => temp_dir + seq![sep] + "inline_java"@,
        },
    }
}

/// Choose the cache root from the value of `INLINE_JAVA_CACHE_DIR` (if it is
/// set), the platform's cache directory (if it has one), the system's
/// temporary directory and the path separator.
pub fn cache_root(
    env_override: Option<String>,
    platform_cache: Option<String>,
    temp_dir: String,
    sep: char,
) -> (r: String)
    ensures
        r@ == cache_root_spec(opt_view(env_override), opt_view(platform_cache), temp_dir@, sep),
{
    if let Some(v) = env_override {
        if v.as_str().unicode_len() > 0 {
            return v;
        }
    }
    let mut base = match platform_cache {
        Some(p) => p,
        None => temp_dir,
    };
    base.push(sep);
    base.append("inline_java");
    base
}


/// The name of the directory, under the cache root, that holds the compiled
/// classes of a program: its class name, `_`, and 16 hexadecimal digits of a
/// hash of its source, its expanded `javac` arguments, the working directory
/// (which anchors relative paths in them), its raw `java` option and the
/// Java major version.
pub open spec fn cache_dir_name_text(
    class_name: Seq<char>,
    java_class: Seq<char>,
    javac_raw: Seq<char>,
    java_raw: Seq<char>,
    env: Seq<(Seq<char>, Seq<char>)>,
    cwd: Option<Seq<char>>,
    version: Seq<char>,
) -> Seq<char> {
    class_name + "_"@ + hex_padded(
        cache_hash(java_class, expanded_args(javac_raw, env), cwd, java_raw, version) as nat,
        16,
    )
}

/// The name of the cache directory of a program (see
/// [`cache_dir_name_text`]); `env` is the environment that option strings
/// are expanded in, `cwd` the working directory and `version` the Java major
/// version.
pub fn cache_dir_name(
    class_name: &str,
    java_class: &str,
    javac_raw: &str,
    java_raw: &str,
    env: &Vec<(String, String)>,
    cwd: &Option<String>,
    version: &str,
) -> (r: String)
    ensures
        r@ == cache_dir_name_text(
            class_name@,
            java_class@,
            javac_raw@,
            java_raw@,
            env.deep_view(),
            opt_view(*cwd),
            version@,
        ),
{
    let javac_args = expand_java_args(javac_raw, env);
    let h = hash_cache_key(java_class, &javac_args, cwd, java_raw, version);
    let hex = hex_string(h, 16);
    let mut s = class_name.to_owned();
    s.append("_");
    s.append(hex.as_str());
    s
}

/// A cache directory is named by its class name, `_`, and 16 lower-case
/// hexadecimal digits.
pub proof fn lemma_cache_dir_name_shape(
    class_name: Seq<char>,
    java_class: Seq<char>,
    javac_raw: Seq<char>,
    java_raw: Seq<char>,
    env: Seq<(Seq<char>, Seq<char>)>,
    cwd: Option<Seq<char>>,
    version: Seq<char>,
)
    ensures
        ({
            let d = cache_dir_name_text(class_name, java_class, javac_raw, java_raw, env, cwd, version);
            &&& d.len() == class_name.len() + 17
            &&& d.take(class_name.len() as int) == class_name
            &&& d[class_name.len() as int] == '_'
            &&& forall|k: int| class_name.len() < k < d.len() ==> is_hex_char(#[trigger] d[k])
        }),
{
    reveal_strlit("_");
    let h = cache_hash(java_class, expanded_args(javac_raw, env), cwd, java_raw, version);
    lemma_hex16_shape(h);
    let d = cache_dir_name_text(class_name, java_class, javac_raw, java_raw, env, cwd, version);
    let hex = hex_padded(h as nat, 16);
    assert(d.take(class_name.len() as int) =~= class_name);
    assert forall|k: int| class_name.len() < k < d.len() implies is_hex_char(#[trigger] d[k]) by {
        assert(d[k] == hex[k - class_name.len() - 1]);
    }
}

// ── The steps of a run ───────────────────────────────────────────────────────

/// Where a run stands.
#[derive(Clone, Copy, PartialEq, Eq, Debug, Structural)]
pub enum RunPhase {
    /// Nothing done yet.
    Start,
    /// Waiting to learn whether the class is already compiled.
    CheckingCache,
    /// Waiting for the lock on the class directory.
    Locking,
    /// Holding the lock, waiting to learn whether the class got compiled
    /// meanwhile.
    CheckingLocked,
    /// Waiting for `javac`.
    Compiling,
    /// Waiting for the class to be marked as compiled.
    Marking,
    /// Waiting for `java`.
    Running,
    /// Done.
    Finished,
}

/// What happened since the last step.
pub enum RunEvent {
    /// The run begins.
    Begin,
    /// Whether the class directory holds the marker of a finished compile.
    Compiled(bool),
    /// The lock on the class directory is held.
    Locked,
    /// `javac` exited: whether it succeeded, and what it wrote to stderr.
    CompilerExited { success: bool, stderr: Vec<u8> },
    /// The marker of a finished compile is written.
    Marked,
    /// `java` exited: whether it succeeded, and its stdout and stderr.
    ProgramExited { success: bool, stdout: Vec<u8>, stderr: Vec<u8> },
    /// An I/O operation of the last step failed, with this message.
    IoFailed(String),
}

/// What to do next.
pub enum RunAction {
    /// Check whether the class directory holds the marker of a finished
    /// compile.
    CheckCompiled,
    /// Create the class directory and take the lock on it.
    Lock,
    /// Write the source file and run `javac` with `args`.
    Compile { args: Vec<String> },
    /// Write the marker of a finished compile (then release the lock).
    MarkCompiled,
    /// Run `java` with `args`, writing `stdin` to its standard input.
    Launch { args: Vec<String>, stdin: Vec<u8> },
    /// The run is over, with this result.
    Finish(Result<Vec<u8>, JavaError>),
}

/// The model of a [`RunEvent`].
pub enum EventV {
    Begin,
    Compiled(bool),
    Locked,
    CompilerExited(bool, Seq<u8>),
    Marked,
    ProgramExited(bool, Seq<u8>, Seq<u8>),
    IoFailed(Seq<char>),
}

/// The model of a [`RunAction`].
pub enum ActionV {
    CheckCompiled,
    Lock,
    Compile(Seq<Seq<char>>),
    MarkCompiled,
    Launch(Seq<Seq<char>>, Seq<u8>),
    Output(Seq<u8>),
    IoError(Seq<char>),
    CompileError(Seq<char>),
    RuntimeError(Seq<char>),
}

/// The model of an event.
pub open spec fn event_view(e: RunEvent) -> EventV {
    match e {
        RunEvent::Begin => EventV::Begin,
        RunEvent::Compiled(b) => EventV::Compiled(b),
        RunEvent::Locked => EventV::Locked,
        RunEvent::CompilerExited { success, stderr } => EventV::CompilerExited(success, stderr@),
        RunEvent::Marked => EventV::Marked,
        RunEvent::ProgramExited { success, stdout, stderr } => EventV::ProgramExited(
            success,
            stdout@,
            stderr@,
        ),
        RunEvent::IoFailed(m) => EventV::IoFailed(m@),
    }
}

/// Whether `a` is the action `v`.
pub open spec fn action_is(a: RunAction, v: ActionV) -> bool {
    match (a, v) {
        (RunAction::CheckCompiled, ActionV::CheckCompiled) => true,
        (RunAction::Lock, ActionV::Lock) => true,
        (RunAction::Compile { args }, ActionV::Compile(x)) => args.deep_view() == x,
        (RunAction::MarkCompiled, ActionV::MarkCompiled) => true,
        (RunAction::Launch { args, stdin }, ActionV::Launch(x, y)) => args.deep_view() == x
            && stdin@ == y,
        (RunAction::Finish(Ok(out)), ActionV::Output(x)) => out@ == x,
        (RunAction::Finish(Err(JavaError::Io(m))), ActionV::IoError(x)) => m@ == x,
        (RunAction::Finish(Err(JavaError::CompilationFailed(m))), ActionV::CompileError(x)) => m@
            == x,
        (RunAction::Finish(Err(JavaError::RuntimeFailed(m))), ActionV::RuntimeError(x)) => m@
            == x,
        _ => false,
    }
}

/// Whether event `e` can follow the action taken in phase `p`.
pub open spec fn event_expected(p: RunPhase, e: EventV) -> bool {
    match e {
        EventV::Begin => p == RunPhase::Start,
        EventV::Compiled(_) => p == RunPhase::CheckingCache || p == RunPhase::CheckingLocked,
        EventV::Locked => p == RunPhase::Locking,
        EventV::CompilerExited(_, _) => p == RunPhase::Compiling,
        EventV::Marked => p == RunPhase::Marking,
        EventV::ProgramExited(_, _, _) => p == RunPhase::Running,
        EventV::IoFailed(_) => p != RunPhase::Start && p != RunPhase::Finished,
    }
}

/// One step of a run: from phase `p` and event `e`, the next phase and the
/// action. The class is compiled only when the marker of a finished compile
/// is missing both before and after taking the lock; a failing `javac` or
/// `java` ends the run with its stderr (decoded lossily); any failed I/O ends
/// it with the I/O error.
pub open spec fn run_step(
    p: RunPhase,
    e: EventV,
    javac_args: Seq<Seq<char>>,
    java_args: Seq<Seq<char>>,
    stdin: Seq<u8>,
) -> (RunPhase, ActionV) {
    match e {
        EventV::Begin => (RunPhase::CheckingCache, ActionV::CheckCompiled),
        EventV::Compiled(true) => (RunPhase::Running, ActionV::Launch(java_args, stdin)),
        EventV::Compiled(false) => if p == RunPhase::CheckingCache {
            (RunPhase::Locking, ActionV::Lock)
        } else {
            (RunPhase::Compiling, ActionV::Compile(javac_args))
        },
        EventV::Locked => (RunPhase::CheckingLocked, ActionV::CheckCompiled),
        EventV::CompilerExited(success, err) => if success {
            (RunPhase::Marking, ActionV::MarkCompiled)
        } else {
            (RunPhase::Finished, ActionV::CompileError(utf8_lossy(err)))
        },
        EventV::Marked => (RunPhase::Running, ActionV::Launch(java_args, stdin)),
        EventV::ProgramExited(success, out, err) => if success {
            (RunPhase::Finished, ActionV::Output(out))
        } else {
            (RunPhase::Finished, ActionV::RuntimeError(utf8_lossy(err)))
        },
        EventV::IoFailed(m) => (RunPhase::Finished, ActionV::IoError(m)),
    }
}

/// The lock guards compiling: a `Compile` step is ordered only in the phase
/// entered by taking the lock, and only once the marker of a finished compile
/// has been found missing while holding it.
pub proof fn lemma_compile_only_under_lock(
    p: RunPhase,
    e: EventV,
    javac_args: Seq<Seq<char>>,
    java_args: Seq<Seq<char>>,
    stdin: Seq<u8>,
)
    requires
        event_expected(p, e),
    ensures
        run_step(p, e, javac_args, java_args, stdin).1 is Compile ==> p == RunPhase::CheckingLocked
            && e == EventV::Compiled(false),
        run_step(p, e, javac_args, java_args, stdin).0 == RunPhase::CheckingLocked ==> p
            == RunPhase::Locking && e == EventV::Locked,
{
}

/// A class already compiled is launched at once: when the first check finds
/// the marker of a finished compile, the run neither locks nor compiles.
pub proof fn lemma_cached_class_launches_at_once(
    javac_args: Seq<Seq<char>>,
    java_args: Seq<Seq<char>>,
    stdin: Seq<u8>,
)
    ensures
        run_step(RunPhase::CheckingCache, EventV::Compiled(true), javac_args, java_args, stdin) == (
        RunPhase::Running, ActionV::Launch(java_args, stdin)),
{
}

/// How far a run has come, from 0 (nothing done) to 7 (done).
pub open spec fn phase_rank(p: RunPhase) -> nat {
    match p {
        RunPhase::Start => 0,
        RunPhase::CheckingCache => 1,
        RunPhase::Locking => 2,
        RunPhase::CheckingLocked => 3,
        RunPhase::Compiling => 4,
        RunPhase::Marking => 5,
        RunPhase::Running => 6,
        RunPhase::Finished => 7,
    }
}

/// Every step moves a run strictly forward, so a run ends after at most
/// seven steps and compiles at most once; a run that has finished takes no
/// further event.
pub proof fn lemma_run_moves_forward(
    p: RunPhase,
    e: EventV,
    javac_args: Seq<Seq<char>>,
    java_args: Seq<Seq<char>>,
    stdin: Seq<u8>,
)
    ensures
        event_expected(p, e) ==> phase_rank(run_step(p, e, javac_args, java_args, stdin).0)
            > phase_rank(p),
        !event_expected(RunPhase::Finished, e),
{
}

/// The phase reached and the actions taken by a run that has been given
/// `events`, in order, from its start.
pub open spec fn run_trace(
    events: Seq<EventV>,
    javac_args: Seq<Seq<char>>,
    java_args: Seq<Seq<char>>,
    stdin: Seq<u8>,
) -> (RunPhase, Seq<ActionV>)
    decreases events.len(),
{
    if events.len() == 0 {
        (RunPhase::Start, Seq::empty())
    } else {
        let prev = run_trace(events.drop_last(), javac_args, java_args, stdin);
        let next = run_step(prev.0, events.last(), javac_args, java_args, stdin);
        (next.0, prev.1.push(next.1))
    }
}

/// Whether each of `events` can follow the steps before it.
pub open spec fn valid_trace(
    events: Seq<EventV>,
    javac_args: Seq<Seq<char>>,
    java_args: Seq<Seq<char>>,
    stdin: Seq<u8>,
) -> bool
    decreases events.len(),
{
    events.len() == 0 || (valid_trace(events.drop_last(), javac_args, java_args, stdin)
        && event_expected(
        run_trace(events.drop_last(), javac_args, java_args, stdin).0,
        events.last(),
    ))
}

/// What holds of a run after any valid sequence of events: the facts that
/// the protocol law rests on.
pub open spec fn trace_facts(
    events: Seq<EventV>,
    javac_args: Seq<Seq<char>>,
    java_args: Seq<Seq<char>>,
    stdin: Seq<u8>,
) -> bool {
    let (p, acts) = run_trace(events, javac_args, java_args, stdin);
    &&& acts.len() == events.len()
    &&& events.len() > 0 ==> p != RunPhase::Start && events[0] == EventV::Begin
    &&& forall|i: int|
        0 <= i < acts.len() && #[trigger] acts[i] is Compile ==> acts[i] == ActionV::Compile(
            javac_args,
        ) && phase_rank(p) >= 4
    &&& forall|i: int, j: int|
        0 <= i < j < acts.len() && #[trigger] acts[i] is Compile ==> !(#[trigger] acts[j] is Compile)
    &&& forall|i: int| 0 <= i < acts.len() && #[trigger] acts[i] is MarkCompiled ==> phase_rank(p) >= 5
    &&& p == RunPhase::Running ==> exists|i: int|
        0 <= i < events.len() && (#[trigger] events[i] == EventV::Compiled(true) || events[i]
            == EventV::Marked)
    &&& events.len() >= 2 && events[1] == EventV::Compiled(true) ==> phase_rank(p) >= 6
        && forall|i: int|
        0 <= i < acts.len() ==> !(#[trigger] acts[i] is Compile) && !(acts[i] is MarkCompiled)
}

proof fn lemma_trace_facts(
    events: Seq<EventV>,
    javac_args: Seq<Seq<char>>,
    java_args: Seq<Seq<char>>,
    stdin: Seq<u8>,
)
    requires
        valid_trace(events, javac_args, java_args, stdin),
    ensures
        trace_facts(events, javac_args, java_args, stdin),
    decreases events.len(),
{
    if events.len() > 0 {
        let init = events.drop_last();
        let e = events.last();
        lemma_trace_facts(init, javac_args, java_args, stdin);
        let (p, acts) = run_trace(init, javac_args, java_args, stdin);
        let (q, a) = run_step(p, e, javac_args, java_args, stdin);
        let nacts = acts.push(a);
        assert(run_trace(events, javac_args, java_args, stdin) == (q, nacts));
        lemma_run_moves_forward(p, e, javac_args, java_args, stdin);
        lemma_compile_only_under_lock(p, e, javac_args, java_args, stdin);
        assert(phase_rank(q) > phase_rank(p));
        assert forall|i: int| 0 <= i < init.len() implies #[trigger] events[i] == init[i] by {}
        if init.len() == 0 {
            assert(events[0] == e);
        } else {
            assert(events[0] == init[0]);
        }
        assert forall|i: int|
            0 <= i < nacts.len() && #[trigger] nacts[i] is Compile implies nacts[i]
            == ActionV::Compile(javac_args) && phase_rank(q) >= 4 by {
            if i < acts.len() {
                assert(nacts[i] == acts[i]);
            }
        }
        assert forall|i: int, j: int|
            0 <= i < j < nacts.len() && #[trigger] nacts[i] is Compile implies !(
            #[trigger] nacts[j] is Compile) by {
            assert(nacts[i] == acts[i]);
            if j < acts.len() {
                assert(nacts[j] == acts[j]);
            }
        }
        assert forall|i: int| 0 <= i < nacts.len() && #[trigger] nacts[i] is MarkCompiled implies phase_rank(q)
            >= 5 by {
            if i < acts.len() {
                assert(nacts[i] == acts[i]);
            }
        }
        if q == RunPhase::Running {
            if p == RunPhase::Running {
                // No event is expected while running except the program's exit,
                // which finishes the run.
                assert(false);
            }
            let n = events.len() - 1;
            assert(events[n] == e);
        }
        if events.len() >= 2 && events[1] == EventV::Compiled(true) {
            if events.len() == 2 {
                assert(init.len() == 1);
                assert(init.drop_last().len() == 0);
                assert(run_trace(init.drop_last(), javac_args, java_args, stdin).0 == RunPhase::Start);
                assert(init[0] == EventV::Begin);
                assert(p == RunPhase::CheckingCache);
                assert(acts.len() == 1);
                assert(acts[0] == ActionV::CheckCompiled);
                assert forall|i: int| 0 <= i < nacts.len() implies !(#[trigger] nacts[i] is Compile)
                    && !(nacts[i] is MarkCompiled) by {
                    if i == 0 {
                        assert(nacts[0] == acts[0]);
                    }
                }
            } else {
                assert(init[1] == events[1]);
                assert forall|i: int| 0 <= i < nacts.len() implies !(#[trigger] nacts[i] is Compile)
                    && !(nacts[i] is MarkCompiled) by {
                    if i < acts.len() {
                        assert(nacts[i] == acts[i]);
                    }
                }
            }
        }
    }
}

/// The protocol of a run, over any sequence of events that the run accepts
/// (each answering the action before it). Where the first check finds the
/// class compiled, the run neither compiles (so `javac` is not started and
/// the source file is not written) nor marks the class. Otherwise it
/// compiles at most once, with the `javac` arguments: the expanded
/// `javac` option, then `-d`, the class directory and the source file. A run
/// that ends with the program's output found the class compiled or had it
/// marked compiled; a run that ends with a compile error never marks it.
pub proof fn lemma_run_protocol(
    events: Seq<EventV>,
    javac_raw: Seq<char>,
    env: Seq<(Seq<char>, Seq<char>)>,
    class_dir: Seq<char>,
    source: Seq<char>,
    java_args: Seq<Seq<char>>,
    stdin: Seq<u8>,
)
    requires
        valid_trace(
            events,
            javac_command(expanded_args(javac_raw, env), class_dir, source),
            java_args,
            stdin,
        ),
    ensures
        ({
            let javac_args = javac_command(expanded_args(javac_raw, env), class_dir, source);
            let acts = run_trace(events, javac_args, java_args, stdin).1;
            &&& acts.len() == events.len()
            &&& events.len() >= 2 && events[1] == EventV::Compiled(true) ==> forall|i: int|
                0 <= i < acts.len() ==> !(#[trigger] acts[i] is Compile) && !(acts[i] is MarkCompiled)
            &&& forall|i: int|
                0 <= i < acts.len() && #[trigger] acts[i] is Compile ==> acts[i] == ActionV::Compile(
                    javac_args,
                )
            &&& forall|i: int, j: int|
                0 <= i < j < acts.len() && #[trigger] acts[i] is Compile ==> !(
                #[trigger] acts[j] is Compile)
            &&& acts.len() > 0 && acts.last() is Output ==> exists|i: int|
                0 <= i < events.len() && (#[trigger] events[i] == EventV::Compiled(true)
                    || events[i] == EventV::Marked)
            &&& acts.len() > 0 && acts.last() is CompileError ==> forall|i: int|
                0 <= i < acts.len() ==> !(#[trigger] acts[i] is MarkCompiled)
        }),
{
    let javac_args = javac_command(expanded_args(javac_raw, env), class_dir, source);
    lemma_trace_facts(events, javac_args, java_args, stdin);
    if events.len() > 0 {
        let init = events.drop_last();
        let e = events.last();
        lemma_trace_facts(init, javac_args, java_args, stdin);
        let (p, acts) = run_trace(init, javac_args, java_args, stdin);
        let a = run_step(p, e, javac_args, java_args, stdin).1;
        let nacts = acts.push(a);
        assert(run_trace(events, javac_args, java_args, stdin).1 == nacts);
        assert(event_expected(p, e));
        if a is Output {
            assert(p == RunPhase::Running);
            let i = choose|i: int|
                0 <= i < init.len() && (#[trigger] init[i] == EventV::Compiled(true) || init[i]
                    == EventV::Marked);
            assert(events[i] == init[i]);
        }
        if a is CompileError {
            assert(p == RunPhase::Compiling);
            assert forall|i: int| 0 <= i < nacts.len() implies !(#[trigger] nacts[i] is MarkCompiled) by {
                if i < acts.len() {
                    assert(nacts[i] == acts[i]);
                }
            }
        }
    }
}

/// The state of a run of a generated program.
pub struct JavaRun {
    /// Where the run stands.
    pub phase: RunPhase,
    /// The arguments of `javac`.
    pub javac_args: Vec<String>,
    /// The arguments of `java`.
    pub java_args: Vec<String>,
    /// What `java` reads from stdin.
    pub stdin: Vec<u8>,
}

/// The arguments of `javac`: the extra ones, then `-d` and the class
/// directory, then the source file.
pub open spec fn javac_command(extra: Seq<Seq<char>>, class_dir: Seq<char>, source: Seq<char>) -> Seq<
    Seq<char>,
> {
    extra + seq!["-d"@, class_dir, source]
}

/// The arguments of `java`: the extra ones with the class directory added to
/// the class path, then the class to run.
pub open spec fn java_command(
    extra: Seq<Seq<char>>,
    class_dir: Seq<char>,
    sep: char,
    full_class_name: Seq<char>,
) -> Seq<Seq<char>> {
    with_classpath(extra, class_dir, sep).push(full_class_name)
}

fn copy_strings(v: &Vec<String>) -> (r: Vec<String>)
    ensures
        r.deep_view() == v.deep_view(),
{
    let mut r: Vec<String> = Vec::new();
    let mut i: usize = 0;
    while i < v.len()
        invariant
            i <= v@.len(),
            r.deep_view() =~= v.deep_view().take(i as int),
        decreases v@.len() - i,
    {
        let s = v[i].clone();
        let ghost before = r.deep_view();
        r.push(s);
        assert(r.deep_view() =~= before.push(v.deep_view()[i as int]));
        assert(v.deep_view().take(i + 1) =~= v.deep_view().take(i as int).push(
            v.deep_view()[i as int],
        ));
        i = i + 1;
    }
    assert(v.deep_view().take(i as int) =~= v.deep_view());
    r
}

impl JavaRun {
    /// A run of the program whose class `full_class_name` is compiled from
    /// `source_path` into `class_dir`; `javac_raw` and `java_raw` are the
    /// option strings (expanded in `env`), `sep` the platform's class-path
    /// separator, `stdin` the encoded arguments.
    pub fn new(
        javac_raw: &str,
        java_raw: &str,
        env: &Vec<(String, String)>,
        class_dir: &str,
        source_path: &str,
        full_class_name: &str,
        sep: char,
        stdin: Vec<u8>,
    ) -> (r: JavaRun)
        ensures
            r.phase == RunPhase::Start,
            r.javac_args.deep_view() == javac_command(
                expanded_args(javac_raw@, env.deep_view()),
                class_dir@,
                source_path@,
            ),
            r.java_args.deep_view() == java_command(
                expanded_args(java_raw@, env.deep_view()),
                class_dir@,
                sep,
                full_class_name@,
            ),
            r.stdin@ == stdin@,
    {
        let mut javac_args = expand_java_args(javac_raw, env);
        let ghost jv = javac_args.deep_view();
        javac_args.push("-d".to_owned());
        javac_args.push(class_dir.to_owned());
        javac_args.push(source_path.to_owned());
        assert(javac_args.deep_view() =~= javac_command(jv, class_dir@, source_path@));
        let mut java_args = expand_java_args(java_raw, env);
        inject_classpath(&mut java_args, class_dir, sep);
        let ghost kv = java_args.deep_view();
        java_args.push(full_class_name.to_owned());
        assert(java_args.deep_view() =~= kv.push(full_class_name@));
        JavaRun { phase: RunPhase::Start, javac_args, java_args, stdin }
    }

    /// Take event `event` and return the next action (see [`run_step`]).
    pub fn step(&mut self, event: RunEvent) -> (a: RunAction)
        requires
            event_expected(old(self).phase, event_view(event)),
        ensures
            ({
                let (p, v) = run_step(
                    old(self).phase,
                    event_view(event),
                    old(self).javac_args.deep_view(),
                    old(self).java_args.deep_view(),
                    old(self).stdin@,
                );
                &&& final(self).phase == p
                &&& action_is(a, v)
            }),
            final(self).javac_args.deep_view() == old(self).javac_args.deep_view(),
            final(self).java_args.deep_view() == old(self).java_args.deep_view(),
            final(self).stdin@ == old(self).stdin@,
    {
        match event {
            RunEvent::Begin => {
                self.phase = RunPhase::CheckingCache;
                RunAction::CheckCompiled
            },
            RunEvent::Compiled(done) => {
                if done {
                    self.phase = RunPhase::Running;
                    RunAction::Launch { args: copy_strings(&self.java_args), stdin: self.stdin.clone() }
                } else if self.phase == RunPhase::CheckingCache {
                    self.phase = RunPhase::Locking;
                    RunAction::Lock
                } else {
                    self.phase = RunPhase::Compiling;
                    RunAction::Compile { args: copy_strings(&self.javac_args) }
                }
            },
            RunEvent::Locked => {
                self.phase = RunPhase::CheckingLocked;
                RunAction::CheckCompiled
            },
            RunEvent::CompilerExited { success, stderr } => {
                if success {
                    self.phase = RunPhase::Marking;
                    RunAction::MarkCompiled
                } else {
                    self.phase = RunPhase::Finished;
                    RunAction::Finish(
                        Err(JavaError::CompilationFailed(lossy_string(stderr.as_slice()))),
                    )
                }
            },
            RunEvent::Marked => {
                self.phase = RunPhase::Running;
                RunAction::Launch { args: copy_strings(&self.java_args), stdin: self.stdin.clone() }
            },
            RunEvent::ProgramExited { success, stdout, stderr } => {
                self.phase = RunPhase::Finished;
                if success {
                    RunAction::Finish(Ok(stdout))
                } else {
                    RunAction::Finish(Err(JavaError::RuntimeFailed(lossy_string(stderr.as_slice()))))
                }
            },
            RunEvent::IoFailed(m) => {
                self.phase = RunPhase::Finished;
                RunAction::Finish(Err(JavaError::Io(m)))
            },
        }
    }
}

} // verus!
