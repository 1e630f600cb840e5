//! Expanding a snippet into the Java program that evaluates it: the class
//! name, the package, the complete source file, and the options that go with
//! it. This is what `java!`, `java_fn!` and `ct_java!` do with their input.
use vstd::prelude::*;
use crate::types::{JavaType, type_height, params_fit};
use crate::tokens::{Token, TokV, tokens_view};
use crate::parse::{
    ParsedJava, ParsedV, JavaOpts, opt_view, params_view, parse_java_source, parsed_java_source,
    extract_opts, scan_opts,
};
use crate::codegen::{main_text, java_class_text, format_java_class, field_lines, field_decls};
use crate::inject::{inject_scan, distinct_in_order, LexMode, inject_variables, distinct_names};
use crate::text::{
    hex_padded, hex_string, is_white_space, white_space, find_from, find_in, lemma_find_from,
    chars_of, without_ws, strip_ws, is_hex_char, lemma_hex16_shape,
};
use crate::std_text::{source_hash, hash_source};
use crate::error::{JavaError, is_message_of};
use crate::literal::{ct_java_literal, CtRead};

verus! {

// ── Class names ──────────────────────────────────────────────────────────────

/// The class name for a snippet: `prefix`, `_`, and 16 hexadecimal digits of
/// the hash of its source text and options.
pub open spec fn class_name_text(
    prefix: Seq<char>,
    imports: Seq<char>,
    outer: Seq<char>,
    body: Seq<char>,
    javac: Option<Seq<char>>,
    java: Option<Seq<char>>,
) -> Seq<char> {
    prefix + "_"@ + hex_padded(source_hash(imports, outer, body, javac, java) as nat, 16)
}

/// Compute a deterministic class name by hashing the source and options.
/// `prefix` tells program-runtime classes (`InlineJava`) from compile-time
/// ones (`CtJava`).
pub fn make_class_name(prefix: &str, imports: &str, outer: &str, body: &str, opts: &JavaOpts) -> (r:
    String)
    ensures
        r@ == class_name_text(
            prefix@,
            imports@,
            outer@,
            body@,
            opt_view(opts.javac_args),
            opt_view(opts.java_args),
        ),
{
    let h = hash_source(imports, outer, body, &opts.javac_args, &opts.java_args);
    let hex = hex_string(h, 16);
    let mut s = prefix.to_owned();
    s.append("_");
    s.append(hex.as_str());
    s
}

/// A class name is its prefix, `_`, and 16 lower-case hexadecimal digits.
pub proof fn lemma_class_name_shape(
    prefix: Seq<char>,
    imports: Seq<char>,
    outer: Seq<char>,
    body: Seq<char>,
    javac: Option<Seq<char>>,
    java: Option<Seq<char>>,
)
    ensures
        ({
            let cn = class_name_text(prefix, imports, outer, body, javac, java);
            &&& cn.len() == prefix.len() + 17
            &&& cn.take(prefix.len() as int) == prefix
            &&& cn[prefix.len() as int] == '_'
            &&& forall|k: int| prefix.len() < k < cn.len() ==> is_hex_char(#[trigger] cn[k])
        }),
{
    reveal_strlit("_");
    let h = source_hash(imports, outer, body, javac, java);
    lemma_hex16_shape(h);
    let cn = class_name_text(prefix, imports, outer, body, javac, java);
    let hex = hex_padded(h as nat, 16);
    assert(cn.take(prefix.len() as int) =~= prefix);
    assert forall|k: int| prefix.len() < k < cn.len() implies is_hex_char(#[trigger] cn[k]) by {
        assert(cn[k] == hex[k - prefix.len() - 1]);
    }
}

/// A program evaluated at runtime never shares its class name (nor,
/// therefore, its cache directory) with one evaluated at compile time.
pub proof fn lemma_runtime_and_compile_time_names_differ(
    imports: Seq<char>,
    outer: Seq<char>,
    body: Seq<char>,
    javac: Option<Seq<char>>,
    java: Option<Seq<char>>,
    ct_imports: Seq<char>,
    ct_outer: Seq<char>,
    ct_body: Seq<char>,
    ct_javac: Option<Seq<char>>,
    ct_java: Option<Seq<char>>,
)
    ensures
        class_name_text("InlineJava"@, imports, outer, body, javac, java) != class_name_text(
            "CtJava"@,
            ct_imports,
            ct_outer,
            ct_body,
            ct_javac,
            ct_java,
        ),
{
    reveal_strlit("InlineJava");
    reveal_strlit("CtJava");
    let a = class_name_text("InlineJava"@, imports, outer, body, javac, java);
    let b = class_name_text("CtJava"@, ct_imports, ct_outer, ct_body, ct_javac, ct_java);
    assert(a[0] == 'I');
    assert(b[0] == 'C');
}

// ── Package ──────────────────────────────────────────────────────────────────

/// The package that the import section `imports` declares: after the first
/// `package ` (which must start the text or follow white space), the text up
/// to the next `;` with all white space removed, unless that is empty.
pub open spec fn package_name(imports: Seq<char>) -> Option<Seq<char>> {
    match find_from(imports, "package "@, 0) {
        None => None,
        Some(i) => if i > 0 && !is_white_space(imports[i - 1]) {
            None
        } else {
            match find_from(imports, seq![';'], i + "package "@.len()) {
                None => None,
                Some(j) => {
                    let pkg = without_ws(imports.subrange(i + "package "@.len(), j));
                    if pkg.len() == 0 {
                        None
                    } else {
                        Some(pkg)
                    }
                },
            }
        },
    }
}

/// Extract the package name from the import section of a snippet.
pub fn parse_package_name(imports: &str) -> (r: Option<String>)
    ensures
        match package_name(imports@) {
            Some(p) => r matches Some(s) && s@ == p,
            None => r is None,
        },
{
    let cs = chars_of(imports);
    let n = cs.len();
    let marker = chars_of("package ");
    let semi: Vec<char> = vec![';'];
    assert(semi@ =~= seq![';']);
    proof {
        lemma_find_from(cs@, marker@, 0);
    }
    match find_in(&cs, &marker, 0) {
        None => None,
        Some(i) => {
            if i > 0 && !white_space(cs[i - 1]) {
                return None;
            }
            let start = i + marker.len();
            proof {
                lemma_find_from(cs@, semi@, start as int);
            }
            match find_in(&cs, &semi, start) {
                None => None,
                Some(j) => {
                    let pkg = strip_ws(&cs, start, j);
                    if pkg.as_str().unicode_len() == 0 {
                        None
                    } else {
                        Some(pkg)
                    }
                },
            }
        },
    }
}

/// `class_name` qualified with the package that `imports` declares, if any.
pub open spec fn qualified_name(class_name: Seq<char>, imports: Seq<char>) -> Seq<char> {
    match package_name(imports) {
        Some(p) => p + "."@ + class_name,
        None => class_name,
    }
}

/// Qualify `class_name` with its package if `imports` declares one (e.g.
/// `com.example.InlineJava_...`).
pub fn qualify_class_name(class_name: &str, imports: &str) -> (r: String)
    ensures
        r@ == qualified_name(class_name@, imports@),
{
    match parse_package_name(imports) {
        Some(pkg) => {
            let mut s = pkg;
            s.append(".");
            s.append(class_name);
            s
        },
        None => class_name.to_owned(),
    }
}

// ── The program ──────────────────────────────────────────────────────────────

/// A generated Java program, ready to be compiled and run.
pub struct JavaProgram {
    /// The bare class name; it also names the cache directory.
    pub class_name: String,
    /// `<class_name>.java`.
    pub filename: String,
    /// The complete `.java` source.
    pub java_class: String,
    /// The package-qualified class name that `java` runs.
    pub full_class_name: String,
    /// The raw `javac = ".."` option (empty if absent).
    pub javac_raw: String,
    /// The raw `java = ".."` option (empty if absent).
    pub java_raw: String,
    /// The parameters that the generated `main` reads from stdin, in order.
    pub params: Vec<(JavaType, String)>,
    /// The Rust variables injected into the body (`'name`), each once, in
    /// order of first use; their values are read from stdin before the
    /// parameters.
    pub injected: Vec<String>,
    /// The type of the value that the program writes to stdout.
    pub java_type: JavaType,
}

/// The model of a [`JavaProgram`].
pub struct ProgramV {
    pub class_name: Seq<char>,
    pub filename: Seq<char>,
    pub java_class: Seq<char>,
    pub full_class_name: Seq<char>,
    pub javac_raw: Seq<char>,
    pub java_raw: Seq<char>,
    pub params: Seq<(JavaType, Seq<char>)>,
    pub injected: Seq<Seq<char>>,
    pub java_type: JavaType,
}

impl JavaProgram {
    /// The model of the program.
    pub open spec fn view(&self) -> ProgramV {
        ProgramV {
            class_name: self.class_name@,
            filename: self.filename@,
            java_class: self.java_class@,
            full_class_name: self.full_class_name@,
            javac_raw: self.javac_raw@,
            java_raw: self.java_raw@,
            params: params_view(self.params@),
            injected: self.injected.deep_view(),
            java_type: self.java_type,
        }
    }
}

/// An option's text, or the empty text where it is absent.
pub open spec fn or_empty(o: Option<Seq<char>>) -> Seq<char> {
    match o {
        Some(s) => s,
        None => Seq::empty(),
    }
}

/// The program for the parsed snippet `p` with options `javac` and `java`,
/// whose generated `main` reads the parameters `params`. The variables
/// injected into the body become `String` fields at the head of the class,
/// read by `main` before the parameters; the class name hashes the snippet as
/// written.
pub open spec fn program_of(
    prefix: Seq<char>,
    p: ParsedV,
    javac: Option<Seq<char>>,
    java: Option<Seq<char>>,
    params: Seq<(JavaType, Seq<char>)>,
) -> ProgramV {
    let cn = class_name_text(prefix, p.imports, p.outer, p.body, javac, java);
    let scan = inject_scan(p.body, 0, LexMode::Code);
    let vars = distinct_in_order(scan.1);
    ProgramV {
        class_name: cn,
        filename: cn + ".java"@,
        java_class: java_class_text(
            p.imports,
            p.outer,
            cn,
            field_lines(vars) + scan.0,
            main_text(p.java_type, vars, params),
        ),
        full_class_name: qualified_name(cn, p.imports),
        javac_raw: or_empty(javac),
        java_raw: or_empty(java),
        params,
        injected: vars,
        java_type: p.java_type,
    }
}

fn option_text(o: Option<String>) -> (r: String)
    ensures
        r@ == or_empty(opt_view(o)),
{
    match o {
        Some(s) => s,
        None => String::new(),
    }
}

/// Build the program that evaluates the parsed snippet `parsed` with options
/// `opts`; its `main` reads the parameters of `run` from stdin.
pub fn make_runner_fn(parsed: ParsedJava, opts: JavaOpts, prefix: &str) -> (r: JavaProgram)
    requires
        type_height(parsed.java_type) < usize::MAX,
        params_fit(parsed.params@),
    ensures
        r.view() == program_of(
            prefix@,
            parsed.view(),
            opt_view(opts.javac_args),
            opt_view(opts.java_args),
            parsed.view().params,
        ),
{
    let ParsedJava { imports, outer, body, params, java_type } = parsed;
    let class_name = make_class_name(prefix, imports.as_str(), outer.as_str(), body.as_str(), &opts);
    let mut filename = class_name.clone();
    filename.append(".java");
    let full_class_name = qualify_class_name(class_name.as_str(), imports.as_str());
    let (rewritten, found) = inject_variables(body.as_str());
    let injected = distinct_names(&found);
    let mut class_body = field_decls(&injected);
    class_body.append(rewritten.as_str());
    let main_method = java_type.java_main_injected(&injected, params.as_slice());
    let java_class = format_java_class(
        imports.as_str(),
        outer.as_str(),
        class_name.as_str(),
        class_body.as_str(),
        main_method.as_str(),
    );
    let JavaOpts { javac_args, java_args } = opts;
    JavaProgram {
        class_name,
        filename,
        java_class,
        full_class_name,
        javac_raw: option_text(javac_args),
        java_raw: option_text(java_args),
        params,
        injected,
        java_type,
    }
}

// ── The three macros ─────────────────────────────────────────────────────────

/// What expanding a snippet given as `source` and its tokens `ts` yields: the
/// program with class-name prefix `prefix`, or the diagnostic. With
/// `with_params` the generated `main` reads `run`'s parameters; without, it
/// calls `run()` with none.
pub open spec fn expansion(prefix: Seq<char>, source: Seq<char>, ts: Seq<TokV>, with_params: bool) -> Result<
    ProgramV,
    Seq<char>,
> {
    let (javac, java, c) = scan_opts(ts, 0, None, None);
    match parsed_java_source(source, ts.skip(c)) {
        Err(m) => Err(m),
        Ok(p) => Ok(
            program_of(
                prefix,
                p,
                javac,
                java,
                if with_params {
                    p.params
                } else {
                    Seq::empty()
                },
            ),
        ),
    }
}

/// Expand a runtime snippet (`java!` / `java_fn!`): options, then the body.
fn expand_runtime(tokens: Vec<Token>, source: &str) -> (r: Result<JavaProgram, String>)
    ensures
        match expansion("InlineJava"@, source@, tokens_view(tokens@), true) {
            Ok(p) => r matches Ok(q) && q.view() == p,
            Err(m) => r matches Err(e) && e@ == m,
        },
{
    let (opts, rest) = extract_opts(tokens);
    match parse_java_source(source, rest.as_slice()) {
        Err(m) => Err(m),
        Ok(parsed) => Ok(make_runner_fn(parsed, opts, "InlineJava")),
    }
}

/// `java!`: the program that evaluates a snippet without parameters at
/// program runtime. `tokens` are the macro's input and `source` the text
/// that their spans index.
pub fn java(tokens: Vec<Token>, source: &str) -> (r: Result<JavaProgram, String>)
    ensures
        match expansion("InlineJava"@, source@, tokens_view(tokens@), true) {
            Ok(p) => r matches Ok(q) && q.view() == p,
            Err(m) => r matches Err(e) && e@ == m,
        },
{
    expand_runtime(tokens, source)
}

/// `java_fn!`: the program that evaluates a snippet at program runtime; its
/// `run` parameters are read from stdin, in order.
pub fn java_fn(tokens: Vec<Token>, source: &str) -> (r: Result<JavaProgram, String>)
    ensures
        match expansion("InlineJava"@, source@, tokens_view(tokens@), true) {
            Ok(p) => r matches Ok(q) && q.view() == p,
            Err(m) => r matches Err(e) && e@ == m,
        },
{
    expand_runtime(tokens, source)
}

/// `ct_java!`: the program that evaluates a snippet while compiling; its
/// `main` calls `run()` with no arguments.
pub fn ct_java(tokens: Vec<Token>, source: &str) -> (r: Result<JavaProgram, String>)
    ensures
        match expansion("CtJava"@, source@, tokens_view(tokens@), false) {
            Ok(p) => r matches Ok(q) && q.view() == p,
            Err(m) => r matches Err(e) && e@ == m,
        },
{
    let (opts, rest) = extract_opts(tokens);
    match parse_java_source(source, rest.as_slice()) {
        Err(m) => Err(m),
        Ok(parsed) => {
            let ParsedJava { imports, outer, body, params, java_type } = parsed;
            let bare = ParsedJava { imports, outer, body, params: Vec::new(), java_type };
            assert(params_view(bare.params@) =~= Seq::<(JavaType, Seq<char>)>::empty());
            Ok(make_runner_fn(bare, opts, "CtJava"))
        },
    }
}

/// The outcome of compiling and running a compile-time program, with the
/// error turned into its message for a diagnostic.
pub fn compile_run_java_now(outcome: Result<Vec<u8>, JavaError>) -> (r: Result<Vec<u8>, String>)
    ensures
        match outcome {
            Ok(b) => r == Ok::<Vec<u8>, String>(b),
            Err(e) => r matches Err(m) && is_message_of(e, m@),
        },
{
    match outcome {
        Ok(b) => Ok(b),
        Err(e) => Err(e.message()),
    }
}

/// The literal that a `ct_java!` call site becomes, given what compiling and
/// running its program gave; `Err` holds the diagnostic.
pub fn ct_java_finish(program: &JavaProgram, outcome: Result<Vec<u8>, JavaError>) -> (r: Result<
    String,
    String,
>)
    requires
        outcome matches Ok(b) ==> !(ct_java_literal(program.java_type, b@) is Abort),
    ensures
        match outcome {
            Ok(b) => match ct_java_literal(program.java_type, b@) {
                CtRead::Lit(l, _) => r matches Ok(s) && s@ == l,
                CtRead::Diag(m) => r matches Err(d) && d@ == m,
                CtRead::Abort => false,
            },
            Err(e) => r matches Err(m) && is_message_of(e, m@),
        },
{
    match compile_run_java_now(outcome) {
        Ok(bytes) => program.java_type.ct_java_tokens(bytes),
        Err(m) => Err(m),
    }
}

} // verus!
