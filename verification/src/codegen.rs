//! Generation of the Java program around a snippet: the statements of `main`
//! that read the arguments from stdin and write `run`'s result to stdout, and
//! the class that holds it all.
use vstd::prelude::*;
use crate::types::{
    ScalarEnc, PrimitiveType, BoxedType, JavaType, primitive_enc, boxed_enc, dos_method_name,
    java_type_name, type_height, params_fit,
};
use crate::text::{decimal, decimal_string_unsigned, comma_join, join_comma};
use crate::parse::params_view;

verus! {

// ── Reading arguments (DataInputStream) ──────────────────────────────────────

/// The Java primitive type that reads a scalar of encoding `e`.
pub open spec fn prim_keyword(e: ScalarEnc) -> Seq<char> {
    match e {
        ScalarEnc::Byte => "byte"@,
        ScalarEnc::Short => "short"@,
        ScalarEnc::Int => "int"@,
        ScalarEnc::Long => "long"@,
        ScalarEnc::Float => "float"@,
        ScalarEnc::Double => "double"@,
        ScalarEnc::Boolean => "boolean"@,
        ScalarEnc::Char => "char"@,
        ScalarEnc::Str => "String"@,
    }
}

/// The `DataInputStream` method that reads a scalar of encoding `e`.
pub open spec fn read_method_name(e: ScalarEnc) -> Seq<char> {
    match e {
        ScalarEnc::Byte => "readByte"@,
        ScalarEnc::Short => "readShort"@,
        ScalarEnc::Int => "readInt"@,
        ScalarEnc::Long => "readLong"@,
        ScalarEnc::Float => "readFloat"@,
        ScalarEnc::Double => "readDouble"@,
        ScalarEnc::Boolean => "readBoolean"@,
        ScalarEnc::Char => "readChar"@,
        ScalarEnc::Str => "readFully"@,
    }
}

/// The Java statements that declare `name` and read a scalar of encoding `e`
/// into it from `_dis`; a `String` is a length-prefixed UTF-8 byte run.
pub open spec fn scalar_read_text(e: ScalarEnc, name: Seq<char>) -> Seq<char> {
    if e == ScalarEnc::Str {
        "int _len_"@ + name + " = _dis.readInt();\n\t\tbyte[] _b_"@ + name + " = new byte[_len_"@
            + name + "];\n\t\t_dis.readFully(_b_"@ + name + ");\n\t\tString "@ + name
            + " = new String(_b_"@ + name + ", java.nio.charset.StandardCharsets.UTF_8);"@
    } else {
        prim_keyword(e) + " "@ + name + " = _dis."@ + read_method_name(e) + "();"@
    }
}

/// `name_depth`: the suffix that keeps the temporaries of one nesting level
/// apart.
pub open spec fn level_suffix(name: Seq<char>, depth: nat) -> Seq<char> {
    name + "_"@ + decimal(depth as int)
}

/// The Java statements that declare `name` and read a value of type `t` into
/// it from `_dis`; `depth` keeps the names of nested temporaries apart.
pub open spec fn dis_read_text(t: JavaType, name: Seq<char>, depth: nat) -> Seq<char>
    decreases t,
{
    match t {
        JavaType::Primitive(p) => scalar_read_text(primitive_enc(p), name),
        JavaType::Boxed(b) => scalar_read_text(boxed_enc(b), name),
        JavaType::Array(inner) => {
            let count = "_count_"@ + level_suffix(name, depth);
            let i = "_i_"@ + level_suffix(name, depth);
            let elem = "_elem_"@ + level_suffix(name, depth);
            "int "@ + count + " = _dis.readInt();\n\t\t"@ + java_type_name(*inner) + "[] "@ + name
                + " = "@ + new_outer_array_text(*inner, count) + ";\n\t\tfor (int "@ + i
                + " = 0; "@ + i + " < "@ + count + "; "@ + i + "++) {\n\t\t\t"@ + dis_read_text(
                *inner,
                elem,
                depth + 1,
            ) + "\n\t\t\t"@ + name + "["@ + i + "] = "@ + elem + ";\n\t\t}"@
        },
        JavaType::List(inner) => {
            let count = "_count_"@ + level_suffix(name, depth);
            let i = "_i_"@ + level_suffix(name, depth);
            let elem = "_elem_"@ + level_suffix(name, depth);
            "int "@ + count + " = _dis.readInt();\n\t\tjava.util.List<"@ + java_type_name(*inner)
                + "> "@ + name + " = new java.util.ArrayList<>();\n\t\tfor (int "@ + i + " = 0; "@
                + i + " < "@ + count + "; "@ + i + "++) {\n\t\t\t"@ + dis_read_text(
                *inner,
                elem,
                depth + 1,
            ) + "\n\t\t\t"@ + name + ".add(("@ + java_type_name(*inner) + ") "@ + elem
                + ");\n\t\t}"@
        },
        JavaType::Optional(inner) => {
            let tag = "_tag_"@ + level_suffix(name, depth);
            let iv = "_inner_"@ + level_suffix(name, depth);
            "int "@ + tag + " = _dis.readUnsignedByte();\n\t\tjava.util.Optional<"@
                + java_type_name(*inner) + "> "@ + name + ";\n\t\tif ("@ + tag
                + " != 0) {\n\t\t\t"@ + dis_read_text(*inner, iv, depth + 1) + "\n\t\t\t"@ + name
                + " = java.util.Optional.of("@ + iv + ");\n\t\t} else {\n\t\t\t"@ + name
                + " = java.util.Optional.empty();\n\t\t}"@
        },
    }
}

/// The Java expression that allocates an outer array of `count` elements of
/// type `t`: `new Base[count]` followed by one `[]` for each array level of
/// `t` itself.
pub open spec fn new_outer_array_text(t: JavaType, count: Seq<char>) -> Seq<char>
    decreases t,
{
    match t {
        JavaType::Array(inner) => new_outer_array_text(*inner, count) + "[]"@,
        _ => "new "@ + java_type_name(t) + "["@ + count + "]"@,
    }
}

// ── Writing the result (DataOutputStream) ────────────────────────────────────

/// The Java statements that write `var` of type `t` to the
/// `DataOutputStream` named `dos`; `depth` keeps loop variables apart.
pub open spec fn ser_element_text(t: JavaType, var: Seq<char>, dos: Seq<char>, depth: nat) -> Seq<
    char,
>
    decreases t,
{
    match t {
        JavaType::Primitive(p) => dos + "."@ + dos_method_name(primitive_enc(p)) + "("@ + var
            + ");"@,
        JavaType::Boxed(b) => if b == BoxedType::String {
            let d = decimal(depth as int);
            "{ byte[] _b"@ + d + " = ("@ + var
                + ").getBytes(java.nio.charset.StandardCharsets.UTF_8);\n\t\t\t"@ + dos
                + ".writeInt(_b"@ + d + ".length);\n\t\t\t"@ + dos + ".write(_b"@ + d + ", 0, _b"@
                + d + ".length); }"@
        } else {
            dos + "."@ + dos_method_name(boxed_enc(b)) + "("@ + var + ");"@
        },
        JavaType::Array(inner) => {
            let e = "_e"@ + decimal(depth as int);
            dos + ".writeInt(("@ + var + ").length);\n\t\t\tfor ("@ + java_type_name(*inner) + " "@
                + e + " : ("@ + var + ")) {\n\t\t\t\t"@ + ser_element_text(
                *inner,
                e,
                dos,
                depth + 1,
            ) + "\n\t\t\t}"@
        },
        JavaType::List(inner) => {
            let e = "_e"@ + decimal(depth as int);
            dos + ".writeInt(("@ + var + ").size());\n\t\t\tfor ("@ + java_type_name(*inner) + " "@
                + e + " : ("@ + var + ")) {\n\t\t\t\t"@ + ser_element_text(
                *inner,
                e,
                dos,
                depth + 1,
            ) + "\n\t\t\t}"@
        },
        JavaType::Optional(inner) => {
            let iv = "_opt_inner"@ + decimal(depth as int);
            "if (("@ + var + ").isPresent()) {\n\t\t\t\t"@ + dos + ".writeByte(1);\n\t\t\t\t"@
                + java_type_name(*inner) + " "@ + iv + " = ("@ + var + ").get();\n\t\t\t\t"@
                + ser_element_text(*inner, iv, dos, depth + 1) + "\n\t\t\t} else {\n\t\t\t\t"@ + dos
                + ".writeByte(0);\n\t\t\t}"@
        },
    }
}

// ── The generated `main` ─────────────────────────────────────────────────────

/// One line per parameter, each reading it from `_dis`.
pub open spec fn param_read_lines(ps: Seq<(JavaType, Seq<char>)>) -> Seq<char>
    decreases ps.len(),
{
    if ps.len() == 0 {
        Seq::empty()
    } else {
        param_read_lines(ps.drop_last()) + "\t\t"@ + dis_read_text(ps.last().0, ps.last().1, 0)
            + "\n"@
    }
}

/// The declarations of the `String` fields that hold the injected variables
/// `vs`, one line each.
pub open spec fn field_lines(vs: Seq<Seq<char>>) -> Seq<char>
    decreases vs.len(),
{
    if vs.len() == 0 {
        Seq::empty()
    } else {
        field_lines(vs.drop_last()) + "\tstatic String _RUST_"@ + vs.last() + ";\n"@
    }
}

/// One line per injected variable, each reading its value from `_dis` into
/// its field: a big-endian length, then that many bytes of UTF-8.
pub open spec fn var_read_lines(vs: Seq<Seq<char>>) -> Seq<char>
    decreases vs.len(),
{
    if vs.len() == 0 {
        Seq::empty()
    } else {
        var_read_lines(vs.drop_last())
            + "\t\t{ int _len = _dis.readInt(); byte[] _b = new byte[_len]; _dis.readFully(_b); _RUST_"@
            + vs.last() + " = new String(_b, java.nio.charset.StandardCharsets.UTF_8); }\n"@
    }
}

/// The first line of `main`.
pub open spec fn main_header() -> Seq<char> {
    "\tpublic static void main(String[] args) throws Exception {\n"@
}

/// The line that opens `_dis` on stdin.
pub open spec fn dis_open_line() -> Seq<char> {
    "\t\tjava.io.DataInputStream _dis = new java.io.DataInputStream(System.in);\n"@
}

/// The reads at the start of `main`: none where there are neither injected
/// variables `vs` nor parameters `ps`; else the line that opens `_dis`, the
/// reads of the variables and then those of the parameters.
pub open spec fn main_reads(vs: Seq<Seq<char>>, ps: Seq<(JavaType, Seq<char>)>) -> Seq<char> {
    if vs.len() == 0 && ps.len() == 0 {
        Seq::empty()
    } else {
        dis_open_line() + var_read_lines(vs) + param_read_lines(ps)
    }
}

/// The opening of `main` up to and including the reads: the injected
/// variables `vs` first, then the parameters `ps`.
pub open spec fn main_head(vs: Seq<Seq<char>>, ps: Seq<(JavaType, Seq<char>)>) -> Seq<char> {
    main_header() + main_reads(vs, ps)
}

/// The argument list of the call of `run`: the parameter names, comma-joined.
pub open spec fn run_args_text(ps: Seq<(JavaType, Seq<char>)>) -> Seq<char> {
    comma_join(Seq::new(ps.len(), |i: int| ps[i].1))
}

/// The call of `run` with the argument list `args`.
pub open spec fn run_call(args: Seq<char>) -> Seq<char> {
    "run("@ + args + ")"@
}

/// The statements that write a scalar result with `DataOutputStream` method
/// `method`.
pub open spec fn scalar_result_text(method: Seq<char>, args: Seq<char>) -> Seq<char> {
    "\t\tjava.io.DataOutputStream _dos = new java.io.DataOutputStream(System.out);\n\t\t_dos."@
        + method + "("@ + run_call(args) + ");\n\t\t_dos.flush();\n\t}"@
}

/// The statements of `main` after the reads: the call of `run` with the
/// argument list `args`, and the writing of its result, of type `t`, to
/// stdout.
pub open spec fn result_tail(t: JavaType, args: Seq<char>) -> Seq<char> {
    match t {
        JavaType::Primitive(p) => scalar_result_text(dos_method_name(primitive_enc(p)), args),
        JavaType::Boxed(b) => if b == BoxedType::String {
            "\t\tbyte[] _b = "@ + run_call(args)
                + ".getBytes(java.nio.charset.StandardCharsets.UTF_8);\n\t\tSystem.out.write(_b);\n\t\tSystem.out.flush();\n\t}"@
        } else {
            scalar_result_text(dos_method_name(boxed_enc(b)), args)
        },
        JavaType::Array(inner) => "\t\t"@ + java_type_name(*inner) + "[] _arr = "@ + run_call(args)
            + ";\n\t\tjava.io.DataOutputStream _dos = new java.io.DataOutputStream(System.out);\n\t\t_dos.writeInt(_arr.length);\n\t\tfor ("@
            + java_type_name(*inner) + " _e0 : _arr) {\n\t\t\t"@ + ser_element_text(
            *inner,
            "_e0"@,
            "_dos"@,
            1,
        ) + "\n\t\t}\n\t\t_dos.flush();\n\t}"@,
        JavaType::List(inner) => "\t\tjava.util.List<"@ + java_type_name(*inner) + "> _arr = "@
            + run_call(args)
            + ";\n\t\tjava.io.DataOutputStream _dos = new java.io.DataOutputStream(System.out);\n\t\t_dos.writeInt(_arr.size());\n\t\tfor ("@
            + java_type_name(*inner) + " _e0 : _arr) {\n\t\t\t"@ + ser_element_text(
            *inner,
            "_e0"@,
            "_dos"@,
            1,
        ) + "\n\t\t}\n\t\t_dos.flush();\n\t}"@,
        JavaType::Optional(inner) => "\t\tjava.util.Optional<"@ + java_type_name(*inner)
            + "> _opt = "@ + run_call(args)
            + ";\n\t\tjava.io.DataOutputStream _dos = new java.io.DataOutputStream(System.out);\n\t\tif (_opt.isPresent()) {\n\t\t\t_dos.writeByte(1);\n\t\t\t"@
            + ser_element_text(*inner, "_opt.get()"@, "_dos"@, 1)
            + "\n\t\t} else {\n\t\t\t_dos.writeByte(0);\n\t\t}\n\t\t_dos.flush();\n\t}"@,
    }
}

/// The complete `main` method for a `run` that returns `t` and takes `ps`,
/// in a class with the injected variables `vs`.
pub open spec fn main_text(t: JavaType, vs: Seq<Seq<char>>, ps: Seq<(JavaType, Seq<char>)>) -> Seq<
    char,
> {
    main_head(vs, ps) + result_tail(t, run_args_text(ps))
}

/// Whether `pat` occurs in `s`.
pub open spec fn text_contains(s: Seq<char>, pat: Seq<char>) -> bool {
    exists|i: int| 0 <= i && i + pat.len() <= s.len() && #[trigger] s.subrange(i, i + pat.len()) == pat
}

proof fn lemma_contains_middle(a: Seq<char>, m: Seq<char>, b: Seq<char>)
    ensures
        text_contains(a + m + b, m),
{
    assert((a + m + b).subrange(a.len() as int, (a.len() + m.len()) as int) =~= m);
}

proof fn lemma_param_read_lines_split(ps: Seq<(JavaType, Seq<char>)>, k: int)
    requires
        0 <= k <= ps.len(),
    ensures
        param_read_lines(ps) == param_read_lines(ps.take(k)) + param_read_lines(ps.skip(k)),
    decreases ps.len(),
{
    if k == ps.len() {
        assert(ps.take(k) =~= ps);
        assert(ps.skip(k) =~= Seq::<(JavaType, Seq<char>)>::empty());
        assert(param_read_lines(ps) + Seq::<char>::empty() =~= param_read_lines(ps));
    } else {
        let init = ps.drop_last();
        lemma_param_read_lines_split(init, k);
        assert(init.take(k) =~= ps.take(k));
        assert(ps.skip(k).drop_last() =~= init.skip(k));
        assert(ps.skip(k).last() == ps.last());
        let line = "\t\t"@ + dis_read_text(ps.last().0, ps.last().1, 0) + "\n"@;
        assert(param_read_lines(ps.take(k)) + (param_read_lines(init.skip(k)) + line) =~= (
        param_read_lines(ps.take(k)) + param_read_lines(init.skip(k))) + line);
    }
}

/// The read line of parameter `p`.
pub open spec fn param_read_line(p: (JavaType, Seq<char>)) -> Seq<char> {
    "\t\t"@ + dis_read_text(p.0, p.1, 0) + "\n"@
}

proof fn lemma_param_read_at(ps: Seq<(JavaType, Seq<char>)>, k: int)
    requires
        0 <= k < ps.len(),
    ensures
        param_read_lines(ps) == param_read_lines(ps.take(k)) + param_read_line(ps[k])
            + param_read_lines(ps.skip(k + 1)),
{
    lemma_param_read_lines_split(ps, k);
    let rest = ps.skip(k);
    lemma_param_read_lines_split(rest, 1);
    let one = rest.take(1);
    assert(one.drop_last() =~= Seq::<(JavaType, Seq<char>)>::empty());
    assert(one.last() == ps[k]);
    assert(param_read_lines(one.drop_last()) == Seq::<char>::empty());
    assert(param_read_lines(one) =~= param_read_line(ps[k]));
    assert(rest.skip(1) =~= ps.skip(k + 1));
}

proof fn lemma_result_tail_calls_run(t: JavaType, args: Seq<char>)
    ensures
        text_contains(result_tail(t, args), run_call(args)),
{
    let call = run_call(args);
    let tail = result_tail(t, args);
    match t {
        JavaType::Primitive(p) => {
            let pre = "\t\tjava.io.DataOutputStream _dos = new java.io.DataOutputStream(System.out);\n\t\t_dos."@
                + dos_method_name(primitive_enc(p)) + "("@;
            let post = ");\n\t\t_dos.flush();\n\t}"@;
            assert(tail =~= pre + call + post);
            lemma_contains_middle(pre, call, post);
        },
        JavaType::Boxed(b) => {
            if b == BoxedType::String {
                let post = ".getBytes(java.nio.charset.StandardCharsets.UTF_8);\n\t\tSystem.out.write(_b);\n\t\tSystem.out.flush();\n\t}"@;
                assert(tail =~= "\t\tbyte[] _b = "@ + call + post);
                lemma_contains_middle("\t\tbyte[] _b = "@, call, post);
            } else {
                let pre = "\t\tjava.io.DataOutputStream _dos = new java.io.DataOutputStream(System.out);\n\t\t_dos."@
                    + dos_method_name(boxed_enc(b)) + "("@;
                let post = ");\n\t\t_dos.flush();\n\t}"@;
                assert(tail =~= pre + call + post);
                lemma_contains_middle(pre, call, post);
            }
        },
        JavaType::Array(inner) => {
            let pre = "\t\t"@ + java_type_name(*inner) + "[] _arr = "@;
            let post = tail.skip((pre.len() + call.len()) as int);
            assert(tail =~= pre + call + post);
            lemma_contains_middle(pre, call, post);
        },
        JavaType::List(inner) => {
            let pre = "\t\tjava.util.List<"@ + java_type_name(*inner) + "> _arr = "@;
            let post = tail.skip((pre.len() + call.len()) as int);
            assert(tail =~= pre + call + post);
            lemma_contains_middle(pre, call, post);
        },
        JavaType::Optional(inner) => {
            let pre = "\t\tjava.util.Optional<"@ + java_type_name(*inner) + "> _opt = "@;
            let post = tail.skip((pre.len() + call.len()) as int);
            assert(tail =~= pre + call + post);
            lemma_contains_middle(pre, call, post);
        },
    }
}

/// The generated `main` reads, then calls `run` with the parameters in
/// order: it is the header, the reads, and then the statements that call
/// `run(n1, ..., nk)` and write the result. The reads are empty exactly when
/// there are neither injected variables nor parameters; otherwise they open
/// `_dis` first, then read the variables and then the parameters, each
/// parameter `ps[k]` with its own read line, after those of `ps[..k]` and
/// before those of `ps[k + 1..]`.
pub proof fn lemma_main_reads_then_calls(
    t: JavaType,
    vs: Seq<Seq<char>>,
    ps: Seq<(JavaType, Seq<char>)>,
    k: int,
)
    requires
        0 <= k < ps.len() || (k == 0 && ps.len() == 0),
    ensures
        main_text(t, vs, ps) == main_header() + main_reads(vs, ps) + result_tail(
            t,
            run_args_text(ps),
        ),
        main_reads(vs, ps).len() == 0 <==> (vs.len() == 0 && ps.len() == 0),
        main_reads(vs, ps).len() > 0 ==> main_reads(vs, ps).take(dis_open_line().len() as int)
            == dis_open_line(),
        ps.len() > 0 ==> param_read_lines(ps) == param_read_lines(ps.take(k)) + param_read_line(
            ps[k],
        ) + param_read_lines(ps.skip(k + 1)),
        text_contains(result_tail(t, run_args_text(ps)), run_call(run_args_text(ps))),
{
    reveal_strlit("\t\tjava.io.DataInputStream _dis = new java.io.DataInputStream(System.in);\n");
    if !(vs.len() == 0 && ps.len() == 0) {
        let d = dis_open_line();
        let reads = main_reads(vs, ps);
        assert(reads == d + var_read_lines(vs) + param_read_lines(ps));
        assert(reads.take(d.len() as int) =~= d);
    }
    if ps.len() > 0 {
        lemma_param_read_at(ps, k);
    }
    lemma_result_tail_calls_run(t, run_args_text(ps));
}

/// The complete `.java` source file.
pub open spec fn java_class_text(
    imports: Seq<char>,
    outer: Seq<char>,
    class_name: Seq<char>,
    body: Seq<char>,
    main_method: Seq<char>,
) -> Seq<char> {
    imports + "\n"@ + outer + "\npublic class "@ + class_name + " {\n\n"@ + body + "\n\n"@
        + main_method + "\n}\n"@
}

// ── Executable code ──────────────────────────────────────────────────────────

fn read_method(e: ScalarEnc) -> (r: &'static str)
    ensures
        r@ == read_method_name(e),
{
    match e {
        ScalarEnc::Byte => "readByte",
        ScalarEnc::Short => "readShort",
        ScalarEnc::Int => "readInt",
        ScalarEnc::Long => "readLong",
        ScalarEnc::Float => "readFloat",
        ScalarEnc::Double => "readDouble",
        ScalarEnc::Boolean => "readBoolean",
        ScalarEnc::Char => "readChar",
        ScalarEnc::Str => "readFully",
    }
}

fn keyword(e: ScalarEnc) -> (r: &'static str)
    ensures
        r@ == prim_keyword(e),
{
    match e {
        ScalarEnc::Byte => "byte",
        ScalarEnc::Short => "short",
        ScalarEnc::Int => "int",
        ScalarEnc::Long => "long",
        ScalarEnc::Float => "float",
        ScalarEnc::Double => "double",
        ScalarEnc::Boolean => "boolean",
        ScalarEnc::Char => "char",
        ScalarEnc::Str => "String",
    }
}

/// The statements that read a scalar of encoding `e` into a new variable
/// `name`.
fn scalar_dis_read(e: ScalarEnc, name: &str) -> (r: String)
    ensures
        r@ == scalar_read_text(e, name@),
{
    match e {
        ScalarEnc::Str => {
            let mut s = "int _len_".to_owned();
            s.append(name);
            s.append(" = _dis.readInt();\n\t\tbyte[] _b_");
            s.append(name);
            s.append(" = new byte[_len_");
            s.append(name);
            s.append("];\n\t\t_dis.readFully(_b_");
            s.append(name);
            s.append(");\n\t\tString ");
            s.append(name);
            s.append(" = new String(_b_");
            s.append(name);
            s.append(", java.nio.charset.StandardCharsets.UTF_8);");
            s
        },
        _ => {
            let mut s = keyword(e).to_owned();
            s.append(" ");
            s.append(name);
            s.append(" = _dis.");
            s.append(read_method(e));
            s.append("();");
            s
        },
    }
}

/// `prefix` followed by `name_depth`.
fn level_name(prefix: &str, name: &str, depth: usize) -> (r: String)
    ensures
        r@ == prefix@ + level_suffix(name@, depth as nat),
{
    let mut suffix = name.to_owned();
    suffix.append("_");
    let d = decimal_string_unsigned(depth as u64);
    suffix.append(d.as_str());
    let mut s = prefix.to_owned();
    s.append(suffix.as_str());
    s
}

/// `prefix` followed by `depth` in decimal.
fn numbered(prefix: &str, depth: usize) -> (r: String)
    ensures
        r@ == prefix@ + decimal(depth as int),
{
    let d = decimal_string_unsigned(depth as u64);
    let mut s = prefix.to_owned();
    s.append(d.as_str());
    s
}

impl PrimitiveType {
    /// The Java statement that declares `param_name` and reads a value of
    /// this type into it from `_dis`.
    pub fn java_dis_read(self, param_name: &str) -> (r: String)
        ensures
            r@ == scalar_read_text(primitive_enc(self), param_name@),
    {
        scalar_dis_read(self.enc(), param_name)
    }
}

impl BoxedType {
    /// The Java statements that declare `param_name` and read a value of this
    /// type into it from `_dis`: the primitive read for the boxed scalars
    /// (Java boxes it), a length-prefixed UTF-8 run for `String`.
    pub fn java_dis_read(self, param_name: &str) -> (r: String)
        ensures
            r@ == scalar_read_text(boxed_enc(self), param_name@),
    {
        scalar_dis_read(self.enc(), param_name)
    }
}

impl JavaType {
    /// The Java statements that declare `param_name` and read a value of this
    /// type into it from `_dis`; `depth` keeps nested temporaries apart.
    pub fn java_dis_read(&self, param_name: &str, depth: usize) -> (r: String)
        requires
            depth + type_height(*self) <= usize::MAX,
        ensures
            r@ == dis_read_text(*self, param_name@, depth as nat),
        decreases self, 0int,
    {
        match self {
            JavaType::Primitive(p) => p.java_dis_read(param_name),
            JavaType::Boxed(b) => b.java_dis_read(param_name),
            JavaType::Array(inner) => {
                let count = level_name("_count_", param_name, depth);
                let i = level_name("_i_", param_name, depth);
                let elem = level_name("_elem_", param_name, depth);
                let inner_type = inner.java_type_name();
                let new_expr = inner.java_new_outer_array(count.as_str());
                let inner_read = inner.java_dis_read_for_elem(elem.as_str(), depth + 1);
                let mut s = "int ".to_owned();
                s.append(count.as_str());
                s.append(" = _dis.readInt();\n\t\t");
                s.append(inner_type.as_str());
                s.append("[] ");
                s.append(param_name);
                s.append(" = ");
                s.append(new_expr.as_str());
                s.append(";\n\t\tfor (int ");
                s.append(i.as_str());
                s.append(" = 0; ");
                s.append(i.as_str());
                s.append(" < ");
                s.append(count.as_str());
                s.append("; ");
                s.append(i.as_str());
                s.append("++) {\n\t\t\t");
                s.append(inner_read.as_str());
                s.append("\n\t\t\t");
                s.append(param_name);
                s.append("[");
                s.append(i.as_str());
                s.append("] = ");
                s.append(elem.as_str());
                s.append(";\n\t\t}");
                s
            },
            JavaType::List(inner) => {
                let count = level_name("_count_", param_name, depth);
                let i = level_name("_i_", param_name, depth);
                let elem = level_name("_elem_", param_name, depth);
                let inner_type = inner.java_type_name();
                let inner_read = inner.java_dis_read_for_elem(elem.as_str(), depth + 1);
                let mut s = "int ".to_owned();
                s.append(count.as_str());
                s.append(" = _dis.readInt();\n\t\tjava.util.List<");
                s.append(inner_type.as_str());
                s.append("> ");
                s.append(param_name);
                s.append(" = new java.util.ArrayList<>();\n\t\tfor (int ");
                s.append(i.as_str());
                s.append(" = 0; ");
                s.append(i.as_str());
                s.append(" < ");
                s.append(count.as_str());
                s.append("; ");
                s.append(i.as_str());
                s.append("++) {\n\t\t\t");
                s.append(inner_read.as_str());
                s.append("\n\t\t\t");
                s.append(param_name);
                s.append(".add((");
                s.append(inner_type.as_str());
                s.append(") ");
                s.append(elem.as_str());
                s.append(");\n\t\t}");
                s
            },
            JavaType::Optional(inner) => {
                let tag = level_name("_tag_", param_name, depth);
                let iv = level_name("_inner_", param_name, depth);
                let inner_type = inner.java_type_name();
                let inner_read = inner.java_dis_read_for_elem(iv.as_str(), depth + 1);
                let mut s = "int ".to_owned();
                s.append(tag.as_str());
                s.append(" = _dis.readUnsignedByte();\n\t\tjava.util.Optional<");
                s.append(inner_type.as_str());
                s.append("> ");
                s.append(param_name);
                s.append(";\n\t\tif (");
                s.append(tag.as_str());
                s.append(" != 0) {\n\t\t\t");
                s.append(inner_read.as_str());
                s.append("\n\t\t\t");
                s.append(param_name);
                s.append(" = java.util.Optional.of(");
                s.append(iv.as_str());
                s.append(");\n\t\t} else {\n\t\t\t");
                s.append(param_name);
                s.append(" = java.util.Optional.empty();\n\t\t}");
                s
            },
        }
    }

    /// The Java expression `new Base[count_var][]...` that allocates an outer
    /// array whose elements have this type.
    pub fn java_new_outer_array(&self, count_var: &str) -> (r: String)
        ensures
            r@ == new_outer_array_text(*self, count_var@),
        decreases self,
    {
        match self {
            JavaType::Array(inner) => {
                let mut s = inner.java_new_outer_array(count_var);
                s.append("[]");
                s
            },
            _ => {
                let mut s = "new ".to_owned();
                s.append(self.java_type_name().as_str());
                s.append("[");
                s.append(count_var);
                s.append("]");
                s
            },
        }
    }

    /// Like [`JavaType::java_dis_read`], for an element of a container.
    pub fn java_dis_read_for_elem(&self, elem_name: &str, depth: usize) -> (r: String)
        requires
            depth + type_height(*self) <= usize::MAX,
        ensures
            r@ == dis_read_text(*self, elem_name@, depth as nat),
        decreases self, 1int,
    {
        match self {
            JavaType::Primitive(p) => p.java_dis_read(elem_name),
            JavaType::Boxed(b) => b.java_dis_read(elem_name),
            _ => self.java_dis_read(elem_name, depth),
        }
    }
}

/// The Java statements that write `var`, of type `ty`, to the
/// `DataOutputStream` named `dos`; `depth` keeps nested loop variables apart.
pub fn java_ser_element(ty: &JavaType, var: &str, dos: &str, depth: usize) -> (r: String)
    requires
        depth + type_height(*ty) <= usize::MAX,
    ensures
        r@ == ser_element_text(*ty, var@, dos@, depth as nat),
    decreases ty,
{
    match ty {
        JavaType::Primitive(p) => {
            let mut s = dos.to_owned();
            s.append(".");
            s.append(p.dos_write_method());
            s.append("(");
            s.append(var);
            s.append(");");
            s
        },
        JavaType::Boxed(BoxedType::String) => {
            let d = decimal_string_unsigned(depth as u64);
            let mut s = "{ byte[] _b".to_owned();
            s.append(d.as_str());
            s.append(" = (");
            s.append(var);
            s.append(").getBytes(java.nio.charset.StandardCharsets.UTF_8);\n\t\t\t");
            s.append(dos);
            s.append(".writeInt(_b");
            s.append(d.as_str());
            s.append(".length);\n\t\t\t");
            s.append(dos);
            s.append(".write(_b");
            s.append(d.as_str());
            s.append(", 0, _b");
            s.append(d.as_str());
            s.append(".length); }");
            s
        },
        JavaType::Boxed(b) => {
            let method = b.dos_write_method().unwrap();
            let mut s = dos.to_owned();
            s.append(".");
            s.append(method);
            s.append("(");
            s.append(var);
            s.append(");");
            s
        },
        JavaType::Array(inner) => {
            let e = numbered("_e", depth);
            let inner_ser = java_ser_element(inner, e.as_str(), dos, depth + 1);
            let mut s = dos.to_owned();
            s.append(".writeInt((");
            s.append(var);
            s.append(").length);\n\t\t\tfor (");
            s.append(inner.java_type_name().as_str());
            s.append(" ");
            s.append(e.as_str());
            s.append(" : (");
            s.append(var);
            s.append(")) {\n\t\t\t\t");
            s.append(inner_ser.as_str());
            s.append("\n\t\t\t}");
            s
        },
        JavaType::List(inner) => {
            let e = numbered("_e", depth);
            let inner_ser = java_ser_element(inner, e.as_str(), dos, depth + 1);
            let mut s = dos.to_owned();
            s.append(".writeInt((");
            s.append(var);
            s.append(").size());\n\t\t\tfor (");
            s.append(inner.java_type_name().as_str());
            s.append(" ");
            s.append(e.as_str());
            s.append(" : (");
            s.append(var);
            s.append(")) {\n\t\t\t\t");
            s.append(inner_ser.as_str());
            s.append("\n\t\t\t}");
            s
        },
        JavaType::Optional(inner) => {
            let iv = numbered("_opt_inner", depth);
            let inner_ser = java_ser_element(inner, iv.as_str(), dos, depth + 1);
            let mut s = "if ((".to_owned();
            s.append(var);
            s.append(").isPresent()) {\n\t\t\t\t");
            s.append(dos);
            s.append(".writeByte(1);\n\t\t\t\t");
            s.append(inner.java_type_name().as_str());
            s.append(" ");
            s.append(iv.as_str());
            s.append(" = (");
            s.append(var);
            s.append(").get();\n\t\t\t\t");
            s.append(inner_ser.as_str());
            s.append("\n\t\t\t} else {\n\t\t\t\t");
            s.append(dos);
            s.append(".writeByte(0);\n\t\t\t}");
            s
        },
    }
}

/// The reading lines for `params`.
fn param_reads(params: &[(JavaType, String)]) -> (r: String)
    requires
        params_fit(params@),
    ensures
        r@ == param_read_lines(params_view(params@)),
{
    let ghost ps = params_view(params@);
    let mut s = String::new();
    let mut i: usize = 0;
    while i < params.len()
        invariant
            i <= params@.len(),
            params_fit(params@),
            ps == params_view(params@),
            s@ == param_read_lines(ps.take(i as int)),
        decreases params@.len() - i,
    {
        assert(ps.take(i + 1).drop_last() =~= ps.take(i as int));
        assert(type_height(params@[i as int].0) < usize::MAX);
        let line = params[i].0.java_dis_read(params[i].1.as_str(), 0);
        s.append("\t\t");
        s.append(line.as_str());
        s.append("\n");
        i = i + 1;
    }
    assert(ps.take(i as int) =~= ps);
    s
}

/// The reading lines for the injected variables `vars`.
fn var_reads(vars: &Vec<String>) -> (r: String)
    ensures
        r@ == var_read_lines(vars.deep_view()),
{
    let ghost vs = vars.deep_view();
    let mut s = String::new();
    let mut i: usize = 0;
    while i < vars.len()
        invariant
            i <= vars@.len(),
            vs == vars.deep_view(),
            s@ == var_read_lines(vs.take(i as int)),
        decreases vars@.len() - i,
    {
        assert(vs.take(i + 1).drop_last() =~= vs.take(i as int));
        assert(vs.take(i + 1).last() == vars@[i as int]@);
        s.append("\t\t{ int _len = _dis.readInt(); byte[] _b = new byte[_len]; _dis.readFully(_b); _RUST_");
        s.append(vars[i].as_str());
        s.append(" = new String(_b, java.nio.charset.StandardCharsets.UTF_8); }\n");
        i = i + 1;
    }
    assert(vs.take(i as int) =~= vs);
    s
}

/// The field declarations for the injected variables `vars`.
pub fn field_decls(vars: &Vec<String>) -> (r: String)
    ensures
        r@ == field_lines(vars.deep_view()),
{
    let ghost vs = vars.deep_view();
    let mut s = String::new();
    let mut i: usize = 0;
    while i < vars.len()
        invariant
            i <= vars@.len(),
            vs == vars.deep_view(),
            s@ == field_lines(vs.take(i as int)),
        decreases vars@.len() - i,
    {
        assert(vs.take(i + 1).drop_last() =~= vs.take(i as int));
        assert(vs.take(i + 1).last() == vars@[i as int]@);
        s.append("\tstatic String _RUST_");
        s.append(vars[i].as_str());
        s.append(";\n");
        i = i + 1;
    }
    assert(vs.take(i as int) =~= vs);
    s
}

/// The comma-joined parameter names.
fn run_args(params: &[(JavaType, String)]) -> (r: String)
    ensures
        r@ == run_args_text(params_view(params@)),
{
    let mut names: Vec<String> = Vec::new();
    let mut i: usize = 0;
    while i < params.len()
        invariant
            i <= params@.len(),
            names@.len() == i,
            forall|k: int| 0 <= k < i ==> (#[trigger] names@[k])@ == params@[k].1@,
        decreases params@.len() - i,
    {
        names.push(params[i].1.clone());
        i = i + 1;
    }
    let r = join_comma(&names);
    assert(Seq::new(names@.len(), |k: int| names@[k]@) =~= Seq::new(
        params_view(params@).len(),
        |k: int| params_view(params@)[k].1,
    ));
    r
}

/// The statements that write a scalar result with `method`.
fn scalar_result(method: &str, args: &str) -> (r: String)
    ensures
        r@ == scalar_result_text(method@, args@),
{
    let mut s = "\t\tjava.io.DataOutputStream _dos = new java.io.DataOutputStream(System.out);\n\t\t_dos.".to_owned();
    s.append(method);
    s.append("(");
    s.append(call_of_run(args).as_str());
    s.append(");\n\t\t_dos.flush();\n\t}");
    s
}

/// `run(` + `args` + `)`.
fn call_of_run(args: &str) -> (r: String)
    ensures
        r@ == run_call(args@),
{
    let mut s = "run(".to_owned();
    s.append(args);
    s.append(")");
    s
}

impl JavaType {
    /// The complete `main(String[] args)` method of the generated class: it
    /// reads the parameters `params` from stdin, calls `run` with them and
    /// writes the result, of this type, to stdout.
    pub fn java_main(&self, params: &[(JavaType, String)]) -> (r: String)
        requires
            type_height(*self) < usize::MAX,
            params_fit(params@),
        ensures
            r@ == main_text(*self, Seq::empty(), params_view(params@)),
    {
        let none: Vec<String> = Vec::new();
        assert(none.deep_view() =~= Seq::<Seq<char>>::empty());
        self.java_main_injected(&none, params)
    }

    /// The `main` method of a class whose body uses the injected variables
    /// `vars`: it first reads their values from stdin into their fields,
    /// then reads the parameters `params`, calls `run` with them and writes
    /// the result, of this type, to stdout.
    pub fn java_main_injected(&self, vars: &Vec<String>, params: &[(JavaType, String)]) -> (r:
        String)
        requires
            type_height(*self) < usize::MAX,
            params_fit(params@),
        ensures
            r@ == main_text(*self, vars.deep_view(), params_view(params@)),
    {
        let ghost ps = params_view(params@);
        let reads = if vars.len() == 0 && params.len() == 0 {
            String::new()
        } else {
            let mut h = "\t\tjava.io.DataInputStream _dis = new java.io.DataInputStream(System.in);\n".to_owned();
            let var_lines = var_reads(vars);
            h.append(var_lines.as_str());
            let lines = param_reads(params);
            h.append(lines.as_str());
            h
        };
        let mut head = "\tpublic static void main(String[] args) throws Exception {\n".to_owned();
        head.append(reads.as_str());
        assert(head@ == main_head(vars.deep_view(), ps));
        let args = run_args(params);
        let tail = self.result_statements(args.as_str());
        head.append(tail.as_str());
        head
    }

    /// The statements of `main` after the reads: the call of `run` with the
    /// argument list `args`, and the writing of its result, of this type.
    pub fn result_statements(&self, args: &str) -> (r: String)
        requires
            type_height(*self) < usize::MAX,
        ensures
            r@ == result_tail(*self, args@),
    {
        let call = call_of_run(args);
        match self {
            JavaType::Primitive(p) => scalar_result(p.dos_write_method(), args),
            JavaType::Boxed(BoxedType::String) => {
                let mut s = "\t\tbyte[] _b = ".to_owned();
                s.append(call.as_str());
                s.append(".getBytes(java.nio.charset.StandardCharsets.UTF_8);\n\t\tSystem.out.write(_b);\n\t\tSystem.out.flush();\n\t}");
                s
            },
            JavaType::Boxed(b) => scalar_result(b.dos_write_method().unwrap(), args),
            JavaType::Array(inner) => {
                let elem_type = inner.java_type_name();
                let ser = java_ser_element(inner, "_e0", "_dos", 1);
                let mut s = "\t\t".to_owned();
                s.append(elem_type.as_str());
                s.append("[] _arr = ");
                s.append(call.as_str());
                s.append(";\n\t\tjava.io.DataOutputStream _dos = new java.io.DataOutputStream(System.out);\n\t\t_dos.writeInt(_arr.length);\n\t\tfor (");
                s.append(elem_type.as_str());
                s.append(" _e0 : _arr) {\n\t\t\t");
                s.append(ser.as_str());
                s.append("\n\t\t}\n\t\t_dos.flush();\n\t}");
                s
            },
            JavaType::List(inner) => {
                let elem_type = inner.java_type_name();
                let ser = java_ser_element(inner, "_e0", "_dos", 1);
                let mut s = "\t\tjava.util.List<".to_owned();
                s.append(elem_type.as_str());
                s.append("> _arr = ");
                s.append(call.as_str());
                s.append(";\n\t\tjava.io.DataOutputStream _dos = new java.io.DataOutputStream(System.out);\n\t\t_dos.writeInt(_arr.size());\n\t\tfor (");
                s.append(elem_type.as_str());
                s.append(" _e0 : _arr) {\n\t\t\t");
                s.append(ser.as_str());
                s.append("\n\t\t}\n\t\t_dos.flush();\n\t}");
                s
            },
            JavaType::Optional(inner) => {
                let inner_type = inner.java_type_name();
                let ser = java_ser_element(inner, "_opt.get()", "_dos", 1);
                let mut s = "\t\tjava.util.Optional<".to_owned();
                s.append(inner_type.as_str());
                s.append("> _opt = ");
                s.append(call.as_str());
                s.append(";\n\t\tjava.io.DataOutputStream _dos = new java.io.DataOutputStream(System.out);\n\t\tif (_opt.isPresent()) {\n\t\t\t_dos.writeByte(1);\n\t\t\t");
                s.append(ser.as_str());
                s.append("\n\t\t} else {\n\t\t\t_dos.writeByte(0);\n\t\t}\n\t\t_dos.flush();\n\t}");
                s
            },
        }
    }
}

/// Render the complete `.java` source file: the imports, the outer
/// declarations, and the public class `class_name` holding `body` and
/// `main_method`.
pub fn format_java_class(
    imports: &str,
    outer: &str,
    class_name: &str,
    body: &str,
    main_method: &str,
) -> (r: String)
    ensures
        r@ == java_class_text(imports@, outer@, class_name@, body@, main_method@),
{
    let mut s = imports.to_owned();
    s.append("\n");
    s.append(outer);
    s.append("\npublic class ");
    s.append(class_name);
    s.append(" {\n\n");
    s.append(body);
    s.append("\n\n");
    s.append(main_method);
    s.append("\n}\n");
    s
}

} // verus!
