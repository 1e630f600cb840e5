// Snippets as a user writes them inside `java!`, `java_fn!` and `ct_java!`,
// expanded by the library and run through the whole pipeline: options,
// parsing, the generated program, the argument encoding, the run steps and
// the decoding of the result. The JVM's part of a run is played by the bytes
// that the generated `main` writes for the value that `run()` returns.

use std::str::FromStr;

use inline_java::codec::{check_args, encode_args};
use inline_java::error::JavaError;
use inline_java::program::{ct_java, ct_java_finish, java, java_fn, JavaProgram};
use inline_java::runner::{JavaRun, RunAction, RunEvent};
use inline_java::tokens::{Delimiter, Token, TokenKind};
use inline_java::value::JavaValue;

// ── Tokens ───────────────────────────────────────────────────────────────────

fn convert(ts: proc_macro2::TokenStream) -> Vec<Token> {
	ts.into_iter()
		.map(|tt| match tt {
			proc_macro2::TokenTree::Group(g) => {
				let d = match g.delimiter() {
					proc_macro2::Delimiter::Parenthesis => Delimiter::Parenthesis,
					proc_macro2::Delimiter::Brace => Delimiter::Brace,
					proc_macro2::Delimiter::Bracket => Delimiter::Bracket,
					proc_macro2::Delimiter::None => Delimiter::Invisible,
				};
				Token { kind: TokenKind::Group(d, convert(g.stream())), text: g.to_string(), span: None }
			}
			proc_macro2::TokenTree::Ident(i) => Token { kind: TokenKind::Ident, text: i.to_string(), span: None },
			proc_macro2::TokenTree::Punct(p) => {
				Token { kind: TokenKind::Punct(p.as_char()), text: p.to_string(), span: None }
			}
			proc_macro2::TokenTree::Literal(l) => Token { kind: TokenKind::Literal, text: l.to_string(), span: None },
		})
		.collect()
}

fn tokens(src: &str) -> Vec<Token> {
	convert(proc_macro2::TokenStream::from_str(src).unwrap())
}

fn expand_java(src: &str) -> JavaProgram {
	java(tokens(src), src).unwrap()
}

fn expand_java_fn(src: &str) -> JavaProgram {
	java_fn(tokens(src), src).unwrap()
}

fn expand_ct_java(src: &str) -> JavaProgram {
	ct_java(tokens(src), src).unwrap()
}

// ── Running ──────────────────────────────────────────────────────────────────

/// Drive a run of `program` through a cold cache (check, lock, check again,
/// compile, mark, launch); `java` exits with `success`, `stdout`, `stderr`.
/// Returns the run's result and the arguments given to `javac` and `java`.
fn run_program(
	program: &JavaProgram,
	stdin: Vec<u8>,
	success: bool,
	stdout: &[u8],
	stderr: &[u8],
) -> (Result<Vec<u8>, JavaError>, Vec<String>, Vec<String>) {
	let dir = format!("/cache/{}", program.class_name);
	let src = format!("{dir}/{}", program.filename);
	let env: Vec<(String, String)> = vec![("HOME".to_string(), "/home/user".to_string())];
	let mut run = JavaRun::new(
		&program.javac_raw,
		&program.java_raw,
		&env,
		&dir,
		&src,
		&program.full_class_name,
		':',
		stdin.clone(),
	);
	assert!(matches!(run.step(RunEvent::Begin), RunAction::CheckCompiled));
	assert!(matches!(run.step(RunEvent::Compiled(false)), RunAction::Lock));
	assert!(matches!(run.step(RunEvent::Locked), RunAction::CheckCompiled));
	let javac_args = match run.step(RunEvent::Compiled(false)) {
		RunAction::Compile { args } => args,
		_ => panic!("expected a compile step"),
	};
	assert!(javac_args.ends_with(&["-d".to_string(), dir.clone(), src.clone()]));
	assert!(matches!(
		run.step(RunEvent::CompilerExited { success: true, stderr: Vec::new() }),
		RunAction::MarkCompiled
	));
	let java_args = match run.step(RunEvent::Marked) {
		RunAction::Launch { args, stdin: given } => {
			assert_eq!(given, stdin);
			args
		}
		_ => panic!("expected a launch step"),
	};
	assert_eq!(java_args.last(), Some(&program.full_class_name));
	let result = match run.step(RunEvent::ProgramExited {
		success,
		stdout: stdout.to_vec(),
		stderr: stderr.to_vec(),
	}) {
		RunAction::Finish(r) => r,
		_ => panic!("expected the run to finish"),
	};
	(result, javac_args, java_args)
}

/// Evaluate a program whose `main` writes `stdout`, and decode the result.
fn evaluate(program: &JavaProgram, stdin: Vec<u8>, stdout: &[u8]) -> Result<JavaValue, JavaError> {
	let (raw, _, _) = run_program(program, stdin, true, stdout, b"");
	let raw = raw?;
	assert!(program.java_type.output_is_complete(&raw));
	program.java_type.rust_deser(raw)
}

/// The stdin bytes for a call of a `java_fn!` program with `args`.
fn call_stdin(program: &JavaProgram, args: Vec<JavaValue>) -> Vec<u8> {
	assert!(check_args(&program.params, &args));
	encode_args(&program.params, &args)
}

/// The literal a `ct_java!` program's output `stdout` becomes.
fn ct_literal(program: &JavaProgram, stdout: &[u8]) -> String {
	let (raw, _, _) = run_program(program, Vec::new(), true, stdout, b"");
	let raw = raw.unwrap();
	assert!(!program.java_type.ct_output_aborts(&raw));
	ct_java_finish(program, Ok(raw)).unwrap()
}

// ── What the generated `main` writes (DataOutputStream) ──────────────────────

#[derive(Default)]
struct Out(Vec<u8>);

impl Out {
	fn int32(mut self, x: i32) -> Self {
		self.0.extend_from_slice(&x.to_be_bytes());
		self
	}
	fn double(mut self, x: f64) -> Self {
		self.0.extend_from_slice(&x.to_bits().to_be_bytes());
		self
	}
	fn boolean(mut self, x: bool) -> Self {
		self.0.push(u8::from(x));
		self
	}
	fn tag(mut self, present: bool) -> Self {
		self.0.push(u8::from(present));
		self
	}
	fn string(mut self, s: &str) -> Self {
		self.0.extend_from_slice(&(s.len() as i32).to_be_bytes());
		self.0.extend_from_slice(s.as_bytes());
		self
	}
	fn bytes(self) -> Vec<u8> {
		self.0
	}
}

fn out() -> Out {
	Out::default()
}

// ── Values ───────────────────────────────────────────────────────────────────

fn ints(xs: &[i32]) -> JavaValue {
	JavaValue::List(xs.iter().map(|x| JavaValue::Int(*x)).collect())
}

fn strs(xs: &[&str]) -> JavaValue {
	JavaValue::List(xs.iter().map(|x| JavaValue::Str(x.to_string())).collect())
}

fn list(xs: Vec<JavaValue>) -> JavaValue {
	JavaValue::List(xs)
}

fn some(v: JavaValue) -> JavaValue {
	JavaValue::Opt(Some(Box::new(v)))
}

fn none() -> JavaValue {
	JavaValue::Opt(None)
}

fn string(s: &str) -> JavaValue {
	JavaValue::Str(s.to_string())
}

// ── Options (flags) ──────────────────────────────────────────────────────────

#[test]
fn flags_java_runtime_single_java_arg() {
	let src = r#"
		java = "-Dinline.test=hello",
		static String run() {
			return System.getProperty("inline.test");
		}
	"#;
	let program = expand_java(src);
	let (val, _, java_args) = run_program(&program, Vec::new(), true, b"hello", b"");
	assert_eq!(java_args[0], "-Dinline.test=hello");
	let val = val.map(|raw| program.java_type.rust_deser(raw).unwrap());
	assert_eq!(val, Ok(string("hello")));
}

#[test]
fn flags_java_runtime_single_java_arg_with_spaces() {
	let src = r#"
		java = "-Dinline.test='hello world'",
		static String run() {
			return System.getProperty("inline.test");
		}
	"#;
	let program = expand_java(src);
	let (val, _, java_args) = run_program(&program, Vec::new(), true, b"hello world", b"");
	assert_eq!(java_args[0], "-Dinline.test=hello world");
	let val = val.map(|raw| program.java_type.rust_deser(raw).unwrap());
	assert_eq!(val, Ok(string("hello world")));
}

#[test]
fn flags_java_runtime_multiple_java_args() {
	let src = r#"
		java = "-Da=foo -Db=bar",
		static String run() {
			return System.getProperty("a") + ":" + System.getProperty("b");
		}
	"#;
	let program = expand_java(src);
	let (val, _, java_args) = run_program(&program, Vec::new(), true, b"foo:bar", b"");
	assert_eq!(&java_args[..2], &["-Da=foo".to_string(), "-Db=bar".to_string()]);
	let val = val.map(|raw| program.java_type.rust_deser(raw).unwrap());
	assert_eq!(val, Ok(string("foo:bar")));
}

#[test]
fn java_runtime_javac_classpath_jar() {
	let src = r#"
		javac = "-cp \"/tmp/inline_java_flags_cp_jar/demo.jar\"",
		java = "-cp /tmp/inline_java_flags_cp_jar/demo.jar",
		import com.example.demo.*;
		static String run() {
			return new HelloWorld().greet();
		}
	"#;
	let program = expand_java(src);
	let (val, javac_args, java_args) = run_program(&program, Vec::new(), true, b"Hello, World!", b"");
	assert_eq!(&javac_args[..2], &["-cp".to_string(), "/tmp/inline_java_flags_cp_jar/demo.jar".to_string()]);
	let dir = format!("/cache/{}", program.class_name);
	assert_eq!(java_args[1], format!("/tmp/inline_java_flags_cp_jar/demo.jar:{dir}"));
	let val = val.map(|raw| program.java_type.rust_deser(raw).unwrap());
	assert_eq!(val, Ok(string("Hello, World!")));
}

#[test]
fn java_runtime_javac_classpath_jar_long_arg_name() {
	let src = r#"
		javac = "-classpath \"/tmp/inline_java_flags_cp_long_jar/demo.jar\"",
		java = "-classpath /tmp/inline_java_flags_cp_long_jar/demo.jar",
		import com.example.demo.*;
		static String run() {
			return new HelloWorld().greet();
		}
	"#;
	let program = expand_java(src);
	let (val, javac_args, java_args) = run_program(&program, Vec::new(), true, b"Hello, World!", b"");
	assert_eq!(javac_args[1], "/tmp/inline_java_flags_cp_long_jar/demo.jar");
	let dir = format!("/cache/{}", program.class_name);
	assert_eq!(java_args[0], "-classpath");
	assert_eq!(java_args[1], format!("/tmp/inline_java_flags_cp_long_jar/demo.jar:{dir}"));
	let val = val.map(|raw| program.java_type.rust_deser(raw).unwrap());
	assert_eq!(val, Ok(string("Hello, World!")));
}

#[test]
fn flags_java_runtime_javac_sourcepath() {
	let src = r#"
		javac = "-sourcepath .",
		import com.example.demo.*;
		static String run() {
			return new HelloWorld().greet();
		}
	"#;
	let program = expand_java(src);
	assert!(program.java_class.starts_with("import com . example . demo . * ;\n"));
	let (val, javac_args, _) = run_program(&program, Vec::new(), true, b"Hello, World!", b"");
	assert_eq!(&javac_args[..2], &["-sourcepath".to_string(), ".".to_string()]);
	let val = val.map(|raw| program.java_type.rust_deser(raw).unwrap());
	assert_eq!(val, Ok(string("Hello, World!")));
}

#[test]
fn flags_java_runtime_javac_and_java_args() {
	let src = r#"
		javac = "-sourcepath .",
		java = "-Dinline.combined=yes",
		import com.example.demo.*;
		static String run() {
			return new HelloWorld().greet() + "|" + System.getProperty("inline.combined");
		}
	"#;
	let program = expand_java(src);
	let (val, javac_args, java_args) = run_program(&program, Vec::new(), true, b"Hello, World!|yes", b"");
	assert_eq!(javac_args[0], "-sourcepath");
	assert_eq!(java_args[0], "-Dinline.combined=yes");
	let val = val.map(|raw| program.java_type.rust_deser(raw).unwrap());
	assert_eq!(val, Ok(string("Hello, World!|yes")));
}

#[test]
fn flags_ct_java_java_arg() {
	let src = r#"
		java = "-Dinline.ct=compile-time",
		static String run() {
			return System.getProperty("inline.ct");
		}
	"#;
	let program = expand_ct_java(src);
	assert!(program.class_name.starts_with("CtJava_"));
	assert_eq!(program.java_raw, "-Dinline.ct=compile-time");
	assert_eq!(ct_literal(&program, b"compile-time"), "\"compile-time\"");
}

#[test]
fn flags_ct_java_javac_sourcepath() {
	let src = r#"
		javac = "-sourcepath ./inline_java",
		import com.example.demo.*;
		static String run() {
			return new HelloWorld().greet();
		}
	"#;
	let program = expand_ct_java(src);
	assert_eq!(program.javac_raw, "-sourcepath ./inline_java");
	assert_eq!(ct_literal(&program, b"Hello, World!"), "\"Hello, World!\"");
}

// ── Options (demo crate) ─────────────────────────────────────────────────────

#[test]
fn arg_passing_java_runtime_single_java_arg() {
	let src = r#"
		java = "-Dinline.test=hello",
		public static String run() {
			return System.getProperty("inline.test");
		}
	"#;
	let program = expand_java(src);
	assert!(program.java_class.contains("public static String run ()"));
	let val = evaluate(&program, Vec::new(), b"hello").unwrap();
	assert_eq!(val, string("hello"));
}

#[test]
fn arg_passing_java_runtime_single_java_arg_with_spaces() {
	let src = r#"
		java = "-Dinline.test='hello world'",
		public static String run() {
			return System.getProperty("inline.test");
		}
	"#;
	let program = expand_java(src);
	let (_, _, java_args) = run_program(&program, Vec::new(), true, b"hello world", b"");
	assert_eq!(java_args[0], "-Dinline.test=hello world");
	let val = evaluate(&program, Vec::new(), b"hello world").unwrap();
	assert_eq!(val, string("hello world"));
}

#[test]
fn arg_passing_java_runtime_multiple_java_args() {
	let src = r#"
		java = "-Da=foo -Db=bar",
		public static String run() {
			return System.getProperty("a") + ":" + System.getProperty("b");
		}
	"#;
	let program = expand_java(src);
	let val = evaluate(&program, Vec::new(), b"foo:bar").unwrap();
	assert_eq!(val, string("foo:bar"));
}

#[test]
fn arg_passing_java_runtime_javac_sourcepath() {
	let src = r#"
		javac = "-sourcepath /home/ubuntu/Dev/inline_java/inline_java_demo",
		import com.example.demo.*;
		public static String run() {
			return new HelloWorld().greet();
		}
	"#;
	let program = expand_java(src);
	let (_, javac_args, _) = run_program(&program, Vec::new(), true, b"Hello, World!", b"");
	assert_eq!(javac_args[1], "/home/ubuntu/Dev/inline_java/inline_java_demo");
	let val = evaluate(&program, Vec::new(), b"Hello, World!").unwrap();
	assert_eq!(val, string("Hello, World!"));
}

#[test]
fn arg_passing_java_runtime_javac_and_java_args() {
	let src = r#"
		javac = "-sourcepath /home/ubuntu/Dev/inline_java/inline_java_demo",
		java = "-Dinline.combined=yes",
		import com.example.demo.*;
		public static String run() {
			return new HelloWorld().greet() + "|" + System.getProperty("inline.combined");
		}
	"#;
	let program = expand_java(src);
	let val = evaluate(&program, Vec::new(), b"Hello, World!|yes").unwrap();
	assert_eq!(val, string("Hello, World!|yes"));
}

#[test]
fn arg_passing_ct_java_java_arg() {
	let src = r#"
		java = "-Dinline.ct=compile-time",
		public static String run() {
			return System.getProperty("inline.ct");
		}
	"#;
	let program = expand_ct_java(src);
	assert_eq!(ct_literal(&program, b"compile-time"), "\"compile-time\"");
}

#[test]
fn arg_passing_ct_java_javac_sourcepath() {
	let src = r#"
		javac = "-sourcepath /home/ubuntu/Dev/inline_java/inline_java_demo",
		import com.example.demo.*;
		public static String run() {
			return new HelloWorld().greet();
		}
	"#;
	let program = expand_ct_java(src);
	assert_eq!(ct_literal(&program, b"Hello, World!"), "\"Hello, World!\"");
}

// ── Return types ─────────────────────────────────────────────────────────────

#[test]
fn java_runtime_int_array() {
	let program = expand_java("static int[] run() { return new int[]{1, 2, 3, 4, 5}; }");
	let stdout = out().int32(5).int32(1).int32(2).int32(3).int32(4).int32(5).bytes();
	let v = evaluate(&program, Vec::new(), &stdout).unwrap();
	assert_eq!(v, ints(&[1, 2, 3, 4, 5]));
}

#[test]
fn java_runtime_double_array() {
	let program = expand_java("static double[] run() { return new double[]{1.5, 2.5, 3.5}; }");
	let stdout = out().int32(3).double(1.5).double(2.5).double(3.5).bytes();
	let v = evaluate(&program, Vec::new(), &stdout).unwrap();
	let doubles: Vec<f64> = match v {
		JavaValue::List(xs) => xs
			.iter()
			.map(|x| match x {
				JavaValue::Double(bits) => f64::from_bits(*bits),
				_ => panic!("expected a double"),
			})
			.collect(),
		_ => panic!("expected a list"),
	};
	assert_eq!(doubles, vec![1.5f64, 2.5, 3.5]);
}

#[test]
fn java_runtime_boolean_array() {
	let program = expand_java("static boolean[] run() { return new boolean[]{true, false, true}; }");
	let stdout = out().int32(3).boolean(true).boolean(false).boolean(true).bytes();
	let v = evaluate(&program, Vec::new(), &stdout).unwrap();
	assert_eq!(
		v,
		list(vec![JavaValue::Boolean(true), JavaValue::Boolean(false), JavaValue::Boolean(true)])
	);
}

#[test]
fn java_runtime_string_array() {
	let program = expand_java(r#"static String[] run() { return new String[]{"hello", "world"}; }"#);
	let stdout = out().int32(2).string("hello").string("world").bytes();
	let v = evaluate(&program, Vec::new(), &stdout).unwrap();
	assert_eq!(v, strs(&["hello", "world"]));
}

#[test]
fn java_runtime_empty_array() {
	let program = expand_java("static int[] run() { return new int[]{}; }");
	let stdout = out().int32(0).bytes();
	let v = evaluate(&program, Vec::new(), &stdout).unwrap();
	assert_eq!(v, list(vec![]));
}

#[test]
fn java_runtime_list_integer() {
	let src = "
		import java.util.Arrays;
		import java.util.List;
		static List<Integer> run() {
			return Arrays.asList(10, 20, 30);
		}
	";
	let program = expand_java(src);
	let stdout = out().int32(3).int32(10).int32(20).int32(30).bytes();
	let v = evaluate(&program, Vec::new(), &stdout).unwrap();
	assert_eq!(v, ints(&[10, 20, 30]));
}

#[test]
fn java_runtime_list_string() {
	let src = r#"
		import java.util.Arrays;
		static java.util.List<String> run() {
			return Arrays.asList("foo", "bar", "baz");
		}
	"#;
	let program = expand_java(src);
	let stdout = out().int32(3).string("foo").string("bar").string("baz").bytes();
	let v = evaluate(&program, Vec::new(), &stdout).unwrap();
	assert_eq!(v, strs(&["foo", "bar", "baz"]));
}

#[test]
fn java_runtime_abstract_class_override() {
	let src = r#"
		abstract class Animal {
			abstract String sound();
		}
		class Dog extends Animal {
			@Override
			String sound() { return "woof"; }
		}
		static String run() {
			return new Dog().sound();
		}
	"#;
	let program = expand_java(src);
	// The classes declared before `run` are emitted outside the wrapper class.
	let wrapper = format!("public class {} {{", program.class_name);
	let outer_at = program.java_class.find("abstract class Animal").unwrap();
	assert!(outer_at < program.java_class.find(&wrapper).unwrap());
	let sound = evaluate(&program, Vec::new(), b"woof").unwrap();
	assert_eq!(sound, string("woof"));
}

#[test]
fn java_runtime_list_of_list_integer() {
	let src = "
		import java.util.Arrays;
		import java.util.List;
		static List<List<Integer>> run() {
			List<Integer> a = Arrays.asList(1, 2, 3);
			List<Integer> b = Arrays.asList(4, 5, 6);
			return Arrays.asList(a, b);
		}
	";
	let program = expand_java(src);
	let stdout = out().int32(2).int32(3).int32(1).int32(2).int32(3).int32(3).int32(4).int32(5).int32(6).bytes();
	let v = evaluate(&program, Vec::new(), &stdout).unwrap();
	assert_eq!(v, list(vec![ints(&[1, 2, 3]), ints(&[4, 5, 6])]));
}

#[test]
fn java_runtime_optional_list_string_present() {
	let src = r#"
		import java.util.Arrays;
		import java.util.List;
		import java.util.Optional;
		static Optional<List<String>> run() {
			return Optional.of(Arrays.asList("hello", "world"));
		}
	"#;
	let program = expand_java(src);
	let stdout = out().tag(true).int32(2).string("hello").string("world").bytes();
	let v = evaluate(&program, Vec::new(), &stdout).unwrap();
	assert_eq!(v, some(strs(&["hello", "world"])));
}

#[test]
fn java_runtime_optional_list_string_absent() {
	let src = "
		import java.util.List;
		import java.util.Optional;
		static Optional<List<String>> run() {
			return Optional.empty();
		}
	";
	let program = expand_java(src);
	let v = evaluate(&program, Vec::new(), &out().tag(false).bytes()).unwrap();
	assert_eq!(v, none());
}

#[test]
fn java_runtime_list_of_optional_integer() {
	let src = "
		import java.util.Arrays;
		import java.util.List;
		import java.util.Optional;
		static List<Optional<Integer>> run() {
			return Arrays.asList(Optional.of(10), Optional.empty(), Optional.of(30));
		}
	";
	let program = expand_java(src);
	let stdout = out().int32(3).tag(true).int32(10).tag(false).tag(true).int32(30).bytes();
	let v = evaluate(&program, Vec::new(), &stdout).unwrap();
	assert_eq!(v, list(vec![some(JavaValue::Int(10)), none(), some(JavaValue::Int(30))]));
}

#[test]
fn java_runtime_optional_optional_boolean_present() {
	let src = "
		import java.util.Optional;
		static Optional<Optional<Boolean>> run() {
			return Optional.of(Optional.of(true));
		}
	";
	let program = expand_java(src);
	let stdout = out().tag(true).tag(true).boolean(true).bytes();
	let v = evaluate(&program, Vec::new(), &stdout).unwrap();
	assert_eq!(v, some(some(JavaValue::Boolean(true))));
}

#[test]
fn java_runtime_optional_optional_boolean_outer_absent() {
	let src = "
		import java.util.Optional;
		static Optional<Optional<Boolean>> run() {
			return Optional.empty();
		}
	";
	let program = expand_java(src);
	let v = evaluate(&program, Vec::new(), &out().tag(false).bytes()).unwrap();
	assert_eq!(v, none());
}

#[test]
fn java_runtime_list_of_list_string() {
	let src = r#"
		import java.util.Arrays;
		import java.util.List;
		static List<List<String>> run() {
			List<String> a = Arrays.asList("foo", "bar");
			List<String> b = Arrays.asList("baz");
			return Arrays.asList(a, b);
		}
	"#;
	let program = expand_java(src);
	let stdout = out().int32(2).int32(2).string("foo").string("bar").int32(1).string("baz").bytes();
	let v = evaluate(&program, Vec::new(), &stdout).unwrap();
	assert_eq!(v, list(vec![strs(&["foo", "bar"]), strs(&["baz"])]));
}

#[test]
fn ct_java_int_array() {
	let program = expand_ct_java("static int[] run() { return new int[]{100, 200, 300}; }");
	let stdout = out().int32(3).int32(100).int32(200).int32(300).bytes();
	assert_eq!(ct_literal(&program, &stdout), "[100, 200, 300]");
}

#[test]
fn ct_java_string_array() {
	let program = expand_ct_java(r#"static String[] run() { return new String[]{"compile", "time"}; }"#);
	let stdout = out().int32(2).string("compile").string("time").bytes();
	assert_eq!(ct_literal(&program, &stdout), "[\"compile\", \"time\"]");
}

#[test]
fn ct_java_nested_list() {
	let src = "
		import java.util.Arrays;
		import java.util.List;
		static List<List<Integer>> run() {
			List<Integer> a = Arrays.asList(10, 20);
			List<Integer> b = Arrays.asList(30, 40);
			return Arrays.asList(a, b);
		}
	";
	let program = expand_ct_java(src);
	let stdout = out().int32(2).int32(2).int32(10).int32(20).int32(2).int32(30).int32(40).bytes();
	assert_eq!(ct_literal(&program, &stdout), "[[10, 20], [30, 40]]");
}

#[test]
fn ct_java_optional_list() {
	let src = "
		import java.util.Arrays;
		import java.util.List;
		import java.util.Optional;
		static Optional<List<Integer>> run() {
			return Optional.of(Arrays.asList(7, 8, 9));
		}
	";
	let program = expand_ct_java(src);
	let stdout = out().tag(true).int32(3).int32(7).int32(8).int32(9).bytes();
	assert_eq!(ct_literal(&program, &stdout), "::std::option::Option::Some([7, 8, 9])");
}

#[test]
fn java_runtime_null_string() {
	let program = expand_java("static String run() { return null; }");
	// `run().getBytes(..)` throws, and the JVM exits with a failure.
	let stderr = b"Exception in thread \"main\" java.lang.NullPointerException\n";
	let (result, _, _) = run_program(&program, Vec::new(), false, b"", stderr);
	assert!(result.is_err(), "expected Err for null String return, got {result:?}");
	assert!(matches!(result, Err(JavaError::RuntimeFailed(_))));
}

#[test]
fn java_runtime_null_string_array() {
	let program = expand_java("static String[] run() { return null; }");
	// `_arr.length` throws, and the JVM exits with a failure.
	let stderr = b"Exception in thread \"main\" java.lang.NullPointerException\n";
	let (result, _, _) = run_program(&program, Vec::new(), false, b"", stderr);
	assert!(result.is_err(), "expected Err for null String[] return, got {result:?}");
}

// ── Nested generics ──────────────────────────────────────────────────────────

#[test]
fn java_runtime_list_of_optional_string_array() {
	let src = r#"
		import java.util.Arrays;
		import java.util.List;
		import java.util.Optional;
		static List<Optional<String[]>> run() {
			return Arrays.asList(
				Optional.of(new String[]{"a", "b"}),
				Optional.empty(),
				Optional.of(new String[]{"c"})
			);
		}
	"#;
	let program = expand_java(src);
	let stdout = out()
		.int32(3)
		.tag(true)
		.int32(2)
		.string("a")
		.string("b")
		.tag(false)
		.tag(true)
		.int32(1)
		.string("c")
		.bytes();
	let v = evaluate(&program, Vec::new(), &stdout).unwrap();
	assert_eq!(v, list(vec![some(strs(&["a", "b"])), none(), some(strs(&["c"]))]));
}

#[test]
fn java_runtime_optional_list_integer_present() {
	let src = "
		import java.util.Arrays;
		import java.util.List;
		import java.util.Optional;
		static Optional<List<Integer>> run() {
			return Optional.of(Arrays.asList(1, 2, 3));
		}
	";
	let program = expand_java(src);
	let stdout = out().tag(true).int32(3).int32(1).int32(2).int32(3).bytes();
	let v = evaluate(&program, Vec::new(), &stdout).unwrap();
	assert_eq!(v, some(ints(&[1, 2, 3])));
}

#[test]
fn java_runtime_optional_list_integer_absent() {
	let src = "
		import java.util.List;
		import java.util.Optional;
		static Optional<List<Integer>> run() {
			return Optional.empty();
		}
	";
	let program = expand_java(src);
	let v = evaluate(&program, Vec::new(), &out().tag(false).bytes()).unwrap();
	assert_eq!(v, none());
}

#[test]
fn java_runtime_optional_list_of_optional_integer_present() {
	let src = "
		import java.util.Arrays;
		import java.util.List;
		import java.util.Optional;
		static Optional<List<Optional<Integer>>> run() {
			return Optional.of(Arrays.asList(
				Optional.of(1),
				Optional.empty(),
				Optional.of(3)
			));
		}
	";
	let program = expand_java(src);
	let stdout = out().tag(true).int32(3).tag(true).int32(1).tag(false).tag(true).int32(3).bytes();
	let v = evaluate(&program, Vec::new(), &stdout).unwrap();
	assert_eq!(v, some(list(vec![some(JavaValue::Int(1)), none(), some(JavaValue::Int(3))])));
}

#[test]
fn java_runtime_optional_list_of_optional_integer_absent() {
	let src = "
		import java.util.List;
		import java.util.Optional;
		static Optional<List<Optional<Integer>>> run() {
			return Optional.empty();
		}
	";
	let program = expand_java(src);
	let v = evaluate(&program, Vec::new(), &out().tag(false).bytes()).unwrap();
	assert_eq!(v, none());
}

#[test]
fn java_runtime_optional_list_of_optional_integer_array_present() {
	let src = "
		import java.util.Arrays;
		import java.util.List;
		import java.util.Optional;
		static Optional<List<Optional<Integer[]>>> run() {
			return Optional.of(Arrays.asList(
				Optional.of(new Integer[]{1, 2}),
				Optional.empty(),
				Optional.of(new Integer[]{3, 4, 5})
			));
		}
	";
	let program = expand_java(src);
	let stdout = out()
		.tag(true)
		.int32(3)
		.tag(true)
		.int32(2)
		.int32(1)
		.int32(2)
		.tag(false)
		.tag(true)
		.int32(3)
		.int32(3)
		.int32(4)
		.int32(5)
		.bytes();
	let v = evaluate(&program, Vec::new(), &stdout).unwrap();
	assert_eq!(v, some(list(vec![some(ints(&[1, 2])), none(), some(ints(&[3, 4, 5]))])));
}

#[test]
fn java_runtime_optional_list_of_optional_integer_array_absent() {
	let src = "
		import java.util.List;
		import java.util.Optional;
		static Optional<List<Optional<Integer[]>>> run() {
			return Optional.empty();
		}
	";
	let program = expand_java(src);
	let v = evaluate(&program, Vec::new(), &out().tag(false).bytes()).unwrap();
	assert_eq!(v, none());
}

#[test]
fn java_runtime_optional_list_of_optional_string_2d_array_present() {
	let src = r#"
		import java.util.Arrays;
		import java.util.List;
		import java.util.Optional;
		static Optional<List<Optional<String[][]>>> run() {
			return Optional.of(Arrays.asList(
				Optional.of(new String[][]{{"a", "b"}, {"c"}}),
				Optional.empty()
			));
		}
	"#;
	let program = expand_java(src);
	let stdout = out()
		.tag(true)
		.int32(2)
		.tag(true)
		.int32(2)
		.int32(2)
		.string("a")
		.string("b")
		.int32(1)
		.string("c")
		.tag(false)
		.bytes();
	let v = evaluate(&program, Vec::new(), &stdout).unwrap();
	assert_eq!(v, some(list(vec![some(list(vec![strs(&["a", "b"]), strs(&["c"])])), none()])));
}

#[test]
fn java_runtime_optional_list_of_optional_string_2d_array_absent() {
	let src = "
		import java.util.List;
		import java.util.Optional;
		static Optional<List<Optional<String[][]>>> run() {
			return Optional.empty();
		}
	";
	let program = expand_java(src);
	let v = evaluate(&program, Vec::new(), &out().tag(false).bytes()).unwrap();
	assert_eq!(v, none());
}

// ── Arguments (java_fn!): each `run` echoes its argument ─────────────────────

#[test]
fn java_fn_arg_list_of_optional_string_array() {
	let src = "
		import java.util.List;
		import java.util.Optional;
		static List<Optional<String[]>> run(List<Optional<String[]>> v) {
			return v;
		}
	";
	let program = expand_java_fn(src);
	let input = list(vec![some(strs(&["a", "b"])), none(), some(strs(&["c"]))]);
	let stdin = call_stdin(&program, vec![input]);
	let expected = out()
		.int32(3)
		.tag(true)
		.int32(2)
		.string("a")
		.string("b")
		.tag(false)
		.tag(true)
		.int32(1)
		.string("c")
		.bytes();
	assert_eq!(stdin, expected);
	let v = evaluate(&program, stdin.clone(), &stdin).unwrap();
	assert_eq!(v, list(vec![some(strs(&["a", "b"])), none(), some(strs(&["c"]))]));
}

#[test]
fn java_fn_arg_optional_list_integer_present() {
	let src = "
		import java.util.List;
		import java.util.Optional;
		static Optional<List<Integer>> run(Optional<List<Integer>> v) {
			return v;
		}
	";
	let program = expand_java_fn(src);
	let stdin = call_stdin(&program, vec![some(ints(&[1, 2, 3]))]);
	assert_eq!(stdin, out().tag(true).int32(3).int32(1).int32(2).int32(3).bytes());
	let v = evaluate(&program, stdin.clone(), &stdin).unwrap();
	assert_eq!(v, some(ints(&[1, 2, 3])));
}

#[test]
fn java_fn_arg_optional_list_integer_absent() {
	let src = "
		import java.util.List;
		import java.util.Optional;
		static Optional<List<Integer>> run(Optional<List<Integer>> v) {
			return v;
		}
	";
	let program = expand_java_fn(src);
	let stdin = call_stdin(&program, vec![none()]);
	assert_eq!(stdin, vec![0u8]);
	let v = evaluate(&program, stdin.clone(), &stdin).unwrap();
	assert_eq!(v, none());
}

#[test]
fn java_fn_arg_optional_list_of_optional_integer_present() {
	let src = "
		import java.util.List;
		import java.util.Optional;
		static Optional<List<Optional<Integer>>> run(Optional<List<Optional<Integer>>> v) {
			return v;
		}
	";
	let program = expand_java_fn(src);
	let input = some(list(vec![some(JavaValue::Int(1)), none(), some(JavaValue::Int(3))]));
	let stdin = call_stdin(&program, vec![input]);
	assert_eq!(stdin, out().tag(true).int32(3).tag(true).int32(1).tag(false).tag(true).int32(3).bytes());
	let v = evaluate(&program, stdin.clone(), &stdin).unwrap();
	assert_eq!(v, some(list(vec![some(JavaValue::Int(1)), none(), some(JavaValue::Int(3))])));
}

#[test]
fn java_fn_arg_optional_list_of_optional_integer_absent() {
	let src = "
		import java.util.List;
		import java.util.Optional;
		static Optional<List<Optional<Integer>>> run(Optional<List<Optional<Integer>>> v) {
			return v;
		}
	";
	let program = expand_java_fn(src);
	let stdin = call_stdin(&program, vec![none()]);
	let v = evaluate(&program, stdin.clone(), &stdin).unwrap();
	assert_eq!(v, none());
}

#[test]
fn java_fn_arg_optional_list_of_optional_integer_array_present() {
	let src = "
		import java.util.List;
		import java.util.Optional;
		static Optional<List<Optional<Integer[]>>> run(Optional<List<Optional<Integer[]>>> v) {
			return v;
		}
	";
	let program = expand_java_fn(src);
	let input = some(list(vec![some(ints(&[1, 2])), none(), some(ints(&[3, 4, 5]))]));
	let stdin = call_stdin(&program, vec![input]);
	let v = evaluate(&program, stdin.clone(), &stdin).unwrap();
	assert_eq!(v, some(list(vec![some(ints(&[1, 2])), none(), some(ints(&[3, 4, 5]))])));
}

#[test]
fn java_fn_arg_optional_list_of_optional_integer_array_absent() {
	let src = "
		import java.util.List;
		import java.util.Optional;
		static Optional<List<Optional<Integer[]>>> run(Optional<List<Optional<Integer[]>>> v) {
			return v;
		}
	";
	let program = expand_java_fn(src);
	let stdin = call_stdin(&program, vec![none()]);
	let v = evaluate(&program, stdin.clone(), &stdin).unwrap();
	assert_eq!(v, none());
}

#[test]
fn java_fn_arg_optional_list_of_optional_string_2d_array_present() {
	let src = "
		import java.util.List;
		import java.util.Optional;
		static Optional<List<Optional<String[][]>>> run(Optional<List<Optional<String[][]>>> v) {
			return v;
		}
	";
	let program = expand_java_fn(src);
	let row = list(vec![strs(&["a", "b"]), strs(&["c"])]);
	let input = some(list(vec![some(row), none()]));
	let stdin = call_stdin(&program, vec![input]);
	let v = evaluate(&program, stdin.clone(), &stdin).unwrap();
	assert_eq!(v, some(list(vec![some(list(vec![strs(&["a", "b"]), strs(&["c"])])), none()])));
}

#[test]
fn java_fn_arg_optional_list_of_optional_string_2d_array_absent() {
	let src = "
		import java.util.List;
		import java.util.Optional;
		static Optional<List<Optional<String[][]>>> run(Optional<List<Optional<String[][]>>> v) {
			return v;
		}
	";
	let program = expand_java_fn(src);
	let stdin = call_stdin(&program, vec![none()]);
	let v = evaluate(&program, stdin.clone(), &stdin).unwrap();
	assert_eq!(v, none());
}
