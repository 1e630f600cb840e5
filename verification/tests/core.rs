// The runtime side: option strings, class paths, the cache directory, the
// Java version probe, the run steps, errors; and the pieces of generated
// Java code.

use std::hash::{Hash, Hasher};

use inline_java::args::split_args;
use inline_java::codegen::{format_java_class, java_ser_element};
use inline_java::error::JavaError;
use inline_java::literal::{scalar_enc_ct_lit, CtStep};
use inline_java::parse::JavaOpts;
use inline_java::program::{compile_run_java_now, make_class_name, parse_package_name, qualify_class_name};
use inline_java::runner::{
	cache_dir_name, cache_root, detect_java_version, expand_java_args, inject_classpath, JavaRun, RunAction, RunEvent,
};
use inline_java::types::{BoxedType, JavaType, PrimitiveType, ScalarEnc};

fn env() -> Vec<(String, String)> {
	vec![("HOME".to_string(), "/home/user".to_string()), ("JDK".to_string(), "/opt/jdk".to_string())]
}

fn cwd() -> Option<String> {
	Some("/work".to_string())
}

fn strings(xs: &[&str]) -> Vec<String> {
	xs.iter().map(|x| x.to_string()).collect()
}

// ── The cache directory ──────────────────────────────────────────────────────

#[test]
fn cache_dir_idempotent() {
	let a = cache_dir_name("MyClass", "class body", "-cp /usr/lib", "-verbose", &env(), &cwd(), "17");
	let b = cache_dir_name("MyClass", "class body", "-cp /usr/lib", "-verbose", &env(), &cwd(), "17");
	assert_eq!(a, b, "cache_dir must return the same path for identical args");
}

#[test]
fn cache_dir_hashes_the_working_directory_as_a_path() {
	let mut h = std::collections::hash_map::DefaultHasher::new();
	"class body".hash(&mut h);
	strings(&["-cp", "/opt/jdk/lib"]).hash(&mut h);
	Some(std::path::PathBuf::from("/work")).hash(&mut h);
	"-verbose".hash(&mut h);
	"17".to_string().hash(&mut h);
	let expected = format!("MyClass_{:016x}", h.finish());
	let name = cache_dir_name("MyClass", "class body", "-cp $JDK/lib", "-verbose", &env(), &cwd(), "17");
	assert_eq!(name, expected);
}

#[test]
fn cache_dir_differs_for_different_javac_raw() {
	let a = cache_dir_name("MyClass", "class body", "-cp /usr/lib/foo", "", &env(), &cwd(), "17");
	let b = cache_dir_name("MyClass", "class body", "-cp /usr/lib/bar", "", &env(), &cwd(), "17");
	assert_ne!(a, b, "cache_dir must differ when javac_raw expands to different args");
}

#[test]
fn cache_dir_differs_for_different_java_class() {
	let a = cache_dir_name("MyClass", "class body A", "", "", &env(), &cwd(), "17");
	let b = cache_dir_name("MyClass", "class body B", "", "", &env(), &cwd(), "17");
	assert_ne!(a, b, "cache_dir must differ when java_class differs");
}

#[test]
fn cache_dir_differs_for_different_java_raw() {
	let a = cache_dir_name("MyClass", "class body", "", "-Xmx256m", &env(), &cwd(), "17");
	let b = cache_dir_name("MyClass", "class body", "", "-Xmx512m", &env(), &cwd(), "17");
	assert_ne!(a, b, "cache_dir must differ when java_raw differs");
}

#[test]
fn cache_dir_path_structure() {
	let file_name = cache_dir_name("InlineJava_abc123", "src", "", "", &env(), &cwd(), "17");
	assert!(
		file_name.starts_with("InlineJava_abc123_"),
		"cache_dir result filename must start with the class name; got: {file_name}"
	);
	let hex = &file_name["InlineJava_abc123_".len()..];
	assert_eq!(hex.len(), 16);
	assert!(hex.chars().all(|c| c.is_ascii_hexdigit()));
}

#[test]
fn cache_dir_depends_on_working_directory_and_version() {
	let a = cache_dir_name("C", "src", "-cp .", "", &env(), &cwd(), "17");
	let b = cache_dir_name("C", "src", "-cp .", "", &env(), &Some("/elsewhere".to_string()), "17");
	let c = cache_dir_name("C", "src", "-cp .", "", &env(), &cwd(), "21");
	assert_ne!(a, b);
	assert_ne!(a, c);
}

#[test]
fn cache_dir_hashes_expanded_javac_args() {
	// The same arguments written two ways give the same directory.
	let a = cache_dir_name("C", "src", "-cp $JDK/lib", "", &env(), &cwd(), "17");
	let b = cache_dir_name("C", "src", "-cp  /opt/jdk/lib", "", &env(), &cwd(), "17");
	assert_eq!(a, b);
}

// ── The Java version ─────────────────────────────────────────────────────────

#[test]
fn detect_java_version_returns_major() {
	let version = detect_java_version(b"javac 17.0.8\n", b"").expect("javac must be on PATH");
	assert!(version.parse::<u32>().is_ok(), "version string must be a plain integer (major); got: {version:?}");
	assert_eq!(version, "17");
}

#[test]
fn detect_java_version_reads_stderr_when_stdout_is_blank() {
	assert_eq!(detect_java_version(b"  \n", b"javac 1.8.0_292\n"), Ok("8".to_string()));
	assert_eq!(detect_java_version(b"", b"21\n"), Ok("21".to_string()));
	assert_eq!(detect_java_version(b"javac 021.1", b""), Ok("21".to_string()));
}

#[test]
fn detect_java_version_rejects_garbage() {
	let e = detect_java_version(b"", b"openjdk version x\n").unwrap_err();
	assert_eq!(
		e,
		JavaError::Io("could not parse major version from `javac -version` output: \"openjdk version x\\n\"".to_string())
	);
	assert!(detect_java_version(b"javac 99999999999.1", b"").is_err());
	assert!(detect_java_version(b"javac -17.0", b"").is_err());
}

#[test]
fn detect_java_version_reads_the_legacy_scheme() {
	assert_eq!(detect_java_version(b"javac 1.7.0_80\n", b""), Ok("7".to_string()));
	assert_eq!(detect_java_version(b"javac 1", b""), Ok("1".to_string()));
	assert_eq!(detect_java_version(b"javac 1.x", b""), Ok("1".to_string()));
	assert_eq!(detect_java_version(b"javac 11.0.2", b""), Ok("11".to_string()));
}

// ── Option strings ───────────────────────────────────────────────────────────

#[test]
fn expand_java_args_doc_example() {
	let args = expand_java_args("-verbose:class -Xmx512m", &env());
	assert_eq!(args, vec!["-verbose:class", "-Xmx512m"]);
	let empty = expand_java_args("", &env());
	assert!(empty.is_empty());
}

#[test]
fn expand_java_args_expands_variables_and_home() {
	assert_eq!(expand_java_args("-cp $JDK/lib:~/x", &env()), vec!["-cp", "/opt/jdk/lib:~/x"]);
	assert_eq!(expand_java_args("~/lib -cp $JDK", &env()), vec!["/home/user/lib", "-cp", "/opt/jdk"]);
	assert_eq!(expand_java_args("-cp ${JDK}", &env()), vec!["-cp", "/opt/jdk"]);
}

#[test]
fn split_args_respects_quotes() {
	assert_eq!(split_args("-Da='x y' \"b c\"\td"), vec!["-Da=x y", "b c", "d"]);
	assert_eq!(split_args("'it\"s' \"it's\""), vec!["it\"s", "it's"]);
	assert!(split_args("   ").is_empty());
	assert_eq!(split_args("''"), Vec::<String>::new());
}

#[test]
fn split_args_gives_back_plain_words() {
	let words = ["-cp", "/usr/lib", "-Xmx512m"];
	assert_eq!(split_args(&words.join(" ")), strings(&words));
}

// ── Class path ───────────────────────────────────────────────────────────────

#[test]
fn inject_classpath_appends_a_flag_when_there_is_none() {
	let mut args = strings(&["-Da=b"]);
	inject_classpath(&mut args, "/cache/X", ':');
	assert_eq!(args, strings(&["-Da=b", "-cp", "/cache/X"]));
}

#[test]
fn inject_classpath_extends_an_existing_value() {
	let mut args = strings(&["-classpath", "a.jar", "-cp", "b.jar"]);
	inject_classpath(&mut args, "/cache/X", ':');
	assert_eq!(args, strings(&["-classpath", "a.jar:/cache/X", "-cp", "b.jar"]));

	let mut args = strings(&["--class-path=a.jar"]);
	inject_classpath(&mut args, "/cache/X", ';');
	assert_eq!(args, strings(&["--class-path=a.jar;/cache/X"]));

	let mut args = strings(&["-x", "--class-path", "a.jar"]);
	inject_classpath(&mut args, "/cache/X", ':');
	assert_eq!(args, strings(&["-x", "--class-path", "a.jar:/cache/X"]));
}

#[test]
fn inject_classpath_ignores_a_flag_without_value() {
	let mut args = strings(&["-cp"]);
	inject_classpath(&mut args, "/cache/X", ':');
	assert_eq!(args, strings(&["-cp", "-cp", "/cache/X"]));
}

// ── The run steps ────────────────────────────────────────────────────────────

fn new_run() -> JavaRun {
	JavaRun::new("-g", "-Xmx64m", &env(), "/cache/C", "/cache/C/C.java", "pkg.C", ':', vec![1, 2])
}

#[test]
fn run_skips_compiling_when_cached() {
	let mut run = new_run();
	assert_eq!(run.javac_args, strings(&["-g", "-d", "/cache/C", "/cache/C/C.java"]));
	assert_eq!(run.java_args, strings(&["-Xmx64m", "-cp", "/cache/C", "pkg.C"]));
	assert!(matches!(run.step(RunEvent::Begin), RunAction::CheckCompiled));
	match run.step(RunEvent::Compiled(true)) {
		RunAction::Launch { args, stdin } => {
			assert_eq!(args, strings(&["-Xmx64m", "-cp", "/cache/C", "pkg.C"]));
			assert_eq!(stdin, vec![1, 2]);
		}
		_ => panic!("expected a launch"),
	}
	match run.step(RunEvent::ProgramExited { success: true, stdout: vec![7], stderr: vec![] }) {
		RunAction::Finish(r) => assert_eq!(r, Ok(vec![7])),
		_ => panic!("expected the end"),
	}
}

#[test]
fn run_skips_compiling_when_compiled_meanwhile() {
	let mut run = new_run();
	run.step(RunEvent::Begin);
	assert!(matches!(run.step(RunEvent::Compiled(false)), RunAction::Lock));
	assert!(matches!(run.step(RunEvent::Locked), RunAction::CheckCompiled));
	assert!(matches!(run.step(RunEvent::Compiled(true)), RunAction::Launch { .. }));
}

#[test]
fn run_reports_compiler_errors() {
	let mut run = new_run();
	run.step(RunEvent::Begin);
	run.step(RunEvent::Compiled(false));
	run.step(RunEvent::Locked);
	assert!(matches!(run.step(RunEvent::Compiled(false)), RunAction::Compile { .. }));
	match run.step(RunEvent::CompilerExited { success: false, stderr: b"C.java:1: error".to_vec() }) {
		RunAction::Finish(r) => assert_eq!(r, Err(JavaError::CompilationFailed("C.java:1: error".to_string()))),
		_ => panic!("expected the end"),
	}
}

#[test]
fn run_reports_runtime_and_io_errors() {
	let mut run = new_run();
	run.step(RunEvent::Begin);
	run.step(RunEvent::Compiled(true));
	match run.step(RunEvent::ProgramExited { success: false, stdout: vec![], stderr: b"boom".to_vec() }) {
		RunAction::Finish(r) => assert_eq!(r, Err(JavaError::RuntimeFailed("boom".to_string()))),
		_ => panic!("expected the end"),
	}
	let mut run = new_run();
	run.step(RunEvent::Begin);
	match run.step(RunEvent::IoFailed("disk full".to_string())) {
		RunAction::Finish(r) => assert_eq!(r, Err(JavaError::Io("disk full".to_string()))),
		_ => panic!("expected the end"),
	}
}

#[test]
fn run_decodes_stderr_lossily() {
	let mut run = new_run();
	run.step(RunEvent::Begin);
	run.step(RunEvent::Compiled(true));
	match run.step(RunEvent::ProgramExited { success: false, stdout: vec![], stderr: vec![b'a', 0xff] }) {
		RunAction::Finish(r) => assert_eq!(r, Err(JavaError::RuntimeFailed("a\u{fffd}".to_string()))),
		_ => panic!("expected the end"),
	}
}

// ── Errors ───────────────────────────────────────────────────────────────────

#[test]
fn error_messages() {
	assert_eq!(JavaError::Io("x".into()).message(), "inline_java: I/O error: x");
	assert_eq!(
		JavaError::CompilationFailed("x".into()).message(),
		"inline_java: javac compilation failed:\nx"
	);
	assert_eq!(JavaError::RuntimeFailed("x".into()).message(), "inline_java: java runtime failed:\nx");
	assert_eq!(JavaError::InvalidChar.message(), "inline_java: Java char is not a valid Unicode scalar value");
	let bad = String::from_utf8(vec![0xff]).unwrap_err();
	let m = JavaError::InvalidUtf8(bad).message();
	assert!(m.starts_with("inline_java: Java String output is not valid UTF-8: "));
	assert!(m.len() > "inline_java: Java String output is not valid UTF-8: ".len());
}

#[test]
fn compile_run_java_now_maps_errors_to_messages() {
	assert_eq!(compile_run_java_now(Ok(vec![1])), Ok(vec![1]));
	assert_eq!(
		compile_run_java_now(Err(JavaError::CompilationFailed("bad".into()))),
		Err("inline_java: javac compilation failed:\nbad".to_string())
	);
}

// ── Class names and packages ─────────────────────────────────────────────────

#[test]
fn class_names_are_prefixed_hashes() {
	let opts = JavaOpts { javac_args: None, java_args: None };
	let a = make_class_name("InlineJava", "", "", "static int run() { return 1; }", &opts);
	let b = make_class_name("InlineJava", "", "", "static int run() { return 2; }", &opts);
	let c = make_class_name("InlineJava", "", "", "static int run() { return 1; }", &opts);
	assert!(a.starts_with("InlineJava_"));
	assert_eq!(a.len(), "InlineJava_".len() + 16);
	assert_ne!(a, b);
	assert_eq!(a, c);
	let with_opt = JavaOpts { javac_args: Some(String::new()), java_args: None };
	assert_ne!(a, make_class_name("InlineJava", "", "", "static int run() { return 1; }", &with_opt));
}

#[test]
fn package_names() {
	assert_eq!(parse_package_name("package com.example.demo;"), Some("com.example.demo".to_string()));
	assert_eq!(parse_package_name("package com . example . demo ; import x . y ;"), Some("com.example.demo".to_string()));
	assert_eq!(parse_package_name("import a.b; package p.q;"), Some("p.q".to_string()));
	assert_eq!(parse_package_name("import a.b;"), None);
	assert_eq!(parse_package_name("xpackage a;"), None);
	assert_eq!(parse_package_name("package  ;"), None);
	assert_eq!(parse_package_name("package a"), None);
	assert_eq!(qualify_class_name("C", "package p ;"), "p.C");
	assert_eq!(qualify_class_name("C", "import x ;"), "C");
}

// ── Generated Java ───────────────────────────────────────────────────────────

#[test]
fn scalar_and_type_names() {
	assert_eq!(PrimitiveType::from_name("int"), Some(PrimitiveType::Int));
	assert_eq!(PrimitiveType::from_name("Integer"), None);
	assert_eq!(BoxedType::from_name("int"), Some(BoxedType::Integer));
	assert_eq!(BoxedType::from_name("Character"), Some(BoxedType::Character));
	assert_eq!(ScalarEnc::Str.dos_write_method(), None);
	assert_eq!(PrimitiveType::Double.dos_write_method(), "writeDouble");
	assert_eq!(BoxedType::Integer.java_name(), "Integer");
	let t = JavaType::List(Box::new(JavaType::Array(Box::new(JavaType::Boxed(BoxedType::Integer)))));
	assert_eq!(t.java_type_name(), "java.util.List<Integer[]>");
	assert_eq!(t.rust_return_type_name(), "::std::vec::Vec<::std::vec::Vec<i32>>");
	let s = JavaType::Optional(Box::new(JavaType::Boxed(BoxedType::String)));
	assert_eq!(s.rust_param_type_name(), "::std::option::Option<&str>");
	let l = JavaType::List(Box::new(JavaType::Boxed(BoxedType::Integer)));
	assert_eq!(l.rust_param_type_name(), "&[i32]");
	let a = JavaType::Array(Box::new(JavaType::Boxed(BoxedType::String)));
	assert_eq!(a.rust_param_type_name(), "&[&str]");
	assert_eq!(t.rust_param_type_name(), "&[&[i32]]");
}

#[test]
fn reading_parameters() {
	assert_eq!(PrimitiveType::Long.java_dis_read("n"), "long n = _dis.readLong();");
	assert_eq!(BoxedType::Character.java_dis_read("c"), "char c = _dis.readChar();");
	assert_eq!(
		BoxedType::String.java_dis_read("s"),
		"int _len_s = _dis.readInt();\n\t\tbyte[] _b_s = new byte[_len_s];\n\t\t_dis.readFully(_b_s);\n\t\tString s = new String(_b_s, java.nio.charset.StandardCharsets.UTF_8);"
	);
	let t = JavaType::Array(Box::new(JavaType::Primitive(PrimitiveType::Int)));
	assert_eq!(
		t.java_dis_read("xs", 0),
		"int _count_xs_0 = _dis.readInt();\n\t\tint[] xs = new int[_count_xs_0];\n\t\tfor (int _i_xs_0 = 0; _i_xs_0 < _count_xs_0; _i_xs_0++) {\n\t\t\tint _elem_xs_0 = _dis.readInt();\n\t\t\txs[_i_xs_0] = _elem_xs_0;\n\t\t}"
	);
	let o = JavaType::Optional(Box::new(JavaType::Boxed(BoxedType::Integer)));
	assert_eq!(
		o.java_dis_read("v", 0),
		"int _tag_v_0 = _dis.readUnsignedByte();\n\t\tjava.util.Optional<Integer> v;\n\t\tif (_tag_v_0 != 0) {\n\t\t\tint _inner_v_0 = _dis.readInt();\n\t\t\tv = java.util.Optional.of(_inner_v_0);\n\t\t} else {\n\t\t\tv = java.util.Optional.empty();\n\t\t}"
	);
}

#[test]
fn new_outer_arrays() {
	let s2 = JavaType::Array(Box::new(JavaType::Array(Box::new(JavaType::Boxed(BoxedType::String)))));
	assert_eq!(s2.java_new_outer_array("n"), "new String[n][][]");
	assert_eq!(JavaType::Boxed(BoxedType::String).java_new_outer_array("n"), "new String[n]");
	let l = JavaType::List(Box::new(JavaType::Boxed(BoxedType::Integer)));
	assert_eq!(l.java_new_outer_array("n"), "new java.util.List<Integer>[n]");
}

#[test]
fn writing_results() {
	let t = JavaType::Optional(Box::new(JavaType::Boxed(BoxedType::String)));
	assert_eq!(
		java_ser_element(&t, "x", "_dos", 1),
		"if ((x).isPresent()) {\n\t\t\t\t_dos.writeByte(1);\n\t\t\t\tString _opt_inner1 = (x).get();\n\t\t\t\t{ byte[] _b2 = (_opt_inner1).getBytes(java.nio.charset.StandardCharsets.UTF_8);\n\t\t\t_dos.writeInt(_b2.length);\n\t\t\t_dos.write(_b2, 0, _b2.length); }\n\t\t\t} else {\n\t\t\t\t_dos.writeByte(0);\n\t\t\t}"
	);
	let int_type = JavaType::Primitive(PrimitiveType::Int);
	assert_eq!(int_type.java_main(&[]), "\tpublic static void main(String[] args) throws Exception {\n\t\tjava.io.DataOutputStream _dos = new java.io.DataOutputStream(System.out);\n\t\t_dos.writeInt(run());\n\t\t_dos.flush();\n\t}");
	let params = vec![(int_type.clone(), "a".to_string()), (JavaType::Primitive(PrimitiveType::Boolean), "b".to_string())];
	let m = JavaType::Boxed(BoxedType::String).java_main(&params);
	assert_eq!(m, "\tpublic static void main(String[] args) throws Exception {\n\t\tjava.io.DataInputStream _dis = new java.io.DataInputStream(System.in);\n\t\tint a = _dis.readInt();\n\t\tboolean b = _dis.readBoolean();\n\t\tbyte[] _b = run(a, b).getBytes(java.nio.charset.StandardCharsets.UTF_8);\n\t\tSystem.out.write(_b);\n\t\tSystem.out.flush();\n\t}");
}

#[test]
fn whole_class() {
	assert_eq!(
		format_java_class("import a ;", "class B {}", "C", "static int run() {}", "MAIN"),
		"import a ;\nclass B {}\npublic class C {\n\nstatic int run() {}\n\nMAIN\n}\n"
	);
}

// ── Cache root ───────────────────────────────────────────────────────────────

#[test]
fn base_cache_dir_respects_env_var() {
	let base = cache_root(
		Some("/custom/cache".to_string()),
		Some("/home/user/.cache".to_string()),
		"/tmp".to_string(),
		'/',
	);
	assert_eq!(std::path::PathBuf::from(base), std::path::PathBuf::from("/custom/cache"));
}

#[test]
fn cache_root_falls_back_in_order() {
	let platform = Some("/home/user/.cache".to_string());
	assert_eq!(cache_root(Some(String::new()), platform.clone(), "/tmp".to_string(), '/'), "/home/user/.cache/inline_java");
	assert_eq!(cache_root(None, platform, "/tmp".to_string(), '/'), "/home/user/.cache/inline_java");
	assert_eq!(cache_root(None, None, "/tmp".to_string(), '/'), "/tmp/inline_java");
	assert_eq!(cache_root(None, None, "C:\\Temp".to_string(), '\\'), "C:\\Temp\\inline_java");
}

// ── Laws on concrete values ──────────────────────────────────────────────────

#[test]
fn quote_free_text_splits_at_runs_of_blanks() {
	let s = "  -cp  \t/a:/b\t\t-Xlint   -g ";
	let expected: Vec<String> =
		s.split(|c: char| c == ' ' || c == '\t').filter(|w| !w.is_empty()).map(String::from).collect();
	assert_eq!(split_args(s), expected);
	assert_eq!(split_args(s), vec!["-cp", "/a:/b", "-Xlint", "-g"]);
}

#[test]
fn scalar_literal_takes_its_encoding_width() {
	let cases: Vec<(ScalarEnc, Vec<u8>, &str, usize)> = vec![
		(ScalarEnc::Byte, vec![0xff], "-1", 1),
		(ScalarEnc::Short, vec![0x01, 0x00], "256", 2),
		(ScalarEnc::Int, vec![0, 0, 0, 42], "42", 4),
		(ScalarEnc::Long, vec![0, 0, 0, 0, 0, 0, 0, 7], "7", 8),
		(ScalarEnc::Boolean, vec![1], "true", 1),
		(ScalarEnc::Str, vec![0, 0, 0, 2, b'h', b'i'], "\"hi\"", 6),
	];
	for (enc, bytes, lit, width) in cases {
		let mut longer = bytes.clone();
		longer.extend_from_slice(&[9, 9, 9]);
		for b in [&bytes, &longer] {
			match scalar_enc_ct_lit(enc, b, 0) {
				CtStep::Lit(l, q) => {
					assert_eq!(l, lit);
					assert_eq!(q, width);
				}
				_ => panic!("expected a literal"),
			}
		}
	}
}

/// Give `events` to a fresh run, one after the other, and return the kinds of
/// the actions it takes (the `javac` arguments for a compile step).
fn drive(events: Vec<RunEvent>) -> Vec<String> {
	let mut run = new_run();
	events
		.into_iter()
		.map(|e| match run.step(e) {
			RunAction::CheckCompiled => "check".to_string(),
			RunAction::Lock => "lock".to_string(),
			RunAction::Compile { args } => format!("compile {}", args.join(" ")),
			RunAction::MarkCompiled => "mark".to_string(),
			RunAction::Launch { .. } => "launch".to_string(),
			RunAction::Finish(Ok(_)) => "output".to_string(),
			RunAction::Finish(Err(JavaError::CompilationFailed(_))) => "compile error".to_string(),
			RunAction::Finish(Err(_)) => "error".to_string(),
		})
		.collect()
}

#[test]
fn run_protocol_on_concrete_traces() {
	let exited = || RunEvent::ProgramExited { success: true, stdout: vec![7], stderr: vec![] };
	// Cached: no compile, no mark.
	assert_eq!(drive(vec![RunEvent::Begin, RunEvent::Compiled(true), exited()]), vec!["check", "launch", "output"]);
	// Cold: one compile with the javac arguments, then mark, then launch.
	assert_eq!(
		drive(vec![
			RunEvent::Begin,
			RunEvent::Compiled(false),
			RunEvent::Locked,
			RunEvent::Compiled(false),
			RunEvent::CompilerExited { success: true, stderr: vec![] },
			RunEvent::Marked,
			exited(),
		]),
		vec!["check", "lock", "check", "compile -g -d /cache/C /cache/C/C.java", "mark", "launch", "output"]
	);
	// Compiled by someone else while waiting for the lock: no compile.
	assert_eq!(
		drive(vec![RunEvent::Begin, RunEvent::Compiled(false), RunEvent::Locked, RunEvent::Compiled(true), exited()]),
		vec!["check", "lock", "check", "launch", "output"]
	);
	// A failing javac ends the run before any mark.
	assert_eq!(
		drive(vec![
			RunEvent::Begin,
			RunEvent::Compiled(false),
			RunEvent::Locked,
			RunEvent::Compiled(false),
			RunEvent::CompilerExited { success: false, stderr: b"bad".to_vec() },
		]),
		vec!["check", "lock", "check", "compile -g -d /cache/C /cache/C/C.java", "compile error"]
	);
}

#[test]
fn main_reads_then_calls_run() {
	let t = JavaType::Primitive(PrimitiveType::Int);
	let params = vec![
		(JavaType::Primitive(PrimitiveType::Int), "a".to_string()),
		(JavaType::Boxed(BoxedType::String), "b".to_string()),
	];
	let main = t.java_main(&params);
	let header = "\tpublic static void main(String[] args) throws Exception {\n";
	let dis = "\t\tjava.io.DataInputStream _dis = new java.io.DataInputStream(System.in);\n";
	let reads = format!("\t\t{}\n\t\t{}\n", params[0].0.java_dis_read("a", 0), params[1].0.java_dis_read("b", 0));
	assert_eq!(main, format!("{header}{dis}{reads}{}", t.result_statements("a, b")));
	assert!(t.result_statements("a, b").contains("run(a, b)"));
	assert_eq!(t.java_main(&[]), format!("{header}{}", t.result_statements("")));
	assert!(!t.java_main(&[]).contains("DataInputStream"));
}
