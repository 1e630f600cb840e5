// Values on the wire: what Rust writes to stdin, what it reads back from
// stdout, and the literals that compile-time evaluation splices.

use std::str::FromStr;

use inline_java::codec::{check_args, encode_args};
use inline_java::error::JavaError;
use inline_java::parse::parse_java_type;
use inline_java::program::{ct_java, java, java_fn};
use inline_java::runner::detect_java_version;
use inline_java::tokens::{Delimiter, Token, TokenKind};
use inline_java::types::{BoxedType, JavaType, PrimitiveType};
use inline_java::value::JavaValue;

fn convert(ts: proc_macro2::TokenStream) -> Vec<Token> {
	ts.into_iter()
		.map(|tt| {
			let text = tt.to_string();
			let kind = match tt {
				proc_macro2::TokenTree::Group(g) => {
					let d = match g.delimiter() {
						proc_macro2::Delimiter::Parenthesis => Delimiter::Parenthesis,
						proc_macro2::Delimiter::Brace => Delimiter::Brace,
						proc_macro2::Delimiter::Bracket => Delimiter::Bracket,
						proc_macro2::Delimiter::None => Delimiter::Invisible,
					};
					TokenKind::Group(d, convert(g.stream()))
				}
				proc_macro2::TokenTree::Ident(_) => TokenKind::Ident,
				proc_macro2::TokenTree::Punct(p) => TokenKind::Punct(p.as_char()),
				proc_macro2::TokenTree::Literal(_) => TokenKind::Literal,
			};
			Token { kind, text, span: None }
		})
		.collect()
}

fn tokens(src: &str) -> Vec<Token> {
	convert(proc_macro2::TokenStream::from_str(src).unwrap())
}

fn prim(p: PrimitiveType) -> JavaType {
	JavaType::Primitive(p)
}

fn boxed(b: BoxedType) -> JavaType {
	JavaType::Boxed(b)
}

fn list_of(t: JavaType) -> JavaType {
	JavaType::List(Box::new(t))
}

fn optional(t: JavaType) -> JavaType {
	JavaType::Optional(Box::new(t))
}

fn ct(t: &JavaType, bytes: &[u8]) -> Result<String, String> {
	assert!(!t.ct_output_aborts(&bytes.to_vec()));
	t.ct_java_tokens(bytes.to_vec())
}

fn decode(t: &JavaType, bytes: &[u8]) -> Result<JavaValue, JavaError> {
	assert!(t.output_is_complete(&bytes.to_vec()));
	t.rust_deser(bytes.to_vec())
}

// ── Scalars ──────────────────────────────────────────────────────────────────

#[test]
fn scalar_results() {
	assert_eq!(decode(&prim(PrimitiveType::Byte), &[0xff]), Ok(JavaValue::Byte(-1)));
	assert_eq!(decode(&prim(PrimitiveType::Short), &[0x80, 0x00]), Ok(JavaValue::Short(-32768)));
	assert_eq!(decode(&prim(PrimitiveType::Long), &[0, 0, 0, 0, 0, 0, 1, 0]), Ok(JavaValue::Long(256)));
	assert_eq!(decode(&prim(PrimitiveType::Float), &1.5f32.to_bits().to_be_bytes()), Ok(JavaValue::Float(1.5f32.to_bits())));
	assert_eq!(decode(&prim(PrimitiveType::Boolean), &[2]), Ok(JavaValue::Boolean(true)));
	assert_eq!(decode(&boxed(BoxedType::Character), &[0, b'x']), Ok(JavaValue::Char('x')));
	assert_eq!(decode(&boxed(BoxedType::String), "héllo".as_bytes()), Ok(JavaValue::Str("héllo".to_string())));
}

#[test]
fn trailing_bytes_are_ignored() {
	assert_eq!(decode(&prim(PrimitiveType::Int), &[0, 0, 0, 7, 9, 9]), Ok(JavaValue::Int(7)));
}

#[test]
fn invalid_strings_and_chars() {
	assert!(matches!(decode(&boxed(BoxedType::String), &[0xc3]), Err(JavaError::InvalidUtf8(_))));
	assert_eq!(decode(&prim(PrimitiveType::Char), &[0xd8, 0x00]), Err(JavaError::InvalidChar));
	let strings = list_of(boxed(BoxedType::String));
	assert!(matches!(decode(&strings, &[0, 0, 0, 1, 0, 0, 0, 1, 0xff]), Err(JavaError::InvalidUtf8(_))));
}

#[test]
fn truncated_output_is_detected() {
	assert!(!prim(PrimitiveType::Int).output_is_complete(&vec![0, 0, 1]));
	assert!(!list_of(prim(PrimitiveType::Int)).output_is_complete(&vec![0, 0, 0, 2, 0, 0, 0, 1]));
	assert!(!optional(prim(PrimitiveType::Int)).output_is_complete(&vec![]));
	assert!(boxed(BoxedType::String).output_is_complete(&vec![]));
}

// ── Arguments ────────────────────────────────────────────────────────────────

#[test]
fn arguments_are_written_in_order() {
	let src = "static String run(int n, String s, char c, boolean b, double d) { return s; }";
	let program = java_fn(tokens(src), src).unwrap();
	let args = vec![
		JavaValue::Int(-2),
		JavaValue::Str("hé".to_string()),
		JavaValue::Char('A'),
		JavaValue::Boolean(true),
		JavaValue::Double(2.0f64.to_bits()),
	];
	assert!(check_args(&program.params, &args));
	let mut expected = vec![0xff, 0xff, 0xff, 0xfe, 0, 0, 0, 3, b'h', 0xc3, 0xa9, 0, b'A', 1];
	expected.extend_from_slice(&2.0f64.to_bits().to_be_bytes());
	assert_eq!(encode_args(&program.params, &args), expected);
	assert!(program.java_class.contains("\t\tint n = _dis.readInt();\n"));
	assert!(program.java_class.contains("run(n, s, c, b, d)"));
}

#[test]
fn arguments_of_the_wrong_shape_are_refused() {
	let src = "static int run(int n, char c) { return n; }";
	let program = java_fn(tokens(src), src).unwrap();
	assert!(!check_args(&program.params, &vec![JavaValue::Int(1)]));
	assert!(!check_args(&program.params, &vec![JavaValue::Long(1), JavaValue::Char('a')]));
	// A char outside the Basic Multilingual Plane does not fit a Java char.
	assert!(!check_args(&program.params, &vec![JavaValue::Int(1), JavaValue::Char('😀')]));
	assert!(check_args(&program.params, &vec![JavaValue::Int(1), JavaValue::Char('é')]));
}

// ── Compile-time literals ────────────────────────────────────────────────────

#[test]
fn scalar_literals() {
	assert_eq!(ct(&prim(PrimitiveType::Int), &[0xff, 0xff, 0xff, 0xd6]), Ok("-42".to_string()));
	assert_eq!(ct(&prim(PrimitiveType::Float), &1.5f32.to_bits().to_be_bytes()), Ok("f32::from_bits(0x3fc00000_u32)".to_string()));
	assert_eq!(
		ct(&prim(PrimitiveType::Double), &std::f64::consts::PI.to_bits().to_be_bytes()),
		Ok("f64::from_bits(0x400921fb54442d18_u64)".to_string())
	);
	assert_eq!(ct(&prim(PrimitiveType::Boolean), &[0]), Ok("false".to_string()));
	assert_eq!(ct(&prim(PrimitiveType::Char), &[0, b'x']), Ok("'x'".to_string()));
	assert_eq!(ct(&boxed(BoxedType::String), b"say \"hi\"\n"), Ok("\"say \\\"hi\\\"\\n\"".to_string()));
}

#[test]
fn literal_diagnostics() {
	assert_eq!(ct(&prim(PrimitiveType::Char), &[0xdc, 0x00]), Err("ct_java: Java char is not a valid Unicode scalar value".to_string()));
	assert_eq!(ct(&boxed(BoxedType::String), &[0xff]), Err("ct_java: Java String is not valid UTF-8".to_string()));
	assert_eq!(ct(&prim(PrimitiveType::Short), &[1]), Err("ct_java: truncated short element".to_string()));
	assert_eq!(
		ct(&list_of(boxed(BoxedType::String)), &[0, 0, 0, 1, 0, 0, 0, 5, b'a']),
		Err("ct_java: truncated String element (expected 5 bytes)".to_string())
	);
	assert_eq!(ct(&optional(prim(PrimitiveType::Int)), &[]), Err("ct_java: optional output is empty".to_string()));
	assert!(prim(PrimitiveType::Int).ct_output_aborts(&vec![0, 1]));
}

#[test]
fn compile_time_and_runtime_agree() {
	let t = list_of(optional(boxed(BoxedType::Character)));
	let bytes = [0, 0, 0, 2, 1, 0, b'a', 0];
	assert_eq!(
		decode(&t, &bytes),
		Ok(JavaValue::List(vec![JavaValue::Opt(Some(Box::new(JavaValue::Char('a')))), JavaValue::Opt(None)]))
	);
	assert_eq!(ct(&t, &bytes), Ok("[::std::option::Option::Some('a'), ::std::option::Option::None]".to_string()));
}

// ── Packages ─────────────────────────────────────────────────────────────────

#[test]
fn package_style_snippets_join_the_package() {
	let src = r#"
		javac = "-sourcepath .",
		package com.example.demo;
		static String run() {
			return new HelloWorld().greet();
		}
	"#;
	let program = java(tokens(src), src).unwrap();
	assert_eq!(program.full_class_name, format!("com.example.demo.{}", program.class_name));
	assert_eq!(program.filename, format!("{}.java", program.class_name));
	assert!(program.java_class.starts_with("package com . example . demo ;\n"));
}

#[test]
fn parse_errors_are_reported() {
	let src = "static Map<String, Integer> run() { return null; }";
	assert_eq!(
		java(tokens(src), src).err(),
		Some("inline_java: could not find `static <type> run()` in Java body".to_string())
	);
	let src = "static int run(Foo x) { return 1; }";
	assert_eq!(
		java_fn(tokens(src), src).err(),
		Some("inline_java: error parsing type of parameter `x`: inline_java: `Foo` is not a supported Java type; scalar types: byte short int long float double boolean char String".to_string())
	);
}

// ── The Java version ─────────────────────────────────────────────────────────

#[test]
fn version_numbers_read_back() {
	for (out, major) in [(&b"javac 17.0.2"[..], "17"), (b"javac 21", "21"), (b"javac 1.8.0_392\n", "8"), (b"+11.0", "11")] {
		let v = detect_java_version(out, b"").unwrap();
		assert_eq!(v.parse::<u32>().unwrap().to_string(), v);
		assert_eq!(v, major);
	}
}

fn param_error(src: &str) -> String {
	java_fn(tokens(src), src).err().unwrap()
}

#[test]
fn parameter_errors_are_reported() {
	assert_eq!(
		param_error("static int run(List x) { return 1; }"),
		"inline_java: error parsing type of parameter `x`: inline_java: expected `<` after `List`"
	);
	assert_eq!(
		param_error("static int run(List<Integer x) { return 1; }"),
		"inline_java: error parsing type of parameter `x`: inline_java: expected `>` to close `List<...>`"
	);
	assert_eq!(
		param_error("static int run(int 5) { return 1; }"),
		"inline_java: unexpected token in run() parameter list: expected a parameter name"
	);
	assert_eq!(param_error("static int run(x) { return 1; }"), "inline_java: missing type for parameter `x`");
	assert_eq!(
		param_error("static int run(int int x) { return 1; }"),
		"inline_java: unexpected tokens after type of parameter `x`"
	);
	assert_eq!(
		param_error("static int run(List<Map> x) { return 1; }"),
		"inline_java: error parsing type of parameter `x`: inline_java: `Map` is not a supported Java type argument; supported: Byte Short Integer Long Float Double Boolean Character String (or primitive names)"
	);
}

#[test]
fn parameter_lists_tolerate_stray_commas() {
	let src = "static int run(, int a, java.util.List<int[]> b,) { return a; }";
	let program = java_fn(tokens(src), src).unwrap();
	assert_eq!(program.params.len(), 2);
	assert_eq!(program.params[0], (prim(PrimitiveType::Int), "a".to_string()));
	assert_eq!(
		program.params[1],
		(list_of(JavaType::Array(Box::new(boxed(BoxedType::Integer)))), "b".to_string())
	);
}

#[test]
fn more_literal_diagnostics() {
	assert_eq!(ct(&prim(PrimitiveType::Byte), &[]), Err("ct_java: truncated byte element".to_string()));
	assert_eq!(ct(&prim(PrimitiveType::Boolean), &[]), Err("ct_java: truncated boolean element".to_string()));
	assert_eq!(ct(&prim(PrimitiveType::Char), &[0]), Err("ct_java: truncated char element".to_string()));
	let strings = list_of(boxed(BoxedType::String));
	assert_eq!(ct(&strings, &[0, 0, 0, 1, 0, 0]), Err("ct_java: truncated String length prefix".to_string()));
	assert_eq!(
		ct(&strings, &[0, 0, 0, 1, 0, 0, 0, 1, 0xff]),
		Err("ct_java: String element is not valid UTF-8".to_string())
	);
	assert_eq!(ct(&strings, &[0, 0]), Err("ct_java: array/list output too short (missing length)".to_string()));
	assert!(strings.ct_output_aborts(&vec![0x80, 0, 0, 0]));
}

#[test]
fn decoded_values_can_be_passed_back() {
	let src = "static java.util.Optional<String[]> run(java.util.Optional<String[]> v) { return v; }";
	let program = java_fn(tokens(src), src).unwrap();
	let out = [1, 0, 0, 0, 2, 0, 0, 0, 1, b'a', 0, 0, 0, 0];
	let v = decode(&program.java_type, &out).unwrap();
	assert_eq!(
		v,
		JavaValue::Opt(Some(Box::new(JavaValue::List(vec![JavaValue::Str("a".into()), JavaValue::Str(String::new())]))))
	);
	let args = vec![v];
	assert!(check_args(&program.params, &args));
	assert_eq!(encode_args(&program.params, &args), out.to_vec());
}

#[test]
fn runtime_and_compile_time_classes_differ() {
	let src = "static int run() { return 1; }";
	let runtime = java(tokens(src), src).unwrap();
	let compile_time = ct_java(tokens(src), src).unwrap();
	assert!(runtime.class_name.starts_with("InlineJava_"));
	assert!(compile_time.class_name.starts_with("CtJava_"));
	assert_ne!(runtime.class_name, compile_time.class_name);
	assert_eq!(runtime.class_name.len(), "InlineJava_".len() + 16);
}

#[test]
fn type_names_read_back() {
	let types = vec![
		prim(PrimitiveType::Double),
		JavaType::Array(Box::new(JavaType::Array(Box::new(boxed(BoxedType::String))))),
		list_of(JavaType::Array(Box::new(boxed(BoxedType::Integer)))),
		optional(list_of(optional(boxed(BoxedType::Character)))),
	];
	for t in types {
		let name = t.java_type_name();
		let toks = tokens(&format!("{name} run"));
		let (parsed, n) = parse_java_type(&toks).unwrap();
		assert_eq!(parsed, t);
		assert_eq!(n, toks.len() - 1);
	}
}
