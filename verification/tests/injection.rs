// Rust variables injected into a snippet as `'name`: the rewritten body, the
// fields and reads of the generated class, and the bytes sent for them.

use std::str::FromStr;

use inline_java::codec::encode_args;
use inline_java::inject::{bind_injected, distinct_names, encode_injected, inject_variables};
use inline_java::program::{java, java_fn, JavaProgram};
use inline_java::tokens::{Delimiter, Token, TokenKind};
use inline_java::types::{JavaType, PrimitiveType};
use inline_java::value::JavaValue;

fn char_offset(source: &str, byte: usize) -> usize {
	source[..byte].chars().count()
}

/// The token trees of `source`, with spans (as character offsets) when
/// `with_spans`, so that the body is sliced out of the source; without, it is
/// rebuilt from the tokens' texts.
fn convert(source: &str, ts: proc_macro2::TokenStream, with_spans: bool) -> Vec<Token> {
	ts.into_iter()
		.map(|tt| {
			let r = tt.span().byte_range();
			let span = if with_spans { Some((char_offset(source, r.start), char_offset(source, r.end))) } else { None };
			let text = tt.to_string();
			let kind = match tt {
				proc_macro2::TokenTree::Group(g) => {
					let d = match g.delimiter() {
						proc_macro2::Delimiter::Parenthesis => Delimiter::Parenthesis,
						proc_macro2::Delimiter::Brace => Delimiter::Brace,
						proc_macro2::Delimiter::Bracket => Delimiter::Bracket,
						proc_macro2::Delimiter::None => Delimiter::Invisible,
					};
					TokenKind::Group(d, convert(source, g.stream(), with_spans))
				}
				proc_macro2::TokenTree::Ident(_) => TokenKind::Ident,
				proc_macro2::TokenTree::Punct(p) => TokenKind::Punct(p.as_char()),
				proc_macro2::TokenTree::Literal(_) => TokenKind::Literal,
			};
			Token { kind, text, span }
		})
		.collect()
}

fn tokens(src: &str, with_spans: bool) -> Vec<Token> {
	convert(src, proc_macro2::TokenStream::from_str(src).unwrap(), with_spans)
}

fn expand(src: &str) -> JavaProgram {
	java(tokens(src, true), src).unwrap()
}

fn strings(xs: &[&str]) -> Vec<String> {
	xs.iter().map(|x| x.to_string()).collect()
}

fn bindings(xs: &[(&str, &str)]) -> Vec<(String, String)> {
	xs.iter().map(|(k, v)| (k.to_string(), v.to_string())).collect()
}

#[test]
fn variable_injection_doc_example() {
	let src = "static int run() {
		int value = Integer.parseInt('n);
		return value * 2;
	}";
	let program = expand(src);
	assert_eq!(program.injected, strings(&["n"]));
	assert!(program.java_class.contains(" {\n\n\tstatic String _RUST_n;\n"));
	assert!(program.java_class.contains("int value = Integer.parseInt(_RUST_n);"));
	assert!(!program.java_class.contains("'n"));
	assert!(program.java_class.contains(
		"\t\tjava.io.DataInputStream _dis = new java.io.DataInputStream(System.in);\n\t\t{ int _len = _dis.readInt(); byte[] _b = new byte[_len]; _dis.readFully(_b); _RUST_n = new String(_b, java.nio.charset.StandardCharsets.UTF_8); }\n"
	));
	// `let n: i32 = 21;` is in scope at the call site.
	let values = bind_injected(&program.injected, &bindings(&[("n", &21.to_string())])).unwrap();
	assert_eq!(values, strings(&["21"]));
	assert_eq!(encode_injected(&values), vec![0, 0, 0, 2, b'2', b'1']);
	// `run()` returns 42, which `main` writes as a big-endian int.
	assert_eq!(program.java_type.rust_deser(vec![0, 0, 0, 42]), Ok(JavaValue::Int(42)));
}

#[test]
fn injection_from_joined_token_texts() {
	let src = "static int run() { return Integer.parseInt('n) * 2; }";
	let program = java(tokens(src, false), src).unwrap();
	assert_eq!(program.injected, strings(&["n"]));
	assert!(program.java_class.contains("(_RUST_n)"));
	assert!(!program.java_class.contains("'"));
	assert!(program.java_class.contains("\tstatic String _RUST_n;\n"));
}

#[test]
fn injection_leaves_literals_and_comments_alone() {
	let src = "static String run() {
		char a = 'a';
		char q = '\\'';
		// 'y is not injected here
		/* nor 'z here */
		String s = \"it's 'x\";
		return 'v + s + a + q + 'w + 'v;
	}";
	let program = expand(src);
	assert_eq!(program.injected, strings(&["v", "w"]));
	let class = &program.java_class;
	assert!(class.contains("char a = 'a';"));
	assert!(class.contains("char q = '\\'';"));
	assert!(class.contains("// 'y is not injected here"));
	assert!(class.contains("/* nor 'z here */"));
	assert!(class.contains("String s = \"it's 'x\";"));
	assert!(class.contains("return _RUST_v + s + a + q + _RUST_w + _RUST_v;"));
	assert!(class.contains("\tstatic String _RUST_v;\n\tstatic String _RUST_w;\n"));
	assert_eq!(class.matches("static String _RUST_v;").count(), 1);
}

#[test]
fn injected_variables_are_read_before_the_parameters() {
	let src = "static int run(int n) { return n + Integer.parseInt('k); }";
	let program = java_fn(tokens(src, true), src).unwrap();
	assert_eq!(program.injected, strings(&["k"]));
	let class = &program.java_class;
	assert_eq!(class.matches("java.io.DataInputStream _dis").count(), 1);
	let var_at = class.find("_RUST_k = new String").unwrap();
	let param_at = class.find("int n = _dis.readInt();").unwrap();
	let call_at = class.find("run(n)").unwrap();
	assert!(var_at < param_at && param_at < call_at);
	// What the run's stdin holds: the variable, then the argument.
	let values = bind_injected(&program.injected, &bindings(&[("k", "5"), ("k", "6")])).unwrap();
	let mut stdin = encode_injected(&values);
	stdin.extend(encode_args(&program.params, &vec![JavaValue::Int(7)]));
	assert_eq!(stdin, vec![0, 0, 0, 1, b'5', 0, 0, 0, 7]);
}

#[test]
fn snippets_without_injection_are_unchanged() {
	let program = expand("static int run() { return 1; }");
	assert!(program.injected.is_empty());
	assert!(!program.java_class.contains("_RUST_"));
	assert!(!program.java_class.contains("DataInputStream"));
	let t = JavaType::Primitive(PrimitiveType::Int);
	assert_eq!(t.java_main_injected(&Vec::new(), &[]), t.java_main(&[]));
}

#[test]
fn inject_variables_rewrites_each_use() {
	assert_eq!(inject_variables("a 'b c"), ("a _RUST_b c".to_string(), strings(&["b"])));
	assert_eq!(inject_variables("f('x, 'y, 'x)"), ("f(_RUST_x, _RUST_y, _RUST_x)".to_string(), strings(&["x", "y", "x"])));
	assert_eq!(inject_variables("'a' + '\\n' + \"'q\""), ("'a' + '\\n' + \"'q\"".to_string(), vec![]));
	assert_eq!(inject_variables("x = 'n_2;"), ("x = _RUST_n_2;".to_string(), strings(&["n_2"])));
	assert_eq!(inject_variables("' 9"), ("' 9".to_string(), vec![]));
	assert_eq!(distinct_names(&strings(&["x", "y", "x", "z", "y"])), strings(&["x", "y", "z"]));
}

#[test]
fn injected_values_are_bound_and_encoded() {
	assert_eq!(bind_injected(&strings(&["a", "b"]), &bindings(&[("b", "2"), ("a", "1")])), Some(strings(&["1", "2"])));
	assert_eq!(bind_injected(&strings(&["a", "b"]), &bindings(&[("a", "1")])), None);
	assert_eq!(bind_injected(&vec![], &vec![]), Some(vec![]));
	assert_eq!(encode_injected(&strings(&["", "é"])), vec![0, 0, 0, 0, 0, 0, 0, 2, 0xc3, 0xa9]);
}
