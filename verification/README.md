# inline_java

Embed Java in Rust: a snippet declares `static T run(..)`; it is wrapped in a
generated class, compiled with `javac`, run with `java`, and what `run`
returns comes back as a Rust value (`java!`, `java_fn!`) or as a Rust literal
spliced at compile time (`ct_java!`). Arguments travel to Java over stdin and
results come back over stdout, in a binary format written with
`DataOutputStream` and read with `DataInputStream`.

A Rust variable `n` can be injected into the body as `'n`: the body refers to
the Java `String` field `_RUST_n`, which the generated `main` reads from stdin
before the arguments of `run`.

## Layout

- `src/` — the library, verified with Verus: reading the macro input (options,
  imports, the type and parameters of `run`), injecting Rust variables,
  generating the Java class and its `main`, encoding arguments, decoding
  results, producing compile-time literals, the choice of the cache root and
  the cache-directory name, the Java version probe (`javac 21.0.2` is 21,
  `javac 1.8.0_292` is 8), and the steps of a run (check the cache, lock,
  compile, mark, launch).
- `app/` — the I/O around it: the environment, the cache directories, the file lock,
  the `javac`/`java` processes, the token trees from `proc_macro2`, and a tour
  of snippets.
- `tests/` — snippets run through the whole pipeline, with the Java side of a
  run given as the bytes that the generated program writes.

## What is proved

Besides the contract of every function, the library proves that the wire
format is faithful (decoding what Java writes for a value gives the value
back; the arguments Rust writes are read back in order), that what the
runtime decodes is always a value of the declared type and can be passed back
as an argument of that type, that compile-time literals agree with runtime
decoding, that the parser reads back the type names that code generation
writes, that class and cache-directory names are a prefix, `_` and 16
hexadecimal digits, that runtime and compile-time classes never share a name,
that plain and quoted option words split back as written and that text
without quotes splits at every run of blanks, that a body without `'` is left
as it stands, that each injected variable is declared once, that the values
of the injected variables and then the arguments are read back in order, that
a scalar's compile-time literal takes exactly the bytes of its encoding, that the detected
Java version is a plain number, that the generated `main` reads first (the
variables, then the parameters in order) and then calls `run` with the
parameters, and that a run moves strictly forward through its steps,
compiling only while holding the lock, at most once and with the expanded
`javac` arguments, not at all when the class is already compiled, and never
marking a class whose compile failed.
