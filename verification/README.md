# Seagrass

A scripting language for reading and writing binary file formats. Scripts
declare POD structs (`#[pod]`), with padding, `#[align(n)]` fields,
`#[serialize_as("ascii")]` strings and `#[counted_by(..)]` arrays, and move
values between files and the runtime with `sg::write` and `sg::read<T>`.

The library is written in Verus. Its functions carry contracts that the
verifier proves; how much a contract pins down varies (see the doc comment of
each function). What is not proved:

- nine trusted wrappers (`src/deserialization.rs`): the eight `byteorder`
  reads of 16- and 32-bit integers, and `String::from_utf8`, whose contracts
  restate what those functions document;
- the host in `app/` (file I/O, the command line, error reports).

Where the language's runtime keeps tables (functions, structs, impl blocks,
built-in methods, fields already read), the library keeps them in `Vec`s
searched from the newest entry, not in `HashMap`s keyed by `String`: Verus
proves nothing of a `HashMap` lookup with such keys. Values that scripts
share (struct fields, array elements, what references point at) live in
cells of a heap addressed by index, in place of `Rc<RefCell<..>>`, which
Verus does not support.

Imports are not followed: `import` statements are passed over, since reading
and parsing the imported file needs the parser, which is not part of this
library.

## Layout

- `src/ast.rs`: the syntax tree and data types.
- `src/value.rs`, `src/values.rs`: runtime values, the heap of cells, copies,
  casts, coercions, comparisons.
- `src/operators.rs`: the binary and unary operators.
- `src/runtime.rs`, `src/scopes.rs`, `src/functions.rs`: the runtime state,
  scopes and call frames, function and struct definitions.
- `src/execution.rs`, `src/evaluation.rs`: the evaluator and the executor,
  and what evaluating an expression that only reads the runtime gives.
- `src/serialization.rs`, `src/deserialization.rs`, `src/layout.rs`: the byte
  layout of POD values, writing and reading it, sizes.
- `src/readback.rs`, `src/laws.rs`: what holds across functions, among it
  that reading the bytes written for a value gives the value back.
- `src/natives.rs`: the `sg::` functions and the methods of file handles,
  over a table of files that the host fills and writes back.
- `src/literals.rs`: integer literals in decimal, binary and hexadecimal.
- `app/`: the command line host.
