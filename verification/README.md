# worst

The Worst programming language: a small, malleable stack language whose
syntax can be redefined from inside the language. This crate holds its
readers, parsers, value model and interpreter state, with their behaviour
stated as Verus contracts and proved.

Layout:

- `src/data.rs`, `src/list.rs`: values, lists and their mathematical models.
- `src/reader.rs`, `src/parser_basic.rs`, `src/parser/`: the readers that
  turn text into values, and the rule-driven parser.
- `src/machine.rs`: the interpreter as a step function; the host runs the
  loop and the builtins it is asked to call.
- `src/interpreter/`: the value stack with transactions, the context tree,
  definitions, environments, exceptions and generators.
- `src/stdlib/`: builtins on the stack (booleans, numbers, lists, strings),
  hash tables, records, ports and file options.
- `src/defset.rs`: definition sets kept in an `im_rc` hash map.
- `app/`: the command-line driver (file and terminal I/O).
- `tests/`: tests of the library.
