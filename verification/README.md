# rpnpad

A terminal RPN calculator. The engine is a library whose behaviour is
specified by `requires`/`ensures` contracts and proved with Verus.

* `src/` — the verified library: the value stack and its operations
  (`ops`), exact integers (`bigint`) and binary floats (`float`), both
  computed by `dashu`, undo history (`undo`), number and command parsing
  (`parser`, `commands`), units and unit conversion (`units`), display
  modes and errors.
  Results that go through doubles (roots, logarithms, trigonometry, mixed
  integer and float arithmetic, float quotients) are not computed here:
  `apply_op` hands out a `FloatWork`, and `finish_op` commits its value.
* `app/` — the terminal program: drawing, keys, session files, and the
  computations in doubles.
* `tests/` — tests of the library.
