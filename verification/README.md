# indexed_run

A verified evaluator for the indexed form of a small shell-like scripting
language. A program is a flat table of instructions, blocks, pipeline stages
and strings (`ir`), plus the functions that name their bodies in it. The
library evaluates such programs in several ways and proves, with Verus, that
the recursive evaluator, the expression and statement machines, the heap-frame
calls and the binary-operator stack give what one mathematical semantics
(`semantics`) gives. The item-by-item pipeline has a semantics of its own
(`pipeline`); that it agrees with the materialized pipeline is not proved.

## Engines

- `interp`, `direct`: the recursive evaluator of expressions, statements and
  function calls, with a depth budget.
- `continuation`: an expression machine with explicit continuations; each step
  keeps the meaning of the expression it works on.
- `explicit`, `frames`: a statement machine with an explicit work stack.
- `calls`: function calls on heap frames, so that deep recursion does not use
  the native stack (checked up to a fixed number of steps).
- `binary_stack`: an explicit stack for chains of binary operators.
- `producer`: stream functions run as producers that hand out one item per
  pull, and can be cancelled (the open defers run once).
- `pipeline`, `serial`, `stage_list`, `pipeline_laws`: materialized and
  item-by-item pipelines over the stage table; the laws bound what `take` lets
  out and what a halted pipeline pulls.
- `cache_key`, `contract`, `contract_text`, `types`, `records`, `shapes`,
  `process`, `runs`, `text`, `testing`, `release_hooks`: the smaller pieces the
  evaluator uses (call keys, function contracts, type checks, record and
  process-argument handling, text decoding, test-result bookkeeping).

## What the instruction set holds

Expressions: `null`, unit, `Bool`, `Int` (64-bit, overflow is an error),
`Str`, an empty map, a slot read, field access, binary operators
(`+ - * / %`, comparisons, `&&` and `||` with short-circuit; `/` and `%`
round toward zero and refuse a zero divisor), `!`, `?` on a `Result`, record
and list literals, calls of named pure functions, pipelines, `Ok(..)`,
`Err(..)`, `??`, `if` expressions, tags (a name with a list of field
values), and integer ranges (`a..b` counts up from `a` to just below `b`, or
down from `a` to just above `b`).

Statements: `let`, `let` that takes named fields of a record into slots,
`guard` (a success is bound, a failure runs an `else` block that must not
run to its end), assignment to a slot (`=`, `+=`, `-=`, `*=`, `/=`, `%=`; a
failed compound assignment leaves the slot as it was), expression
statements, `return`, `if`, `defer`, `yield` (only in stream functions and
producers), `break`, `continue`, `for` over a list, `for` over the lines of
a text or byte string (`lines`), `while` and `loop` (each stops with a
`step-limit` error after `MAX_LOOP_ROUNDS` rounds), and `match` with guards.

Patterns of `match` arms: `_`, a binder, a literal, `Ok(..)` and `Err(..)`
(optionally binding what is inside, or only taking a unit), and a tag
pattern that may bind its fields.

Lines (`lines`): a line ends at a newline byte, found with `memchr`; a
carriage return just before the newline is not part of the line, and a
newline at the very end does not start one more, empty line.

Pipeline stages: `where`, `map`, `flat-map` (each as an expression or as a
block), `tee`, `enumerate`, `sort`, `count`, `sum`, `any`, `all` (expression
or block), `collect`, `first`, `last`, `min`, `max`, `take` and `drop`.
`first`, `last`, `min` and `max` give `Ok(item)`, or an `empty-stream` error
value for an empty list. `sort`, `min` and `max` order lists of `Int`
numerically and lists of `Str` by code point; any other list is refused with
a type error.

Field access: records and modules by name, an error's `kind` and `message`,
a regex's `pattern`, a status's `ok`, `success`, `kind` and `segments`, and a
process handle's `pid`, `command`, `argv` and `detached`.

## What it does not hold

The instruction set has no type, error-variant or facet patterns, no
assignment to fields or indices, no indexing or slicing, no format strings,
comprehensions or method calls, and no `sort-by`, `group-by`, `count-by`,
`unique-by`, `repeat` or `range` stages. There are no parallel maps or
grouped reductions, no top-level driver steps (module imports, top-level
bindings, signal hooks), no registry of running producers, and a stream
handed over by a producer is a list that is already built. Paths, file-system
entries and stats have no fields here. A program that uses any of these
cannot be written in this instruction set, and an instruction the evaluator
does not know is answered with an `indexed-ir` error.
