# skald_compiler — x86-64 System V backend

The x86-64 System V backend of the Skald compiler as a Verus library: the
layouts, calling convention, dispatch tables, legality checks, the facts
projected for semantic planning, and instruction selectors for individual MIR
operations and generated helpers, each with a contract that states exactly
what it produces. There is no whole-program lowering driver: the selectors
are the building blocks such a driver would call.

## Layout

- `identity`, `mir`, `body`: the program model the backend reads — classes,
  arrays, interfaces, callable bodies, blocks, instructions and terminators.
- `layout`, `frame`, `abi`: data layout of classes, arrays and optionals;
  fixed stack frames; argument classification and call layouts.
- `input_check`, `dispatch`, `legality`, `array_legality`, `destruction`,
  `facts`, `fact_projection`: the well-formedness check of the input program,
  dispatch tables, the executable-subset checks, and the facts the backend
  reports to its callers.
- `machine`, `emit`, `listing`, `text`, `symbol`: the assembly model, its text
  form, and the deterministic symbol and label names.
- Instruction selection: `value`, `marshal`, `terminator`, `arithmetic`,
  `primitive_cast`, `object_abi`, `call_target`, `type_operations`, `io`,
  `strings`, `ownership`, `array_selection` (array allocation, publication,
  anchors, slice checks and the dispatch of storage-level array
  instructions), `optional_access` (presence tests,
  checked unwraps and view guards of optionals), `block_terminator` (the
  selection of every kind of block terminator), `static_lifecycle`.
- Generated helpers: `array_helpers` (array element and clone helpers),
  `class_copy` (address-based class copy helpers), `finalize` (complete-object
  finalizers), `ownership` (shared-handle retain and release helpers),
  `panic_message` (the pool of fixed failure messages), `artifacts` (pruning
  of unreachable artifacts).

Contracts describe emitted code through `listing::lines`, the assembly text
of each instruction, so that labels and symbols are part of what is proved.
Every selector that appends to an instruction buffer also states that the
instructions already there are left in place.

## Checking

Every module is verified by Verus; the tests under `tests/` run the
selectors, several of them on a small machine model that executes the
emitted instructions.
