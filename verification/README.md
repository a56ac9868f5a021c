# perry_passes

Three parts of a TypeScript compiler and its runtime, verified with Verus:

- `inline`: the inlining pass. It recognizes spelled-out integer multiplications,
  chooses the functions and methods that may be inlined, and replaces their calls.
- `arkts`: the ArkUI back end. It harvests the widget tree of an `App` call and
  writes the page source for it.
- `readline`: the readline interface as a state machine. It decides which callback
  hears which line, and when the interface closes.

`hir` holds the intermediate representation and `model` its mathematical
counterpart, over which all contracts are stated. `walk`, `rebuild`, `rewrite`,
`rewrite_module` and `shape` are what the passes share; `text` and `num` are strings and numbers.

The functions of a module carry contracts that fix their results. What holds of
several functions together is stated by the public proof functions whose names
begin with `law_`. Those on rewrites in general are in `rewrite_laws` and
`rewrite_module`, those on the passes as a whole in `inline/laws`, `inline/hygiene`,
`inline/distinct`, `inline/bound_first` and `inline/ends`, and in `arkts/laws`,
`arkts/callbacks`, `arkts/call_order`, `arkts/finite` and `arkts/page_laws`.

Doubles are held as their bit pattern together with their decimal text. `app` makes
them, reads stdin, writes prompts and calls closures.
