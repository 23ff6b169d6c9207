# Arrow bytecode back end

The compiler from Arrow's resolved syntax tree to bytecode, with the pieces
around it, written in Verus and proved against its contracts.

- `op` — the instruction set.
- `chunk` — a compiled function: code, constant and name pools, line table,
  nested definitions; `Chunk::wf` says every index the VM reads is in range.
  Also the per-definition cache of compiled bodies (`SharedFnChunk`).
- `compiler` — the six entry points (`compile_fn`, `compile_toplevel_stmt`,
  `compile_module_stmt`, `compile_definition_expr`, `compile_async_body`,
  `compile_debug`). Every chunk they return is well formed and ends in a
  return; captures are numbered in name order; a definition expression
  writes no name in a scope and the debugger prompt assigns none; a module
  statement stores through the scope chain, a top-level one to globals.
  `compiler::decl_order` lists the declarations of a body in the order in
  which they take slots, and the numbering those slots get.
- `peephole` — jump-chain collapsing and removal of jumps to the next
  instruction, specified by `optimize_spec`, with laws: only jumps and code
  targets change, statement starts survive, well-formedness is kept, the
  final instruction stays last, and every jump still reaches where it did.
- `disasm` — the textual listing of a chunk, specified character by
  character.
- `run` — the slots the debugger shows as declared at a stopping point.
  The virtual machine that executes chunks is not part of this library: it
  runs over the interpreter's values, which live outside it.
- `ast`, `annotations`, `names` — the syntax tree the compiler reads, the
  type checker's facts about it, and small string-keyed tables.

`app/` wraps four entry points with the development dump (`AR_VM_DUMP`: the
listing of each compiled chunk on standard error). The tests under
`tests/` exercise the compiled library on concrete inputs.
