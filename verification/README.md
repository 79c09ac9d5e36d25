# oxide_lower

Lowering of GPU memory operations from MIR to LLVM form, and the typed-pointer part of the
LLVM text exporter, verified with Verus.

- `src/` is the verified library. It works on plain values: an operation is read into the
  types of `ir` and `types`, and lowering answers with a `Rewrite`, the list of operations
  to insert and what becomes of the lowered one.
  - `memory`: loads, stores, stack slots, references, pointer offsets
  - `globals`: static shared memory, device globals and constants, dynamic shared memory
  - `vmem`: the vectorised load from global memory
  - `export`: exporter state, pointer casts, element types of `getelementptr`
  - `laws`: what holds across these functions
- `app/` reads pliron IR into those types and carries the rewrites out.
- `tests/` runs the library on concrete operations.
