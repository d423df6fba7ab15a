# playground

The logic of a handful of small Rust programs, written in Verus and verified:

- `linked_list`, `linked_list_v2`: doubly linked lists whose nodes live in an arena.
- `counters`, `wasm_counters`: the request counters of the counter server and of the
  WebAssembly module it runs; `content` picks XML or JSON from the `Accept` header.
- `calculator`: arithmetic traits for the integer types, the calculator that keeps its
  last result, and the reading of an operation from input.
- `symbols`: character counts of a text and the "occurs exactly once" query.
- `equation`: the terms of polynomials and quadratic equations, found with a regular
  expression and cut out by byte offsets.
- `oauth`: the addresses and request bodies of the Google sign-in and the decision taken
  at each of its steps.
- `delay`, `guess`: a wait that ends once its time has passed, and the guessing game.
- `text`: trimming, integer reading and writing, and splitting as `std` does them.

`app/` holds the programs themselves: the HTTP servers, the terminal tools, the
WebAssembly modules, and the floating point arithmetic of the calculator and of the
equations, which the library does not hold.
