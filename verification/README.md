# pod_craft

The core of a desktop application for crafting items that are pods, verified with Verus.

- `src/` is the library. The shared state of all items and its transitions, the predicates and the
  records of operations that prove them, the catalogue of processes, the lists of items and what a
  user can do are functions with contracts, proved but for one: what the standard library's join of
  two paths gives is believed, in `paths.rs`. Public proof functions whose names start with `law_`
  state what holds of several functions together.
- `app/` is the ordinary Rust around it: the window, the files, the background task, and `pods.rs`,
  which carries the records out with the `pod2` crate.
- `tests/` runs the library on concrete values.

The library keeps commitments as four 64-bit limbs and never computes one: values are compared by
their commitments, and the pods themselves are built outside of it.
