# aven_check

The verified core of the type checker of the Aven language: the types and their rows, how types are
compared, inferred and reported, how families and methods are declared and found, and the order in
which a module is checked. Every function states what it returns in `requires` and `ensures`
clauses, which Verus proves.

- `src/` is the library. What another part of a compiler decides (a unifier, an evaluator, a parser)
  comes in as plain values, and what the library wants to know goes out as events and steps.
- `tests/` runs the library on concrete programs and types.
- `app/` is ordinary Rust around the library: drivers that carry questions to a unifier and to other
  rules, checks as they are stored between builds, and floating-point literals.

Comparisons, checks of values and comparisons for equality go down a number of levels and say where
they stop. `comparison_levels`, `family_levels`, `value_levels` and `equality_levels` state how many
levels are enough; more levels find the same.
