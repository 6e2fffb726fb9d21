# query_planner

A small logical query planner, verified with Verus.

SQL `SELECT` statements are analysed (which expressions are aggregates, which
columns a query needs, whether it groups) and turned into a tree of logical
plan nodes: scan, projection, selection, aggregation and join. The library
computes each node's output schema and renders plans as indented text.

Layout:

- `src/` — the verified library. Each public function states its result in
  its contract, over mathematical models of expressions (`ExprView`), plans
  (`PlanView`), schemas and errors; the laws that tie functions together are
  public proof functions whose names start with `law_`.
- `tests/` — tests of the library on concrete values.

The catalog of tables (`TableCatalog`) is a list of (name, data frame)
entries in which a later entry for a name replaces an earlier one, viewed as
a map from names to plans. A std `HashMap` keyed by `String` gives Verus no
specification to prove lookups against, since whether hashing and equality of
such keys behave is not stated to it; with the list, `get` and `insert` are
proved exact against the map.

Column types are the five the planner computes with, and `Other`, which
carries any other type by its name (the name `arrow` prints the type as).
- `app/` — the unverified edge: reading CSV files into Arrow arrays, parsing
  SQL text with `sqlparser` and handing the syntax tree to the library.
