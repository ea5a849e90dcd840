# fasb

A faceted answer set browser: it navigates the answer sets of a logic
program by activating facets (atoms that hold in some but not all answer
sets), ranks the next steps by weight, and reasons about routes.

- `src/` is the verified library: routes and facets, the reading of atoms
  and of the words of the prompt and the command line, the navigation state
  and its literals, the ranking of facets by weight with its caches, exact
  covers of incidence tables, the steps of collecting samples of answer sets
  that show every target atom, and counting code embedded in programs.
- `app/` is the interactive program around it: the prompt, the clingo
  solver that answers satisfiability, consequence and counting queries, zooms
  (floating point), big-integer evaluation of counting code, and the loops that
  drive the collection steps.
- `tests/` runs the library on concrete values.
