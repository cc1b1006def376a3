# difftastic

Structural diffing of two versions of a file, with its rules verified in Verus.

`src/` is the verified library. A diff there is a value that says what it needs
next (a guess of the language, parsed trees, matched nodes) and goes on with each
reply, until its result is there.

- `text`: normalising texts, cutting them into lines, decimal numbers.
- `options`, `content`: what a diff is asked for and starts from.
- `format`: how a file is understood, and why lines are compared in place of
  syntax.
- `analysis`: the comparison of two texts, with its limits and fallbacks.
- `matched`, `chunks`, `semantic`: the spans, chunks and rows of a semantic diff.
- `semantic_diff`, `byte_diff`: the two kinds of diff, from request to result.
- `highlight`, `timing`, `error`: highlighting, the timing log and the error type.

Each function that computes says in its contract what it returns. The functions
named `law_...` state what holds of the library as a whole: that a diff ends and
what its result is, for every fixed set of answers to what it asks, which rows are
shown, and what exchanging the two sides changes.

`app/` is ordinary Rust around the library. It reads the environment, writes the
timing log, and carries out what a diff asks for by an `Engine`, which brings the
parsers and matchers.

`tests/` runs the library on concrete inputs.
