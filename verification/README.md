# cabidl

Tools for CABIDL (Component Architecture Boundary and Interface Definition
Language) documents: Markdown files whose YAML blocks declare a system, its
boundaries and its components. The library reads such documents (resolving
`<!-- @include -->` directives), checks them, draws them as Graphviz or
Mermaid diagrams, installs the cabidl skill for an AI assistant and creates
projects from templates. The library's functions are verified with Verus
against contracts stated over mathematical models. The calls into `std`
and into outside crates that the logic makes stand behind a few trusted
wrappers, whose contracts Verus takes as given: `String::push`,
`Arc::clone` and `char::is_alphanumeric` (`text`, `model`,
`diagram_provider`), the include directive pattern of `regex` (`resolver`),
loading YAML through `serde_yaml` (`yaml`), and reading the templates
archive through `tar` and `flate2` (`init`). The filesystem itself is a
trait: the library states what each query returns as a function of the
filesystem value, and records the writes and directory creations asked of
it, with their outcomes.

## Layout

- `src/` — the verified library.
  - `text`, `path`: characters, lines and paths, as `str` and `std::path`
    treat them.
  - `markdown`: the YAML blocks of a document and the lines they start on.
  - `yaml`: loading a block (through `serde_yaml`) and decoding it into the
    block structures, refusing unknown fields.
  - `model`, `parser`: the linked system model, parsing and validation.
  - `document`: the unlinked block model and its validation.
  - `filesystem`, `resolver`: the Filesystem boundary, an in-memory
    filesystem, and include resolution.
  - `parser_impl`: the CabidlParser boundary.
  - `diagram_provider`, `graphviz`, `graphviz_nodes`, `mermaid`, `diagram`,
    `diagram_output`: diagram providers and the orchestrators that choose
    among them.
  - `assistant`: the AiProvider boundary.
  - `init`, `listing`: the template index, scaffolding from the templates
    archive (through `tar` and `flate2`), and the template table.
- `tests/` — the test suite.
- `app/` — the `cabidl` command line: argument handling, the machine's
  filesystem, the composition root and the templates directory.
