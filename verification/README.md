# readme_generator

Builds README files from markdown templates. A template is cut into sections at its `##`
headings (`## ?Title` marks an optional section); a `Placeholders: [a],[b]` line names the
placeholders that the user fills in.

- `src/` is the library, verified with Verus:
  - `text.rs`: text primitives (lines, split, join, replace, trimming) specified over
    `Seq<char>`;
  - `template.rs`: the template reader, loading of embedded and user templates, placeholder
    filling, file-name checks and the choice of template and sections;
  - `output.rs`: the dialogue about where the README goes, as a state machine;
  - `embedded.rs`: the `include_dir` directory of built-in templates;
  - `ui.rs`: message texts;
  - `laws.rs`: properties proved for every input;
  - `lib.rs`: a simpler template reader and loaders built on it.
- `app/` is the terminal program: argument parsing, prompts, files and clipboard.
- `tests/` runs the library on concrete inputs.
