# class_quicklook

Renders a compiled Java class as Java-like source text for a Quick Look
preview, and keeps the reference count of the preview generator plug-in.
The rendering is verified with Verus: the text it produces is stated exactly,
including the import list, which names each class that needs importing once,
in the order of its first mention.

Layout:

- `src/model.rs` — the parts of a parsed class file that rendering reads.
- `src/names.rs` — internal names: package part, simple name, dotted
  spelling, and the import list.
- `src/descriptors.rs` — the Java names of the types that descriptors denote.
- `src/annotations.rs` — annotations and their element values.
- `src/access.rs` — access flags and the modifiers they render as.
- `src/describe.rs` — the whole class: `describe` and `renderable`.
- `src/text.rs` — character helpers and decimal numerals.
- `src/plugin.rs` — the host's opaque handles, the identifiers the plug-in
  answers to, and its reference count.
- `app/lib.rs` — the plug-in's CoreFoundation entry points, reading the
  previewed file, and parsing the class file into the model.
