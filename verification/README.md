# api_gen_macro

Generates a typed HTTP client from an OpenAPI 3 document.

- `src/` is the verified library. It types schemas (`schema`), lays out the
  model structs of the component schemas (`models`) and the methods of the
  client (`client`), over a model of the document (`document`); `types` parses
  `type`/`format` pairs and `text` holds the string helpers (snake case,
  prefixes, dotted names). `laws` and `ordering` state what holds of every input; `ordering` also
  covers the order of the document's maps and of `required` lists.
- `app/` is the `openapi!` expansion: it reads the JSON document, converts it
  into the library's types, asks the library for the client layout and turns
  that layout into Rust items with `quote`.
- `tests/` exercises the library on concrete documents.
