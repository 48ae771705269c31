# unity_ls

The core of a language server for Unity projects, verified with Verus.

- `src/document_storage.rs`: the open documents, keyed by URI.
- `src/capabilities/codelens.rs`: the asset-reference code lens, created at
  the first class declaration of a C# script and resolved into a
  `showUnityReferences` command.
- `src/capabilities/references.rs`: the script's GUID from its `.cs.meta`
  file, the lines of scenes, prefabs and assets that mention it, and their
  order.
- `src/server.rs`: the workspace root, and how requests and notifications
  are routed and applied.
- `src/paths.rs`, `src/path_order.rs`, `src/syntax.rs`, `src/text.rs`:
  paths and `file:` URIs, the order of paths by their components, the
  tree-sitter query, and character-level text operations.
- `app/`: the program: the stdio loop, file reading, directory walking and
  the JSON forms of the library's values.
