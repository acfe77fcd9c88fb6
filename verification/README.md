# mem0_rust

An offline long-term memory store for AI agents: facts about users are kept
with their sentence embeddings in a JSON file and can be added, listed,
searched by meaning, deleted and cleared from the command line, an
interactive menu, a web dashboard or a stdio tool protocol (JSON-RPC).

- `src/` is the verified library. `store` holds the records and the add /
  list / delete / clear operations with their laws, `ranking` the ordering of
  search hits, `ids` the random identifiers, `query` the reading of URL query
  parameters, `json` and `payload` the JSON values and answers, `mcp` the
  decisions of the tool protocol, `dashboard` the routing and answers of the
  web API, `menu` the decisions of the interactive menu, `config` the
  settings, `text` the string helpers.
- `app/` is the program around it: argument parsing, files, the terminal,
  the HTTP server, the embedding model and the cosine similarity (floating
  point), and the conversion between JSON text and the library's values.
- `tests/` runs the library on concrete inputs.
