# vectordb

Vector search over tools, messages and documents, with the rules that surround it:

- records and how each kind is stored (`records`, `message_vectordb`, `document_vectordb`),
- the store itself: rows, searching, listing, counting (`sqlite_vectordb`, `matching`, `stats`),
  the index of neighbours as a state machine (`hnsw`), and the tool store (`tool_vectordb`),
- the tool selectors (`router_tool_selector`, `llm_tool_selector`),
- the embedding providers (`embedding`, `ollama`, `openai`, `provider`, `web`),
- the platform's tools and the server's health (`platform_tools`, `health`).

`src/` is verified with Verus. Each function's contract says what it returns; `store_laws`,
`table_laws` and the public proof functions of the other modules state what holds of several
functions together.
Embeddings are held as the bits of their single-precision components, and JSON that comes as text
is held as text.

`app/` is ordinary Rust around the library: SQLite, the HNSW index, HTTP, tasks and routes. It
performs what the library decides. `tests/` runs the library together with SQLite in memory and
with a real index.
