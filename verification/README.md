# codewarp

The application core of CodeWarp, a desktop coding assistant, written in Verus:
the state of the application and the rules by which it reacts to user input,
model-provider replies, tool results and runtime events, each stated in a
contract and proved.

- `src/` — the verified library. `state.rs` holds the application state;
  `send.rs`, `chunks.rs`, `tool_rounds.rs` and `chat.rs` the chat exchange and
  its tool rounds; `sessions.rs` the sessions and closing the window;
  `provider.rs`, `selection.rs`, `engine.rs`, `start.rs`, `lifecycle.rs`,
  `tabbyapi.rs` and `runtime.rs` the model providers and the local inference
  runtime; `mcp_servers.rs` the MCP servers; `hf_download.rs` model downloads;
  `workspace.rs`, `attach.rs`, `mention.rs`, `file_tree.rs`, `tree_walk.rs` and
  `blocks.rs` the workspace panels; `paths.rs` the path rules (components,
  parents, joining); `ui_events.rs` the interface's own bookkeeping (the
  loading skeleton, hovered code blocks, the toast, change summaries);
  `diff.rs` the write diff; `laws.rs` the properties that span several
  operations.
- `tests/` — tests of the library.
- `app/` — the program around it: reading the workspace from disk and the
  user's directories (handing folder listings and file texts to the
  library), and checking the local runtime setup.
