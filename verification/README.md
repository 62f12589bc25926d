# gausian_collab

Verified core of the Gausian native video editor and its collaboration
server, written in Verus.

- `src/` — the library. Every function states its behaviour in
  `requires`/`ensures` over mathematical models (`Seq`, `Map`, views of the
  data types) and Verus proves it.
  - Storyboard: cards and their workflow inputs (`storyboard`, `board`,
    `keyed_map`, `workflow_input`, `workflow_preset`, `input_spec`,
    `preset_scan`, `workflow_order`, `workflow_catalog`, `draft_cards`,
    `input_display`, `input_refresh`, `card_editor`, `naming`,
    `project_paths`).
  - ComfyUI: workflow-to-prompt conversion, prompt patching, queueing,
    output matching, job status and websocket messages (`comfy_prompt`,
    `patch`, `phase_plan`, `comfy_queue`, `comfy_output`, `comfy_jobs`,
    `comfy_monitor`, `job_registry`).
  - Cloud backend jobs, health checks and the bookkeeping of the job
    monitor's events (`cloud_job`, `cloud_health`, `cloud_monitor`).
  - Screenplay drafting and the assistant panel (`screenplay`,
    `screenplay_panel`, `structured`, `draft`, `chat`, `local_llm`).
  - Timeline items, track choice and storyboard transfer (`timeline`,
    `transfer`).
  - Collaboration sessions and messages (`collab`, `id_map`, `ws`, `ids`).
  - JSON values and text helpers (`json`, `json_text`, `text`, `sorted`).
  - `laws` — properties that span several operations.
- `tests/` — tests run against the compiled library.
- `app/` — the collaboration server: HTTP and websocket plumbing around the
  library's session model.

## Maps

- Maps keyed by text (`KeyedMap`) are vectors of entries with distinct keys,
  viewed as a `Map` over the keys' characters. vstd specifies `HashMap`
  only for key types that obey its key model, and it states that model
  for the integer types and `bool`, not for `String`; a contract over a
  `String`-keyed `HashMap` could not be proved without assuming it.
- Maps keyed by a 128-bit id (`IdMap`) are vectors of entries with distinct
  ids, viewed as a `Map<u128, _>`. Sessions and their participants live in
  such maps, owned by the session manager and changed through `&mut self`,
  so that each change is stated over the view and listings come in the
  order the entries were made. A concurrent map such as `DashMap` changes
  its entries behind shared references and hands them out through guards,
  and Verus takes what lies behind a shared reference as unchanging, so a
  join or a new operation could not be stated over its contents; the server
  in `app/` puts the one `SessionManager` behind a lock instead. (The
  vector clock, whose walk order nothing reads, is a `HashMap<u128, u64>`.)
