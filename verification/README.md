# prompt_observability

A verified library for prompt observability in a coding agent:

- `snapshot`: what one model request exposes (prompt segments found by
  context markers, tool schemas, request chains) with byte-based token
  estimates and short content hashes;
- `analyze`: an accumulator that sums snapshots and tool-call events of
  recorded traces into a report;
- `report`: the report types, their orders, and the Markdown rendering;
- `report_properties`: properties that hold of every report (orders, exact
  selections, one line per segment and chain, bounded savings, calls never
  forgotten, bundle boundaries irrelevant);
- `history_properties`: what a whole trace gives: one line per recorded
  segment, tool, chain and searched tool, with the sums and counts of all
  their occurrences and the fields of the first one;
- `trim_tool`: the declaration of the `trim_prompt_context` tool and the
  summary it answers with;
- `digest`, `tokens`, `text`, `sorting`: hashing, token estimates, string
  helpers and a stable sort, each with its contract.

`src/` is verified with Verus. `app/` holds the unverified edges: reading trace
bundles from disk, converting request JSON into the library's plain values,
JSON rendering with serde, and the floating-point utility score.
