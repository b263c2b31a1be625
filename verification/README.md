# quark

The data, text and bookkeeping layer of Quark, a small language-model
toolkit, written in Verus: the functions under `src/` carry contracts that
the verifier proves, except the few small wrappers around outside crates
(the tokenizer, JSON, the shuffle, the home directory, a few `String`
methods), whose contracts are trusted and say what those crates document.

- `src/chat.rs`, `src/console.rs`: the chat template shared by training and
  inference, stop-string handling, and the terminal chat console.
- `src/mcp.rs`: tool results, tool configuration and the `<tool_call>`
  format in model output.
- `src/code/`: the coding agent — session state with undo/redo, prompt
  building, the Plan-mode check, tool planning, key and slash-command
  handling, word wrapping for the interface.
- `src/data/`: batching, packing and chat fine-tuning data, the corpus
  loader, and the dataset builds (The Pile, HuggingFace downloads) as step
  functions from an answer to the next action.
- `src/memory/`, `src/model.rs`, `src/training.rs`, `src/checkpoint.rs`,
  `src/quant.rs`: layer placement, the tensor store's RAM cache and
  write-back bookkeeping, model presets and sizes, memory and offload
  planning, checkpoint naming, parameter routing and quantization plans,
  packed quantized levels and the decode kernel's integer dot products.
- `src/schedule.rs`: the schedule of a training run — which batch each
  step reads (and where a resumed run picks up), held-out batches, when to
  evaluate, report and save, which checkpoints are kept, synthetic batches.
- `src/tokenizer.rs`, `src/paths.rs`, `src/updater.rs`, `src/order.rs`,
  `src/text.rs`: the tokenizer handle, data directories, release checks,
  string ordering and the text helpers the rest builds on.

`app/` is the `quark-code` terminal program around the library: it reads and
writes files, runs git, the shell and Python, draws the interface, and hands
the library plain values. `tests/` exercises the library from outside.
