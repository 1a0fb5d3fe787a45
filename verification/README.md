# locaryn-plugin-voice-tts

Local text-to-speech for the Locaryn host: Kokoro and Qwen3-TTS weights run
by the Python found on the machine, and voice presets (a reference
recording, its transcript and diction settings) kept in the host's data
folder. Nothing leaves the machine: text goes in, a WAV comes out.

## Layout

- `src/` is the library, verified with Verus. Every decision lives there
  with its contract: which installed models can speak and in which order
  they are offered (`voices`), the language of a text (`language`), the
  length of a WAV from its header (`wav`), where models, outputs and presets
  live (`paths`), the Python scripts and their string literals (`synth`,
  `json`), the course of a synthesis step by step (`session`), presets
  (`presets`, with `stamps` reading their creation dates) and the routing of
  MCP requests (`mcp`). `text` and `order`
  hold the character-level helpers and the stable sort they rest on.
- `app/` is the stdio MCP server and the parts that touch the disk, the
  environment, the clock, processes or floating point; it hands the library
  plain values and acts on what it returns.
- `tests/` exercises the library on concrete values.
