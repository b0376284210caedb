# grill-mcp

Voice transport for a spoken interview: an MCP server with three tools
(`begin`, `ask`, `end`) that speaks a question, listens to the microphone until
the answer is over, and returns the transcript.

- `src/` is the verified library (Verus). It holds every decision of the
  pipeline: the endpointing of an answer from voice-activity verdicts
  (`endpoint`), the question/answer turn (`turn`), the voice worker that
  serves requests one at a time and loads the models once (`worker`), and the
  fixed configuration, artifact checks and answer values (`engine`, `text`).
- `app/` is the program around it: audio capture and playback, speech
  synthesis and recognition, the voice-activity model, the MCP server, and the
  `roundtrip` latency harness (`grill-mcp roundtrip`). It performs what the
  library asks for and reports each outcome back as an event.
- `tests/` exercises the library on concrete values.
