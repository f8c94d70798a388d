# meri_bot

A Discord assistant for a local LM Studio / Ollama server: chat with memory,
reasoning answers, web-page and YouTube summaries and rankings, vision
requests, a tool-calling agent, owner commands and slash commands, plus a
stand-alone YouTube subtitle fetcher.

## Layout

- `src/` — the library, written in Verus and verified. It holds everything
  the bot decides and says: parsing of commands and settings files, message
  splitting and framing, the cleaning of HTML and subtitles, the removal of
  think blocks, retry decisions, the conversation context across users, the
  agent's sandbox tools, its streamed tool calls and progress display, and
  every reply text. Contracts
  state each function's result exactly; laws about splitting, chunking, the
  context store (profile and shared-thread limits) and subtitle cleaning
  (cleaning twice changes nothing) are proved as `pub proof fn`s or as
  `ensures` clauses.
  Calls into `regex`, `sha2`, `base64`, `mime_guess` and `image` go through
  small trusted wrappers whose contracts are documented beside them.
- `app/` — the program around it: Discord (serenity), HTTP (reqwest), files,
  processes and timing. It reads input, asks the library what to do and say,
  and does it.
- `tests/` — tests of the library on concrete values.

Run the bot with a `botconfig.txt` holding `DISCORD_TOKEN=...` and an
`lmapiconf.txt` with the LM Studio settings; run `meri_bot subtitles <url>`
for the subtitle fetcher.
