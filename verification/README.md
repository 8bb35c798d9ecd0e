# zju_assist

A verified library for the learning services of Zhejiang University, and the command line tool
around it.

The library decides; the tool performs. No function of the library opens a connection or a file.
Where a task takes several requests, the library gives the first one and, for each reply, what
follows it: the next request, a wait, or the result. The tool sends the request, waits, and hands
the reply back.

- `src/` is the library. Every function states in its contract what it returns, over spec
  functions that say what each reply leads to; laws that span several steps are public proof
  functions beside them. The calls into other crates stand in `src/boundary.rs` and
  `src/json.rs`, each behind a function whose contract says what the call returns.
- `app/` is the tool: arguments, connections, files, the keyring and the sockets.
- `tests/` runs the library on given replies.

| Module | What it decides |
| --- | --- |
| `request`, `zju_assist` | requests, their headers, and how often one is sent |
| `login`, `encryption` | logging in and again, the password's encryption, the token |
| `courses`, `uploads`, `files` | courses, their files, which are missing, which one is meant |
| `classroom`, `search`, `classroom_courses` | timetables, lectures, and the search for courses |
| `slides` | recordings, slides and their images |
| `live`, `transcript`, `capture` | live transcripts: sockets, lines, sessions |
| `zdbk` | the register of marks |
| `pintia`, `problem_sets` | the problem set service |
| `cli` | settings, passwords and lists of the tool |
| `json`, `text`, `numeral`, `sequences`, `sorting` | documents, texts, numbers, lists |
