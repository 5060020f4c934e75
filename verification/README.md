# agent_server

The decision core of a server that automates a desktop chat client, written and
verified in Verus.

- `src/` is the library. Every function has a contract over plain mathematical
  models; the properties that span functions stand as public proof functions
  named `law_*`.
  - `text`, `text_map`, `seqs`, `clock`: texts, maps from texts, filters, time.
  - `a11y`, `titles`, `multi_frame`, `target_chat`: what an accessibility tree
    shows: the active chat window, its composer, the open chat, the search box,
    the rows of chats. Whatever is ambiguous is refused.
  - `send_message`: the plan that sends one message, once, to the chat that was
    verified.
  - `session`, `health_monitor`: watching over the client process.
  - `keys`, `media`, `messages`: requests for keys, media and lists, and requests
    to send.
  - `live_db`, `snapshot`, `hot_query`, `queries`: private snapshots of live
    databases, queries on them, and the statements of the server's own database.
- Where a decision alternates with outside work, the library holds a state
  machine: its stage says what is needed next, and `resume` takes in the answer.
- `app/` is the server around it: handlers, files, connections, the clock.
- `tests/` run the library with the real outside crates.

What is trusted rather than proved stands in `external_body` functions and one
`assume_specification`, each with a comment that says what is claimed of which
outside function: lower case and lossy UTF-8 of the standard library, `regex`,
`base64`, and the header values of `http`.
