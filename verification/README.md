# webshell

A websocket server that gives a browser interactive shells in pseudo
terminals, forwards `/portforward/<port>/...` requests to local ports, bridges
language servers, and serves file-system commands.

- `src/` is the library, verified with Verus: the message protocol
  (`protocol`), the shell registry and the decisions on each message
  (`server`), integer formatting and parsing, trimming and joining (`text`),
  port-forward routing (`port_forward`, with the `regex` searches in
  `pattern`), language-server framing (`lang_servers`) and the file-system
  commands (`process_dir`).
- `app/` is the program around it: the `warp`/`hyper` routes, the websocket
  plumbing, the pseudo terminals (`portable-pty`), the JSON encoding
  (`serde_json`) and the file-system calls.  It carries out the actions that
  the library returns.
- `tests/` exercise the library on concrete values.
