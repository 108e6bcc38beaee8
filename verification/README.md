# uniqx

A tunnel that exposes local HTTP and TCP services through a public server.

- `src/` is the verified library:
  - `protocol` — constants and the messages of the control protocol;
  - `subdomain` — the rules a tunnel's subdomain must follow;
  - `control` — what the server decides on a tunnel request, what it tells a
    client when a public connection arrives, and the routing laws;
  - `host` — reading the tunnel a public HTTP request is meant for from its
    `Host` header;
  - `reply` — the plain HTTP replies written on refused public requests;
  - `console`, `http_head` — the request console: captured messages, the
    events shown for them, and reading their heads;
  - `banner` — the lines the client prints once its tunnel is answered;
  - `decimal` — decimal text of numbers.
- `app/` is the program around it: command line, sockets, TLS, framing and
  JSON on the wire, and the console's web page.
- `tests/` exercise the library.
