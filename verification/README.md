# mcp_gateway

The verified core of a gateway for the Model Context Protocol. A client talks to
one server; the gateway lists the tools, resources and prompts of several
backends there, and sends each request on to the backend it is for.

- `src/` is the core: how names are made and taken apart, how lists are merged,
  where a request goes, how a session begins, and what the gateway keeps. Its
  contracts are proved with Verus. The few calls into other crates are declared
  next to what is believed of them.
- `tests/` runs the core on concrete values.
- `app/` is the server around the core: it validates requests, connects to
  backends and awaits their responses.

Requests that need the outside world are served in steps. A step says what to do
next, and what comes of it is handed to the value that the step carries.
