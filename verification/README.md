# wayland-backend-rs

The client side of a Wayland connection, verified with Verus.

The library under `src/` holds the state of a connection and every decision on it:

- `protocol`: interfaces, messages, arguments, errors, and the interface of the display;
- `map`: the objects of a connection, by id;
- `wire`: messages as they travel;
- `text`: comparing, composing and decoding text;
- `client`: identifiers, requests, constructors, events, and dispatching. `client::model` is the
  mathematical model that the contracts speak of, `client::laws` states what holds of a connection
  as a whole, and `client::history` what holds over its life, after any sequence of calls.

`app/` joins the library to a buffered socket, to the callbacks of a user and to the environment.
The library tells it what to write, which callback is due, and whether to read on.

A request that must not be made (an unknown opcode, arguments that do not fit, an object of the
wrong interface) is a misuse. `check_request` and `check_constructor` find it out beforehand;
`app/` ends the program over it.

## What is not proved

A few calls leave the library, each through one small function whose contract is taken on trust:

- `smallvec`: making, filling and reading the list of the arguments of a message (`wire`);
- the standard library: decoding text that may not be UTF-8 (`text`);
- `nix`: the number of the error for a broken protocol (`client::dispatch`).
