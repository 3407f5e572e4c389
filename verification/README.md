# orbien

A client and a server for tunnels: a client on a private network asks a server on a
public one for ports and domains, and carries what comes in there to its own services.

The library under `src/` is written in Verus. Every public function in it states what
it returns or changes, and Verus proves that it does. It holds what decides:

- `config`: the settings of clients and servers, how they are completed and checked.
- `client`: the state of a running client, its sessions, its tunnels and how new
  settings are taken over; the plugin that ends TLS and rewrites request heads.
- `server`: sessions, names and ports of tunnels, counting by the hour.
- `dashboard`: who may see it, what it shows, and in which order.
- `net`, `mux`, `transport`, `msg`: request heads, keepalive, shared connections and
  the messages between client and server.
- `text`, `utf8`, `names`, `order`: the vocabulary of the others.

What a module promises as a whole stands beside it as public proof functions.

A few functions call other crates: `httparse`, `base64`, `uuid`, `chrono`, and text
functions of the standard library. Their contracts are believed, and each says in its
comment what it claims.

`app/` is the ordinary Rust around the library: sockets, files, tasks and the web
server. `tests/` runs the library.
