# greetd_ipc

The greeter's side of the [greetd](https://git.sr.ht/~kennylevinsen/greetd) IPC protocol, verified
with Verus.

- `src/` is the library: requests and their JSON text (`request`, `json`), the message format
  (`frame`), responses and how they are read (`response`), which requests may be sent (`greetd`),
  what a response leads to (`source`), the calls into the `writeable` crate (`hint`), and what holds
  across calls (`laws`).
- `app/` puts the library on a Unix socket and into a `calloop` event loop.
- `tests/` runs the library.
