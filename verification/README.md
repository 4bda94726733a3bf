# frakt

A distributed fractal renderer: a server splits an image into tiles and hands
them to workers over TCP; workers compute the pixels and send them back; a web
portal lets a user move the view and cycle through fractals.

- `src/` is the verified library (Verus): the two wire formats
  (`network`, `networking`) with their read-back laws, the byte codecs
  (`codec`, `pixels`), the worker pool (`pool`), helpers on the server's
  integer state such as fractal cycling, resolution and tile choice
  (`networking::server`), task planning (`tasks`), palette cycling
  (`rendering::color`), and the parsing of command-line and portal input
  (`cli`, `portal`, `local_env`, `listener`).
- `app/` is the program around it: sockets, threads and async tasks, JSON with
  serde, the web portal, logging, and the floating-point fractal and colour
  computations.
- `tests/` exercises the library on concrete values.
