# crust

The verified core of a Minecraft server (protocol 1.8 to 1.19) that talks to
its clients through a reverse proxy.

- `src/` is the library, written in Verus: variable-length and fixed-width
  integers and strings of the Minecraft protocol, the packets that the server
  and the proxy exchange, chat components, protocol versions, the table of
  connected clients, and the decisions that the server and the proxy take on
  each packet (for the server: which packets, chat lines and changes to the
  game answer each request, as a list of actions).  Laws about them (what a read gives back of a write, how chat
  styles combine, what a client table answers after an insertion) are public
  proof functions next to the code they speak of.
- `app/` is the program around it: sockets, threads and channels, JSON and
  TOML, fresh UUIDs, the console, and the packet that carries
  floating-point coordinates; it carries out the library's actions.
  Without arguments it runs the game server; with the argument `proxy`, the
  proxy.
- `tests/` runs the library on concrete values.
