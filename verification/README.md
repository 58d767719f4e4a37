# uot

The server side of UoT, UDP over TCP: a client asks for a magic domain as the target of a TCP
stream and then tunnels UDP datagrams inside that stream.

`src/` is a library verified with Verus. It performs no I/O. It says which addresses ask for a
tunnel, cuts the stream of a client into datagrams, frames the replies, and decides, event by
event, what the two directions of a tunnel do next. The laws that hold of every tunnel are the
public proof functions of the `*_laws` modules.

`app/` runs tunnels over real streams and sockets with tokio and shadowsocks. `tests/` runs the
library in memory.
