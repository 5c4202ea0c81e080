# ws_tunnel

Tunnels TCP connections through a websocket, so that a machine behind a firewall can offer a TCP
service. A *client* on that machine connects to a *server* over a websocket and proves who it is with
HTTP basic authentication. The server then accepts TCP connections on the client's behalf and relays
their bytes, in both directions, over the websocket.

`src/` is the library: what the two programs compute and decide, verified with Verus.

| module          | what it holds                                                              |
|-----------------|----------------------------------------------------------------------------|
| `request`       | the head of an HTTP request                                                |
| `authorization` | the credentials of a request, read and written                             |
| `handshake`     | the websocket side of a request                                            |
| `admission`     | whom the server admits, and how it refuses the others                      |
| `frame`         | the websocket messages that the server sends                               |
| `tunnel`        | the server's side of a tunnel connection                                   |
| `listener`      | how the server serves tunnel connections, one after the other              |
| `session`       | the server's side of an open websocket                                     |
| `client`        | where the client connects, and what it does with what it receives          |
| `relay`         | what the two programs do together                                          |
| `config`        | the configuration of both                                                  |
| `error`         | the errors of the server                                                   |
| `text`          | strings                                                                    |

`app/` holds the programs: sockets, threads, channels, TLS and configuration files.
