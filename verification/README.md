# relay

The pilot data relay carries flight telemetry from the X-Plane plugin
(through baton, over a local socket) to iMotions (over TCP).

`src/` is the verified library, checked by Verus:

- `payload`: baton payloads split into fields, fields framed as iMotions
  event packets (`E;1;PilotDataSync;;;;;<Event>;<values>\r\n`), lines read from
  baton classified.
- `addrs`: TCP address validation, the sorted list of saved addresses and the
  text of the file that keeps it.
- `relay`: the GUI state and what each event does to it; an address is
  saved once the TCP thread reports that it connected, and only a check of
  the TCP link moves its status line.
- `metrics`, `chart`: packets and bytes of the last minute and second, the
  live chart's points.
- `logger`: timestamps, the console throttle, hex dumps.
- `xml`: the `iMotions.xml` event-source definition, one `<Sample>` per
  selected parameter, eight in all.
- `baton`: baton's retry schedule, reply wait and wire lines, and the order
  of a link session (greeting, reply, three test batches, data, `SHUTDOWN`).
- `ipc_link`: the relay's side of a connection from baton (greeting, reply,
  payloads until `SHUTDOWN`).
- `server`: the mock server's port argument (7878 by default) and how it cuts
  the bytes it receives into packets.
- `text`, `view`, `message`, `channel`, `meet`: text helpers, window texts,
  thread messages, channel status, the build smoke test's pairs.

`app/` is the program around it: the iced window, the IPC and TCP threads,
the files and baton's plugin thread. `relay mock-server [port]` runs the mock
iMotions server and `relay client` its test client.
