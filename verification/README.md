# subspace_conduit

A small file-transfer tool for the local network: a server shares a
directory over TLS, clients list, download and upload files (resumable, with
SHA-256 checksums), servers are found by mDNS, and a server's certificate is
trusted on first use.

`src/` is the verified library (Verus): the wire format, the decisions of
both sides of a session, the known-hosts table, the server's path rules, the
resume arithmetic, and the text the tool prints or sends. Each public
function states its result in its contract; the laws that span functions are
public proof functions next to them (`law_*`).

`app/` is the command-line program around it: sockets, files, TLS sessions
(rustls), mDNS, the interactive prompt and argument parsing.

`tests/` runs the library on concrete values.

The desktop front end is not included: there is no window program here.
What it decides is in the library all the same — the server's run state
(`control`) and the table of open client sessions by id (`sessions`) — and
is verified like the rest, but nothing in `app/` calls it yet.
