# runnel

A proxy in three roles. A client takes SOCKS5 connections from applications and
carries them to a server, a server opens the targets for clients that prove that
they know the password, and a tunnel device sends the packets of a whole machine
through the client. A dashboard and a few commands watch and steer the services.

The library under `src/` holds everything that is decided or computed, and Verus
proves each of its functions against its contract. It does no input or output:
where a connection, a session or a command goes on in steps, a function takes how
far it is and what happened, and gives back how far it is then and what is to be
done. The program under `app/` reads, writes and waits, and asks the library what
comes next.

| Module | What it holds |
| --- | --- |
| `text`, `num`, `bytes`, `ip`, `net`, `paths`, `textmap`, `assoc`, `ids` | Texts, numbers, addresses, paths and small collections |
| `crypto`, `glob`, `urls`, `tls` | What other crates compute: digests, patterns, URLs, server names, PEM files |
| `auth`, `proxy::auth` | Signed requests that are accepted once |
| `http`, `socks5`, `proxy::socks5`, `proxy::udp`, `mux`, `czar`, `daze::wire`, `daze::baboon` | Formats on the wire |
| `client`, `server`, `mux::session`, `daze`, `proxy::udp_assoc`, `proxy::remote`, `fallback` | Connections and sessions |
| `route`, `proxy::route`, `proxy::adblock`, `proxy::target` | Where traffic may go, and which way |
| `traffic`, `telemetry`, `tui` | Counting, watching and showing |
| `config`, `runtime`, `cli`, `tun`, `system_proxy`, `cert`, `wg`, `mode` | Settings, commands and the system around |

The functions that call other crates are marked `#[verifier::external_body]`; the
comment above each says what is taken for granted of the call.
