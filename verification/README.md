# vm_relay

A durable telemetry relay. Metric batches come in over a named pipe, wait in an
embedded ordered store, and leave over mutually authenticated TLS to a sink that
imports them.

The library under `src/` holds the decisions of the relay, each with a contract
that Verus proves:

- `relay::record`: the key and the envelope under which a message is stored;
- `relay::ingest`: what is done about each event at the pipe, and how numbering
  goes on after a restart;
- `relay::egress`: which records make a batch, what is posted, and what follows
  from the answer: removal, dead letters, backoff;
- `relay::retention`: what a retention pass evicts;
- `relay::store` and `relay::history`: the store as a pair of maps, and what holds
  of it after any row of changes, above all that no message is lost;
- `tls::pin` and `tls::hexadecimal`: server authentication by public rules and by
  a pinned fingerprint;
- `tls::suites`: which cipher suites and curves the channel may use;
- `tls::client`, `tls::identity`, `tls::scheme`, `tls::signature` and `tls::der`:
  the client's certificate, its key and its signatures;
- `audit`, `config` and `lifecycle`: the event catalogue, the settings with their
  defaults, and the start of the program;
- `bytes` and `text`: big-endian numbers, decimals, margins.

What is believed of other crates without proof stands in functions marked
`external_body`, each with a comment on what it claims: `hex` for decoding,
`sha2` for digests, `rustls` with `webpki-roots` for the public certificate rules,
`rand` for the jitter.

The program under `app/` is ordinary Rust around the library: it reads the pipe
and the configuration, keeps the store with `fjall`, posts with `reqwest`, and
calls the Windows certificate functions. It runs on Windows, as a service or with
`--console`.
