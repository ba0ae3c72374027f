# pdn_ax25

Lets unmodified ham-radio applications use the pdn AX.25 engine in place of a
kernel `AF_AX25` stack. The logic is a Verus library: its functions are proved to
meet the contracts that stand in their headers, but for four that only pass a
call on and are taken on trust.

- `src/rhp`: the RHPv2 protocol. Frames, the Latin-1 codec, requests, replies,
  pushes, and a client without its transport.
- `src/rhpv2`: the client with its connect and accept registries.
- `src/libax25`: the helper library. Callsigns in text and in network form, the
  `axports` and calls tables, Rose addresses.
- `src/interpose`: the decisions behind the socket calls. Each call is a machine
  that takes an event and says what to do next.
- `src/text.rs`, `src/errno.rs`: text and errno values that the others share.
- `tests/`: tests of the library.
- `app/`: the shared objects around it. Sockets, threads, files, the environment
  and the C interface.

What the library promises as a whole stands in the proof functions whose names
begin with `law_`.

Taken on trust are `json_from_slice`, `json_get` and `json_quote` in
`src/rhp/json.rs`, which leave parsing and quoting JSON to `serde_json`, and
`push_char` in `src/text.rs`, which calls `String::push`. Their contracts say what
is relied on.

## Targets

Linux, wherever errno values and socket numbers are those of x86-64. MIPS and SPARC
have others: `app/` does not build there.

## Environment

| Variable | Meaning |
|----------|---------|
| `PDN_RHP_ADDR` | the address of the engine; `127.0.0.1:9000` where it is not set |
| `PDN_RHP_USER`, `PDN_RHP_PASS` | the credentials, where the engine asks for them |
| `AX25_AXPORTS`, `AX25_CALLS` | other files than those under `/etc/ax25` |
| `AX25_CALLSIGN` | the callsign that `get_call` gives |
| `AX25_SRC_CALL` | the callsign to call from, where a socket has none |
