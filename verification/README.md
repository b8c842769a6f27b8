# vex

A minimal load tester for HTTP/3 servers. The decisions and the accounting
are a library verified with Verus; the program around it drives sockets,
QUIC (`quiche`) and the async runtime (`tokio`).

## Layout

- `src/` – the verified library
  - `target.rs` – splitting a target (`host`, `host:port`, `[v6]`,
    `[v6]:port`, behind an optional `http://` or `https://`) into host and
    port, and the `host:port` text handed to the resolver
  - `status.rs` – success patterns (`2xx,3xx,500`), status classes, and
    per-code response counts
  - `workload.rs` – sharing requests among workers, and the verdict on a run
  - `summary.rs` – what one worker saw, and the totals of a run
  - `pool.rs` – error counters, and the connection kept between requests
  - `response.rs` – request headers, and what HTTP/3 events make of a
    response
  - `handshake.rs` – client transport settings, connection IDs, and the
    handshake loop's decisions
  - `numeric.rs`, `text.rs` – reading numbers and handling text the way
    `u16::from_str` and `str` do
  - `constants/` – tuning values
- `app/` – the command line, networking and the printed report
- `tests/` – tests of the library

## Usage

```bash
vex --target example.com --workers 100 --requests 5000
vex --target service.local --port 8443 --path /api/health --insecure
vex --target example.com --success-status 2xx,3xx --verbose
```

Requests are shared so that each of M workers gets N / M of the N requests,
and the first N % M workers one more.
