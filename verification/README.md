# Oxidized Wall

A web application firewall and reverse proxy whose decisions are verified with
[Verus](https://github.com/verus-lang/verus).

- `src/` is the library. It performs no input or output and holds the rules of the
  proxy but for the token bucket of the bandwidth quotas: request verification
  (`proxy`, `protocol`), signature rules (`waf`), bans (`ban`), request quotas
  (`ratelimit`), routing (`config`), upstream health (`health`), response
  sanitisation (`proxy::reply`), stream throttling (`bandwidth`), certificates
  (`tls`) and the accept loops (`server`). Each function states what it returns, and
  public proof functions state what holds of the library as a whole.
- `app/` is the program around it: sockets, TLS, the configuration file, timers, and
  the token bucket, which counts in floating point.
- `tests/` runs the library against the crates that it calls.

Time is a number of nanoseconds since the start of the process; the program reads the
clock and hands it in. Work that has to wait (reading a body, asking an upstream
server) is split into steps: the library says what to do next, the program does it
and reports what happened.
