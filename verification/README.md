# zmq_bench

Latency benchmarks over ZeroMQ for three messaging patterns: publish-subscribe, pairs of dealers,
and a ring of dealers around a router. A further set of roles puts a proxy between two dealers.

A sender greets its receivers until all of them are known to listen, announces the cutover with a
begin marker, and then sends messages whose first eight bytes hold a reading of the time stamp
counter. A receiver drains everything up to the begin marker, collects exactly as many messages as
there are to be, and makes a histogram of the latencies.

- `src/` is the library, verified with Verus: the wire format (`zmq_helpers`), the state machines
  (`sender`, `receiver`, `router`, `proxy_router`), how messages are framed (`frames`) and what all
  of them achieve together (`protocol`), the addresses and file names (`endpoints`, `records`),
  what each role needs (`plans`, `roles` and one module for each role), the series of runs
  (`suite`), and the histograms (`aggregator`).
- `app/` is the program: sockets, tasks, the clock, pinning, files and the command line.
- `tests/` runs the library on concrete values.
