# landlock_observability

Collects Landlock events from BPF programs. A worker thread polls a BPF ring
buffer and fills a bounded queue; one consumer receives from it. The decisions
of both sides are written and proved in Verus.

- `src/` is the verified library. The collector is plain data: each step of the
  worker or of the consumer is one call with an exact contract, and no call
  waits. `src/laws.rs` proves what holds over every run: accepted samples are
  delivered exactly once and in arrival order, omissions are announced by one
  notice before the next accepted delivery, the queue stays within its capacity,
  buffered entries precede a poll failure, a stopped worker is reported from then
  on, and startup succeeds exactly when every setup stage has.
- `app/` puts the collector behind a lock, runs the worker thread, and makes the
  libbpf calls.
- `tests/` runs the library on concrete values.

The events and the underlying errors are type parameters of the collector. The
record decoder and the compiled BPF object come from the embedding program.
