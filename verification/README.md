# smithy_pool

Verified state machines of a partitioned HTTP/1 and HTTP/2 connection pool.

- `src/` is the library, verified with Verus. Each origin cell (`cell.rs`)
  combines an acquisition queue of waiters in arrival order (`waiters.rs`),
  HTTP/1 sender records with their peer reservation and fairness turn
  (`h1.rs`, `claims.rs`), and HTTP/2 flights, generations, activation gates
  and peer routes (`h2.rs`, `h2_request.rs`, `activation.rs`). Connection
  lifetime (`connection.rs`), establishment observations (`events.rs`),
  transport connector caching (`transport.rs`), partition-bound clients
  (`client.rs`), and the wire-form and dispatch decisions (`dispatch.rs`,
  `establish.rs`) complete it. Every cell method is one transition under the
  cell lock; the work it detaches is returned to the caller.
- `app/` is the runtime plumbing Verus does not see: cells behind a mutex,
  wakers, conversion of `hyper` messages to the library's plain values,
  sender readiness polling and error display.
- `tests/` exercises the library through its public interface.
