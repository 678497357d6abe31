# httptester

A webhook testing server. A browser subscribes and gets a URL; every HTTP request
to that URL is cut into chunks, queued on disk and delivered to the browser by Web
Push.

- `src/` is the logic, verified with Verus: configuration, validation of
  subscriptions, rate limiting, chunking, the layout of queued records, the
  transactions on the queue, the decisions of the delivery workers, and the making
  of push messages.
- `src/outside.rs` and the head of `src/text.rs` hold the calls into other crates
  and into the standard library whose contracts are believed rather than proved.
- `app/` is the server around it: HTTP, the databases, the push client.
- `tests/` runs the library.

The functions named `law_*` state what holds of the library as a whole: that the
chunks of a webhook make up its stream and fit in push messages, that the queue
never exceeds its limit and hands records out as they were put in, that a record is
sent a bounded number of times, and that the rate limit holds per window.
