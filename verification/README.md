# Lightbench

A load testing framework: rate-controlled load against external systems, with latency,
throughput and error figures.

- `src/` is the verified library. It holds the decisions: token buckets, the workers of the
  three patterns (request/response, producer/consumer, submit and poll) as step machines, the
  order in which a run proceeds, error counts, sequence tracking, and the text of tables and
  reports. What a run does while its rate still rises is kept apart from what it measures.
  Contracts are stated over mathematical models; `law_*` proof functions state what
  holds across calls.
- `app/` runs the load tests: tasks, timers, the latency histogram, files and printing. It
  performs what the library asks for and reports what became of it. Floating point arithmetic
  and its formatting stay here.
- `tests/` exercises the library.

Rates and averages cross the boundary as bit patterns (`Float`), lengths of time as `Span`.
