# omnipaxos_kv

A replicated key-value store's command logic and the logic of its
linearizability test harness, written in Verus with contracts.

Layout of `src/`:

- `string_map`: a string-to-string map kept as a list of distinct keys.
  The store holds `String` keys; vstd specifies `HashMap` only for key
  types that obey its key model; vstd states that of integers, `bool` and
  the like, not of `String`, and the crate would have to assume it. This
  map stands in for it, with a contract over `Map<Seq<char>, Seq<char>>`.
- `kv`: commands, log entries and server messages.
- `database`: the state machine (put, get, delete, compare-and-swap) and
  its laws (read after write, frame, compare-and-swap exactly once).
- `replica`: applying the decided log, routing answers to clients and to
  waiting HTTP requests, and the start-up step (the initial leader's
  takeover, its start announcement to peers and clients, and a follower's
  passing the announcement on to its clients).
- `shim`: turning HTTP requests into commands and outcomes into responses.
- `client`: request bodies, reading replies (success, failure, open
  outcome), rotation through the servers.
- `generator`: keys `k0..`, values `v0..` and compare-and-swap expectations.
- `history`: the recorded events, their counts and their EDN form.
- `harness`: history events of operations, process ids, learned values.
- `nemesis`: which containers to partition, crash or kill for quorum loss,
  and the bookkeeping of what is down.
- `fault_rounds`: the round-by-round schedule of each fault kind as a step
  function from what the last action achieved to the next action, with the
  list of containers left broken.
- `text`, `decimal`: comma-separated lists and decimal notation.
- `random`: the one call into `rand` that the library makes.

`app/` holds the test harness program, the HTTP shim server and the
OmniPaxos loop, Docker fault injection and everything else that does I/O.
