# polyminis_server

The core of the Polyminis simulation server, verified with Verus.

- `src/json.rs`: JSON values and their mathematical view (objects as maps).
- `src/epoch.rs`: what is kept of one epoch of a simulation, and its summary.
- `src/cache.rs`: the `lru_cache::LruCache` that holds a worker's epochs,
  with the contracts of the methods the worker calls.
- `src/worker.rs`: a simulation's worker state: the queue of actions and the
  ten most recently used epochs, and the queries the HTTP handlers make.
- `src/handling.rs`: how the worker handles an action, as a state machine
  that tells the worker which outside work comes next.
- `src/routes.rs`: how a request is served, from its route and the numbers in
  its path.
- `src/server.rs`: the registry of simulations.
- `src/laws.rs`: properties that span several operations.
- `app/`: the HTTP server (rustful), the locks and worker threads, and the
  calls into the simulation engine.
