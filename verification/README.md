# coxswain

A Kubernetes Ingress and Gateway API controller whose decisions are verified with Verus.

- `src/` decides: which objects are ours, what their status should say, whether a write is due, who
  leads, which ports are bound, how flags become settings, which policy has the say over a backend,
  and which key a response is cached under. Every function states what it returns, and the
  `*_laws.rs` files and the public proof functions state what holds across functions.
- `app/` acts: it watches and patches the cluster, holds the lease, runs the server and keeps the
  cache, and asks `src/` before each step.
- `tests/` runs the library on given values.

A status is written as a merge patch. The library hands out the patch as a `Json` value together
with the name of the object it is for; `app/` sends it and hands the reply back.
