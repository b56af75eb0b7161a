# distvirt-orchestrator

The orchestrator of a cluster that runs pods on workers: namespaces with their
workloads and services, the placement of pods, the networks between workers and
clients, and what clients are told of all that. Everything under `src/` is
verified with Verus; `app/` is the program around it.

## Layout

- `sorted_map`, `text`, `scan`, `bytes`, `agenda` -- ordered maps, texts and
  numbers, the splitting of texts, lists of things to do
- `ids`, `types`, `config`, `id_registry`, `pod_map`, `placement`, `output` --
  what the parts of the cluster speak of
- `namespace`, `service`, `workload`, `orchestrator` -- a cluster of state
  machines. One input at a time; what it leaves to do comes back as follow-ups
  and tasks. `settle` does those that stay inside, in order
- `adapter` -- the adapters between a namespace and its signal router
- `engine` -- a cluster around signal routers: scheduler, worker state, timers,
  and `engine::namespace`, which turns what a router delivers into commands
- `grpc` -- messages of the client protocol, their checks, and what is asked of
  the cluster (`service`) or of the engine (`calls`), with the replies
- `broadcast` -- commands for many workers

## Contracts

Every function says what it returns and changes over plain models: sequences and
maps of the values that tables hold. Functions named `law_*` state what holds of
several of them together: links between workers and namespaces stay sound,
names and segments are given out once, a grant that is revoked leaves nothing
behind, a scheduler picks the best worker.

One item is trusted: how `Debug` of the standard library quotes a text
(`text::quoted`).

## The program

`app/` reads the settings and listens; so far it only logs who connects. It
holds the check of a client's header and the cycle that drives a namespace
around a signal router, for a server and a router to use. It tests what the
library requires before each call.
