# k8s-job-dispatcher

Run exactly one node-pinned Kubernetes Job per selected node, paced, with guaranteed
per-node coverage.

The decisions of a run are a library verified with Verus (`src/`): which nodes a run acts
on, what it writes on them and when, how many Jobs are in flight, what becomes of each
node, and what is said about it. The program around it (`app/`) talks to the apiserver: it
does what the library asks for and hands back what came of it.

| Modules | What they decide |
| --- | --- |
| `args` | the flags, and what they require of each other |
| `selection`, `settle`, `node_filter`, `template` | which nodes are selected, settled and may run the Job |
| `nodes`, `writes`, `write_laws`, `json` | the labels, taints and results of a node, each write as a guarded JSON Patch |
| `guarded`, `waits`, `node_ops`, `work` | the work around a Job, step by step |
| `dispatch`, `turn`, `stamp` | a node's turn, from the queue to its Job |
| `job`, `owners`, `takeover` | what Jobs are called, whose they are, and what other runs left |
| `ledger`, `fanout`, `summary` | the account of the rollout and how it ends |
| `diagnosis`, `report` | what a Job's pods say about it, and the Events about a node |
| `text`, `order`, `labels`, `objects` | texts, sorting, string maps and the objects read |

The proof functions named `law_*` state what holds across functions: that every node is
covered exactly once, that no write acts on a replaced machine, that a Job is created only
after every check, that a node is labelled only once it is ready, and so on.

Time is passed in as the nanoseconds since the run started, and a refused request as its
status code and message, so the library does no I/O of its own.
