# Dataflow control

The verified control plane of a dataflow runtime. A command line tool asks a coordinator to
build, start, inspect and stop dataflows; the coordinator has daemons spawn their nodes; nodes
and operators report back. What each of them decides stands in `src/`, with contracts that
[Verus](https://github.com/verus-lang/verus) proves.

| Module | What it holds |
| --- | --- |
| `run` | sorting nodes by machine, finding their daemons, planning and executing spawns |
| `server`, `state`, `laws` | what the coordinator knows, how it answers requests, and what holds of its answers |
| `daemons` | the connected daemons |
| `common` | which dataflow is meant, working directories, results of calls |
| `logs`, `distributed` | sessions that show logs and wait for builds |
| `operator` | the run of a Python operator, step by step |
| `control_channel` | what a node tells its daemon |
| `tcp` | messages on a byte stream |
| `message`, `ids`, `text` | the vocabulary: messages, identifiers, texts |
| `ordered`, `registry` | maps that keep an order, tables found by identifier |

Where something has to be done outside (a socket, the interpreter, the terminal), the library
says what is to be done and is told what came of it. `app/` does it: it holds the sockets, the
encodings, the command line and the Python interpreter.

The few calls into other crates that the library makes itself stand in functions marked
`external_body`, each with a comment that says what is taken for granted: identifiers from
`uuid`, names from `petname`, grouping from `itertools`, and the index of `registry` from
`dashmap`.
