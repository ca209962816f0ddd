# Loomterm

Loomterm runs commands for coding agents and keeps what they printed. A daemon
owns the history and the queue; a supervisor owns the process group of one
command; command-line, observer and operator clients talk to the daemon over a
local socket.

The library under `src/` holds everything that is decided: what a request means,
what is stored, what is answered, how a run goes on, what a screen shows. It is
written in Verus, and each function states what it returns and changes. The
program under `app/` does what a library cannot: sockets, processes, files,
clocks, SQLite and the terminal.

## Layout

| Module | What it holds |
| --- | --- |
| `model`, `protocol`, `error` | The values that are stored and sent, and the failures |
| `store` | Workspaces, executions with their events, recorded agent sessions |
| `executor`, `slots` | Admission, the run of one command, who may run, the capture queue, draining |
| `supervisor` | The life of one process group |
| `daemon`, `dispatch`, `startup` | Connections, subscriptions, operations, the lock and the socket |
| `client`, `cli`, `report` | What answers mean, what a command line asks for, what is printed |
| `delivery` | What output goes through from the command to a subscriber |
| `agent`, `onboarding`, `readback` | What agents report through hooks, and how a project is set up for them |
| `ui`, `ui_view`, `watch`, `screen`, `layout`, `output` | The operator view and the live observer |
| `json`, `toml_text`, `codec`, `text`, `quoting`, `paths`, `order`, `config` | Shared ground |

Each stateful type has a view, a plain mathematical value, and the functions on
it are stated as steps on views. The store is a value in memory; `store::serve`
carries out one command on it, and the program keeps it on disk.

Facts that concern the library as a whole stand as public proof functions beside
the modules they are about. Some of them:

- An execution ends once, and its history only grows (`store::laws`).
- Serving a command keeps the store sound: identifiers differ, references exist
  (`store::soundness`).
- Pruning makes room and spares what is still open (`store::room`, `store::laws`).
- Values of variables and the initial input are never stored (`store::laws`).
- A subscriber gets the log without gaps or repetitions (`delivery`, `daemon`).
- A command needs a slot, and a run ends its execution once (`executor`); no more
  commands run at once than there are slots (`slots`).
- A command to the store changes nothing outside its scope (`store::serve`).
- A command as it is shown reads back as its words (`quoting`).
- Once a project is set up, setting it up again changes nothing (`onboarding`).
- Every place of the screen belongs to just one panel (`watch`, `ui_view`).

What is believed of outside code is written where it is called: `codec`, `json`,
`toml_text`, `layout`, `client`, `onboarding`, `output`, `error` and `text` each
hold the few functions whose bodies Verus does not read, with what is claimed of
them.

## Names of agents

The library takes the name of an agent as a value wherever one is needed. The
program derives it from the variant of its own command-line type.
