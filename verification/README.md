# maturana

The logic of a host for isolated coding agents, as a verified Verus library:
orchestration of plans and boards across workers, the chat channels (Telegram,
Discord, Slack, AgentMail), the agent-to-agent endpoints, the knowledge-graph
service's protocol, and the command line's decisions and wording.

- `src/` is the library. Every function states its result in a contract over
  mathematical models, and public proof functions named `law_..` state what
  holds across calls. Work that alternates with I/O is a state machine: a
  function from a stage and an event to the next stage and an action.
- `tests/` runs the library on concrete values.
- `app/` is the program around it: arguments, files, sockets and processes.
  It performs the actions and hands back the events.
