# codex_whatsapp_bridge

The logic of a self-hosted bridge between one private WhatsApp self-chat and a
local Codex session, verified with Verus.

`src/` is the library. It does no I/O:

- `coordinator` is the conversation state machine. Its owner performs the effects
  that it gathers and the action that it names, and hands back the outcome. The
  machine decides what a message becomes, when it is submitted to Codex, what is
  saved before anything is done, and what the user is told. `coordinator::laws`,
  `coordinator::steps`, `coordinator::custody`, `coordinator::places` and
  `coordinator::courses` state what holds of it as a whole.
- `transcript` projects app-server notifications onto an ordered transcript.
- `messaging` is the durable delivery queue: journal and worker, with
  `messaging::laws` and `messaging::runs`.
- `approval`, `commands`, `command_catalog`, `attachment`, `output`, `state`,
  `ledger`, `health` and `notifications` are the pieces that these work on.
- `transport`, `openwa` and `http` build the requests to the gateways and read
  their replies; `webhook`, `transport_webhook` and `signature` take webhooks in.
- `config`, `onboarding`, `setup_view`, `secret` and `service` cover settings, the
  setup step and the HTTP service.

`app/` is the program around it: files, sockets, HTTP, the terminal, and the loops
that drive the coordinator and the delivery worker. `tests/` runs the library with
an app-server, a transport and a disk that are played.
