# boilchangeip

Changes the address of VPS servers through the Boil token API: from the command
line, from a Telegram bot and at set times. The rules are a library verified
with Verus; the program around it reads, sends and waits.

## Layout

- `src/` — the verified library
  - `config` — servers, timers and pairing; the configuration file, and what
    saving keeps in it; the setup
  - `boil` — the API: addresses of requests, replies and their errors
  - `reconnect` — one change of an address, step by step; the waiting time that
    the API imposes; changes of several servers
  - `timer` — daily changes, the messages about them, and further attempts
  - `bot` — the Telegram bot: who may give orders, what buttons, commands and
    texts mean, and what is answered
  - `cli`, `server_manage`, `ip_quality`, `status_card` — the command line, the
    list of servers, the quality of an address, countdowns
  - `text`, `number`, `time`, `address`, `redact` — texts, numbers, times and IP
    addresses
- `app/` — the program: arguments, files, HTTP, Telegram, the scheduler
- `tests/` — tests of the library

## How the two parts meet

The library takes and gives plain values. Where work alternates with decisions,
a decision is a function from what has happened to what is to be done next:
`ReconnectRun` for a change, `AutoRun` and `RetryRun` for timed changes,
`handle_callback`, `handle_command` and `handle_message` for the bot. The
program performs what is to be done and hands back what came of it.

Contracts speak of models: a text is a `Seq<char>`, a configuration a
`ConfigModel`, what the bot remembers a `BotModel`. The public proof functions
state what holds of the library as a whole, such as that a change is requested
once, that a confirmation works once, that what is saved is read back, and that
answers do not depend on the tokens.
