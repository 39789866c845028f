# solana_tools

A verified library behind a Solana token trading bot launcher, and the
launcher program around it.

- `src/` — the library, verified with Verus:
  - `text`: trimming white space and NUL, decimal reading and writing.
  - `address`: Base58 address checks (32 bytes) and reading address lists.
  - `args`: the checks of the command-line arguments (worker count, token
    list file, total run time).
  - `prompt`: the interactive question for a single address, as steps from
    a reply to the next message.
  - `launch`: access policies, the worker command line, the token list
    upload, the instance startup script and the local worker arguments.
- `app/` — the program: argument parsing, terminal and file input, threads,
  child processes, the cloud calls, logging and floating-point work.
- `tests/` — tests of the library.

The program starts local workers by running a program named `executetrades`
beside itself; that is this same program under that name (a copy or link),
which then acts as the trader worker.
