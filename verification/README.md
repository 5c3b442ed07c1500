# rust_demo

A small collection of verified components:

- `fly_coin`, `fly_account`, `fly_result`, `flycoin`, `flyaccount`,
  `basic_coin`: coins that move between owners, join and split, and accounts
  that hold their balance.
- `bft_message`, `bft_node`, `bft_laws`, `communication`, `digest`: the
  messages and the decisions of a replica of a three-phase (PBFT style)
  consensus, its wire format, and the properties proved of them.
- `command_executor`: a key-value store run by `put key = value`,
  `get key` and `delete key` commands, with its check points.
- `pbft_client`: how a client reads a replica's reply.
- `conse_token`, `conselexer`, `consesyntax`, `consesemantic`: the conse
  script language: tokens, lexer, parser, interpreter and scope analysis.
- `text`: text helpers shared by the modules.

`src/` is verified with Verus. `app/` holds the programs around it (the
replica with its TCP transport, the client, the script interpreter and a few
demonstrations); `tests/` runs the library on concrete values.
