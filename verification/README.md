# test_providers

Checks whether execution-layer providers (three PandaOps endpoints and Infura) can serve valid
headers, receipts and block bodies. Blocks are sampled at random from every hard fork range of
Ethereum's main chain, every provider is tested on the same blocks, and the failures are counted
by range and by provider.

    test_providers --sample-size 5

- `src/` is the verified library.
  - `constants`, `config`: fork blocks, the size of an epoch, what the user chooses.
  - `sampling`, `ranges`: the sampled blocks of each fork.
  - `providers`, `client`: the providers, their endpoints and their HTTP clients.
  - `epoch`: where the epoch accumulator of a block is kept and how its file is read.
  - `session`: which request comes next and what its outcome does to the counts.
  - `session_laws`, `session_counts`: what holds of every session, and what its counts mean.
  - `text`, `success_rate`: decimal and hexadecimal text, failure counts.
- `tests/` runs the library.
- `app/` is the program: arguments, environment, files, network and log. `app/portal.rs` holds
  the calls into the bridge's own crates.
