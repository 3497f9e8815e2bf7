# erc721_substream

Indexing of an ERC-721 collection with Substreams, written and proved in Verus.

- `map_transfers` and `map_approvals` find the transfers and approvals in a block's log.
- `graph_out` turns them into changes to the tables `Transfer`, `Approval`, `Account`, `Token` and
  `Collection`.
- `map_blocks` asks each newly created contract for its name, symbol and decimals, by running its
  code in an interpreter against the storage that its constructor wrote.

## Layout

| Path | What it holds |
| --- | --- |
| `src/handlers.rs` | the handlers |
| `src/block.rs`, `src/creations.rs` | what is read of a block, and the contracts that it creates |
| `src/abi.rs` | the events and calls of the token interface |
| `src/changes.rs`, `src/tables.rs` | table changes |
| `src/contract.rs`, `src/execution.rs`, `src/evm.rs`, `src/storage.rs` | asking a contract |
| `src/opcode.rs`, `src/text.rs` | texts |
| `src/table_laws.rs`, `src/block_laws.rs` | laws that span several functions |
| `app/` | the Substreams module around the library: messages, and blocks as the chain sends them |

## What is trusted

The interpreter (`evm-core`), the decoder (`ethabi`), large numbers and hexadecimal texts
(`substreams`, `primitive-types`) and the table changes (`substreams-entity-change`) are called
through small wrappers. Each states in its `ensures` what is believed of the outside function.

Contract code may run for ever. The functions that run it are therefore proved for calls that come
to an end, and each has a companion, named `.._within`, that takes a limit on the number of
instructions and asks for nothing else.
