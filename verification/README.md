# tx_spammer

A load generator for EVM networks: it deploys an ERC20 token or a gas
stress contract, and sends batches of signed transactions at a target rate.

`src/` is the verified library (Verus):

- `numtext`: unsigned integers read from text in a radix, and written in decimal.
- `hexcode`: hexadecimal text of byte strings (through the `hex` crate).
- `address`: twenty-byte addresses read from text (through alloy).
- `abi`: call data (selector from Keccak-256, one word per argument) and returned words.
- `rpc`: JSON-RPC batch bodies, written as bytes.
- `fees`: the fee decision from the fee batch's replies.
- `spam`: the fields of each transaction of a batch, and how replies move the nonce and the count.
- `deploy`: deployment payloads from the text of compiled artifacts.
- `keys`: the signing key's presence and its account address.
- `cli`: the command line.

`app/main.rs` is the program: environment, files, RPC, signing and printing.
