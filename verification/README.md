# ravencoin_parser

Ravencoin script and address logic, verified with Verus.

- `src/script.rs`: script types and detection of asset-operation scripts
  (`OP_RETURN`, push length, `"rvn"` and an operation letter).
- `src/network.rs`: main and test network parameters.
- `src/base58.rs`: the Base58 (Bitcoin alphabet) encoding as a specification,
  the call into `bs58`, and lemmas on leading letters.
- `src/encoding.rs`: Base58Check framing with `sha2`'s SHA-256 and the
  witness-program address text.
- `src/address.rs`: address payloads and their Ravencoin addresses.
- `app/lib.rs`: conversions from the `bitcoin` crate's `Script` and `Payload`,
  and a serde-enabled copy of the script-type enum.
