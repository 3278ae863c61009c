# web3_suite_identity

Decentralized identity primitives for Soroban, with their logic verified in Verus:

- `src/did.rs` — the DID registry (create, resolve, update, deactivate, transfer, active check);
- `src/credentials.rs` — verifiable credentials (issue, verify, revoke, fetch, issuer and subject indexes);
- `src/kyc.rs` — tiered KYC verification (submit, approve, reject, read with expiry, verifier registry, level check);
- `src/bytes.rs`, `src/store.rs` — identifiers, addresses, big-endian counters, and the keyed map the contracts keep their state in;
- `src/hash.rs` — SHA-256 through the Soroban host, from which DID and credential identifiers are derived.

Each contract operation exists as a decision on one stored record (the `*_record` functions) and as a method
of the contract's in-memory model, whose contract states the whole state change. Laws that span calls
(deactivation is permanent, only owners, issuers, verifiers and the admin act, approvals hold one year,
refused calls change nothing) are proof functions beside them. The laws that depend on identifiers being
fresh (a new DID or credential never lands on a stored identifier, the issuer and subject indexes list
exactly each issuer's and subject's credentials, revocation and expiry are permanent) are proved for every
state reached from a new contract, under the premise that SHA-256 has no collisions and that addresses
are 56-character strkeys.

`app/` holds the Soroban contracts themselves: they ask the host for authorization, the ledger time and the
stored values, call the verified decisions, and write back and publish what those give.
