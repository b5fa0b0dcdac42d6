# orange-platform

The platform layer of the Orange client: data-plane configuration, node
selection and delay tests, the data-plane supervisor's decisions, event and
diagnostics streams, settings persistence, secret storage, and the account
service's client and validators.

- `src/` is the library, written and proved with Verus. Each module states
  what its functions return in `requires`/`ensures` contracts over
  mathematical models, and the laws that span several functions are public
  proof functions.
- `app/` is the shell around it: JSON reading and writing, files, threads,
  locks, clocks and the operating system. Its loops call the library for
  their decisions (the event monitor's latches, for one) and carry out what
  it decides. The account service's JSON answers are read there into the
  library's plain data types (`app/business_responses.rs`), and the library
  checks them and turns them into what the client shows.
- The account service (`BusinessApiService` in `src/business_service.rs`)
  keeps the configuration and the session shown, and runs each operation's
  decisions: a logout stops the data plane before any credential is deleted,
  a refused session signs out, and the stored session is checked in steps.
  The client records, as ghost state, the calls it makes to the secret store
  and the commands it hands to the transport, so that these orders are
  stated. `app/business_api.rs` shares the service between threads and
  speaks JSON.
- `tests/` exercises the library through its public interface.

Calls into outside crates (`base64`, `sha2`, `url`, `percent-encoding`,
`zeroize`, `getrandom`, `keyring`) go through small wrappers whose contracts
say what the library relies on.

The traits a platform implements (the secret store, the network transport,
the data plane, the revision and selection storage, the node backend) carry
spec relations that say which answers each operation may give; the
library's contracts speak of what it hands to these operations and of what it
does with every answer they allow. An implementation that says nothing more
admits every answer, as the mocks in `tests/` do.
