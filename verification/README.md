# bw-touchid-broker

A local HTTPS broker that hands narrowly scoped Bitwarden or Vaultwarden secrets
to remote agents. It runs on macOS, keeps the master password of a dedicated
agent account in the Keychain, and uses the `bw` program to fetch one item at a
time, after a signed request and a local approval.

The rules of the broker are a library that is verified with Verus. The library
does no input or output: where a file has to be read or a program has to be run,
one function says which, and another one takes what came back.

## Layout

| Where | What |
| --- | --- |
| `src/text.rs`, `src/textmap.rs`, `src/json.rs` | text, maps keyed by text, JSON values |
| `src/primitives.rs` | digest, HMAC, hexadecimal, base64, random bytes, the clock |
| `src/signing.rs`, `src/nonce.rs` | request signatures and replay protection |
| `src/config.rs`, `src/catalog.rs` | clients and their permissions, the catalog |
| `src/process.rs` | programs to be run and what became of them |
| `src/bw.rs`, `src/vault.rs` | calls of `bw`, and jobs that open and lock the vault |
| `src/keychain.rs`, `src/approval.rs`, `src/certs.rs`, `src/audit.rs` | the Keychain helper, the approval dialog, the certificate, the log |
| `src/fetch.rs`, `src/server.rs`, `src/exchange.rs` | one request from its headers to its answer |
| `src/cli.rs`, `src/command.rs` | the commands |
| `app/` | the `bw-broker` program: files, processes, the terminal and the network |
| `tests/` | whole runs against make-believe programs, and tests of each module |

## What is proved

The functions state their results exactly, with three exceptions. What rests on
the clock or on chance is stated for some reading or some bytes, beside a function
that takes them as an argument and is exact. What other crates compute at length
has a name that stands for it. And the place of a temporary file is left open for
key paths that name no ordinary file.

The `law_` functions state what holds of these functions together. The main ones
are in `src/exchange.rs`:

- a secret is given out only to a client whose signature is good and whose nonce
  is fresh, only as far as the catalog gives it to that client, and only with the
  consent of the user where that is called for;
- a client that may have a secret gets the fields of the item as the vault holds
  it;
- a request whose nonce was accepted is refused when it comes again while that
  nonce lives; and where nonces live at least twice as long as clocks may differ,
  and no time passes between the check of a signature and that of its nonce, for as
  long as its timestamp is good;
- trust spares the question to the user and nothing else.

Those in `src/vault.rs` say that a session that was opened is locked whatever
happens, and that no outcome says anything about the master password, the code of
a two-step login or the session key. One login method is left out there: with the
word `--code` itself as the method, a failed login shows the code.

## What is trusted

Other crates and the standard library are reached through a few items marked as
trusted, each with a comment that says what is claimed of it. They stand in
`src/text.rs`, `src/json.rs`, `src/primitives.rs`, `src/signing.rs`,
`src/server.rs` and `src/certs.rs`.
