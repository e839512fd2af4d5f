# salyut-admin

Root administration program for https://salyut.one. It provisions and repairs
accounts, manages the service set, and updates the Git repositories under
`/usr/local/src`.

```sh
salyut-admin user add rose \
  --signup-email rose@example.com \
  --recovery-email rose-recovery@example.net \
  'ssh-ed25519 AAAAC3NzaC1lZDI1NTE5AAAA... rose@example'
salyut-admin user repair rose
salyut-admin services health
salyut-admin update
```

## Layout

- `src/` is the library, verified with Verus. It decides what is done, in which
  order, and what is reported; it never touches the machine itself.
  - `cli` holds the commands; `users`, `provision`, `services` and
    `repositories` hold the operations.
  - `request`, `dialogue` and `script` are the exchange with the host, and the
    way in which an operation's behaviour is stated.
  - `path`, `text`, `process`, `failure` and `encoding` are what the operations
    are made of. `encoding` holds the only trusted functions.
  - `laws` states and proves what holds of the operations for all inputs and all
    replies: that a failed addition is taken back, that the password shown is the
    one that was set, that no operation touches another account, that nothing is
    built before everything is pulled.
- `app/` is the program: it parses the command line and does what the library
  asks for.
- `tests/` runs the library against hosts that exist in memory only.

## How an operation runs

An operation is given the replies received so far. It either ends, or stops with
the request that has to be answered next. The host answers that request, adds the
reply and calls the operation again from the start; replies already given lead it
to the same place, so every request is made once. That they do is one of the laws
(`laws::causality`).
