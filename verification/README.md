# busbar-admin

A human-facing CLI for the busbar gateway's admin API (`/api/v1/admin`), around a library that is
verified with Verus.

- `src/` is the library: what each command sends, how every view and request looks on the wire,
  what is made of the answers, and what is shown. Every function has a contract that Verus proves,
  and the public `law_…` proof functions state what holds of the library as a whole.
- `app/` is the command line, the files, the HTTP connection and the JSON text around it.
- `tests/` runs the library on concrete values.

## Modules of the library

| Module   | What it holds                                                                     |
| -------- | --------------------------------------------------------------------------------- |
| `argmap` | the three states of `allowed_pools`, and labels split at their first `=`          |
| `cli`    | the commands, from their arguments to a request and from the answer to a report   |
| `client` | the gateway connection, and the views and requests of the admin API               |
| `json`   | JSON documents as plain values                                                    |
| `labels` | the labels of a key, in key order                                                 |
| `place`  | places in a text, and where a fault of a document is told                       |
| `record` | values with named fields: which documents stand for them                          |
| `render` | the human-readable output                                                         |
| `text`   | numbers, columns, lists and durations                                             |
| `wire`   | how values are written as documents and read from them                            |

## What is trusted

The library calls `serde_json` for JSON text, `base64` for tarballs, `reqwest` for header values,
status texts, certificates and identities, and `std` for quoted strings. Each call stands in a small function marked
`external_body`, whose comment says what is believed of it.
