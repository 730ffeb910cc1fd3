# sn

`sn` is the logic of a command-line tool for ServiceNow, written and verified in
[Verus](https://github.com/verus-lang/verus), with a thin program around it.

The library decides; the program reads and sends. Every command comes down to values of
the library: which request goes out, what an answer means, what is asked next, what is
shown, and with which error and exit status a command ends. Work that goes back and forth
between the instance and a decision (paging, resolving a record, switching a scope,
writing variables, watching a table, waiting for a lock) is a state machine that takes one
answer at a time.

## Layout

| Place | Contents |
|---|---|
| `src/` | the verified library |
| `tests/` | tests of the library |
| `app/` | the program: arguments, files, HTTP, the terminal |

The modules of `src/`, by what they are about:

- ground: `text`, `order`, `named`, `json`, `request`, `error`, `flags`, `draft`
- profiles and files: `config`, `profile`, `prompts`, `init`, `store`, `auth`
- the connection: `client`, `builder`, `session`, `pages`, `transfer`, `staging`
- records: `query`, `table`, `record_ref`, `get_record`, `journal`, `streams`,
  `variables`, `attachment`, `open_record`, `body`
- documents: `graphql`, `gr`
- the instance: `schema`, `api`, `spelling`, `context`, `switch`, `user`, `ping`,
  `change`, `cmdb`, `scores`, `atf`, `progress`, `raw`
- watching: `watch`, `supervisor`, `history`
- the command line: `argv`, `introspect`, `output`

## How to read it

A contract says what a function returns for every input it takes, over models made of
`Seq`, `Map` and `int`. A text is its sequence of characters, a JSON value is a `Doc`, an
error is a `Fault`, a request is a `Call`. Public proof functions state what holds of
several functions together: that undoing a save gives back what was there, that a
reference reads back, that no header carries credentials, that a rotation of a watched
session opens no hole.

What the library has from other crates stands behind small functions marked
`external_body`, each with a comment on what is taken on trust: parsing and quoting of
JSON, maps of headers, the encoding of query parameters, the check of a proxy's address,
the reason phrases of HTTP, letter case, white space, the last part of a path and the
clock.
