# edvige

The verified core of the Edvige mail client: its data model, the IMAP line
grammar and client decisions, the SMTP dialogue and message builder, the records
exchanged with the background service, and the state and decisions of the
window and supervisor processes. Every function in `src/` carries a contract
that Verus proves.

## Layout

- `src/` — the library, verified by Verus.
  - `message`, `folder`, `account`, `outbox`, `mutation`, `attachment`, `ids` —
    the model: flags and their bit mask, folder roles, accounts, outgoing
    messages, queued server mutations, identifiers and instants.
  - `proto` — the service records and their conversions, with the laws that
    the account, mailbox and outgoing-message records read back give the model
    they were written from (`lemma_account_roundtrip`, `lemma_folder_roundtrip`,
    `lemma_outbox_roundtrip`), and that the enumerations survive the round trip
    both ways. The message summary, envelope and detail records are only
    written, as the service only sends them.
  - `imap/` — the response grammar (`parser`, `basic`), command text
    (`commands`), the command exchange and IDLE (`connection`), what the client
    learns from answers (`client`), folder and mutation synchronisation
    decisions (`sync`), and reading a fetched message (`mime`, over
    `mail-parser`).
  - `smtp/` — reply reading, the opening dialogue and mail transaction
    (`client`), the MIME builder (`builder`) and envelope recipients
    (`dispatcher`).
  - `gui/` — window state and its updates, composition, labels and date
    display, tray and notification texts, and the supervisor's decisions.
  - `daemon` — the decisions of the service's request handlers and the events
    it broadcasts.
  - `text`, `scan` — characters, strings, words and numbers.
- `tests/` — tests of the library.
- `app/` — the process around the library: the supervisor socket with its JSON
  messages, and the TCP connections that the IMAP and SMTP state machines drive.

Outside crates are called from `src/` only through small trusted wrappers, each
documenting what it assumes of the crate: `uuid`, `chrono`, `base64` and
`mail-parser`.
