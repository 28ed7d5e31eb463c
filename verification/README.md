# tuimail

A terminal e-mail client whose core is verified with Verus.

## Layout

- `src/` is the verified library. Every function in it has a contract that
  Verus checks:
  - `text`: UTF-8 widths, string helpers, line splitting and trimming.
  - `dictionary`, `spellcheck`: the word lists, word extraction, the
    spelling verdict, pattern corrections and suggestions.
  - `grammarcheck`, `async_grammar`: the grammar checker and the scheduling
    of delayed checks while a message is composed.
  - `email`, `mime`, `mime_parser`: addresses, the header table, threading
    headers, and the construction of a message and its attachments from
    the MIME structure that `mail-parser` reads.
  - `credentials`, `config`: password encoding for the file fallback, the
    storage requests for the keyring or files, and the account settings.
  - `display`: file sizes, byte and character positions, and the
    highlighted segments of composed text.
  - `sync`: the decisions of mailbox synchronisation (what to fetch, how
    fetched messages become e-mails, merging with the cache, IDLE
    reconnection).
  - `compose`, `editing`: replies, replies to all and forwards, the
    recipients of the `To` field, suggestion replacement, and the order of
    the attachment file browser.
  - `keys`: the key bindings as step functions from state and key to the
    next state and an action: the compose form (cursor editing, field
    cycling, checker switches, suggestion lists, attachments), the file
    browser (attaching and saving) and the message list with its settings
    and help screens.
  - `outgoing`: the message handed to the mail transport when sending.
- `app/` is the program around the library: argument handling, files, the
  keyring, the message cache (SQLite), IMAP and SMTP conversations, and the
  terminal interface. It performs the storage and network operations that
  the library describes and hands the results back to it.
- `tests/` runs the library on concrete values.
