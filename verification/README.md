# himalaya

The decisions of the himalaya e-mail command line, verified with Verus.

- `src/` is the verified library. Each command states which backend of an
  account serves it (`backend.rs`), and what it computes: the attachment
  listing and the download plan of a message (`attachments.rs`), safe file
  names and the choice of a free path for each download (`filename.rs`),
  human-readable sizes (`size.rs`), the SMTP envelope of a message to send
  and the text of a fetched one (`messages.rs`), flag requests
  (`flags.rs`), the account's settings (`account.rs`, `config.rs`), table
  drawing (`table.rs`) and the configuration wizard's defaults and results
  (`wizard.rs`). `text.rs` holds the string functions the others are
  specified with.
- Calls into `mail_parser`, `comfy_table`, `url`, `shellexpand`, `dirs`
  and `std::path` stand behind trusted wrappers, each documented with what
  its contract claims.
- `app/` is the unverified layer: command-line parsing, connections to the
  IMAP, JMAP, Maildir and SMTP backends, terminal output, file writes and
  the interactive wizard.
- `tests/` runs the library on concrete values.
